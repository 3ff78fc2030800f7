//! Errors of peer discovery.
use vstd::prelude::*;

verus! {

#[derive(Debug, Clone, PartialEq, Eq)]
pub enum DiscoveryError {
    /// mDNS service daemon error.
    MdnsError(String),
    /// Failed to register mDNS service.
    ServiceRegistrationError(String),
    /// Failed to browse mDNS services.
    ServiceBrowseError(String),
    /// Invalid TXT record format.
    InvalidTxtRecord(String),
    /// Failed to parse pubkey from TXT record.
    PubkeyParseError,
}

} // verus!

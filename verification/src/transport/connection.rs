//! Physical transports a peer can be reached over.
use vstd::prelude::*;

verus! {

#[derive(Debug, Clone, Copy, PartialEq, Eq, Structural, Hash)]
pub enum TransportType {
    Ble,
    WifiDirect,
}

} // verus!

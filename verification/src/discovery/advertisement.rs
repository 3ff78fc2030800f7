//! What a node announces about itself over mDNS.
use vstd::prelude::*;

use crate::peer::identity::{hex_lower, lemma_hex_lower_ascii, lemma_hex_lower_len, PeerIdentity};
use crate::text::join_str;

verus! {

/// mDNS service type for StellarConduit peer discovery.
pub const MDNS_SERVICE_TYPE: &'static str = "_stellarconduit._tcp.local.";

/// The service registration of a node: its instance name, its host name and
/// its TXT properties as key/value pairs.
pub struct MdnsAdvertisement {
    pub service_name: String,
    pub host_name: String,
    pub properties: Vec<(String, String)>,
}

/// The instance name: `StellarConduit-` and the first 16 hexadecimal digits of the key.
pub open spec fn service_name_of(key: Seq<u8>) -> Seq<char> {
    "StellarConduit-"@ + hex_lower(key).take(16)
}

/// The registration announcing `identity`: the instance name built from the
/// first 16 digits of its key, the host `<instance>.local.`, and the TXT
/// properties `pubkey` (all 64 digits of the key) and `is_relay` (`1` or `0`).
pub fn advertisement_for(identity: &PeerIdentity, is_relay: bool) -> (ad: MdnsAdvertisement)
    ensures
        ad.service_name@ == service_name_of(identity.pubkey@),
        ad.host_name@ == service_name_of(identity.pubkey@) + ".local."@,
        ad.properties@.len() == 2,
        ad.properties@[0].0@ == "pubkey"@,
        ad.properties@[0].1@ == hex_lower(identity.pubkey@),
        ad.properties@[1].0@ == "is_relay"@,
        ad.properties@[1].1@ == (if is_relay {
            "1"@
        } else {
            "0"@
        }),
{
    let pubkey_hex = identity.display_id();
    proof {
        lemma_hex_lower_len(identity.pubkey@);
        lemma_hex_lower_ascii(identity.pubkey@);
    }
    let short_id = pubkey_hex.as_str().substring_ascii(0, 16);
    let service_name = join_str("StellarConduit-", short_id);
    let host_name = join_str(service_name.as_str(), ".local.");
    let is_relay_str = if is_relay {
        "1"
    } else {
        "0"
    };
    let mut properties: Vec<(String, String)> = Vec::new();
    properties.push((String::from_str("pubkey"), pubkey_hex));
    properties.push((String::from_str("is_relay"), String::from_str(is_relay_str)));
    MdnsAdvertisement { service_name, host_name, properties }
}

} // verus!

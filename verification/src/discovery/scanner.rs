//! What the scanner does with a resolved mDNS service.
use vstd::prelude::*;

use crate::discovery::errors::DiscoveryError;
use crate::discovery::events::DiscoveryEvent;
use crate::discovery::peer_list::{seen_at, seen_event, PeerList};
use crate::discovery::txt_record::{parse_pubkey_from_txt, record_bytes, txt_outcome};

verus! {

/// Handles a resolved service whose TXT records are `txt_props`, at `now`:
/// the public key is read from the records and the peer is recorded as seen
/// (mDNS reports no signal strength, so 0 is recorded). When the key cannot be
/// read, the table is left as it was and the reading error is returned.
pub fn handle_service_resolved_at(list: &mut PeerList, txt_props: &[&str], now: u64) -> (res: Result<DiscoveryEvent, DiscoveryError>)
    requires
        old(list).wf(),
    ensures
        final(list).wf(),
        final(list).expiry() == old(list).expiry(),
        match res {
            Ok(ev) => exists|pk: [u8; 32]|
                {
                    &&& txt_outcome(record_bytes(txt_props@), Ok(pk))
                    &&& final(list).entries() == #[trigger] seen_at(old(list).entries(), pk, now)
                    &&& ev == seen_event(old(list).entries(), pk, 0)
                },
            Err(e) => {
                &&& txt_outcome(record_bytes(txt_props@), Err(e))
                &&& final(list).entries() == old(list).entries()
            },
        },
{
    match parse_pubkey_from_txt(txt_props) {
        Ok(pubkey) => {
            let ev = list.insert_or_update_at(pubkey, 0, now);
            Ok(ev.unwrap())
        },
        Err(e) => Err(e),
    }
}

} // verus!

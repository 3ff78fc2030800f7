use stellarconduit_core::discovery::advertisement::advertisement_for;
use stellarconduit_core::discovery::errors::DiscoveryError;
use stellarconduit_core::discovery::events::DiscoveryEvent;
use stellarconduit_core::discovery::peer_list::PeerList;
use stellarconduit_core::discovery::scanner::handle_service_resolved_at;
use stellarconduit_core::discovery::txt_record::parse_pubkey_from_txt;
use stellarconduit_core::peer::identity::PeerIdentity;

fn pk(b: u8) -> [u8; 32] {
    [b; 32]
}

#[test]
fn parse_pubkey_from_valid_txt() {
    let identity = PeerIdentity::new(pk(0xAB));
    let txt_pubkey = format!("pubkey={}", identity.display_id());
    let txt_props = vec![txt_pubkey.as_str(), "is_relay=1"];

    let parsed = parse_pubkey_from_txt(&txt_props).unwrap();
    assert_eq!(parsed, pk(0xAB));
}

#[test]
fn parse_pubkey_rejects_missing_pubkey() {
    let txt_props = vec!["is_relay=1"];
    let result = parse_pubkey_from_txt(&txt_props);
    assert!(matches!(result, Err(DiscoveryError::InvalidTxtRecord(_))));
}

#[test]
fn parse_pubkey_rejects_malformed_hex() {
    let txt_props = vec!["pubkey=invalid_hex_string"];
    let result = parse_pubkey_from_txt(&txt_props);
    assert!(matches!(result, Err(DiscoveryError::InvalidTxtRecord(_))));
}

#[test]
fn parse_pubkey_rejects_wrong_length() {
    let txt_props = vec!["pubkey=abcd"]; // Too short
    let result = parse_pubkey_from_txt(&txt_props);
    assert!(matches!(result, Err(DiscoveryError::InvalidTxtRecord(_))));
}

#[test]
fn missing_record_message() {
    let result = parse_pubkey_from_txt(&["is_relay=0", "pubke=00"]);
    assert_eq!(
        result,
        Err(DiscoveryError::InvalidTxtRecord("Missing pubkey TXT record".to_string()))
    );
}

#[test]
fn wrong_length_message_counts_bytes() {
    let result = parse_pubkey_from_txt(&["pubkey=abcd"]);
    assert_eq!(
        result,
        Err(DiscoveryError::InvalidTxtRecord(
            "Pubkey hex string must be 64 characters, got 4".to_string()
        ))
    );
}

#[test]
fn bad_digit_is_reported_as_bad_byte() {
    let mut value = "00".repeat(31);
    value.push_str("zz");
    let record = format!("pubkey={}", value);
    match parse_pubkey_from_txt(&[record.as_str()]) {
        Err(DiscoveryError::InvalidTxtRecord(msg)) => assert!(msg.starts_with("Invalid hex byte: ")),
        other => panic!("unexpected {:?}", other),
    }
}

#[test]
fn split_character_is_reported_as_bad_text() {
    // 62 hex digits, then a two-byte character whose bytes fall into one pair
    // only after a one-byte shift: "0" + "é" + 61 digits = 64 bytes.
    let mut value = String::from("0é");
    value.push_str(&"0".repeat(61));
    assert_eq!(value.len(), 64);
    let record = format!("pubkey={}", value);
    match parse_pubkey_from_txt(&[record.as_str()]) {
        Err(DiscoveryError::InvalidTxtRecord(msg)) => {
            assert!(msg.starts_with("Invalid hex string: "))
        }
        other => panic!("unexpected {:?}", other),
    }
}

#[test]
fn uppercase_and_first_record_win() {
    let upper = format!("pubkey={}", "AB".repeat(32));
    let lower = format!("pubkey={}", "01".repeat(32));
    let parsed = parse_pubkey_from_txt(&["is_relay=1", upper.as_str(), lower.as_str()]).unwrap();
    assert_eq!(parsed, pk(0xAB));
}

#[test]
fn advertisement_round_trips_through_parse() {
    let mut key = [0u8; 32];
    for (i, b) in key.iter_mut().enumerate() {
        *b = (i as u8).wrapping_mul(37).wrapping_add(5);
    }
    let identity = PeerIdentity::new(key);
    let ad = advertisement_for(&identity, true);
    let records: Vec<String> = ad
        .properties
        .iter()
        .map(|(k, v)| format!("{}={}", k, v))
        .collect();
    let refs: Vec<&str> = records.iter().map(|s| s.as_str()).collect();
    assert_eq!(parse_pubkey_from_txt(&refs), Ok(key));
    assert_eq!(ad.properties[1], ("is_relay".to_string(), "1".to_string()));
    let hex = identity.display_id();
    assert_eq!(ad.service_name, format!("StellarConduit-{}", &hex[..16]));
    assert_eq!(ad.host_name, format!("StellarConduit-{}.local.", &hex[..16]));
}

#[test]
fn display_id_writes_each_byte_as_two_digits() {
    let mut key = [0u8; 32];
    key[0] = 0xAB;
    key[31] = 0x0F;
    let id = PeerIdentity::new(key).display_id();
    assert_eq!(id.len(), 64);
    assert!(id.starts_with("ab00"));
    assert!(id.ends_with("000f"));
}

#[test]
fn resolved_service_records_peer() {
    let mut list = PeerList::new(300);
    let record = format!("pubkey={}", PeerIdentity::new(pk(3)).display_id());
    let ev = handle_service_resolved_at(&mut list, &[record.as_str()], 500).unwrap();
    assert_eq!(ev, DiscoveryEvent::PeerDiscovered(PeerIdentity::new(pk(3))));
    assert_eq!(list.get_peer(&pk(3)).unwrap().last_seen_unix_sec, 500);

    let bad = handle_service_resolved_at(&mut list, &["is_relay=1"], 600);
    assert!(bad.is_err());
    assert_eq!(list.len(), 1);
    assert_eq!(list.get_peer(&pk(3)).unwrap().last_seen_unix_sec, 500);
}

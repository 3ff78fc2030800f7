//! Reading a peer's public key from its mDNS TXT records.
use vstd::prelude::*;
use vstd::string::StringSliceAdditionalSpecFns;
use vstd::utf8::{encode_utf8, encode_utf8_valid_utf8, is_ascii_chars, is_ascii_chars_encode_utf8};

use crate::discovery::errors::DiscoveryError;
use crate::peer::identity::{
    hex_digit_char, hex_lower, lemma_hex_lower_ascii, lemma_hex_lower_index, lemma_hex_lower_len,
};
use crate::text::{
    decimal, decimal_text, hex_digit_value, hex_digits_value, hex_u8_error_text, join_str,
    parse_hex_u8, radix16_u8, utf8_error_text, utf8_text,
};

verus! {

/// The bytes of `pubkey=`, the key of the record carrying the public key.
pub open spec fn pubkey_key() -> Seq<u8> {
    seq![112u8, 117u8, 98u8, 107u8, 101u8, 121u8, 61u8]
}

/// The record's bytes begin with `pubkey=`.
pub open spec fn is_pubkey_record(r: Seq<u8>) -> bool {
    r.len() >= 7 && r.take(7) == pubkey_key()
}

/// Record `i` is the first one carrying the public key.
pub open spec fn first_pubkey_record(recs: Seq<Seq<u8>>, i: int) -> bool {
    &&& 0 <= i < recs.len()
    &&& is_pubkey_record(recs[i])
    &&& forall|j: int| 0 <= j < i ==> !is_pubkey_record(recs[j])
}

/// The bytes of each record.
pub open spec fn record_bytes(txt_props: Seq<&str>) -> Seq<Seq<u8>> {
    txt_props.map_values(|s: &str| s.spec_bytes())
}

/// The two bytes encoding key byte `i` in the value.
pub open spec fn hex_pair(value: Seq<u8>, i: int) -> Seq<u8> {
    value.subrange(2 * i, 2 * i + 2)
}

/// The pair encoding key byte `i` decodes.
pub open spec fn pair_decodes(value: Seq<u8>, i: int) -> bool {
    vstd::utf8::valid_utf8(hex_pair(value, i)) && radix16_u8(hex_pair(value, i)) is Some
}

/// Every pair of a 64-byte value decodes.
pub open spec fn all_pairs_decode(value: Seq<u8>) -> bool {
    forall|j: int| 0 <= j < 32 ==> #[trigger] pair_decodes(value, j)
}

/// The 32 key bytes that the pairs of `value` encode.
pub open spec fn decoded_key(value: Seq<u8>) -> Seq<u8> {
    Seq::new(32, |j: int| radix16_u8(hex_pair(value, j))->Some_0)
}

/// Pair `i` is the first that does not decode.
pub open spec fn first_bad_pair(value: Seq<u8>, i: int) -> bool {
    &&& 0 <= i < 32
    &&& !pair_decodes(value, i)
    &&& forall|j: int| 0 <= j < i ==> pair_decodes(value, j)
}

/// The message when no record carries the public key.
pub open spec fn missing_record_msg() -> Seq<char> {
    "Missing pubkey TXT record"@
}

/// The start of the message for a value of the wrong length.
pub open spec fn wrong_length_msg() -> Seq<char> {
    "Pubkey hex string must be 64 characters, got "@
}

/// The start of the message for a pair that is not text.
pub open spec fn bad_text_msg() -> Seq<char> {
    "Invalid hex string: "@
}

/// The start of the message for a pair that is not a hexadecimal byte.
pub open spec fn bad_byte_msg() -> Seq<char> {
    "Invalid hex byte: "@
}

/// Copies the record bytes from `start` to the end.
fn tail_bytes(bytes: &[u8], start: usize) -> (tail: Vec<u8>)
    requires
        start <= bytes@.len(),
    ensures
        tail@ == bytes@.skip(start as int),
{
    let mut tail: Vec<u8> = Vec::new();
    let n = bytes.len();
    let mut i: usize = start;
    while i < n
        invariant
            n == bytes@.len(),
            start <= i <= n,
            tail@ == bytes@.subrange(start as int, i as int),
        decreases n - i,
    {
        tail.push(bytes[i]);
        i += 1;
        assert(tail@ =~= bytes@.subrange(start as int, i as int));
    }
    tail
}

/// Whether the bytes begin with `pubkey=`.
fn starts_with_pubkey_key(bytes: &[u8]) -> (b: bool)
    ensures
        b == is_pubkey_record(bytes@),
{
    if bytes.len() < 7 {
        return false;
    }
    let b = bytes[0] == 112 && bytes[1] == 117 && bytes[2] == 98 && bytes[3] == 107 && bytes[4]
        == 101 && bytes[5] == 121 && bytes[6] == 61;
    assert(b == (bytes@.take(7) =~= pubkey_key()));
    b
}

/// What reading the value of the public-key record gives: the key its pairs
/// encode when it is 64 bytes long and every pair decodes; otherwise the
/// error for the wrong length, or for the first pair that does not decode.
pub open spec fn value_outcome(value: Seq<u8>, res: Result<[u8; 32], DiscoveryError>) -> bool {
    match res {
        Ok(pk) => value.len() == 64 && all_pairs_decode(value) && pk@ == decoded_key(value),
        Err(DiscoveryError::InvalidTxtRecord(msg)) => {
            ||| (value.len() != 64 && msg@ == wrong_length_msg() + decimal_text(value.len()))
            ||| (value.len() == 64 && exists|j: int|
                #[trigger] first_bad_pair(value, j) && msg@ == if vstd::utf8::valid_utf8(
                    hex_pair(value, j),
                ) {
                    bad_byte_msg() + hex_u8_error_text(hex_pair(value, j))
                } else {
                    bad_text_msg() + utf8_error_text(hex_pair(value, j))
                })
        },
        Err(_) => false,
    }
}

/// What reading the records gives: the outcome for the value of the first
/// record that starts with `pubkey=`, or the missing-record error.
pub open spec fn txt_outcome(recs: Seq<Seq<u8>>, res: Result<[u8; 32], DiscoveryError>) -> bool {
    ||| {
        &&& forall|i: int| 0 <= i < recs.len() ==> !is_pubkey_record(#[trigger] recs[i])
        &&& res matches Err(DiscoveryError::InvalidTxtRecord(msg))
        &&& msg@ == missing_record_msg()
    }
    ||| exists|i: int| #[trigger] first_pubkey_record(recs, i) && value_outcome(recs[i].skip(7), res)
}

/// Parses the Ed25519 public key from TXT record properties (`key=value`
/// text). The first record starting with `pubkey=` must carry 64 bytes of
/// hexadecimal text, read two bytes per key byte.
pub fn parse_pubkey_from_txt(txt_props: &[&str]) -> (res: Result<[u8; 32], DiscoveryError>)
    ensures
        txt_outcome(record_bytes(txt_props@), res),
{
    let ghost recs = record_bytes(txt_props@);
    let n = txt_props.len();
    let mut i: usize = 0;
    while i < n
        invariant
            n == txt_props@.len(),
            recs == record_bytes(txt_props@),
            i <= n,
            forall|j: int| 0 <= j < i ==> !is_pubkey_record(#[trigger] recs[j]),
        decreases n - i,
    {
        let bytes = txt_props[i].as_bytes();
        if starts_with_pubkey_key(bytes) {
            assert(first_pubkey_record(recs, i as int));
            return parse_pubkey_value(bytes, Ghost(recs), Ghost(i as int));
        }
        i += 1;
    }
    Err(DiscoveryError::InvalidTxtRecord("Missing pubkey TXT record".to_owned()))
}

/// Decodes the value of the public-key record `bytes`, record `at` of `recs`.
fn parse_pubkey_value(bytes: &[u8], Ghost(recs): Ghost<Seq<Seq<u8>>>, Ghost(at): Ghost<int>) -> (res: Result<[u8; 32], DiscoveryError>)
    requires
        first_pubkey_record(recs, at),
        recs[at] == bytes@,
    ensures
        value_outcome(bytes@.skip(7), res),
{
    let value = tail_bytes(bytes, 7);
    if value.len() != 64 {
        let count = decimal(value.len());
        let msg = join_str("Pubkey hex string must be 64 characters, got ", count.as_str());
        return Err(DiscoveryError::InvalidTxtRecord(msg));
    }
    let mut pubkey = [0u8; 32];
    let mut k: usize = 0;
    while k < 32
        invariant
            value@.len() == 64,
            value@ == bytes@.skip(7),
            k <= 32,
            forall|j: int| 0 <= j < k ==> #[trigger] pair_decodes(value@, j),
            forall|j: int|
                0 <= j < k ==> #[trigger] pubkey@[j] == radix16_u8(hex_pair(value@, j))->Some_0,
        decreases 32 - k,
    {
        let pair = [value[2 * k], value[2 * k + 1]];
        assert(pair@ =~= hex_pair(value@, k as int));
        match utf8_text(pair.as_slice()) {
            Ok(text) => match parse_hex_u8(text) {
                Ok(b) => {
                    pubkey[k] = b;
                },
                Err(detail) => {
                    assert(first_bad_pair(value@, k as int));
                    let msg = join_str("Invalid hex byte: ", detail.as_str());
                    return Err(DiscoveryError::InvalidTxtRecord(msg));
                },
            },
            Err(detail) => {
                assert(first_bad_pair(value@, k as int));
                let msg = join_str("Invalid hex string: ", detail.as_str());
                return Err(DiscoveryError::InvalidTxtRecord(msg));
            },
        }
        k += 1;
    }
    assert(pubkey@ =~= decoded_key(value@));
    Ok(pubkey)
}

/// `text` is hexadecimal for `key`, with digits of either case: two ASCII
/// digits per byte, high nibble first.
pub open spec fn is_hex_of(key: Seq<u8>, text: Seq<char>) -> bool {
    &&& text.len() == 2 * key.len()
    &&& forall|j: int|
        0 <= j < text.len() ==> {
            &&& '\0' <= #[trigger] text[j] <= '\u{7f}'
            &&& hex_digit_value(text[j] as u8) == Some(
                if j % 2 == 0 {
                    key[j / 2] as int / 16
                } else {
                    key[j / 2] as int % 16
                },
            )
        }
}

/// The record text advertising `key`: `pubkey=` and the key's lowercase
/// hexadecimal digits.
pub open spec fn advertised_pubkey_record(key: Seq<u8>) -> Seq<char> {
    "pubkey="@ + hex_lower(key)
}

/// The lowercase hexadecimal of a key is hexadecimal for it.
pub proof fn lemma_hex_lower_is_hex_of(key: Seq<u8>)
    ensures
        is_hex_of(key, hex_lower(key)),
{
    let text = hex_lower(key);
    lemma_hex_lower_len(key);
    lemma_hex_lower_ascii(key);
    assert forall|j: int| 0 <= j < text.len() implies hex_digit_value(#[trigger] text[j] as u8)
        == Some(
        if j % 2 == 0 {
            key[j / 2] as int / 16
        } else {
            key[j / 2] as int % 16
        },
    ) by {
        lemma_hex_lower_index(key, j / 2);
        assert(j == 2 * (j / 2) || j == 2 * (j / 2) + 1);
        assert(hex_digit_value(hex_digit_char(key[j / 2] as int / 16) as u8) == Some(
            key[j / 2] as int / 16,
        ));
        assert(hex_digit_value(hex_digit_char(key[j / 2] as int % 16) as u8) == Some(
            key[j / 2] as int % 16,
        ));
    }
}

/// Two hexadecimal digit bytes read back as the byte they write.
proof fn lemma_digit_pair_reads_back(b1: u8, b2: u8, hi: int, lo: int)
    requires
        hex_digit_value(b1) == Some(hi),
        hex_digit_value(b2) == Some(lo),
        0 <= hi < 16,
        0 <= lo < 16,
    ensures
        radix16_u8(seq![b1, b2]) == Some((hi * 16 + lo) as u8),
{
    let pair = seq![b1, b2];
    let first = seq![b1];
    assert(first.drop_last() =~= Seq::<u8>::empty());
    assert(hex_digits_value(first.drop_last()) == Some(0int));
    assert(hex_digits_value(first) == Some(hi));
    assert(pair.drop_last() =~= first);
    assert(hex_digits_value(pair) == Some(hi * 16 + lo));
}

/// Hexadecimal text of a 32-byte key, as record bytes, is 64 bytes long; every
/// pair decodes, and the pairs give back the key.
pub proof fn lemma_hex_value_reads_back(key: Seq<u8>, text: Seq<char>)
    requires
        key.len() == 32,
        is_hex_of(key, text),
    ensures
        encode_utf8(text).len() == 64,
        all_pairs_decode(encode_utf8(text)),
        decoded_key(encode_utf8(text)) == key,
{
    assert(is_ascii_chars(text));
    is_ascii_chars_encode_utf8(text);
    let value = encode_utf8(text);
    assert forall|i: int| 0 <= i < 32 implies #[trigger] pair_decodes(value, i)
        && radix16_u8(hex_pair(value, i)) == Some(key[i]) by {
        let c1 = text[2 * i];
        let c2 = text[2 * i + 1];
        assert((2 * i) % 2 == 0 && (2 * i) / 2 == i);
        assert((2 * i + 1) % 2 == 1 && (2 * i + 1) / 2 == i);
        let pair_chars = seq![c1, c2];
        assert(is_ascii_chars(pair_chars));
        is_ascii_chars_encode_utf8(pair_chars);
        encode_utf8_valid_utf8(pair_chars);
        assert(hex_pair(value, i) =~= encode_utf8(pair_chars));
        assert(hex_pair(value, i) =~= seq![c1 as u8, c2 as u8]);
        lemma_digit_pair_reads_back(c1 as u8, c2 as u8, key[i] as int / 16, key[i] as int % 16);
    }
    assert forall|i: int| 0 <= i < 32 implies decoded_key(value)[i] == key[i] by {
        assert(pair_decodes(value, i));
    }
    assert(decoded_key(value) =~= key);
}

/// A record `pubkey=` followed by ASCII text is a public-key record whose
/// value is that text.
proof fn lemma_pubkey_record_bytes(text: Seq<char>)
    requires
        is_ascii_chars(text),
    ensures
        is_pubkey_record(encode_utf8("pubkey="@ + text)),
        encode_utf8("pubkey="@ + text).skip(7) == encode_utf8(text),
{
    reveal_strlit("pubkey=");
    let whole = "pubkey="@ + text;
    assert(is_ascii_chars(whole));
    is_ascii_chars_encode_utf8(whole);
    is_ascii_chars_encode_utf8(text);
    assert(encode_utf8(whole).take(7) =~= pubkey_key());
    assert(encode_utf8(whole).skip(7) =~= encode_utf8(text));
}

/// A public key reads back from its record: when the first record that starts
/// with `pubkey=` is `pubkey=` followed by hexadecimal for `key` (digits of
/// either case), reading the records gives `key`.
pub proof fn lemma_pubkey_record_read_back(
    key: Seq<u8>,
    text: Seq<char>,
    recs: Seq<Seq<u8>>,
    at: int,
    res: Result<[u8; 32], DiscoveryError>,
)
    requires
        key.len() == 32,
        is_hex_of(key, text),
        0 <= at < recs.len(),
        recs[at] == encode_utf8("pubkey="@ + text),
        forall|j: int| 0 <= j < at ==> !is_pubkey_record(#[trigger] recs[j]),
        txt_outcome(recs, res),
    ensures
        res matches Ok(pk) && pk@ == key,
{
    assert(is_ascii_chars(text));
    lemma_pubkey_record_bytes(text);
    lemma_hex_value_reads_back(key, text);
    assert(first_pubkey_record(recs, at));
    let value = recs[at].skip(7);
    assert forall|i: int| first_pubkey_record(recs, i) implies i == at by {
        if i < at {
            assert(!is_pubkey_record(recs[i]));
        } else if i > at {
            assert(!is_pubkey_record(recs[at]));
        }
    }
    assert(value_outcome(value, res));
    assert forall|j: int| !first_bad_pair(value, j) by {
        if 0 <= j < 32 {
            assert(pair_decodes(value, j));
        }
    }
}

/// A public key read back from its advertisement: when the first record that
/// starts with `pubkey=` is the one advertising `key`, reading the records
/// gives `key`.
pub proof fn lemma_advertised_key_read_back(
    key: Seq<u8>,
    recs: Seq<Seq<u8>>,
    at: int,
    res: Result<[u8; 32], DiscoveryError>,
)
    requires
        key.len() == 32,
        0 <= at < recs.len(),
        recs[at] == encode_utf8(advertised_pubkey_record(key)),
        forall|j: int| 0 <= j < at ==> !is_pubkey_record(#[trigger] recs[j]),
        txt_outcome(recs, res),
    ensures
        res matches Ok(pk) && pk@ == key,
{
    lemma_hex_lower_is_hex_of(key);
    lemma_pubkey_record_read_back(key, hex_lower(key), recs, at, res);
}

} // verus!

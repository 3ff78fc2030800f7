//! Identity of a mesh device.
use vstd::prelude::*;
use vstd::utf8::{encode_utf8, is_ascii_chars_encode_utf8};

use crate::text::{hex_decodable, hex_decoded, hex_digit_value};

verus! {

/// The lowercase hexadecimal digit for a value below 16.
pub open spec fn hex_digit_char(d: int) -> char {
    if d < 10 {
        (48 + d) as char
    } else {
        (87 + d) as char
    }
}

/// Lowercase hexadecimal text of `bytes`: two digits per byte, high nibble first.
pub open spec fn hex_lower(bytes: Seq<u8>) -> Seq<char>
    decreases bytes.len(),
{
    if bytes.len() == 0 {
        Seq::empty()
    } else {
        hex_lower(bytes.drop_last()) + seq![
            hex_digit_char(bytes.last() as int / 16),
            hex_digit_char(bytes.last() as int % 16),
        ]
    }
}

/// The text is two digits per byte.
pub proof fn lemma_hex_lower_len(bytes: Seq<u8>)
    ensures
        hex_lower(bytes).len() == 2 * bytes.len(),
    decreases bytes.len(),
{
    if bytes.len() > 0 {
        lemma_hex_lower_len(bytes.drop_last());
    }
}

/// Byte `i` is written by digits `2 * i` (high nibble) and `2 * i + 1` (low nibble).
pub proof fn lemma_hex_lower_index(bytes: Seq<u8>, i: int)
    requires
        0 <= i < bytes.len(),
    ensures
        hex_lower(bytes)[2 * i] == hex_digit_char(bytes[i] as int / 16),
        hex_lower(bytes)[2 * i + 1] == hex_digit_char(bytes[i] as int % 16),
    decreases bytes.len(),
{
    let prefix = bytes.drop_last();
    lemma_hex_lower_len(prefix);
    if i < bytes.len() - 1 {
        lemma_hex_lower_index(prefix, i);
        assert(prefix[i] == bytes[i]);
    }
}

/// The text is ASCII.
pub proof fn lemma_hex_lower_ascii(bytes: Seq<u8>)
    ensures
        vstd::utf8::is_ascii_chars(hex_lower(bytes)),
{
    let text = hex_lower(bytes);
    lemma_hex_lower_len(bytes);
    assert forall|j: int| 0 <= j < text.len() implies '\0' <= #[trigger] text[j] <= '\u{7f}' by {
        lemma_hex_lower_index(bytes, j / 2);
    }
}

/// A lowercase digit is the ASCII byte that reads back as its value.
proof fn lemma_hex_digit_reads_back(d: int)
    requires
        0 <= d < 16,
    ensures
        hex_digit_char(d) as u32 == hex_digit_char(d) as u8,
        hex_digit_value(hex_digit_char(d) as u8) == Some(d),
        hex_digit_char(d) as u8 != 120,
{
}

/// Hexadecimal text decodes back to the bytes it was written from.
pub proof fn lemma_hex_lower_decodes(bytes: Seq<u8>)
    ensures
        hex_decodable(encode_utf8(hex_lower(bytes))),
        hex_decoded(encode_utf8(hex_lower(bytes))) == bytes,
        encode_utf8(hex_lower(bytes)).len() == 2 * bytes.len(),
        bytes.len() > 0 ==> encode_utf8(hex_lower(bytes))[1] != 120,
{
    let text = hex_lower(bytes);
    lemma_hex_lower_len(bytes);
    lemma_hex_lower_ascii(bytes);
    is_ascii_chars_encode_utf8(text);
    let enc = encode_utf8(text);
    assert forall|j: int| 0 <= j < enc.len() implies #[trigger] hex_digit_value(enc[j]) is Some
        && (j % 2 == 0 ==> hex_digit_value(enc[j]) == Some(bytes[j / 2] as int / 16))
        && (j % 2 == 1 ==> hex_digit_value(enc[j]) == Some(bytes[j / 2] as int % 16))
        && enc[j] != 120 by {
        lemma_hex_lower_index(bytes, j / 2);
        lemma_hex_digit_reads_back(bytes[j / 2] as int / 16);
        lemma_hex_digit_reads_back(bytes[j / 2] as int % 16);
        assert(j == 2 * (j / 2) || j == 2 * (j / 2) + 1);
    }
    assert forall|i: int| 0 <= i < bytes.len() implies #[trigger] hex_decoded(enc)[i] == bytes[i] by {
        assert(hex_digit_value(enc[2 * i]) == Some(bytes[i] as int / 16));
        assert(hex_digit_value(enc[2 * i + 1]) == Some(bytes[i] as int % 16));
    }
    assert(hex_decoded(enc) =~= bytes);
    if bytes.len() > 0 {
        assert(hex_digit_value(enc[1]) is Some);
    }
}

/// Encodes bytes as lowercase hexadecimal (`hex::encode`): each byte becomes
/// two lowercase hex digits, high nibble first.
#[verifier::external_body]
fn hex_encode(bytes: &[u8; 32]) -> (text: String)
    ensures
        text@ == hex_lower(bytes@),
{
    hex::encode(bytes)
}

/// A peer is identified by its Ed25519 public key.
#[derive(Debug, Clone, Copy, PartialEq, Eq, Hash)]
pub struct PeerIdentity {
    pub pubkey: [u8; 32],
}

impl PeerIdentity {
    pub fn new(pubkey: [u8; 32]) -> (id: Self)
        ensures
            id.pubkey == pubkey,
    {
        PeerIdentity { pubkey }
    }

    /// The public key as 64 lowercase hexadecimal digits.
    pub fn display_id(&self) -> (text: String)
        ensures
            text@ == hex_lower(self.pubkey@),
    {
        hex_encode(&self.pubkey)
    }
}

} // verus!

//! Building and reading short texts.
use vstd::prelude::*;
use vstd::string::StringSliceAdditionalSpecFns;

verus! {

/// `a` followed by `b`.
pub fn join_str(a: &str, b: &str) -> (s: String)
    ensures
        s@ == a@ + b@,
{
    String::from_str(a).concat(b)
}

/// The decimal digits of `n`, most significant first, without leading zeros.
pub open spec fn decimal_text(n: nat) -> Seq<char>
    decreases n,
{
    if n < 10 {
        seq![(48 + n) as char]
    } else {
        decimal_text(n / 10).push((48 + n % 10) as char)
    }
}

/// The decimal digit `d` as text.
fn digit_text(d: usize) -> (s: String)
    requires
        d < 10,
    ensures
        s@ == seq![(48 + d) as char],
{
    let lit = match d {
        0 => "0",
        1 => "1",
        2 => "2",
        3 => "3",
        4 => "4",
        5 => "5",
        6 => "6",
        7 => "7",
        8 => "8",
        _ => "9",
    };
    proof {
        reveal_strlit("0");
        reveal_strlit("1");
        reveal_strlit("2");
        reveal_strlit("3");
        reveal_strlit("4");
        reveal_strlit("5");
        reveal_strlit("6");
        reveal_strlit("7");
        reveal_strlit("8");
        reveal_strlit("9");
    }
    assert(lit@ =~= seq![(48 + d) as char]);
    String::from_str(lit)
}

/// `n` written in decimal, most significant digit first.
pub(crate) fn decimal(n: usize) -> (s: String)
    ensures
        s@ == decimal_text(n as nat),
    decreases n,
{
    if n < 10 {
        digit_text(n)
    } else {
        let head = decimal(n / 10);
        let last = digit_text(n % 10);
        let s = head.concat(last.as_str());
        assert(s@ =~= decimal_text(n as nat));
        s
    }
}

/// The value of an ASCII hexadecimal digit (either case).
pub open spec fn hex_digit_value(b: u8) -> Option<int> {
    if 48 <= b <= 57 {
        Some(b - 48)
    } else if 97 <= b <= 102 {
        Some(b - 87)
    } else if 65 <= b <= 70 {
        Some(b - 55)
    } else {
        None
    }
}

/// The number written by hexadecimal digits, if they all are digits.
pub open spec fn hex_digits_value(ds: Seq<u8>) -> Option<int>
    decreases ds.len(),
{
    if ds.len() == 0 {
        Some(0)
    } else {
        match (hex_digits_value(ds.drop_last()), hex_digit_value(ds.last())) {
            (Some(v), Some(d)) => Some(v * 16 + d),
            _ => None,
        }
    }
}

/// What `u8::from_str_radix(text, 16)` yields for the text's bytes: an
/// optional `+` sign, then at least one hexadecimal digit, the value fitting
/// in a byte.
pub open spec fn radix16_u8(bytes: Seq<u8>) -> Option<u8> {
    let digits = if bytes.len() > 1 && bytes[0] == 43 {
        bytes.drop_first()
    } else {
        bytes
    };
    if digits.len() == 0 {
        None
    } else {
        match hex_digits_value(digits) {
            Some(v) => if v <= 255 {
                Some(v as u8)
            } else {
                None
            },
            None => None,
        }
    }
}

/// The description that `std::str::from_utf8` gives of why `bytes` are not
/// UTF-8 (the `Display` text of its error).
pub uninterp spec fn utf8_error_text(bytes: Seq<u8>) -> Seq<char>;

/// Reads `bytes` as UTF-8 text (`std::str::from_utf8`); on failure returns the
/// description of its error.
#[verifier::external_body]
pub(crate) fn utf8_text(bytes: &[u8]) -> (text: Result<&str, String>)
    ensures
        text is Ok <==> vstd::utf8::valid_utf8(bytes@),
        match text {
            Ok(t) => t.spec_bytes() == bytes@,
            Err(e) => e@ == utf8_error_text(bytes@),
        },
{
    std::str::from_utf8(bytes).map_err(|e| e.to_string())
}

/// The description that `u8::from_str_radix(text, 16)` gives of why the text
/// with bytes `bytes` is not a byte (the `Display` text of its error).
pub uninterp spec fn hex_u8_error_text(bytes: Seq<u8>) -> Seq<char>;

/// Parses a byte written in hexadecimal (`u8::from_str_radix(text, 16)`); on
/// failure returns the description of its error.
#[verifier::external_body]
pub(crate) fn parse_hex_u8(text: &str) -> (v: Result<u8, String>)
    ensures
        match v {
            Ok(b) => radix16_u8(text.spec_bytes()) == Some(b),
            Err(e) => radix16_u8(text.spec_bytes()) is None && e@ == hex_u8_error_text(
                text.spec_bytes(),
            ),
        },
{
    u8::from_str_radix(text, 16).map_err(|e| e.to_string())
}

/// Every byte is a hexadecimal digit and there is an even number of them.
pub open spec fn hex_decodable(bytes: Seq<u8>) -> bool {
    &&& bytes.len() % 2 == 0
    &&& forall|i: int| 0 <= i < bytes.len() ==> #[trigger] hex_digit_value(bytes[i]) is Some
}

/// The bytes written by pairs of hexadecimal digits, high nibble first.
pub open spec fn hex_decoded(bytes: Seq<u8>) -> Seq<u8> {
    Seq::new(
        bytes.len() / 2,
        |i: int|
            (hex_digit_value(bytes[2 * i])->0 * 16 + hex_digit_value(bytes[2 * i + 1])->0) as u8,
    )
}

/// The description that `hex::decode` gives of why `bytes` are not
/// hexadecimal (the `Display` text of its error).
pub uninterp spec fn hex_error_text(bytes: Seq<u8>) -> Seq<char>;

/// Decodes hexadecimal text (`hex::decode`): it succeeds when there is an even
/// number of bytes, each a hexadecimal digit of either case, and each pair
/// gives one byte, high nibble first; on failure returns the description of
/// its error.
#[verifier::external_body]
pub(crate) fn hex_decode(bytes: &[u8]) -> (res: Result<Vec<u8>, String>)
    ensures
        res is Ok <==> hex_decodable(bytes@),
        match res {
            Ok(v) => v@ == hex_decoded(bytes@),
            Err(e) => e@ == hex_error_text(bytes@),
        },
{
    hex::decode(bytes).map_err(|e| e.to_string())
}

} // verus!

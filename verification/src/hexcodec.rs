//! Hexadecimal text, as the `hex` crate writes and reads it.

use vstd::prelude::*;

verus! {

/// The lower-case hex digit for a value below 16.
pub open spec fn hex_digit(n: int) -> char {
    if n < 10 {
        ('0' as int + n) as char
    } else {
        ('a' as int + n - 10) as char
    }
}

/// Two lower-case hex digits per byte, high nibble first.
pub open spec fn hex_text(b: Seq<u8>) -> Seq<char> {
    Seq::new(
        2 * b.len(),
        |i: int|
            if i % 2 == 0 {
                hex_digit(b[i / 2] as int / 16)
            } else {
                hex_digit(b[i / 2] as int % 16)
            },
    )
}

/// The value of a hex digit byte (either case), or `None`.
pub open spec fn hex_value(c: u8) -> Option<int> {
    if 0x30 <= c <= 0x39 {
        Some(c - 0x30)
    } else if 0x61 <= c <= 0x66 {
        Some(c - 0x61 + 10)
    } else if 0x41 <= c <= 0x46 {
        Some(c - 0x41 + 10)
    } else {
        None
    }
}

/// Every byte of `s` is a hex digit.
pub open spec fn all_hex_digits(s: Seq<u8>) -> bool {
    forall|i: int| 0 <= i < s.len() ==> (#[trigger] hex_value(s[i])) is Some
}

/// The bytes that the hex text `s` (of even length, all digits) stands for.
pub open spec fn hex_bytes(s: Seq<u8>) -> Seq<u8> {
    Seq::new(
        s.len() / 2,
        |i: int| (hex_value(s[2 * i])->0 * 16 + hex_value(s[2 * i + 1])->0) as u8,
    )
}

/// Why hex text was refused.
#[derive(Clone, Copy, Debug, PartialEq, Eq, Structural)]
pub enum HexError {
    /// A byte that is no hex digit, and its position.
    InvalidHexCharacter { c: char, index: usize },
    /// The text has an odd number of bytes.
    OddLength,
}

/// `r` refuses `data` at its first byte that is no hex digit.
pub open spec fn first_bad_digit_reported(data: Seq<u8>, r: Result<Vec<u8>, HexError>) -> bool {
    match r {
        Err(HexError::InvalidHexCharacter { c, index }) => {
            &&& index < data.len()
            &&& hex_value(data[index as int]) is None
            &&& c == data[index as int] as char
            &&& forall|j: int| 0 <= j < index ==> (#[trigger] hex_value(data[j])) is Some
        },
        _ => false,
    }
}

/// `hex::encode`: the lower-case hex text of `data`.
#[verifier::external_body]
pub fn hex_encode(data: &[u8]) -> (r: String)
    ensures
        r@ == hex_text(data@),
{
    hex::encode(data)
}

/// `hex::decode`: the bytes that the hex text `data` stands for. It refuses
/// text of odd length, and otherwise names the first byte that is no digit.
#[verifier::external_body]
pub fn hex_decode(data: &[u8]) -> (r: Result<Vec<u8>, HexError>)
    ensures
        data@.len() % 2 == 1 ==> (r matches Err(HexError::OddLength)),
        data@.len() % 2 == 0 && all_hex_digits(data@) ==> (r is Ok && r.unwrap()@ == hex_bytes(data@)),
        data@.len() % 2 == 0 && !all_hex_digits(data@) ==> first_bad_digit_reported(data@, r),
{
    match hex::decode(data) {
        Ok(v) => Ok(v),
        Err(hex::FromHexError::InvalidHexCharacter { c, index }) => Err(
            HexError::InvalidHexCharacter { c, index },
        ),
        Err(hex::FromHexError::OddLength) => Err(HexError::OddLength),
        Err(hex::FromHexError::InvalidStringLength) => Err(HexError::OddLength),
    }
}

/// Reading back the hex text of some bytes gives those bytes.
pub proof fn lemma_hex_roundtrip(b: Seq<u8>)
    ensures
        hex_text(b).len() % 2 == 0,
        all_hex_digits(hex_ascii(b)),
        hex_bytes(hex_ascii(b)) == b,
{
    let t = hex_ascii(b);
    assert forall|i: int| 0 <= i < t.len() implies (#[trigger] hex_value(t[i])) is Some by {
        lemma_hex_digit_value(if i % 2 == 0 { b[i / 2] as int / 16 } else { b[i / 2] as int % 16 });
    }
    assert forall|i: int| 0 <= i < b.len() implies #[trigger] hex_bytes(t)[i] == b[i] by {
        lemma_hex_digit_value(b[i] as int / 16);
        lemma_hex_digit_value(b[i] as int % 16);
        assert(t[2 * i] == hex_digit(b[(2 * i) / 2] as int / 16) as u8);
        assert(t[2 * i + 1] == hex_digit(b[(2 * i + 1) / 2] as int % 16) as u8);
    }
    assert(hex_bytes(t) =~= b);
}

/// The bytes of the hex text of `b` (the text is ASCII).
pub open spec fn hex_ascii(b: Seq<u8>) -> Seq<u8> {
    hex_text(b).map_values(|c: char| c as u8)
}

/// A hex digit reads back as its value.
proof fn lemma_hex_digit_value(n: int)
    requires
        0 <= n < 16,
    ensures
        hex_value(hex_digit(n) as u8) == Some(n),
{
}

} // verus!

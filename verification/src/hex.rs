//! Bytes written as text, two hexadecimal digits each.
use rustc_serialize::hex::ToHex;
use vstd::prelude::*;

verus! {

/// The digit for a value below 16: `0` to `9`, then `a` to `f`.
pub open spec fn hex_digit(nibble: u8) -> char {
    if nibble < 10 {
        ((48 + nibble) as u8) as char
    } else {
        ((87 + nibble) as u8) as char
    }
}

/// The text of the bytes: for each byte in turn the digit of its upper half
/// and then the digit of its lower half.
pub open spec fn hex_of(bytes: Seq<u8>) -> Seq<char> {
    Seq::new(
        2 * bytes.len(),
        |i: int|
            if i % 2 == 0 {
                hex_digit(bytes[i / 2] / 16)
            } else {
                hex_digit(bytes[i / 2] % 16)
            },
    )
}

/// The bytes as lowercase hexadecimal text: `ToHex::to_hex` of the
/// `rustc_serialize` crate, which writes for each byte the digit of its
/// upper four bits and the digit of its lower four bits.
#[verifier::external_body]
pub(crate) fn to_hex<const N: usize>(bytes: &[u8; N]) -> (text: String)
    ensures
        text@ == hex_of(bytes@),
{
    bytes[..].to_hex()
}

/// The bytes as text: `0x`, then two lowercase hexadecimal digits for each
/// byte.
pub fn prefixed_hex<const N: usize>(bytes: &[u8; N]) -> (text: String)
    ensures
        text@ == "0x"@ + hex_of(bytes@),
{
    let digits = to_hex(bytes);
    let mut text = String::from_str("0x");
    text.append(digits.as_str());
    text
}

} // verus!

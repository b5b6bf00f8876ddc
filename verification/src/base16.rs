//! Hexadecimal text: what it decodes to and how bytes are written as digits.
//!
//! Decoding and encoding are done by the `hex` and `rustc-serialize` crates;
//! the contracts of the two calls are stated here over plain byte sequences.

use vstd::prelude::*;
use rustc_serialize::hex::ToHex;

verus! {

/// True for the ASCII bytes `0-9`, `a-f` and `A-F`.
pub open spec fn is_hex_digit(b: u8) -> bool {
    ||| 0x30 <= b <= 0x39
    ||| 0x41 <= b <= 0x46
    ||| 0x61 <= b <= 0x66
}

/// The value, from 0 to 15, of a hex digit.
pub open spec fn hex_digit_value(b: u8) -> int {
    if 0x30 <= b <= 0x39 {
        b - 0x30
    } else if 0x41 <= b <= 0x46 {
        b - 0x41 + 10
    } else {
        b - 0x61 + 10
    }
}

/// True when every byte of `s` is a hex digit.
pub open spec fn all_hex_digits(s: Seq<u8>) -> bool {
    forall|i: int| 0 <= i < s.len() ==> is_hex_digit(#[trigger] s[i])
}

/// The bytes that an even-length run of hex digits stands for: digit pair
/// `i` gives byte `i`, high nibble first.
pub open spec fn hex_decoded(s: Seq<u8>) -> Seq<u8> {
    Seq::new(
        s.len() / 2,
        |i: int| (16 * hex_digit_value(s[2 * i]) + hex_digit_value(s[2 * i + 1])) as u8,
    )
}

/// The lowercase hex digit that writes the nibble `n` (0 to 15).
pub open spec fn hex_digit_char(n: int) -> char {
    if n < 10 {
        (0x30 + n) as u8 as char
    } else {
        (0x61 + n - 10) as u8 as char
    }
}

/// The lowercase hex text of `bytes`: two digits per byte, high nibble first.
pub open spec fn hex_text(bytes: Seq<u8>) -> Seq<char> {
    Seq::new(
        2 * bytes.len(),
        |i: int|
            if i % 2 == 0 {
                hex_digit_char(bytes[i / 2] as int / 16)
            } else {
                hex_digit_char(bytes[i / 2] as int % 16)
            },
    )
}

/// The error type of `hex::decode`, carried through as it is.
#[verifier::external_type_specification]
#[verifier::external_body]
pub struct ExFromHexError(hex::FromHexError);

/// `hex::decode` on a byte slice. It succeeds exactly when the input has an
/// even number of bytes and all of them are hex digits of either case, and
/// then returns one byte per digit pair, high nibble first.
#[verifier::external_body]
pub(crate) fn decode(digits: &[u8]) -> (r: Result<Vec<u8>, hex::FromHexError>)
    ensures
        r is Ok <==> (digits@.len() % 2 == 0 && all_hex_digits(digits@)),
        r matches Ok(bytes) ==> bytes@ == hex_decoded(digits@),
{
    hex::decode(digits)
}

/// `ToHex::to_hex` of `rustc-serialize` on a byte slice: two lowercase hex
/// digits per byte, high nibble first.
#[verifier::external_body]
pub(crate) fn encode(bytes: &[u8]) -> (text: String)
    ensures
        text@ == hex_text(bytes@),
{
    bytes.to_hex()
}

} // verus!

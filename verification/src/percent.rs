//! Percent-decoding of path parameter values.

use vstd::prelude::*;
use vstd::utf8::{valid_utf8, encode_utf8, decode_utf8, encode_utf8_decode_utf8};
use crate::text::{bytes_of, string_from_utf8};

verus! {

/// Whether the byte is an ASCII hexadecimal digit.
pub open spec fn is_hex_digit(b: u8) -> bool {
    (48 <= b <= 57) || (65 <= b <= 70) || (97 <= b <= 102)
}

/// The numeric value of an ASCII hexadecimal digit.
pub open spec fn hex_val(b: u8) -> int {
    if 48 <= b <= 57 {
        b - 48
    } else if 65 <= b <= 70 {
        b - 55
    } else {
        b - 87
    }
}

/// Percent-decoding of a byte sequence: each `%` followed by two hex
/// digits becomes the byte they encode; every other byte passes through.
pub open spec fn pct_decode(s: Seq<u8>) -> Seq<u8>
    decreases s.len(),
{
    if s.len() == 0 {
        Seq::empty()
    } else if s[0] == 37 && s.len() >= 3 && is_hex_digit(s[1]) && is_hex_digit(s[2]) {
        seq![(hex_val(s[1]) * 16 + hex_val(s[2])) as u8] + pct_decode(s.skip(3))
    } else {
        seq![s[0]] + pct_decode(s.skip(1))
    }
}

/// Relies on `percent_encoding::percent_decode`: each `%` followed by two
/// hex digits (of either case) yields the encoded byte, and every other
/// byte passes through unchanged.
#[verifier::external_body]
fn percent_decode_bytes(s: &Vec<u8>) -> (r: Vec<u8>)
    ensures
        r@ == pct_decode(s@),
{
    percent_encoding::percent_decode(s.as_slice()).collect()
}

/// The characters of a percent-decoded value, or `None` when the decoded
/// bytes are not well-formed UTF-8.
pub open spec fn spec_decoded(v: Seq<char>) -> Option<Seq<char>> {
    if valid_utf8(pct_decode(encode_utf8(v))) {
        Some(decode_utf8(pct_decode(encode_utf8(v))))
    } else {
        None
    }
}

/// Percent-decodes a captured value and checks the result for UTF-8.
pub fn percent_decoded_str(s: &String) -> (r: Option<String>)
    ensures
        r is Some <==> spec_decoded(s@) is Some,
        r is Some ==> r->0@ == spec_decoded(s@)->0,
{
    let raw = bytes_of(s.as_str());
    let decoded = percent_decode_bytes(&raw);
    let ghost db = decoded@;
    match string_from_utf8(decoded) {
        Some(out) => {
            proof {
                encode_utf8_decode_utf8(out@);
            }
            Some(out)
        }
        None => None,
    }
}

} // verus!

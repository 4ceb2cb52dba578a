//! Hex decoding of 64-digit identifiers.
//!
//! Event ids and public keys travel on the wire as 64 hex characters and are
//! stored as 32-byte keys.  Decoding is defined twice, over character
//! sequences (for fields of a wire filter) and over byte sequences (for the
//! raw text of an inbound frame); both accept upper and lower case digits.

use vstd::prelude::*;
use crate::Key;

verus! {

/// Value of one hex digit, or -1 if the character is not a hex digit.
/// 48..57 are '0'..'9', 97..102 are 'a'..'f', 65..70 are 'A'..'F'.
pub open spec fn hex_digit_value(c: char) -> int {
    let v = c as int;
    if 48 <= v && v <= 57 {
        v - 48
    } else if 97 <= v && v <= 102 {
        v - 87
    } else if 65 <= v && v <= 70 {
        v - 55
    } else {
        -1
    }
}

/// A sequence of exactly 64 hex digits.
pub open spec fn is_hex64(s: Seq<char>) -> bool {
    s.len() == 64 && forall|i: int| 0 <= i < 64 ==> hex_digit_value(s[i]) >= 0
}

/// The 32 bytes named by 64 hex digits, two digits per byte, high digit first.
pub open spec fn hex_key(s: Seq<char>) -> Seq<u8> {
    Seq::new(32, |i: int| (hex_digit_value(s[2 * i]) * 16 + hex_digit_value(s[2 * i + 1])) as u8)
}

/// Value of one hex digit given as a byte of UTF-8 text, or -1.
pub open spec fn hex_digit_value_byte(b: u8) -> int {
    let v = b as int;
    if 48 <= v && v <= 57 {
        v - 48
    } else if 97 <= v && v <= 102 {
        v - 87
    } else if 65 <= v && v <= 70 {
        v - 55
    } else {
        -1
    }
}

/// A byte sequence of exactly 64 hex digits.
pub open spec fn is_hex64_bytes(s: Seq<u8>) -> bool {
    s.len() == 64 && forall|i: int| 0 <= i < 64 ==> hex_digit_value_byte(s[i]) >= 0
}

/// The 32 bytes named by 64 hex digit bytes.
pub open spec fn hex_key_bytes(s: Seq<u8>) -> Seq<u8> {
    Seq::new(
        32,
        |i: int| (hex_digit_value_byte(s[2 * i]) * 16 + hex_digit_value_byte(s[2 * i + 1])) as u8,
    )
}

/// Decode one hex digit character.
pub fn hex_digit(c: char) -> (r: Option<u8>)
    ensures
        r is Some ==> hex_digit_value(c) == r->0 as int,
        r is None ==> hex_digit_value(c) == -1,
{
    let v = c as u32;
    if 48 <= v && v <= 57 {
        Some((v - 48) as u8)
    } else if 97 <= v && v <= 102 {
        Some((v - 87) as u8)
    } else if 65 <= v && v <= 70 {
        Some((v - 55) as u8)
    } else {
        None
    }
}

/// Decode one hex digit byte.
pub fn hex_digit_byte(b: u8) -> (r: Option<u8>)
    ensures
        r is Some ==> hex_digit_value_byte(b) == r->0 as int,
        r is None ==> hex_digit_value_byte(b) == -1,
{
    if 48 <= b && b <= 57 {
        Some(b - 48)
    } else if 97 <= b && b <= 102 {
        Some(b - 87)
    } else if 65 <= b && b <= 70 {
        Some(b - 55)
    } else {
        None
    }
}

/// Decode a 64-character hex string into a 32-byte key.
///
/// Returns `Some` exactly when the string is 64 hex digits; any other length
/// or any non-digit character yields `None`, so a malformed wire entry can be
/// dropped individually.
pub fn decode_hex_key(s: &str) -> (r: Option<Key>)
    ensures
        r is Some ==> is_hex64(s@) && r->0@ == hex_key(s@),
        r is None ==> !is_hex64(s@),
{
    let n = s.unicode_len();
    if n != 64 {
        return None;
    }
    let mut out: Vec<u8> = Vec::new();
    let mut i: usize = 0;
    while i < 32
        invariant
            s@.len() == 64,
            i <= 32,
            out@.len() == i as int,
            forall|j: int| 0 <= j < 2 * i ==> hex_digit_value(s@[j]) >= 0,
            forall|j: int| 0 <= j < i ==> out@[j] == hex_key(s@)[j],
        decreases 32 - i,
    {
        let hi = s.get_char(2 * i);
        let lo = s.get_char(2 * i + 1);
        let hv = match hex_digit(hi) {
            Some(v) => v,
            None => { return None; },
        };
        let lv = match hex_digit(lo) {
            Some(v) => v,
            None => { return None; },
        };
        out.push(hv * 16 + lv);
        i = i + 1;
    }
    assert(out@ =~= hex_key(s@));
    Some(out)
}

/// Decode 64 bytes of hex text into a 32-byte key.
pub fn decode_hex_key_bytes(s: &[u8]) -> (r: Option<Key>)
    ensures
        r is Some ==> is_hex64_bytes(s@) && r->0@ == hex_key_bytes(s@),
        r is None ==> !is_hex64_bytes(s@),
{
    if s.len() != 64 {
        return None;
    }
    let mut out: Vec<u8> = Vec::new();
    let mut i: usize = 0;
    while i < 32
        invariant
            s@.len() == 64,
            i <= 32,
            out@.len() == i as int,
            forall|j: int| 0 <= j < 2 * i ==> hex_digit_value_byte(s@[j]) >= 0,
            forall|j: int| 0 <= j < i ==> out@[j] == hex_key_bytes(s@)[j],
        decreases 32 - i,
    {
        let hi = s[2 * i];
        let lo = s[2 * i + 1];
        let hv = match hex_digit_byte(hi) {
            Some(v) => v,
            None => { return None; },
        };
        let lv = match hex_digit_byte(lo) {
            Some(v) => v,
            None => { return None; },
        };
        out.push(hv * 16 + lv);
        i = i + 1;
    }
    assert(out@ =~= hex_key_bytes(s@));
    Some(out)
}

} // verus!

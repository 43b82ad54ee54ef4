//! Well-formed UTF-8, as the Unicode standard defines it (Table 3-7).
use vstd::prelude::*;

verus! {

/// Whether `b` is a continuation byte (0x80..=0xBF).
pub open spec fn is_cont(b: u8) -> bool {
    0x80 <= b <= 0xBF
}

/// Length of the well-formed UTF-8 sequence at the start of `s`, or 0 when
/// `s` does not start with one.
pub open spec fn utf8_char_len(s: Seq<u8>) -> int {
    let n = s.len();
    let b0 = s[0];
    if n == 0 {
        0
    } else if b0 <= 0x7F {
        1
    } else if 0xC2 <= b0 <= 0xDF {
        if n >= 2 && is_cont(s[1]) {
            2
        } else {
            0
        }
    } else if b0 == 0xE0 {
        if n >= 3 && 0xA0 <= s[1] <= 0xBF && is_cont(s[2]) {
            3
        } else {
            0
        }
    } else if (0xE1 <= b0 <= 0xEC) || (0xEE <= b0 <= 0xEF) {
        if n >= 3 && is_cont(s[1]) && is_cont(s[2]) {
            3
        } else {
            0
        }
    } else if b0 == 0xED {
        if n >= 3 && 0x80 <= s[1] <= 0x9F && is_cont(s[2]) {
            3
        } else {
            0
        }
    } else if b0 == 0xF0 {
        if n >= 4 && 0x90 <= s[1] <= 0xBF && is_cont(s[2]) && is_cont(s[3]) {
            4
        } else {
            0
        }
    } else if 0xF1 <= b0 <= 0xF3 {
        if n >= 4 && is_cont(s[1]) && is_cont(s[2]) && is_cont(s[3]) {
            4
        } else {
            0
        }
    } else if b0 == 0xF4 {
        if n >= 4 && 0x80 <= s[1] <= 0x8F && is_cont(s[2]) && is_cont(s[3]) {
            4
        } else {
            0
        }
    } else {
        0
    }
}

/// Whether `s` is a sequence of well-formed UTF-8 code unit sequences.
pub open spec fn utf8_valid(s: Seq<u8>) -> bool
    decreases s.len(),
{
    if s.len() == 0 {
        true
    } else {
        let k = utf8_char_len(s);
        k > 0 && utf8_valid(s.skip(k))
    }
}

/// Whether `bytes` is well-formed UTF-8, by `std::str::from_utf8`.
///
/// Trusted: `std::str::from_utf8` succeeds exactly on well-formed UTF-8,
/// which `utf8_valid` states per the Unicode standard's table of well-formed
/// byte sequences.
#[verifier::external_body]
pub(crate) fn is_valid_utf8(bytes: &[u8]) -> (r: bool)
    ensures
        r == utf8_valid(bytes@),
{
    std::str::from_utf8(bytes).is_ok()
}

} // verus!

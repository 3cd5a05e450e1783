//! Classification of numeric literal text.
//!
//! The checks mirror Rust's literal prefixes: `0x` followed by
//! nothing but hexadecimal digits, `0b` followed by nothing but
//! binary digits.

use vstd::prelude::*;
use vstd::string::*;

verus! {

/// Whether a character is an ASCII hexadecimal digit.
pub open spec fn spec_is_hex_digit_char(c: char) -> bool {
    ('0' <= c <= '9') || ('a' <= c <= 'f') || ('A' <= c <= 'F')
}

/// Whether a string is a hexadecimal literal: `0x` followed only by
/// hexadecimal digits.
pub open spec fn spec_is_hex(s: Seq<char>) -> bool {
    s.len() >= 2 && s[0] == '0' && s[1] == 'x' && (forall|i: int|
        2 <= i < s.len() ==> spec_is_hex_digit_char(s[i]))
}

/// Whether a string is a binary literal: `0b` followed only by the
/// digits `0` and `1`.
pub open spec fn spec_is_bin(s: Seq<char>) -> bool {
    s.len() >= 2 && s[0] == '0' && s[1] == 'b' && (forall|i: int|
        2 <= i < s.len() ==> (s[i] == '0' || s[i] == '1'))
}

/// Whether the string is a hexadecimal literal: `0x` followed only
/// by hexadecimal digits.
pub fn is_hex(string: &str) -> (r: bool)
    ensures
        r == spec_is_hex(string@),
{
    let n = string.unicode_len();
    if n < 2 {
        return false;
    }
    if string.get_char(0) != '0' || string.get_char(1) != 'x' {
        return false;
    }
    let mut i: usize = 2;
    while i < n
        invariant
            2 <= i <= n == string@.len(),
            forall|j: int| 2 <= j < i ==> spec_is_hex_digit_char(string@[j]),
        decreases n - i,
    {
        let c = string.get_char(i);
        let code = c as u32;
        let digit = (0x30 <= code && code <= 0x39) || (0x61 <= code && code <= 0x66) || (0x41
            <= code && code <= 0x46);
        if !digit {
            return false;
        }
        i = i + 1;
    }
    true
}

/// Whether the string is a binary literal: `0b` followed only by
/// the digits `0` and `1`.
pub fn is_bin(string: &str) -> (r: bool)
    ensures
        r == spec_is_bin(string@),
{
    let n = string.unicode_len();
    if n < 2 {
        return false;
    }
    if string.get_char(0) != '0' || string.get_char(1) != 'b' {
        return false;
    }
    let mut i: usize = 2;
    while i < n
        invariant
            2 <= i <= n == string@.len(),
            forall|j: int| 2 <= j < i ==> (string@[j] == '0' || string@[j] == '1'),
        decreases n - i,
    {
        let c = string.get_char(i);
        if c != '0' && c != '1' {
            return false;
        }
        i = i + 1;
    }
    true
}

} // verus!

//! ASCII text building for the crate's renderings.
//!
//! All strings this crate renders — escaped magic bytes, decimal and
//! hexadecimal numbers, error messages — are ASCII, so they are
//! modelled as byte sequences and turned into a `String` only at the
//! end, through [`ascii_to_string`].

use vstd::prelude::*;

verus! {

/// The characters of a sequence of ASCII bytes: each byte read as
/// the character with its code.
pub open spec fn ascii_seq(bytes: Seq<u8>) -> Seq<char> {
    bytes.map_values(|b: u8| b as char)
}

/// Relies on `String::from_utf8`: ASCII bytes are valid UTF-8 and
/// decode to the characters with their codes.
#[verifier::external_body]
pub(crate) fn ascii_to_string(bytes: &Vec<u8>) -> (r: String)
    requires
        forall|i: int| 0 <= i < bytes@.len() ==> bytes@[i] < 128,
    ensures
        r@ == ascii_seq(bytes@),
{
    String::from_utf8(bytes.clone()).unwrap()
}

/// Relies on `String::push`: appends exactly the one character.
#[verifier::external_body]
pub(crate) fn push_char(s: &mut String, c: char)
    ensures
        final(s)@ == old(s)@.push(c),
{
    s.push(c);
}

/// The name of what `String::from_utf8_lossy` returns on a byte
/// sequence: its result depends on the bytes alone.
pub uninterp spec fn lossy_chars(bytes: Seq<u8>) -> Seq<char>;

/// Relies on `String::from_utf8_lossy`: the result is a function of
/// the bytes, and ASCII bytes decode to the characters with their
/// codes.
#[verifier::external_body]
pub(crate) fn vec_to_string_lossy(bytes: &Vec<u8>) -> (r: String)
    ensures
        r@ == lossy_chars(bytes@),
        (forall|i: int| 0 <= i < bytes@.len() ==> bytes@[i] < 128) ==> r@ == ascii_seq(bytes@),
{
    String::from_utf8_lossy(bytes.as_slice()).into_owned()
}

/// Whether a byte is a graphic ASCII character: printable and not a
/// space.
pub open spec fn spec_is_graphic(b: u8) -> bool {
    0x21 <= b <= 0x7e
}

/// The lower-case hexadecimal digit for a value below sixteen.
pub open spec fn spec_hex_digit(d: u8) -> u8 {
    if d < 10 {
        (0x30 + d) as u8
    } else {
        (0x57 + d) as u8
    }
}

/// How `core::ascii::escape_default` renders one byte: the common
/// escapes keep their backslash form, printable ASCII stands for
/// itself, and everything else becomes `\xHH` with lower-case
/// digits.
pub open spec fn spec_escape_byte(b: u8) -> Seq<u8> {
    if b == 0x09 {  // \t
        seq![0x5c, 0x74]
    } else if b == 0x0d {  // \r
        seq![0x5c, 0x72]
    } else if b == 0x0a {  // \n
        seq![0x5c, 0x6e]
    } else if b == 0x5c {  // backslash
        seq![0x5c, 0x5c]
    } else if b == 0x27 {  // single quote
        seq![0x5c, 0x27]
    } else if b == 0x22 {  // double quote
        seq![0x5c, 0x22]
    } else if 0x20 <= b <= 0x7e {
        seq![b]
    } else {
        seq![0x5c, 0x78, spec_hex_digit(b / 16), spec_hex_digit(b % 16)]
    }
}

/// Every escaped rendering is ASCII.
pub proof fn lemma_escape_byte_ascii(b: u8)
    ensures
        forall|i: int| 0 <= i < spec_escape_byte(b).len() ==> spec_escape_byte(b)[i] < 128,
{
}

/// The decimal rendering of a value, most significant digit first,
/// no leading zeros.
pub open spec fn spec_dec_bytes(v: int) -> Seq<u8>
    decreases v,
{
    if v < 10 {
        seq![(0x30 + if v >= 0 {
            v
        } else {
            0
        }) as u8]
    } else {
        spec_dec_bytes(v / 10) + seq![(0x30 + v % 10) as u8]
    }
}

/// The lower-case hexadecimal rendering of a value, most significant
/// digit first, no leading zeros and no prefix.
pub open spec fn spec_hex_bytes(v: int) -> Seq<u8>
    decreases v,
{
    if v < 16 {
        spec_escape_hex_digit(v)
    } else {
        spec_hex_bytes(v / 16) + spec_escape_hex_digit(v % 16)
    }
}

/// The single hexadecimal digit of a value below sixteen.
pub open spec fn spec_escape_hex_digit(v: int) -> Seq<u8> {
    seq![spec_hex_digit((if 0 <= v < 16 {
        v
    } else {
        0
    }) as u8)]
}

pub proof fn lemma_dec_bytes_ascii(v: int)
    ensures
        forall|i: int| 0 <= i < spec_dec_bytes(v).len() ==> spec_dec_bytes(v)[i] < 128,
    decreases v,
{
    if v >= 10 {
        lemma_dec_bytes_ascii(v / 10);
        assert forall|i: int| 0 <= i < spec_dec_bytes(v).len() implies spec_dec_bytes(v)[i]
            < 128 by {
            if i < spec_dec_bytes(v / 10).len() {
                assert(spec_dec_bytes(v)[i] == spec_dec_bytes(v / 10)[i]);
            }
        }
    }
}

pub proof fn lemma_hex_bytes_ascii(v: int)
    ensures
        forall|i: int| 0 <= i < spec_hex_bytes(v).len() ==> spec_hex_bytes(v)[i] < 128,
    decreases v,
{
    if v >= 16 {
        lemma_hex_bytes_ascii(v / 16);
        assert forall|i: int| 0 <= i < spec_hex_bytes(v).len() implies spec_hex_bytes(v)[i]
            < 128 by {
            if i < spec_hex_bytes(v / 16).len() {
                assert(spec_hex_bytes(v)[i] == spec_hex_bytes(v / 16)[i]);
            }
        }
    }
}

/// Appends the decimal rendering of a value.
pub fn push_dec(out: &mut Vec<u8>, v: u64)
    ensures
        final(out)@ == old(out)@ + spec_dec_bytes(v as int),
    decreases v,
{
    if v < 10 {
        out.push(0x30 + v as u8);
        proof {
            assert(out@ =~= old(out)@ + spec_dec_bytes(v as int));
        }
    } else {
        push_dec(out, v / 10);
        out.push(0x30 + (v % 10) as u8);
        proof {
            assert(out@ =~= old(out)@ + spec_dec_bytes(v as int));
        }
    }
}

/// Appends the lower-case hexadecimal rendering of a value, without
/// a prefix.
pub fn push_hex(out: &mut Vec<u8>, v: u64)
    ensures
        final(out)@ == old(out)@ + spec_hex_bytes(v as int),
    decreases v,
{
    if v < 16 {
        out.push(if v < 10 {
            0x30 + v as u8
        } else {
            0x57 + v as u8
        });
        proof {
            assert(out@ =~= old(out)@ + spec_hex_bytes(v as int));
        }
    } else {
        push_hex(out, v / 16);
        out.push(if v % 16 < 10 {
            0x30 + (v % 16) as u8
        } else {
            0x57 + (v % 16) as u8
        });
        proof {
            assert(out@ =~= old(out)@ + spec_hex_bytes(v as int));
        }
    }
}

/// The decimal rendering of a value, as a string.
pub fn dec_string(v: u64) -> (r: String)
    ensures
        r@ == ascii_seq(spec_dec_bytes(v as int)),
{
    let mut out: Vec<u8> = Vec::new();
    push_dec(&mut out, v);
    proof {
        lemma_dec_bytes_ascii(v as int);
    }
    ascii_to_string(&out)
}

/// The lower-case hexadecimal rendering of a value, as a string,
/// without a prefix.
pub fn hex_string(v: u64) -> (r: String)
    ensures
        r@ == ascii_seq(spec_hex_bytes(v as int)),
{
    let mut out: Vec<u8> = Vec::new();
    push_hex(&mut out, v);
    proof {
        lemma_hex_bytes_ascii(v as int);
    }
    ascii_to_string(&out)
}

/// Whether a byte is a graphic ASCII character, at run time.
pub fn is_graphic(b: u8) -> (r: bool)
    ensures
        r == spec_is_graphic(b),
{
    0x21 <= b && b <= 0x7e
}

/// Appends the escaped rendering of one byte.
pub fn push_escape_byte(out: &mut Vec<u8>, b: u8)
    ensures
        final(out)@ == old(out)@ + spec_escape_byte(b),
{
    if b == 0x09 {
        out.push(0x5c);
        out.push(0x74);
    } else if b == 0x0d {
        out.push(0x5c);
        out.push(0x72);
    } else if b == 0x0a {
        out.push(0x5c);
        out.push(0x6e);
    } else if b == 0x5c {
        out.push(0x5c);
        out.push(0x5c);
    } else if b == 0x27 {
        out.push(0x5c);
        out.push(0x27);
    } else if b == 0x22 {
        out.push(0x5c);
        out.push(0x22);
    } else if 0x20 <= b && b <= 0x7e {
        out.push(b);
    } else {
        out.push(0x5c);
        out.push(0x78);
        out.push(if b / 16 < 10 {
            0x30 + b / 16
        } else {
            0x57 + b / 16
        });
        out.push(if b % 16 < 10 {
            0x30 + b % 16
        } else {
            0x57 + b % 16
        });
    }
    proof {
        assert(out@ =~= old(out)@ + spec_escape_byte(b));
    }
}

} // verus!

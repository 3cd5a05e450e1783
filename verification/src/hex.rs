//! A hex-literal text parser, used to write byte buffers by hand.
//!
//! The input is split into words on whitespace, with everything from
//! a semicolon to the end of its line dropped as a comment.  A word
//! starting with a dot is kept as its own bytes; a single quote
//! starts a literal whose quote is dropped; every other word must be
//! an even run of hexadecimal digit pairs, each pair one output
//! byte.  The first offending word stops the parse with an error
//! naming it.

use vstd::prelude::*;
use vstd::string::*;

use crate::text::{ascii_seq, dec_string, lossy_chars, spec_dec_bytes, vec_to_string_lossy};

verus! {

/// Whitespace that separates words.
pub open spec fn spec_is_space(b: u8) -> bool {
    b == 0x20 || b == 0x09 || b == 0x0a || b == 0x0b || b == 0x0c || b == 0x0d
}

/// Drops bytes up to, but not including, the next line break.
pub open spec fn spec_drop_line(s: Seq<u8>) -> Seq<u8>
    decreases s.len(),
{
    if s.len() == 0 {
        s
    } else if s[0] == 0x0a {
        s
    } else {
        spec_drop_line(s.drop_first())
    }
}

proof fn lemma_drop_line_len(s: Seq<u8>)
    ensures
        spec_drop_line(s).len() <= s.len(),
    decreases s.len(),
{
    if s.len() > 0 && s[0] != 0x0a {
        lemma_drop_line_len(s.drop_first());
    }
}

/// The input with every comment removed: a semicolon starts a
/// comment that runs to the end of its line.
pub open spec fn spec_strip_comments(s: Seq<u8>) -> Seq<u8>
    decreases s.len(),
    via spec_strip_comments_decreases
{
    if s.len() == 0 {
        Seq::empty()
    } else if s[0] == 0x3b {
        spec_strip_comments(spec_drop_line(s))
    } else {
        seq![s[0]] + spec_strip_comments(s.drop_first())
    }
}

#[via_fn]
proof fn spec_strip_comments_decreases(s: Seq<u8>) {
    if s.len() > 0 && s[0] == 0x3b {
        lemma_drop_line_len(s.drop_first());
    }
}

/// The longest non-whitespace prefix.
pub open spec fn spec_take_word(s: Seq<u8>) -> Seq<u8>
    decreases s.len(),
{
    if s.len() == 0 || spec_is_space(s[0]) {
        Seq::empty()
    } else {
        seq![s[0]] + spec_take_word(s.drop_first())
    }
}

proof fn lemma_take_word_len(s: Seq<u8>)
    requires
        s.len() > 0,
        !spec_is_space(s[0]),
    ensures
        1 <= spec_take_word(s).len() <= s.len(),
    decreases s.len(),
{
    if s.len() > 1 && !spec_is_space(s[1]) {
        lemma_take_word_len(s.drop_first());
    } else {
        assert(spec_take_word(s.drop_first()) =~= Seq::<u8>::empty());
    }
}

/// The words of the input: maximal non-whitespace runs, in order.
pub open spec fn spec_words(s: Seq<u8>) -> Seq<Seq<u8>>
    decreases s.len(),
    via spec_words_decreases
{
    if s.len() == 0 {
        Seq::empty()
    } else if spec_is_space(s[0]) {
        spec_words(s.drop_first())
    } else {
        seq![spec_take_word(s)] + spec_words(s.skip(spec_take_word(s).len() as int))
    }
}

#[via_fn]
proof fn spec_words_decreases(s: Seq<u8>) {
    if s.len() > 0 && !spec_is_space(s[0]) {
        lemma_take_word_len(s);
    }
}

/// Removes comments from a byte buffer: a semicolon starts a
/// comment that runs to the end of its line.
pub fn strip_comments(bytes: &[u8]) -> (r: Vec<u8>)
    ensures
        r@ == spec_strip_comments(bytes@),
{
    let n = bytes.len();
    let mut out: Vec<u8> = Vec::new();
    let mut i: usize = 0;
    proof {
        assert(bytes@.skip(0) =~= bytes@);
        assert(Seq::<u8>::empty() + spec_strip_comments(bytes@) =~= spec_strip_comments(bytes@));
    }
    while i < n
        invariant
            i <= n == bytes@.len(),
            spec_strip_comments(bytes@) == out@ + spec_strip_comments(bytes@.skip(i as int)),
        decreases n - i,
    {
        let b = bytes[i];
        if b == 0x3b {
            proof {
                assert(spec_strip_comments(bytes@.skip(i as int)) == spec_strip_comments(
                    spec_drop_line(bytes@.skip(i as int)),
                ));
                assert(bytes@.skip(i as int).drop_first() =~= bytes@.skip(i as int + 1));
            }
            i = i + 1;
            let ghost entry = i;
            while i < n && bytes[i] != 0x0a
                invariant
                    entry <= i,
                    i <= n == bytes@.len(),
                    spec_strip_comments(bytes@) == out@ + spec_strip_comments(
                        spec_drop_line(bytes@.skip(i as int)),
                    ),
                decreases n - i,
            {
                proof {
                    assert(bytes@.skip(i as int).drop_first() =~= bytes@.skip(i as int + 1));
                }
                i = i + 1;
            }
            proof {
                assert(spec_drop_line(bytes@.skip(i as int)) == bytes@.skip(i as int));
            }
        } else {
            proof {
                assert(bytes@.skip(i as int).drop_first() =~= bytes@.skip(i as int + 1));
            }
            out.push(b);
            i = i + 1;
            proof {
                assert(spec_strip_comments(bytes@) =~= out@ + spec_strip_comments(
                    bytes@.skip(i as int),
                ));
            }
        }
    }
    proof {
        assert(spec_strip_comments(bytes@.skip(n as int)) =~= Seq::<u8>::empty());
        assert(out@ =~= spec_strip_comments(bytes@));
    }
    out
}

/// A string up to, but not including, its first semicolon.
pub open spec fn spec_before_comment(s: Seq<char>) -> Seq<char>
    decreases s.len(),
{
    if s.len() == 0 {
        Seq::empty()
    } else if s[0] == ';' {
        Seq::empty()
    } else {
        seq![s[0]] + spec_before_comment(s.drop_first())
    }
}

/// The part of one line before its comment: everything up to the
/// first semicolon, or the whole string when there is none.
pub fn remove_comment(string: &str) -> (r: &str)
    ensures
        r@ == spec_before_comment(string@),
{
    let n = string.unicode_len();
    let mut i: usize = 0;
    proof {
        assert(string@.skip(0) =~= string@);
        assert(string@.take(0) + spec_before_comment(string@) =~= spec_before_comment(string@));
    }
    while i < n
        invariant
            i <= n == string@.len(),
            spec_before_comment(string@) == string@.take(i as int) + spec_before_comment(
                string@.skip(i as int),
            ),
        decreases n - i,
    {
        let c = string.get_char(i);
        if c == ';' {
            proof {
                assert(spec_before_comment(string@.skip(i as int)) =~= Seq::<char>::empty());
                assert(spec_before_comment(string@) =~= string@.take(i as int));
            }
            return string.substring_char(0, i);
        }
        proof {
            assert(string@.skip(i as int).drop_first() =~= string@.skip(i as int + 1));
            assert(string@.take(i as int) + seq![string@[i as int]] =~= string@.take(i as int + 1));
            assert(string@.take(i as int + 1) + spec_before_comment(string@.skip(i as int + 1))
                =~= string@.take(i as int) + spec_before_comment(string@.skip(i as int)));
        }
        i = i + 1;
    }
    proof {
        assert(spec_before_comment(string@.skip(n as int)) =~= Seq::<char>::empty());
        assert(spec_before_comment(string@) =~= string@);
    }
    string
}

/// A character with an ASCII lower-case letter raised to its upper
/// case.
pub open spec fn spec_upper_char(c: char) -> char {
    if 'a' <= c <= 'z' {
        ((c as u8) - 0x20) as char
    } else {
        c
    }
}

/// A string with its first character raised to ASCII upper case.
pub open spec fn spec_capitalized(s: Seq<char>) -> Seq<char> {
    if s.len() == 0 {
        Seq::empty()
    } else {
        seq![spec_upper_char(s[0])] + s.drop_first()
    }
}

/// The string with its first character raised to upper case, for
/// ASCII letters.
pub fn to_capitalized(string: &str) -> (r: String)
    ensures
        r@ == spec_capitalized(string@),
{
    let n = string.unicode_len();
    if n == 0 {
        let empty = String::new();
        proof {
            assert(empty@ =~= spec_capitalized(string@));
        }
        return empty;
    }
    let c = string.get_char(0);
    let code = c as u32;
    let upper: char = if 97 <= code && code <= 122 {
        ((c as u8) - 0x20) as char
    } else {
        c
    };
    let mut out = String::new();
    crate::text::push_char(&mut out, upper);
    out.append(string.substring_char(1, n));
    proof {
        assert(out@ =~= spec_capitalized(string@));
    }
    out
}

/// Whether a byte separates words, at run time.
fn is_space(b: u8) -> (r: bool)
    ensures
        r == spec_is_space(b),
{
    b == 0x20 || b == 0x09 || b == 0x0a || b == 0x0b || b == 0x0c || b == 0x0d
}

/// Splits a byte buffer into its words: maximal non-whitespace
/// runs, in order.
fn words_of(bytes: &[u8]) -> (r: Vec<Vec<u8>>)
    ensures
        r@.map_values(|w: Vec<u8>| w@) == spec_words(bytes@),
{
    let n = bytes.len();
    let mut ws: Vec<Vec<u8>> = Vec::new();
    let mut i: usize = 0;
    proof {
        assert(bytes@.skip(0) =~= bytes@);
        assert(ws@.map_values(|w: Vec<u8>| w@) + spec_words(bytes@) =~= spec_words(bytes@));
    }
    while i < n
        invariant
            i <= n == bytes@.len(),
            spec_words(bytes@) == ws@.map_values(|w: Vec<u8>| w@) + spec_words(
                bytes@.skip(i as int),
            ),
        decreases n - i,
    {
        if is_space(bytes[i]) {
            proof {
                assert(bytes@.skip(i as int).drop_first() =~= bytes@.skip(i as int + 1));
            }
            i = i + 1;
        } else {
            let ghost start_words = ws@.map_values(|w: Vec<u8>| w@);
            let start = i;
            let mut word: Vec<u8> = Vec::new();
            proof {
                assert(word@ =~= bytes@.subrange(start as int, start as int));
            }
            while i < n && !is_space(bytes[i])
                invariant
                    start <= i <= n == bytes@.len(),
                    start < n,
                    !spec_is_space(bytes@[start as int]),
                    word@ == bytes@.subrange(start as int, i as int),
                    spec_take_word(bytes@.skip(start as int)) == word@ + spec_take_word(
                        bytes@.skip(i as int),
                    ),
                decreases n - i,
            {
                proof {
                    assert(bytes@.skip(i as int).drop_first() =~= bytes@.skip(i as int + 1));
                }
                word.push(bytes[i]);
                i = i + 1;
                proof {
                    assert(word@ =~= bytes@.subrange(start as int, i as int));
                    assert(spec_take_word(bytes@.skip(start as int)) =~= word@ + spec_take_word(
                        bytes@.skip(i as int),
                    ));
                }
            }
            proof {
                assert(spec_take_word(bytes@.skip(i as int)) =~= Seq::<u8>::empty());
                assert(spec_take_word(bytes@.skip(start as int)) =~= word@);
                assert(bytes@.skip(start as int).skip(word@.len() as int) =~= bytes@.skip(
                    i as int,
                ));
            }
            ws.push(word);
            proof {
                assert(ws@.map_values(|w: Vec<u8>| w@) =~= start_words.push(
                    bytes@.subrange(start as int, i as int),
                ));
                assert(spec_words(bytes@) =~= ws@.map_values(|w: Vec<u8>| w@) + spec_words(
                    bytes@.skip(i as int),
                ));
            }
        }
    }
    proof {
        assert(spec_words(bytes@.skip(n as int)) =~= Seq::<Seq<u8>>::empty());
        assert(ws@.map_values(|w: Vec<u8>| w@) =~= spec_words(bytes@));
    }
    ws
}

/// The words of a string, comments removed: what the parser works
/// through, in order.
pub fn find_words(string: &str) -> (r: Vec<Vec<u8>>)
    ensures
        r@.map_values(|w: Vec<u8>| w@) == spec_words(spec_strip_comments(string.spec_bytes())),
{
    let bytes = string.as_bytes_vec();
    let stripped = strip_comments(bytes.as_slice());
    words_of(stripped.as_slice())
}

/// Why a word could not be split into chunks.
#[derive(Debug, Clone, PartialEq, Eq)]
pub enum ChunkError {
    /// The requested chunk size was zero.
    InvalidChunkSize,
    /// The word's length is no multiple of the chunk size.
    InvalidWordLength(Vec<u8>, usize),
}

/// Why an input could not be parsed as hex text.
#[derive(Debug, Clone, PartialEq, Eq)]
pub enum ParseHexError {
    /// The word named inside could not be split into digit pairs.
    ChunkError(ChunkError),
    /// The chunk named inside is no pair of hexadecimal digits.
    ParseError(Vec<u8>),
    /// A word of a single byte can be neither a literal nor a digit
    /// pair.
    InvalidWordLength(Vec<u8>),
}

impl ChunkError {
    /// One line saying why the word could not be chunked, quoting
    /// it.
    pub fn message(&self) -> (r: String)
        ensures
            match *self {
                ChunkError::InvalidChunkSize => r@ == "Chunk size must be greater than zero."@,
                ChunkError::InvalidWordLength(guilty, size) => r@
                    == "Word length must be a multiple of "@ + ascii_seq(
                    spec_dec_bytes(size as int),
                ) + " (\""@ + lossy_chars(guilty@) + "\")."@,
            },
    {
        match self {
            ChunkError::InvalidChunkSize => String::from_str(
                "Chunk size must be greater than zero.",
            ),
            ChunkError::InvalidWordLength(guilty, size) => {
                let mut out = String::from_str("Word length must be a multiple of ");
                let size_text = dec_string(*size as u64);
                out.append(size_text.as_str());
                out.append(" (\"");
                let word_text = vec_to_string_lossy(guilty);
                out.append(word_text.as_str());
                out.append("\").");
                out
            },
        }
    }
}

impl ParseHexError {
    /// One line saying why the parse stopped, quoting the offending
    /// word or chunk.
    pub fn message(&self) -> (r: String)
        ensures
            match *self {
                ParseHexError::ChunkError(inner) => r@ == (match inner {
                    ChunkError::InvalidChunkSize => "Chunk size must be greater than zero."@,
                    ChunkError::InvalidWordLength(guilty, size) => "Word length must be a multiple of "@
                        + ascii_seq(spec_dec_bytes(size as int)) + " (\""@ + lossy_chars(guilty@)
                        + "\")."@,
                }),
                ParseHexError::ParseError(guilty) => r@ == spec_capitalized(
                    "invalid digit found in string"@,
                ) + " (\""@ + lossy_chars(guilty@) + "\")."@,
                ParseHexError::InvalidWordLength(guilty) => r@ == "Word length must be even (\""@
                    + lossy_chars(guilty@) + "\")."@,
            },
    {
        match self {
            ParseHexError::ChunkError(inner) => inner.message(),
            ParseHexError::ParseError(guilty) => {
                let mut out = to_capitalized("invalid digit found in string");
                out.append(" (\"");
                let chunk_text = vec_to_string_lossy(guilty);
                out.append(chunk_text.as_str());
                out.append("\").");
                out
            },
            ParseHexError::InvalidWordLength(guilty) => {
                let mut out = String::from_str("Word length must be even (\"");
                let word_text = vec_to_string_lossy(guilty);
                out.append(word_text.as_str());
                out.append("\").");
                out
            },
        }
    }
}

/// The abstract reasons a parse fails, naming the offending bytes.
pub enum HexFault {
    /// A word of length one.
    OddWord(Seq<u8>),
    /// A word whose length is no multiple of two.
    UnevenWord(Seq<u8>),
    /// A chunk that is no pair of hexadecimal digits.
    BadDigits(Seq<u8>),
}

/// Whether an error value reports exactly the given fault.
pub open spec fn spec_fault_error(f: HexFault, e: ParseHexError) -> bool {
    match (f, e) {
        (HexFault::OddWord(w), ParseHexError::InvalidWordLength(v)) => v@ == w,
        (
            HexFault::UnevenWord(w),
            ParseHexError::ChunkError(ChunkError::InvalidWordLength(v, size)),
        ) => v@ == w && size == 2,
        (HexFault::BadDigits(c), ParseHexError::ParseError(v)) => v@ == c,
        _ => false,
    }
}

/// Whether a byte is a hexadecimal digit.
pub open spec fn spec_is_hex_digit(b: u8) -> bool {
    (0x30 <= b <= 0x39) || (0x61 <= b <= 0x66) || (0x41 <= b <= 0x46)
}

/// The value of a hexadecimal digit.
pub open spec fn spec_hex_val(b: u8) -> u8 {
    if 0x30 <= b <= 0x39 {
        (b - 0x30) as u8
    } else if 0x61 <= b <= 0x66 {
        (b - 0x57) as u8
    } else if 0x41 <= b <= 0x46 {
        (b - 0x37) as u8
    } else {
        0
    }
}

/// The bytes an even run of hexadecimal digits encodes, two digits a
/// byte, or the first chunk that is no such pair.
pub open spec fn spec_pairs(w: Seq<u8>) -> Result<Seq<u8>, HexFault>
    decreases w.len(),
{
    if w.len() < 2 {
        Ok(Seq::empty())
    } else if spec_is_hex_digit(w[0]) && spec_is_hex_digit(w[1]) {
        match spec_pairs(w.skip(2)) {
            Ok(rest) => Ok(seq![(spec_hex_val(w[0]) * 16 + spec_hex_val(w[1])) as u8] + rest),
            Err(f) => Err(f),
        }
    } else {
        Err(HexFault::BadDigits(w.take(2)))
    }
}

/// The bytes one word contributes to the output, or the fault it
/// raises: a lone byte is refused, a word after a dot stands for its
/// own bytes, a word after a single quote for its bytes without the
/// quote, and anything else must be an even run of hexadecimal
/// digit pairs.
pub open spec fn spec_word_bytes(w: Seq<u8>) -> Result<Seq<u8>, HexFault> {
    if w.len() == 1 {
        Err(HexFault::OddWord(w))
    } else if w.len() > 0 && w[0] == 0x2e {
        Ok(w)
    } else if w.len() > 0 && w[0] == 0x27 {
        Ok(w.drop_first())
    } else if w.len() % 2 != 0 {
        Err(HexFault::UnevenWord(w))
    } else {
        spec_pairs(w)
    }
}

/// The output of a word list: each word's bytes in order, stopped by
/// the first fault.
pub open spec fn spec_fold_words(ws: Seq<Seq<u8>>) -> Result<Seq<u8>, HexFault>
    decreases ws.len(),
{
    if ws.len() == 0 {
        Ok(Seq::empty())
    } else {
        match spec_word_bytes(ws[0]) {
            Err(f) => Err(f),
            Ok(bs) => match spec_fold_words(ws.drop_first()) {
                Err(f) => Err(f),
                Ok(rest) => Ok(bs + rest),
            },
        }
    }
}

/// What parsing an input yields: the bytes of its words after
/// comment removal, or the first fault.
pub open spec fn spec_parse_hex(s: Seq<u8>) -> Result<Seq<u8>, HexFault> {
    spec_fold_words(spec_words(spec_strip_comments(s)))
}

/// Copies a word's bytes from `from` on.
fn copy_bytes(src: &Vec<u8>, from: usize) -> (r: Vec<u8>)
    requires
        from <= src@.len(),
    ensures
        r@ == src@.skip(from as int),
{
    let mut out: Vec<u8> = Vec::new();
    let mut i = from;
    while i < src.len()
        invariant
            from <= i <= src@.len(),
            out@ == src@.subrange(from as int, i as int),
        decreases src@.len() - i,
    {
        out.push(src[i]);
        i = i + 1;
        proof {
            assert(out@ =~= src@.subrange(from as int, i as int));
        }
    }
    proof {
        assert(out@ =~= src@.skip(from as int));
    }
    out
}

/// Appends a word's bytes from `from` on.
fn append_bytes(buffer: &mut Vec<u8>, src: &Vec<u8>, from: usize)
    requires
        from <= src@.len(),
    ensures
        final(buffer)@ == old(buffer)@ + src@.skip(from as int),
{
    let mut i = from;
    while i < src.len()
        invariant
            from <= i <= src@.len(),
            buffer@ == old(buffer)@ + src@.subrange(from as int, i as int),
        decreases src@.len() - i,
    {
        buffer.push(src[i]);
        i = i + 1;
        proof {
            assert(buffer@ =~= old(buffer)@ + src@.subrange(from as int, i as int));
        }
    }
    proof {
        assert(buffer@ =~= old(buffer)@ + src@.skip(from as int));
    }
}

/// Appends what one word encodes, or reports its fault.
fn push_word(buffer: &mut Vec<u8>, word: &Vec<u8>) -> (r: Result<(), ParseHexError>)
    ensures
        match spec_word_bytes(word@) {
            Ok(bs) => r is Ok && final(buffer)@ == old(buffer)@ + bs,
            Err(f) => r matches Err(e) && spec_fault_error(f, e),
        },
{
    let len = word.len();
    if len == 1 {
        let guilty = copy_bytes(word, 0);
        proof {
            assert(guilty@ =~= word@);
        }
        return Err(ParseHexError::InvalidWordLength(guilty));
    }
    if len > 0 && word[0] == 0x2e {
        append_bytes(buffer, word, 0);
        proof {
            assert(word@.skip(0) =~= word@);
        }
        return Ok(());
    }
    if len > 0 && word[0] == 0x27 {
        append_bytes(buffer, word, 1);
        proof {
            assert(word@.skip(1) =~= word@.drop_first());
        }
        return Ok(());
    }
    if len % 2 != 0 {
        let guilty = copy_bytes(word, 0);
        proof {
            assert(guilty@ =~= word@);
        }
        return Err(ParseHexError::ChunkError(ChunkError::InvalidWordLength(guilty, 2)));
    }
    let ghost mut added: Seq<u8> = Seq::empty();
    let mut k: usize = 0;
    proof {
        assert(word@.skip(0) =~= word@);
        assert(buffer@ =~= old(buffer)@ + added);
    }
    while k < len
        invariant
            k <= len == word@.len(),
            k % 2 == 0,
            len % 2 == 0,
            spec_word_bytes(word@) == spec_pairs(word@),
            buffer@ == old(buffer)@ + added,
            spec_pairs(word@) == (match spec_pairs(word@.skip(k as int)) {
                Ok(rest) => Ok::<Seq<u8>, HexFault>(added + rest),
                Err(f) => Err::<Seq<u8>, HexFault>(f),
            }),
        decreases len - k,
    {
        let hi = word[k];
        let lo = word[k + 1];
        let ghost tail = word@.skip(k as int);
        proof {
            assert(tail.len() >= 2);
            assert(tail[0] == word@[k as int]);
            assert(tail[1] == word@[k as int + 1]);
            assert(tail.skip(2) =~= word@.skip(k as int + 2));
        }
        let hi_ok = (0x30 <= hi && hi <= 0x39) || (0x61 <= hi && hi <= 0x66) || (0x41 <= hi && hi
            <= 0x46);
        let lo_ok = (0x30 <= lo && lo <= 0x39) || (0x61 <= lo && lo <= 0x66) || (0x41 <= lo && lo
            <= 0x46);
        if !(hi_ok && lo_ok) {
            let mut guilty: Vec<u8> = Vec::new();
            guilty.push(hi);
            guilty.push(lo);
            proof {
                assert(guilty@ =~= tail.take(2));
                assert(spec_pairs(tail) == Err::<Seq<u8>, HexFault>(
                    HexFault::BadDigits(tail.take(2)),
                ));
            }
            return Err(ParseHexError::ParseError(guilty));
        }
        let hv = if hi <= 0x39 {
            hi - 0x30
        } else if hi >= 0x61 {
            hi - 0x57
        } else {
            hi - 0x37
        };
        let lv = if lo <= 0x39 {
            lo - 0x30
        } else if lo >= 0x61 {
            lo - 0x57
        } else {
            lo - 0x37
        };
        let value = hv * 16 + lv;
        buffer.push(value);
        proof {
            let added0 = added;
            added = added.push(value);
            assert(added =~= added0 + seq![value]);
            assert(buffer@ =~= old(buffer)@ + added);
            assert(spec_pairs(tail) == (match spec_pairs(word@.skip(k as int + 2)) {
                Ok(rest) => Ok::<Seq<u8>, HexFault>(seq![value] + rest),
                Err(f) => Err::<Seq<u8>, HexFault>(f),
            }));
            if spec_pairs(word@.skip(k as int + 2)) is Ok {
                let rest = spec_pairs(word@.skip(k as int + 2))->Ok_0;
                assert(added0 + (seq![value] + rest) =~= added + rest);
            }
        }
        k = k + 2;
    }
    proof {
        assert(word@.skip(len as int).len() == 0);
        assert(added + Seq::<u8>::empty() =~= added);
    }
    Ok(())
}

/// Parses hex text into the bytes it spells out.
///
/// Words are separated by whitespace, comments run from a semicolon
/// to the end of the line, a leading dot keeps the word's own bytes,
/// a leading single quote keeps the rest of the word, and every
/// other word must be an even run of hexadecimal digit pairs.  The
/// first offending word stops the parse, and the error names it.
pub fn parse_hex(string: &str) -> (r: Result<Vec<u8>, ParseHexError>)
    ensures
        match spec_parse_hex(string.spec_bytes()) {
            Ok(bs) => r matches Ok(v) && v@ == bs,
            Err(f) => r matches Err(e) && spec_fault_error(f, e),
        },
{
    let ws = find_words(string);
    let ghost words_spec = spec_words(spec_strip_comments(string.spec_bytes()));
    let mut buffer: Vec<u8> = Vec::new();
    let mut wi: usize = 0;
    proof {
        assert(words_spec.skip(0) =~= words_spec);
    }
    while wi < ws.len()
        invariant
            wi <= ws@.len(),
            words_spec == spec_words(spec_strip_comments(string.spec_bytes())),
            words_spec == ws@.map_values(|w: Vec<u8>| w@),
            spec_fold_words(words_spec) == (match spec_fold_words(words_spec.skip(wi as int)) {
                Ok(rest) => Ok::<Seq<u8>, HexFault>(buffer@ + rest),
                Err(f) => Err::<Seq<u8>, HexFault>(f),
            }),
        decreases ws@.len() - wi,
    {
        let ghost tail = words_spec.skip(wi as int);
        proof {
            assert(tail[0] == words_spec[wi as int]);
            assert(words_spec[wi as int] == ws@[wi as int]@);
            assert(tail.drop_first() =~= words_spec.skip(wi as int + 1));
        }
        let word = &ws[wi];
        let ghost before = buffer@;
        match push_word(&mut buffer, word) {
            Ok(_) => {},
            Err(e) => {
                proof {
                    assert(words_spec.len() == ws@.len());
                    assert(tail.len() > 0);
                    assert(tail[0] == word@);
                    assert(spec_word_bytes(word@) is Err);
                    assert(spec_fold_words(tail) == spec_word_bytes(word@));
                    assert(spec_fold_words(words_spec) == spec_fold_words(tail));
                    assert(spec_parse_hex(string.spec_bytes()) == spec_fold_words(words_spec));
                }
                return Err(e);
            },
        }
        wi = wi + 1;
        proof {
            let bs = spec_word_bytes(word@)->Ok_0;
            assert(buffer@ =~= before + bs);
            if spec_fold_words(words_spec.skip(wi as int)) is Ok {
                let rest = spec_fold_words(words_spec.skip(wi as int))->Ok_0;
                assert(buffer@ + rest =~= before + (bs + rest));
            }
        }
    }
    proof {
        assert(buffer@ + Seq::<u8>::empty() =~= buffer@);
    }
    Ok(buffer)
}

} // verus!

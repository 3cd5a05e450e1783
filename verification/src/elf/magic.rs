//! Rendering of the four magic bytes.
//!
//! The magic number is shown as escaped ASCII: runs of printable
//! bytes are grouped, every other byte stands alone as `\xHH`, the
//! groups are separated by single spaces, and nothing leads the
//! first group.  `7F 45 4C 46` renders as `\x7f ELF`.

use vstd::prelude::*;

use crate::text::{
    ascii_seq, ascii_to_string, is_graphic, lemma_escape_byte_ascii, push_escape_byte,
    spec_escape_byte, spec_is_graphic,
};

use super::identification::ElfIdentification;
use super::types::ElfType;

verus! {

/// The rendering of the bytes of `b` from index `i` on: each byte
/// escaped, a single space before it when it or its predecessor is
/// not graphic.
pub open spec fn spec_render_from(b: Seq<u8>, i: int) -> Seq<u8>
    decreases b.len() - i,
{
    if i < 0 || i >= b.len() {
        Seq::empty()
    } else {
        let sep: Seq<u8> = if i > 0 && (!spec_is_graphic(b[i - 1]) || !spec_is_graphic(b[i])) {
            seq![0x20]
        } else {
            Seq::empty()
        };
        sep + spec_escape_byte(b[i]) + spec_render_from(b, i + 1)
    }
}

/// The escaped-ASCII rendering of a byte sequence, as bytes.
pub open spec fn spec_magic_render(b: Seq<u8>) -> Seq<u8> {
    spec_render_from(b, 0)
}

/// The four magic bytes, kept for rendering.
#[derive(Debug, Clone, Copy, PartialEq, Eq)]
pub struct Magic(pub [u8; 4]);

impl From<[u8; 4]> for Magic {
    fn from(value: [u8; 4]) -> (r: Self) {
        Magic(value)
    }
}

impl vstd::std_specs::convert::FromSpecImpl<[u8; 4]> for Magic {
    open spec fn obeys_from_spec() -> bool {
        true
    }

    open spec fn from_spec(value: [u8; 4]) -> Self {
        Magic(value)
    }
}

impl Magic {
    /// Reads the magic bytes out of an identification block.
    pub fn from_identification<T: ElfType>(identification: &ElfIdentification<T>) -> (r: Self)
        ensures
            r.0@ == seq![
                identification.ei_mag0,
                identification.ei_mag1,
                identification.ei_mag2,
                identification.ei_mag3,
            ],
    {
        let r = Magic(
            [
                identification.ei_mag0,
                identification.ei_mag1,
                identification.ei_mag2,
                identification.ei_mag3,
            ],
        );
        proof {
            assert(r.0@ =~= seq![
                identification.ei_mag0,
                identification.ei_mag1,
                identification.ei_mag2,
                identification.ei_mag3,
            ]);
        }
        r
    }

    /// Renders the magic bytes as escaped ASCII, printable runs
    /// grouped and separated by single spaces.
    pub fn render(&self) -> (s: String)
        ensures
            s@ == ascii_seq(spec_magic_render(self.0@)),
    {
        let mut out: Vec<u8> = Vec::new();
        let mut i: usize = 0;
        while i < 4
            invariant
                i <= 4,
                self.0@.len() == 4,
                spec_magic_render(self.0@) == out@ + spec_render_from(self.0@, i as int),
                forall|j: int| 0 <= j < out@.len() ==> out@[j] < 128,
            decreases 4 - i,
        {
            let b = self.0[i];
            if i > 0 && (!is_graphic(self.0[i - 1]) || !is_graphic(b)) {
                out.push(0x20);
            }
            proof {
                lemma_escape_byte_ascii(b);
            }
            push_escape_byte(&mut out, b);
            i = i + 1;
            proof {
                assert(spec_magic_render(self.0@) =~= out@ + spec_render_from(
                    self.0@,
                    i as int,
                ));
            }
        }
        ascii_to_string(&out)
    }
}

} // verus!

//! Errors shared by the casting core and the ELF parser.

use vstd::prelude::*;
use vstd::string::*;

use crate::text::{ascii_seq, dec_string, hex_string, spec_dec_bytes, spec_hex_bytes};

verus! {

/// Why a byte-level operation was refused.
///
/// Every fallible operation of the casting core and of the parser
/// reports one of these variants; nothing is retried or padded.
#[derive(Debug, Clone, Copy, PartialEq, Eq, Structural)]
pub enum BytesError {
    /// A requested byte range lies outside the source buffer.
    Empty,
    /// A cast was attempted on a slice whose length differs from the
    /// target type's size.
    SizeOfMismatch { length: usize, size_of: usize },
    /// A cast was attempted at an address that does not satisfy the
    /// target type's alignment (aligned storage only).
    AlignOfMismatch { pointer: usize, align_of: usize },
    /// The buffer does not begin with the four ELF magic bytes.
    BadMagic,
    /// The class/data byte pair selects no supported combination of
    /// word width and byte order.
    BadClassData,
}

impl BytesError {
    /// One line saying what was refused, with the numbers involved.
    ///
    /// An alignment is at least one by definition, so a caller may
    /// not ask for the message of a mismatch against alignment zero.
    pub fn message(&self) -> (r: String)
        requires
            (*self) matches BytesError::AlignOfMismatch { align_of, .. } ==> align_of >= 1,
        ensures
            match *self {
                BytesError::Empty => r@ == "bytes.len() != 0"@,
                BytesError::SizeOfMismatch { length, size_of } => r@
                    == "bytes.len() != size_of::<Pod>(), "@ + ascii_seq(
                    spec_dec_bytes(length as int),
                ) + " != "@ + ascii_seq(spec_dec_bytes(size_of as int)),
                BytesError::AlignOfMismatch { pointer, align_of } => r@
                    == "bytes.as_ptr() % align_of::<Pod>() != 0, 0x"@ + ascii_seq(
                    spec_hex_bytes(pointer as int),
                ) + " % "@ + ascii_seq(spec_dec_bytes(align_of as int)) + " == "@ + ascii_seq(
                    spec_dec_bytes((pointer as int) % (align_of as int)),
                ),
                BytesError::BadMagic => r@ == "bytes do not start with the ELF magic"@,
                BytesError::BadClassData => r@
                    == "class/data bytes select no supported combination"@,
            },
    {
        match self {
            BytesError::Empty => String::from_str("bytes.len() != 0"),
            BytesError::SizeOfMismatch { length, size_of } => {
                let mut out = String::from_str("bytes.len() != size_of::<Pod>(), ");
                let left = dec_string(*length as u64);
                out.append(left.as_str());
                out.append(" != ");
                let right = dec_string(*size_of as u64);
                out.append(right.as_str());
                out
            },
            BytesError::AlignOfMismatch { pointer, align_of } => {
                let mut out = String::from_str("bytes.as_ptr() % align_of::<Pod>() != 0, 0x");
                let address = hex_string(*pointer as u64);
                out.append(address.as_str());
                out.append(" % ");
                let align = dec_string(*align_of as u64);
                out.append(align.as_str());
                out.append(" == ");
                let rest = dec_string((*pointer % *align_of) as u64);
                out.append(rest.as_str());
                out
            },
            BytesError::BadMagic => String::from_str("bytes do not start with the ELF magic"),
            BytesError::BadClassData => String::from_str(
                "class/data bytes select no supported combination",
            ),
        }
    }
}

} // verus!

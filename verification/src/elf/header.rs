//! The ELF header.
//!
//! The identification block followed by the fixed header fields, all
//! typed by the word family: object-file type, machine, version,
//! entry address, the offsets of the program- and section-header
//! tables, and the table sizes and counts.  A header is read in one
//! piece out of the first bytes of a source buffer and holds those
//! bytes unchanged, field by field.

use vstd::prelude::*;

use crate::endian::Endianness;
use crate::error::BytesError;
use crate::pod::{take_field, Pod};

use super::identification::ElfIdentification;
use super::types::{ElfType, ElfType32, ElfType64};

verus! {

/// The ELF header for the word family `T`.
#[derive(Copy)]
pub struct ElfHeader<T: ElfType> {
    /// Identifies the file as an ELF object file and declares the
    /// layout of everything after it.
    pub e_ident: ElfIdentification<T>,
    /// The object file type.
    pub e_type: T::Half,
    /// The target architecture.
    pub e_machine: T::Half,
    /// The version of the object file format.
    pub e_version: T::Word,
    /// The virtual address execution starts at, or zero.
    pub e_entry: T::Addr,
    /// The file offset of the program header table, or zero.
    pub e_phoff: T::Off,
    /// The file offset of the section header table, or zero.
    pub e_shoff: T::Off,
    /// Processor-specific flags.
    pub e_flags: T::Word,
    /// The size of this header in bytes.
    pub e_ehsize: T::Half,
    /// The size of one program header table entry.
    pub e_phentsize: T::Half,
    /// The number of program header table entries.
    pub e_phnum: T::Half,
    /// The size of one section header table entry.
    pub e_shentsize: T::Half,
    /// The number of section header table entries.
    pub e_shnum: T::Half,
    /// The section name string table's index in the section header
    /// table.
    pub e_shstrndx: T::Half,
}

impl<T: ElfType> Clone for ElfHeader<T> {
    fn clone(&self) -> (r: Self)
        ensures
            r == *self,
    {
        *self
    }
}

impl<T: ElfType> Pod for ElfHeader<T> {
    open spec fn spec_size() -> usize {
        (16 + 8 * T::Half::spec_size() + 2 * T::Word::spec_size() + T::Addr::spec_size() + 2
            * T::Off::spec_size()) as usize
    }

    open spec fn pod_bytes(self) -> Seq<u8> {
        self.e_ident.pod_bytes() + self.e_type.pod_bytes() + self.e_machine.pod_bytes()
            + self.e_version.pod_bytes() + self.e_entry.pod_bytes() + self.e_phoff.pod_bytes()
            + self.e_shoff.pod_bytes() + self.e_flags.pod_bytes() + self.e_ehsize.pod_bytes()
            + self.e_phentsize.pod_bytes() + self.e_phnum.pod_bytes()
            + self.e_shentsize.pod_bytes() + self.e_shnum.pod_bytes()
            + self.e_shstrndx.pod_bytes()
    }

    proof fn lemma_pod_bytes_len(self) {
        T::lemma_field_sizes();
        self.e_ident.lemma_pod_bytes_len();
        self.e_type.lemma_pod_bytes_len();
        self.e_machine.lemma_pod_bytes_len();
        self.e_version.lemma_pod_bytes_len();
        self.e_entry.lemma_pod_bytes_len();
        self.e_phoff.lemma_pod_bytes_len();
        self.e_shoff.lemma_pod_bytes_len();
        self.e_flags.lemma_pod_bytes_len();
        self.e_ehsize.lemma_pod_bytes_len();
        self.e_phentsize.lemma_pod_bytes_len();
        self.e_phnum.lemma_pod_bytes_len();
        self.e_shentsize.lemma_pod_bytes_len();
        self.e_shnum.lemma_pod_bytes_len();
        self.e_shstrndx.lemma_pod_bytes_len();
    }

    fn pod_size() -> (n: usize) {
        proof {
            T::lemma_field_sizes();
        }
        let h = T::Half::pod_size();
        let w = T::Word::pod_size();
        let a = T::Addr::pod_size();
        let o = T::Off::pod_size();
        16 + 8 * h + 2 * w + a + 2 * o
    }

    #[verifier::rlimit(100)]
    fn from_bytes(bytes: &[u8]) -> (r: Result<Self, BytesError>) {
        proof {
            T::lemma_field_sizes();
        }
        let total = Self::pod_size();
        if bytes.len() != total {
            return Err(BytesError::SizeOfMismatch { length: bytes.len(), size_of: total });
        }
        let (e_ident, off) = take_field::<ElfIdentification<T>>(bytes, 0);
        let (e_type, off) = take_field::<T::Half>(bytes, off);
        let (e_machine, off) = take_field::<T::Half>(bytes, off);
        let (e_version, off) = take_field::<T::Word>(bytes, off);
        let (e_entry, off) = take_field::<T::Addr>(bytes, off);
        let (e_phoff, off) = take_field::<T::Off>(bytes, off);
        let (e_shoff, off) = take_field::<T::Off>(bytes, off);
        let (e_flags, off) = take_field::<T::Word>(bytes, off);
        let (e_ehsize, off) = take_field::<T::Half>(bytes, off);
        let (e_phentsize, off) = take_field::<T::Half>(bytes, off);
        let (e_phnum, off) = take_field::<T::Half>(bytes, off);
        let (e_shentsize, off) = take_field::<T::Half>(bytes, off);
        let (e_shnum, off) = take_field::<T::Half>(bytes, off);
        let (e_shstrndx, _off) = take_field::<T::Half>(bytes, off);
        let v = ElfHeader {
            e_ident,
            e_type,
            e_machine,
            e_version,
            e_entry,
            e_phoff,
            e_shoff,
            e_flags,
            e_ehsize,
            e_phentsize,
            e_phnum,
            e_shentsize,
            e_shnum,
            e_shstrndx,
        };
        proof {
            let b = bytes@;
            let h = T::Half::spec_size() as int;
            let w = T::Word::spec_size() as int;
            let a = T::Addr::spec_size() as int;
            let o = T::Off::spec_size() as int;
            let p1 = v.e_ident.pod_bytes();
            let p2 = p1 + v.e_type.pod_bytes();
            let p3 = p2 + v.e_machine.pod_bytes();
            let p4 = p3 + v.e_version.pod_bytes();
            let p5 = p4 + v.e_entry.pod_bytes();
            let p6 = p5 + v.e_phoff.pod_bytes();
            let p7 = p6 + v.e_shoff.pod_bytes();
            let p8 = p7 + v.e_flags.pod_bytes();
            let p9 = p8 + v.e_ehsize.pod_bytes();
            let p10 = p9 + v.e_phentsize.pod_bytes();
            let p11 = p10 + v.e_phnum.pod_bytes();
            let p12 = p11 + v.e_shentsize.pod_bytes();
            let p13 = p12 + v.e_shnum.pod_bytes();
            let p14 = p13 + v.e_shstrndx.pod_bytes();
            assert(p2 =~= b.subrange(0, 16 + h));
            assert(p3 =~= b.subrange(0, 16 + 2 * h));
            assert(p4 =~= b.subrange(0, 16 + 2 * h + w));
            assert(p5 =~= b.subrange(0, 16 + 2 * h + w + a));
            assert(p6 =~= b.subrange(0, 16 + 2 * h + w + a + o));
            assert(p7 =~= b.subrange(0, 16 + 2 * h + w + a + 2 * o));
            assert(p8 =~= b.subrange(0, 16 + 2 * h + 2 * w + a + 2 * o));
            assert(p9 =~= b.subrange(0, 16 + 3 * h + 2 * w + a + 2 * o));
            assert(p10 =~= b.subrange(0, 16 + 4 * h + 2 * w + a + 2 * o));
            assert(p11 =~= b.subrange(0, 16 + 5 * h + 2 * w + a + 2 * o));
            assert(p12 =~= b.subrange(0, 16 + 6 * h + 2 * w + a + 2 * o));
            assert(p13 =~= b.subrange(0, 16 + 7 * h + 2 * w + a + 2 * o));
            assert(p14 =~= b.subrange(0, 16 + 8 * h + 2 * w + a + 2 * o));
            assert(b.subrange(0, 16 + 8 * h + 2 * w + a + 2 * o) =~= b);
            assert(v.pod_bytes() == p14);
        }
        Ok(v)
    }
}

/// Where each field of a 32-bit header sits in its 52 stored bytes.
///
/// A header whose stored image is `b` keeps every field at the
/// offset the ELF specification gives it, so each field's decoded
/// value — its `spec_get`, through the byte order `E` — equals the
/// value encoded into those bytes of the source buffer.
pub proof fn lemma_header_fields_32<E: Endianness>(h: ElfHeader<ElfType32<E>>, b: Seq<u8>)
    requires
        h.pod_bytes() == b,
    ensures
        b.len() == 52,
        h.e_ident.pod_bytes() == b.subrange(0, 16),
        h.e_type@ == b.subrange(16, 18),
        h.e_machine@ == b.subrange(18, 20),
        h.e_version@ == b.subrange(20, 24),
        h.e_entry@ == b.subrange(24, 28),
        h.e_phoff@ == b.subrange(28, 32),
        h.e_shoff@ == b.subrange(32, 36),
        h.e_flags@ == b.subrange(36, 40),
        h.e_ehsize@ == b.subrange(40, 42),
        h.e_phentsize@ == b.subrange(42, 44),
        h.e_phnum@ == b.subrange(44, 46),
        h.e_shentsize@ == b.subrange(46, 48),
        h.e_shnum@ == b.subrange(48, 50),
        h.e_shstrndx@ == b.subrange(50, 52),
{
    h.lemma_pod_bytes_len();
    assert(h.e_ident.pod_bytes() =~= b.subrange(0, 16));
    assert(h.e_type@ =~= b.subrange(16, 18));
    assert(h.e_machine@ =~= b.subrange(18, 20));
    assert(h.e_version@ =~= b.subrange(20, 24));
    assert(h.e_entry@ =~= b.subrange(24, 28));
    assert(h.e_phoff@ =~= b.subrange(28, 32));
    assert(h.e_shoff@ =~= b.subrange(32, 36));
    assert(h.e_flags@ =~= b.subrange(36, 40));
    assert(h.e_ehsize@ =~= b.subrange(40, 42));
    assert(h.e_phentsize@ =~= b.subrange(42, 44));
    assert(h.e_phnum@ =~= b.subrange(44, 46));
    assert(h.e_shentsize@ =~= b.subrange(46, 48));
    assert(h.e_shnum@ =~= b.subrange(48, 50));
    assert(h.e_shstrndx@ =~= b.subrange(50, 52));
}

/// Where each field of a 64-bit header sits in its 64 stored bytes.
///
/// The 64-bit counterpart of [`lemma_header_fields_32`].
pub proof fn lemma_header_fields_64<E: Endianness>(h: ElfHeader<ElfType64<E>>, b: Seq<u8>)
    requires
        h.pod_bytes() == b,
    ensures
        b.len() == 64,
        h.e_ident.pod_bytes() == b.subrange(0, 16),
        h.e_type@ == b.subrange(16, 18),
        h.e_machine@ == b.subrange(18, 20),
        h.e_version@ == b.subrange(20, 24),
        h.e_entry@ == b.subrange(24, 32),
        h.e_phoff@ == b.subrange(32, 40),
        h.e_shoff@ == b.subrange(40, 48),
        h.e_flags@ == b.subrange(48, 52),
        h.e_ehsize@ == b.subrange(52, 54),
        h.e_phentsize@ == b.subrange(54, 56),
        h.e_phnum@ == b.subrange(56, 58),
        h.e_shentsize@ == b.subrange(58, 60),
        h.e_shnum@ == b.subrange(60, 62),
        h.e_shstrndx@ == b.subrange(62, 64),
{
    h.lemma_pod_bytes_len();
    assert(h.e_ident.pod_bytes() =~= b.subrange(0, 16));
    assert(h.e_type@ =~= b.subrange(16, 18));
    assert(h.e_machine@ =~= b.subrange(18, 20));
    assert(h.e_version@ =~= b.subrange(20, 24));
    assert(h.e_entry@ =~= b.subrange(24, 32));
    assert(h.e_phoff@ =~= b.subrange(32, 40));
    assert(h.e_shoff@ =~= b.subrange(40, 48));
    assert(h.e_flags@ =~= b.subrange(48, 52));
    assert(h.e_ehsize@ =~= b.subrange(52, 54));
    assert(h.e_phentsize@ =~= b.subrange(54, 56));
    assert(h.e_phnum@ =~= b.subrange(56, 58));
    assert(h.e_shentsize@ =~= b.subrange(58, 60));
    assert(h.e_shnum@ =~= b.subrange(60, 62));
    assert(h.e_shstrndx@ =~= b.subrange(62, 64));
}

} // verus!

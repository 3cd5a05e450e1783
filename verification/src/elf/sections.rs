//! ELF section headers.
//!
//! The section header layout is defined for both word families, and
//! its size is pinned by the same byte-castable contract as the ELF
//! header's.  Parsing a whole section header table is not offered
//! yet: [`ElfSectionTable::parse`] validates the entry size the ELF
//! header declares against the layout's own size and then refuses
//! every call, so no caller can mistake a partial result for a
//! parsed table.

use vstd::prelude::*;

use crate::error::BytesError;
use crate::pod::{take_field, Pod, PodValue};
use crate::reader::Reader;

use super::header::ElfHeader;
use super::types::ElfType;

verus! {

/// One section header of the word family `T`.
#[derive(Copy)]
pub struct ElfSection<T: ElfType> {
    /// The offset of the section's name in the section name string
    /// table.
    pub sh_name: T::Word,
    /// The section type.
    pub sh_type: T::Word,
    /// The section's attribute flags.
    pub sh_flags: T::Xword,
    /// The virtual address of the section in memory, or zero.
    pub sh_addr: T::Addr,
    /// The file offset of the section's contents.
    pub sh_offset: T::Off,
    /// The size of the section in bytes.
    pub sh_size: T::Xword,
    /// A section index or other link, depending on the type.
    pub sh_link: T::Word,
    /// Extra information, depending on the type.
    pub sh_info: T::Word,
    /// The section's required alignment.
    pub sh_addralign: T::Xword,
    /// The size of each entry, for sections that hold a table.
    pub sh_entsize: T::Xword,
}

impl<T: ElfType> Clone for ElfSection<T> {
    fn clone(&self) -> (r: Self)
        ensures
            r == *self,
    {
        *self
    }
}

impl<T: ElfType> Pod for ElfSection<T> {
    open spec fn spec_size() -> usize {
        (4 * T::Word::spec_size() + 4 * T::Xword::spec_size() + T::Addr::spec_size()
            + T::Off::spec_size()) as usize
    }

    open spec fn pod_bytes(self) -> Seq<u8> {
        self.sh_name.pod_bytes() + self.sh_type.pod_bytes() + self.sh_flags.pod_bytes()
            + self.sh_addr.pod_bytes() + self.sh_offset.pod_bytes() + self.sh_size.pod_bytes()
            + self.sh_link.pod_bytes() + self.sh_info.pod_bytes() + self.sh_addralign.pod_bytes()
            + self.sh_entsize.pod_bytes()
    }

    proof fn lemma_pod_bytes_len(self) {
        T::lemma_field_sizes();
        self.sh_name.lemma_pod_bytes_len();
        self.sh_type.lemma_pod_bytes_len();
        self.sh_flags.lemma_pod_bytes_len();
        self.sh_addr.lemma_pod_bytes_len();
        self.sh_offset.lemma_pod_bytes_len();
        self.sh_size.lemma_pod_bytes_len();
        self.sh_link.lemma_pod_bytes_len();
        self.sh_info.lemma_pod_bytes_len();
        self.sh_addralign.lemma_pod_bytes_len();
        self.sh_entsize.lemma_pod_bytes_len();
    }

    fn pod_size() -> (n: usize) {
        proof {
            T::lemma_field_sizes();
        }
        let w = T::Word::pod_size();
        let x = T::Xword::pod_size();
        let a = T::Addr::pod_size();
        let o = T::Off::pod_size();
        4 * w + 4 * x + a + o
    }

    #[verifier::rlimit(100)]
    fn from_bytes(bytes: &[u8]) -> (r: Result<Self, BytesError>) {
        proof {
            T::lemma_field_sizes();
        }
        let total = Self::pod_size();
        if bytes.len() != total {
            return Err(BytesError::SizeOfMismatch { length: bytes.len(), size_of: total });
        }
        let (sh_name, off) = take_field::<T::Word>(bytes, 0);
        let (sh_type, off) = take_field::<T::Word>(bytes, off);
        let (sh_flags, off) = take_field::<T::Xword>(bytes, off);
        let (sh_addr, off) = take_field::<T::Addr>(bytes, off);
        let (sh_offset, off) = take_field::<T::Off>(bytes, off);
        let (sh_size, off) = take_field::<T::Xword>(bytes, off);
        let (sh_link, off) = take_field::<T::Word>(bytes, off);
        let (sh_info, off) = take_field::<T::Word>(bytes, off);
        let (sh_addralign, off) = take_field::<T::Xword>(bytes, off);
        let (sh_entsize, _off) = take_field::<T::Xword>(bytes, off);
        let v: ElfSection<T> = ElfSection {
            sh_name,
            sh_type,
            sh_flags,
            sh_addr,
            sh_offset,
            sh_size,
            sh_link,
            sh_info,
            sh_addralign,
            sh_entsize,
        };
        proof {
            let b = bytes@;
            let w = T::Word::spec_size() as int;
            let x = T::Xword::spec_size() as int;
            let a = T::Addr::spec_size() as int;
            let o = T::Off::spec_size() as int;
            let p1: Seq<u8> = v.sh_name.pod_bytes();
            let p2 = p1 + v.sh_type.pod_bytes();
            let p3 = p2 + v.sh_flags.pod_bytes();
            let p4 = p3 + v.sh_addr.pod_bytes();
            let p5 = p4 + v.sh_offset.pod_bytes();
            let p6 = p5 + v.sh_size.pod_bytes();
            let p7 = p6 + v.sh_link.pod_bytes();
            let p8 = p7 + v.sh_info.pod_bytes();
            let p9 = p8 + v.sh_addralign.pod_bytes();
            let p10 = p9 + v.sh_entsize.pod_bytes();
            assert(p2 =~= b.subrange(0, 2 * w));
            assert(p3 =~= b.subrange(0, 2 * w + x));
            assert(p4 =~= b.subrange(0, 2 * w + x + a));
            assert(p5 =~= b.subrange(0, 2 * w + x + a + o));
            assert(p6 =~= b.subrange(0, 2 * w + 2 * x + a + o));
            assert(p7 =~= b.subrange(0, 3 * w + 2 * x + a + o));
            assert(p8 =~= b.subrange(0, 4 * w + 2 * x + a + o));
            assert(p9 =~= b.subrange(0, 4 * w + 3 * x + a + o));
            assert(p10 =~= b.subrange(0, 4 * w + 4 * x + a + o));
            assert(b.subrange(0, 4 * w + 4 * x + a + o) =~= b);
            assert(v.pod_bytes() == p10);
        }
        Ok(v)
    }
}

/// The section header table of a parsed object.
pub struct ElfSectionTable<T: ElfType> {
    /// The table's entries, in file order.
    pub sections: Vec<ElfSection<T>>,
}

impl<T: ElfType> ElfSectionTable<T> {
    /// Would parse the section header table that `header` locates in
    /// `data`.
    ///
    /// Reading the table is not offered yet: the entry size the
    /// header declares is held against the layout's own size, and
    /// every call returns `Err`, so no caller can mistake a partial
    /// result for a parsed table.
    pub fn parse<'data, Source: Reader<'data>>(data: Source, header: &ElfHeader<T>) -> (r: Result<
        Self,
        (),
    >)
        ensures
            r is Err,
    {
        let section_size = header.e_shentsize.value64();
        let expected = ElfSection::<T>::pod_size();
        if section_size != expected as u64 {
            return Err(());
        }
        Err(())
    }
}

} // verus!

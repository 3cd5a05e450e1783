//! The ELF structures and the parser that dispatches over word width
//! and byte order.
//!
//! [`parse_elf`] is a single pass with no backtracking: it reads the
//! four magic bytes, reads the class and data-encoding bytes, and on
//! one of the four valid combinations reads the whole header as one
//! byte-castable value.  The result is one of four tagged variants,
//! selected once and never re-dispatched; every other input is
//! answered with the error naming what was wrong.

pub mod header;
pub mod identification;
pub mod magic;
pub mod sections;
pub mod types;

use vstd::prelude::*;

use core::marker::PhantomData;

use crate::endian::{BigEndian, LittleEndian};
use crate::error::BytesError;
use crate::pod::Pod;
use crate::reader::{read_pod, Reader};

use self::header::ElfHeader;
use self::types::{ElfType, ElfType32, ElfType64};

verus! {

/// Whether a buffer begins with the four ELF magic bytes
/// `7F 45 4C 46`.
pub open spec fn spec_has_magic(b: Seq<u8>) -> bool {
    b.len() >= 4 && b[0] == 0x7f && b[1] == 0x45 && b[2] == 0x4c && b[3] == 0x46
}

/// Whether a class/data byte pair selects a supported combination:
/// class `1` or `2` (32- or 64-bit), data `1` or `2` (little- or
/// big-endian).
pub open spec fn spec_valid_class_data(class: u8, encoding: u8) -> bool {
    (class == 1 || class == 2) && (encoding == 1 || encoding == 2)
}

/// The header size the class byte selects: 52 bytes for 32-bit
/// objects, 64 for 64-bit ones.
pub open spec fn spec_header_size(class: u8) -> int {
    if class == 1 {
        52
    } else {
        64
    }
}

/// A parsed ELF object: the decoded header paired with the byte
/// source it was read from.
pub struct ElfObject<'data, Source: Reader<'data>, T: ElfType> {
    /// The object's header, holding the source's first bytes.
    pub header: ElfHeader<T>,
    /// The byte source the object was read from.
    pub data: Source,
    pub marker: PhantomData<&'data [u8]>,
}

impl<'data, Source: Reader<'data>, T: ElfType> ElfObject<'data, Source, T> {
    /// Reads the header of the word family `T` from the front of
    /// `data`.
    ///
    /// Succeeds if and only if the source holds at least a full
    /// header; the header then carries the source's first bytes
    /// unchanged.  A shorter source is answered with
    /// [`BytesError::Empty`].
    pub fn parse(data: Source) -> (r: Result<Self, BytesError>)
        ensures
            r is Ok <==> ElfHeader::<T>::spec_size() <= data.spec_data().len(),
            r matches Ok(obj) ==> {
                &&& obj.header.pod_bytes() == data.spec_data().subrange(
                    0,
                    ElfHeader::<T>::spec_size() as int,
                )
                &&& obj.data == data
            },
            r matches Err(e) ==> e == BytesError::Empty,
    {
        match read_pod::<Source, ElfHeader<T>>(data, 0) {
            Ok(header) => Ok(ElfObject { header, data, marker: PhantomData }),
            Err(e) => Err(e),
        }
    }
}

/// A parsed ELF file: one of the four supported combinations of word
/// width and byte order.
pub enum ElfFile<'data, Source: Reader<'data>> {
    /// 32-bit, big-endian.
    Elf32Be(ElfObject<'data, Source, ElfType32<BigEndian>>),
    /// 64-bit, big-endian.
    Elf64Be(ElfObject<'data, Source, ElfType64<BigEndian>>),
    /// 32-bit, little-endian.
    Elf32Le(ElfObject<'data, Source, ElfType32<LittleEndian>>),
    /// 64-bit, little-endian.
    Elf64Le(ElfObject<'data, Source, ElfType64<LittleEndian>>),
}

/// Parses the front of `data` as an ELF object file.
///
/// The magic bytes come first: a buffer that does not begin
/// with `7F 45 4C 46` is refused as [`BytesError::BadMagic`] before
/// any header byte is inspected.  The class/data byte pair then
/// selects one of the four variants, any other pair being refused as
/// [`BytesError::BadClassData`]; a buffer too short for the class's
/// header is refused as [`BytesError::Empty`].  On success the
/// variant matches the pair exactly and its header holds the
/// buffer's first bytes unchanged.
pub fn parse_elf<'data, Source: Reader<'data>>(data: Source) -> (r: Result<
    ElfFile<'data, Source>,
    BytesError,
>)
    ensures
        ({
            let b = data.spec_data();
            &&& !spec_has_magic(b) ==> r == Err::<ElfFile<'data, Source>, BytesError>(
                BytesError::BadMagic,
            )
            &&& spec_has_magic(b) && b.len() < 6 ==> r == Err::<
                ElfFile<'data, Source>,
                BytesError,
            >(BytesError::Empty)
            &&& spec_has_magic(b) && b.len() >= 6 && !spec_valid_class_data(b[4], b[5]) ==> r
                == Err::<ElfFile<'data, Source>, BytesError>(BytesError::BadClassData)
            &&& spec_has_magic(b) && b.len() >= 6 && spec_valid_class_data(b[4], b[5]) && b.len()
                < spec_header_size(b[4]) ==> r == Err::<ElfFile<'data, Source>, BytesError>(
                BytesError::Empty,
            )
            &&& spec_has_magic(b) && b.len() >= 6 && spec_valid_class_data(b[4], b[5]) && b.len()
                >= spec_header_size(b[4]) ==> r is Ok
            &&& match r {
                Ok(file) => {
                    &&& spec_has_magic(b)
                    &&& b.len() >= 6
                    &&& match file {
                        ElfFile::Elf32Be(obj) => {
                            &&& b[4] == 1 && b[5] == 2
                            &&& obj.header.pod_bytes() == b.subrange(0, 52)
                            &&& obj.data == data
                        },
                        ElfFile::Elf64Be(obj) => {
                            &&& b[4] == 2 && b[5] == 2
                            &&& obj.header.pod_bytes() == b.subrange(0, 64)
                            &&& obj.data == data
                        },
                        ElfFile::Elf32Le(obj) => {
                            &&& b[4] == 1 && b[5] == 1
                            &&& obj.header.pod_bytes() == b.subrange(0, 52)
                            &&& obj.data == data
                        },
                        ElfFile::Elf64Le(obj) => {
                            &&& b[4] == 2 && b[5] == 1
                            &&& obj.header.pod_bytes() == b.subrange(0, 64)
                            &&& obj.data == data
                        },
                    }
                },
                Err(_) => true,
            }
        }),
{
    match data.read_bytes(4, 0) {
        None => Err(BytesError::BadMagic),
        Some(m) => {
            if !(m[0] == 0x7f && m[1] == 0x45 && m[2] == 0x4c && m[3] == 0x46) {
                return Err(BytesError::BadMagic);
            }
            match data.read_bytes(2, 4) {
                None => Err(BytesError::Empty),
                Some(format) => {
                    let class = format[0];
                    let encoding = format[1];
                    if class == 1 && encoding == 1 {
                        match ElfObject::<Source, ElfType32<LittleEndian>>::parse(data) {
                            Ok(obj) => Ok(ElfFile::Elf32Le(obj)),
                            Err(e) => Err(e),
                        }
                    } else if class == 2 && encoding == 1 {
                        match ElfObject::<Source, ElfType64<LittleEndian>>::parse(data) {
                            Ok(obj) => Ok(ElfFile::Elf64Le(obj)),
                            Err(e) => Err(e),
                        }
                    } else if class == 1 && encoding == 2 {
                        match ElfObject::<Source, ElfType32<BigEndian>>::parse(data) {
                            Ok(obj) => Ok(ElfFile::Elf32Be(obj)),
                            Err(e) => Err(e),
                        }
                    } else if class == 2 && encoding == 2 {
                        match ElfObject::<Source, ElfType64<BigEndian>>::parse(data) {
                            Ok(obj) => Ok(ElfFile::Elf64Be(obj)),
                            Err(e) => Err(e),
                        }
                    } else {
                        Err(BytesError::BadClassData)
                    }
                },
            }
        },
    }
}

} // verus!

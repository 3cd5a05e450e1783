//! The ELF identification block.
//!
//! The first sixteen bytes of every ELF object file: the four magic
//! bytes, the class and data-encoding bytes the parser dispatches on,
//! version and ABI information, and seven reserved bytes.  Its size
//! is exactly sixteen bytes for every word family and byte order —
//! [`Pod::spec_size`] of this type does not depend on the family at
//! all, so the 32-bit layout cannot diverge from the 64-bit one.

use vstd::prelude::*;

use core::marker::PhantomData;

use crate::error::BytesError;
use crate::pod::Pod;

use super::types::ElfType;

verus! {

/// Identifies a file as an ELF object file and declares how the rest
/// of it is laid out.
#[derive(Debug, Copy)]
pub struct ElfIdentification<T: ElfType> {
    /// Magic number byte 1, `0x7F`.
    pub ei_mag0: u8,
    /// Magic number byte 2, `0x45` (`E`).
    pub ei_mag1: u8,
    /// Magic number byte 3, `0x4C` (`L`).
    pub ei_mag2: u8,
    /// Magic number byte 4, `0x46` (`F`).
    pub ei_mag3: u8,
    /// The class of the object file: `1` for 32-bit, `2` for 64-bit.
    pub ei_class: u8,
    /// The data encoding: `1` for little-endian, `2` for big-endian.
    pub ei_data: u8,
    /// The ELF header version number.
    pub ei_version: u8,
    /// The operating system and ABI the object is prepared for.
    pub ei_osabi: u8,
    /// The version of the ABI the object is prepared for.
    pub ei_abiversion: u8,
    /// Reserved bytes, set to zero.
    pub ei_pad: [u8; 7],
    pub marker: PhantomData<T>,
}

impl<T: ElfType> Clone for ElfIdentification<T> {
    fn clone(&self) -> (r: Self)
        ensures
            r == *self,
    {
        *self
    }
}

impl<T: ElfType> Pod for ElfIdentification<T> {
    /// Sixteen bytes, whatever the word family and byte order.
    open spec fn spec_size() -> usize {
        16
    }

    open spec fn pod_bytes(self) -> Seq<u8> {
        seq![
            self.ei_mag0,
            self.ei_mag1,
            self.ei_mag2,
            self.ei_mag3,
            self.ei_class,
            self.ei_data,
            self.ei_version,
            self.ei_osabi,
            self.ei_abiversion,
        ] + self.ei_pad@
    }

    proof fn lemma_pod_bytes_len(self) {
    }

    fn pod_size() -> (n: usize) {
        16
    }

    fn from_bytes(bytes: &[u8]) -> (r: Result<Self, BytesError>) {
        if bytes.len() == 16 {
            let v = ElfIdentification {
                ei_mag0: bytes[0],
                ei_mag1: bytes[1],
                ei_mag2: bytes[2],
                ei_mag3: bytes[3],
                ei_class: bytes[4],
                ei_data: bytes[5],
                ei_version: bytes[6],
                ei_osabi: bytes[7],
                ei_abiversion: bytes[8],
                ei_pad: [
                    bytes[9],
                    bytes[10],
                    bytes[11],
                    bytes[12],
                    bytes[13],
                    bytes[14],
                    bytes[15],
                ],
                marker: PhantomData,
            };
            proof {
                assert(v.pod_bytes() =~= bytes@);
            }
            Ok(v)
        } else {
            Err(BytesError::SizeOfMismatch { length: bytes.len(), size_of: 16 })
        }
    }
}

/// Identification size invariant: the identification block is
/// exactly sixteen bytes for every word family and byte order.
pub proof fn lemma_identification_size<T: ElfType>()
    ensures
        ElfIdentification::<T>::spec_size() == 16,
{
}

} // verus!

//! The ELF word families.
//!
//! An [`ElfType`] binds the field roles an ELF structure uses —
//! address, offset, half-word, word and the rest — to concrete
//! endian-tagged integer types of the right width for one combination
//! of word width and byte order.  Two families exist, [`ElfType32`]
//! and [`ElfType64`], each generic over the byte order.

use vstd::prelude::*;

use core::marker::PhantomData;

use crate::endian::Endianness;
use crate::pod::{Pod, PodValue};
use crate::primitive::{I32, U16, U32, U64};

verus! {

/// The bundle of field types one word-width/byte-order combination
/// uses.
///
/// Every field type is byte-castable, and none is wider than eight
/// bytes ([`ElfType::lemma_field_sizes`]), so offsets into a header
/// never overflow.
pub trait ElfType: Sized + Copy {
    /// The byte order of every multi-byte field.
    type Endian: Endianness;

    /// Unsigned program address.
    type Addr: PodValue;

    /// Unsigned file offset.
    type Off: PodValue;

    /// Unsigned tiny integer.
    type Uchar: PodValue;

    /// Unsigned small integer.
    type Half: PodValue;

    /// Unsigned medium integer.
    type Word: PodValue;

    /// Signed medium integer.
    type Sword: Pod;

    /// Unsigned large integer.
    type Xword: PodValue;

    /// No field role is wider than eight bytes.
    proof fn lemma_field_sizes()
        ensures
            1 <= Self::Addr::spec_size() <= 8,
            1 <= Self::Off::spec_size() <= 8,
            1 <= Self::Uchar::spec_size() <= 8,
            1 <= Self::Half::spec_size() <= 8,
            1 <= Self::Word::spec_size() <= 8,
            1 <= Self::Sword::spec_size() <= 8,
            1 <= Self::Xword::spec_size() <= 8,
    ;
}

/// The 32-bit word family: addresses and offsets are four bytes.
#[derive(Debug, Copy)]
pub struct ElfType32<E: Endianness> {
    pub marker: PhantomData<E>,
}

impl<E: Endianness> Clone for ElfType32<E> {
    fn clone(&self) -> (r: Self)
        ensures
            r == *self,
    {
        *self
    }
}

impl<E: Endianness> ElfType for ElfType32<E> {
    type Endian = E;

    type Addr = U32<E>;

    type Off = U32<E>;

    type Uchar = u8;

    type Half = U16<E>;

    type Word = U32<E>;

    type Sword = I32<E>;

    type Xword = U32<E>;

    proof fn lemma_field_sizes() {
    }
}

/// The 64-bit word family: addresses, offsets and large integers are
/// eight bytes.
#[derive(Debug, Copy)]
pub struct ElfType64<E: Endianness> {
    pub marker: PhantomData<E>,
}

impl<E: Endianness> Clone for ElfType64<E> {
    fn clone(&self) -> (r: Self)
        ensures
            r == *self,
    {
        *self
    }
}

impl<E: Endianness> ElfType for ElfType64<E> {
    type Endian = E;

    type Addr = U64<E>;

    type Off = U64<E>;

    type Uchar = u8;

    type Half = U16<E>;

    type Word = U32<E>;

    type Sword = I32<E>;

    type Xword = U64<E>;

    proof fn lemma_field_sizes() {
    }
}

} // verus!

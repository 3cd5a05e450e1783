//! The byte-castable contract.
//!
//! A [`Pod`] type is a plain aggregate whose in-memory image is a
//! fixed number of bytes with no interior pointers, so a value of it
//! can be read straight out of a byte buffer.  Reading is modelled as
//! a copy of the stored bytes: [`Pod::from_bytes`] succeeds exactly
//! when the slice length equals the type's size, and the value it
//! returns carries the slice's bytes unchanged ([`Pod::pod_bytes`]).

use vstd::prelude::*;

use crate::error::BytesError;

verus! {

/// A fixed-size, trivially copyable type that a byte slice of the
/// right length can be read as.
///
/// The stored image of a value is [`Pod::pod_bytes`]; its length is
/// always [`Pod::spec_size`].  Implementers add no invariant beyond
/// layout: every byte sequence of the right length is a valid value.
pub trait Pod: Sized + Copy {
    /// The type's size in bytes.
    spec fn spec_size() -> usize;

    /// The stored bytes of this value, exactly as they sit in a
    /// source buffer.
    spec fn pod_bytes(self) -> Seq<u8>;

    /// A value's stored image always has the type's declared size.
    proof fn lemma_pod_bytes_len(self)
        ensures
            self.pod_bytes().len() == Self::spec_size(),
    ;

    /// The type's size in bytes, at run time.
    fn pod_size() -> (n: usize)
        ensures
            n == Self::spec_size(),
    ;

    /// Reads a value out of a byte slice.
    ///
    /// Succeeds if and only if the slice length equals the type's
    /// size; the value returned holds the slice's bytes unchanged.
    /// On failure the reported length and expected size are exactly
    /// the inputs.  This never panics and never truncates or pads.
    fn from_bytes(bytes: &[u8]) -> (r: Result<Self, BytesError>)
        ensures
            r is Ok <==> bytes@.len() == Self::spec_size(),
            r matches Ok(v) ==> v.pod_bytes() == bytes@,
            r matches Err(e) ==> e == (BytesError::SizeOfMismatch {
                length: bytes@.len() as usize,
                size_of: Self::spec_size(),
            }),
    ;
}

impl Pod for u8 {
    open spec fn spec_size() -> usize {
        1
    }

    open spec fn pod_bytes(self) -> Seq<u8> {
        seq![self]
    }

    proof fn lemma_pod_bytes_len(self) {
    }

    fn pod_size() -> (n: usize) {
        1
    }

    fn from_bytes(bytes: &[u8]) -> (r: Result<Self, BytesError>) {
        if bytes.len() == 1 {
            let v = bytes[0];
            proof {
                assert(v.pod_bytes() =~= bytes@);
            }
            Ok(v)
        } else {
            Err(BytesError::SizeOfMismatch { length: bytes.len(), size_of: 1 })
        }
    }
}

/// A byte-castable type that denotes one unsigned integer.
///
/// The endian-tagged unsigned wrappers and `u8` implement this; it
/// lets generic code over a word family read a field's value without
/// knowing its width.
pub trait PodValue: Pod {
    /// The unsigned integer this value denotes.
    spec fn spec_value(self) -> int;

    /// The denoted value; every implementor's value fits 64 bits.
    fn value64(&self) -> (v: u64)
        ensures
            v as int == self.spec_value(),
    ;
}

impl PodValue for u8 {
    open spec fn spec_value(self) -> int {
        self as int
    }

    fn value64(&self) -> (v: u64) {
        *self as u64
    }
}

/// Reads one field of an aggregate: the `F::spec_size()` bytes at
/// `offset` become a value of `F`, and the offset moves past them.
///
/// The slice handed to [`Pod::from_bytes`] has exactly the field's
/// size, so the cast cannot fail.
pub fn take_field<F: Pod>(bytes: &[u8], offset: usize) -> (r: (F, usize))
    requires
        offset + F::spec_size() <= bytes@.len(),
    ensures
        r.0.pod_bytes() == bytes@.subrange(offset as int, offset as int + F::spec_size() as int),
        r.1 == offset + F::spec_size(),
{
    let length = bytes.len();
    proof {
        // The slice's length fits a usize, so `offset + size` does.
        assert(offset + F::spec_size() <= length);
    }
    let size = F::pod_size();
    let sub = vstd::slice::slice_subrange(bytes, offset, offset + size);
    match F::from_bytes(sub) {
        Ok(v) => (v, offset + size),
        Err(_) => vstd::pervasive::unreached(),
    }
}

/// The admission test of a cast under aligned storage: a slice may be read as
/// a value only when its length equals the target's size and its
/// start address is a multiple of the target's alignment.
///
/// A correctly sized but misaligned slice is refused with the actual
/// address and the required alignment; the same length at an aligned
/// address passes.  Nothing is retried with a different offset.
pub fn cast_check(length: usize, size_of: usize, pointer: usize, align_of: usize) -> (r: Result<
    (),
    BytesError,
>)
    requires
        align_of >= 1,
    ensures
        length != size_of ==> r == Err::<(), BytesError>(
            BytesError::SizeOfMismatch { length, size_of },
        ),
        length == size_of && pointer % align_of != 0 ==> r == Err::<(), BytesError>(
            BytesError::AlignOfMismatch { pointer, align_of },
        ),
        length == size_of && pointer % align_of == 0 ==> r is Ok,
{
    if length != size_of {
        return Err(BytesError::SizeOfMismatch { length, size_of });
    }
    if pointer % align_of != 0 {
        return Err(BytesError::AlignOfMismatch { pointer, align_of });
    }
    Ok(())
}

} // verus!

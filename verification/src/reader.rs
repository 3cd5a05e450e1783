//! Bounds-checked reading from an arbitrary byte buffer.
//!
//! A [`Reader`] is a cheaply copyable handle to a byte buffer — a
//! borrowed slice works for heap memory and for a memory-mapped
//! region alike — offering bounds-checked sub-slices and typed reads.
//! No method panics and none reads out of bounds: a range that does
//! not fit is answered with `None` or [`BytesError::Empty`].

use vstd::prelude::*;

use crate::error::BytesError;
use crate::pod::Pod;

verus! {

/// A borrowable handle to a byte buffer.
///
/// All methods take `self` by value: implementors are expected to be
/// references or other `Copy` handles, so reading never consumes the
/// source.
pub trait Reader<'data>: Copy + Sized {
    /// The bytes this handle gives access to.
    spec fn spec_data(self) -> Seq<u8>;

    /// The total number of available bytes.
    fn length(self) -> (n: usize)
        ensures
            n == self.spec_data().len(),
    ;

    /// Borrows the `size` bytes starting at `offset`, or `None` when
    /// the range `[offset, offset + size)` exceeds the length.
    fn read_bytes(self, size: usize, offset: usize) -> (r: Option<&'data [u8]>)
        ensures
            r is Some <==> offset + size <= self.spec_data().len(),
            r matches Some(b) ==> b@ == self.spec_data().subrange(
                offset as int,
                offset as int + size as int,
            ),
    ;
}

/// Reads a typed value at `offset`: the next `size_of` bytes are
/// borrowed with [`Reader::read_bytes`] and cast with
/// [`Pod::from_bytes`].
///
/// Succeeds if and only if the value's bytes lie inside the source;
/// an out-of-range read is answered with [`BytesError::Empty`], and
/// the cast itself cannot fail on an exactly-sized slice.
pub fn read_pod<'data, Source: Reader<'data>, Type: Pod>(data: Source, offset: usize) -> (r: Result<
    Type,
    BytesError,
>)
    ensures
        r is Ok <==> offset + Type::spec_size() <= data.spec_data().len(),
        r matches Ok(v) ==> v.pod_bytes() == data.spec_data().subrange(
            offset as int,
            offset as int + Type::spec_size() as int,
        ),
        r matches Err(e) ==> e == BytesError::Empty,
{
    match data.read_bytes(Type::pod_size(), offset) {
        None => Err(BytesError::Empty),
        Some(bytes) => {
            let r = Type::from_bytes(bytes);
            match r {
                Ok(v) => Ok(v),
                Err(_) => Err(BytesError::Empty),
            }
        },
    }
}

/// The one concrete byte source: a borrowed slice, which covers both
/// heap-resident buffers and memory-mapped regions.
impl<'data> Reader<'data> for &'data [u8] {
    open spec fn spec_data(self) -> Seq<u8> {
        self@
    }

    fn length(self) -> (n: usize) {
        self.len()
    }

    fn read_bytes(self, size: usize, offset: usize) -> (r: Option<&'data [u8]>) {
        if size <= self.len() && offset <= self.len() - size {
            Some(vstd::slice::slice_subrange(self, offset, offset + size))
        } else {
            None
        }
    }
}

} // verus!

//! Endian-tagged fixed-width integer wrappers.
//!
//! Each wrapper stores the bytes of its integer already converted to
//! the byte order its marker type declares, so a wrapper field reads
//! a source buffer's bytes unchanged.  Decoding happens on access:
//! [`U16::get`] and its siblings return the native value, [`U16::from`]
//! and [`U16::set`] encode a native value in place.  The byte-order
//! marker is zero-sized: a wrapper is exactly its byte array.

use vstd::prelude::*;

use core::marker::PhantomData;

use crate::endian::{
    as_signed, as_unsigned, bytes_of, lemma_be_bytes_of_index, lemma_be_round_trip,
    lemma_be_value_bound, lemma_le_bytes_of_index, lemma_le_round_trip, lemma_le_value_bound,
    lemma_signed_round_trip, pow256, unsigned_value, value_of, Endianness,
};
use crate::error::BytesError;
use crate::pod::{Pod, PodValue};
use crate::text::{ascii_seq, dec_string, hex_string, spec_dec_bytes, spec_hex_bytes};

verus! {

/// Encodes a value of at most eight bytes in the given byte order.
fn encode(little: bool, v: u64, n: usize) -> (r: Vec<u8>)
    requires
        1 <= n <= 8,
        v < pow256(n as nat),
    ensures
        r@ == bytes_of(little, v as int, n as nat),
        r@.len() == n,
{
    proof {
        assert(pow256(8) == 0x1_0000_0000_0000_0000) by {
            reveal_with_fuel(pow256, 9);
        }
    }
    let mut digits: Vec<u8> = Vec::new();
    let mut rest: u64 = v;
    let mut k: usize = 0;
    while k < n
        invariant
            k <= n <= 8,
            digits@.len() == k,
            rest as int == v as int / pow256(k as nat),
            forall|j: int|
                0 <= j < k ==> digits@[j] == ((v as int / pow256(j as nat)) % 256) as u8,
            v < pow256(n as nat),
            pow256(8) == 0x1_0000_0000_0000_0000,
        decreases n - k,
    {
        digits.push((rest % 256) as u8);
        proof {
            crate::endian::lemma_pow256_positive(k as nat);
            vstd::arithmetic::div_mod::lemma_div_denominator(v as int, pow256(k as nat), 256);
            assert(pow256(k as nat) * 256 == pow256((k + 1) as nat));
        }
        rest = rest / 256;
        k = k + 1;
    }
    if little {
        proof {
            assert forall|j: int| 0 <= j < n implies digits@[j] == bytes_of(
                true,
                v as int,
                n as nat,
            )[j] by {
                lemma_le_bytes_of_index(v as int, n as nat, j as nat);
            }
            crate::endian::lemma_le_bytes_of_len(v as int, n as nat);
            assert(digits@ =~= bytes_of(true, v as int, n as nat));
        }
        digits
    } else {
        let mut swapped: Vec<u8> = Vec::new();
        let mut k: usize = n;
        while k > 0
            invariant
                k <= n <= 8,
                digits@.len() == n,
                swapped@.len() == n - k,
                forall|j: int| 0 <= j < n - k ==> swapped@[j] == digits@[n - 1 - j],
            decreases k,
        {
            k = k - 1;
            swapped.push(digits[k]);
        }
        proof {
            assert forall|j: int| 0 <= j < n implies swapped@[j] == bytes_of(
                false,
                v as int,
                n as nat,
            )[j] by {
                lemma_be_bytes_of_index(v as int, n as nat, j as nat);
            }
            crate::endian::lemma_be_bytes_of_len(v as int, n as nat);
            assert(swapped@ =~= bytes_of(false, v as int, n as nat));
        }
        swapped
    }
}

/// An unsigned 16-bit integer stored in the byte order `E` declares.
#[derive(Debug, Copy, PartialEq, Eq, PartialOrd, Ord, Hash)]
pub struct U16<E: Endianness> {
    pub bytes: [u8; 2],
    pub marker: PhantomData<E>,
}

impl<E: Endianness> Clone for U16<E> {
    fn clone(&self) -> (r: Self)
        ensures
            r == *self,
    {
        *self
    }
}

impl<E: Endianness> View for U16<E> {
    type V = Seq<u8>;

    open spec fn view(&self) -> Seq<u8> {
        self.bytes@
    }
}

impl<E: Endianness> U16<E> {
    /// The native value this wrapper decodes to.
    pub open spec fn spec_get(self) -> int {
        unsigned_value(E::spec_is_little(), self.bytes@)
    }

    /// Encodes a native value into the declared byte order.
    pub fn from(value: u16) -> (r: Self)
        ensures
            r@ == bytes_of(E::spec_is_little(), value as int, 2),
            r.spec_get() == value as int,
    {
        let mut r = U16 { bytes: [0u8, 0u8], marker: PhantomData };
        r.set(value);
        r
    }

    /// Decodes the stored bytes back to the native value.
    pub fn get(&self) -> (v: u16)
        ensures
            v as int == self.spec_get(),
    {
        proof {
            assert(pow256(2) == 0x1_0000) by {
                reveal_with_fuel(pow256, 3);
            }
            if E::spec_is_little() {
                lemma_le_value_bound(self.bytes@);
            } else {
                lemma_be_value_bound(self.bytes@);
            }
        }
        let v = value_of(E::is_little(), self.bytes.as_slice());
        v as u16
    }

    /// Re-encodes a native value in place.
    pub fn set(&mut self, value: u16)
        ensures
            final(self)@ == bytes_of(E::spec_is_little(), value as int, 2),
            final(self).spec_get() == value as int,
    {
        proof {
            assert(pow256(2) == 0x1_0000) by {
                reveal_with_fuel(pow256, 3);
            }
        }
        let enc = encode(E::is_little(), value as u64, 2);
        self.bytes = [enc[0], enc[1]];
        proof {
            assert(self.bytes@ =~= bytes_of(E::spec_is_little(), value as int, 2));
            if E::spec_is_little() {
                lemma_le_round_trip(value as int, 2);
            } else {
                lemma_be_round_trip(value as int, 2);
            }
        }
    }
}

impl<E: Endianness> Pod for U16<E> {
    open spec fn spec_size() -> usize {
        2
    }

    open spec fn pod_bytes(self) -> Seq<u8> {
        self.bytes@
    }

    proof fn lemma_pod_bytes_len(self) {
    }

    fn pod_size() -> (n: usize) {
        2
    }

    fn from_bytes(bytes: &[u8]) -> (r: Result<Self, BytesError>) {
        if bytes.len() == 2 {
            let v = U16 { bytes: [bytes[0], bytes[1]], marker: PhantomData };
            proof {
                assert(v.pod_bytes() =~= bytes@);
            }
            Ok(v)
        } else {
            Err(BytesError::SizeOfMismatch { length: bytes.len(), size_of: 2 })
        }
    }
}

impl<E: Endianness> U16<E> {
    /// The decoded value rendered in decimal.
    pub fn to_dec_string(&self) -> (r: String)
        ensures
            r@ == ascii_seq(spec_dec_bytes(self.spec_get())),
    {
        dec_string(self.get() as u64)
    }

    /// The decoded value rendered in lower-case hexadecimal, without
    /// a prefix.
    pub fn to_hex_string(&self) -> (r: String)
        ensures
            r@ == ascii_seq(spec_hex_bytes(self.spec_get())),
    {
        hex_string(self.get() as u64)
    }
}

impl<E: Endianness> PodValue for U16<E> {
    open spec fn spec_value(self) -> int {
        self.spec_get()
    }

    fn value64(&self) -> (v: u64) {
        self.get() as u64
    }
}

/// An unsigned 32-bit integer stored in the byte order `E` declares.
#[derive(Debug, Copy, PartialEq, Eq, PartialOrd, Ord, Hash)]
pub struct U32<E: Endianness> {
    pub bytes: [u8; 4],
    pub marker: PhantomData<E>,
}

impl<E: Endianness> Clone for U32<E> {
    fn clone(&self) -> (r: Self)
        ensures
            r == *self,
    {
        *self
    }
}

impl<E: Endianness> View for U32<E> {
    type V = Seq<u8>;

    open spec fn view(&self) -> Seq<u8> {
        self.bytes@
    }
}

impl<E: Endianness> U32<E> {
    /// The native value this wrapper decodes to.
    pub open spec fn spec_get(self) -> int {
        unsigned_value(E::spec_is_little(), self.bytes@)
    }

    /// Encodes a native value into the declared byte order.
    pub fn from(value: u32) -> (r: Self)
        ensures
            r@ == bytes_of(E::spec_is_little(), value as int, 4),
            r.spec_get() == value as int,
    {
        let mut r = U32 { bytes: [0u8, 0u8, 0u8, 0u8], marker: PhantomData };
        r.set(value);
        r
    }

    /// Decodes the stored bytes back to the native value.
    pub fn get(&self) -> (v: u32)
        ensures
            v as int == self.spec_get(),
    {
        proof {
            assert(pow256(4) == 0x1_0000_0000) by {
                reveal_with_fuel(pow256, 5);
            }
            if E::spec_is_little() {
                lemma_le_value_bound(self.bytes@);
            } else {
                lemma_be_value_bound(self.bytes@);
            }
        }
        let v = value_of(E::is_little(), self.bytes.as_slice());
        v as u32
    }

    /// Re-encodes a native value in place.
    pub fn set(&mut self, value: u32)
        ensures
            final(self)@ == bytes_of(E::spec_is_little(), value as int, 4),
            final(self).spec_get() == value as int,
    {
        proof {
            assert(pow256(4) == 0x1_0000_0000) by {
                reveal_with_fuel(pow256, 5);
            }
        }
        let enc = encode(E::is_little(), value as u64, 4);
        self.bytes = [enc[0], enc[1], enc[2], enc[3]];
        proof {
            assert(self.bytes@ =~= bytes_of(E::spec_is_little(), value as int, 4));
            if E::spec_is_little() {
                lemma_le_round_trip(value as int, 4);
            } else {
                lemma_be_round_trip(value as int, 4);
            }
        }
    }
}

impl<E: Endianness> Pod for U32<E> {
    open spec fn spec_size() -> usize {
        4
    }

    open spec fn pod_bytes(self) -> Seq<u8> {
        self.bytes@
    }

    proof fn lemma_pod_bytes_len(self) {
    }

    fn pod_size() -> (n: usize) {
        4
    }

    fn from_bytes(bytes: &[u8]) -> (r: Result<Self, BytesError>) {
        if bytes.len() == 4 {
            let v = U32 { bytes: [bytes[0], bytes[1], bytes[2], bytes[3]], marker: PhantomData };
            proof {
                assert(v.pod_bytes() =~= bytes@);
            }
            Ok(v)
        } else {
            Err(BytesError::SizeOfMismatch { length: bytes.len(), size_of: 4 })
        }
    }
}

impl<E: Endianness> U32<E> {
    /// The decoded value rendered in decimal.
    pub fn to_dec_string(&self) -> (r: String)
        ensures
            r@ == ascii_seq(spec_dec_bytes(self.spec_get())),
    {
        dec_string(self.get() as u64)
    }

    /// The decoded value rendered in lower-case hexadecimal, without
    /// a prefix.
    pub fn to_hex_string(&self) -> (r: String)
        ensures
            r@ == ascii_seq(spec_hex_bytes(self.spec_get())),
    {
        hex_string(self.get() as u64)
    }
}

impl<E: Endianness> PodValue for U32<E> {
    open spec fn spec_value(self) -> int {
        self.spec_get()
    }

    fn value64(&self) -> (v: u64) {
        self.get() as u64
    }
}

/// An unsigned 64-bit integer stored in the byte order `E` declares.
#[derive(Debug, Copy, PartialEq, Eq, PartialOrd, Ord, Hash)]
pub struct U64<E: Endianness> {
    pub bytes: [u8; 8],
    pub marker: PhantomData<E>,
}

impl<E: Endianness> Clone for U64<E> {
    fn clone(&self) -> (r: Self)
        ensures
            r == *self,
    {
        *self
    }
}

impl<E: Endianness> View for U64<E> {
    type V = Seq<u8>;

    open spec fn view(&self) -> Seq<u8> {
        self.bytes@
    }
}

impl<E: Endianness> U64<E> {
    /// The native value this wrapper decodes to.
    pub open spec fn spec_get(self) -> int {
        unsigned_value(E::spec_is_little(), self.bytes@)
    }

    /// Encodes a native value into the declared byte order.
    pub fn from(value: u64) -> (r: Self)
        ensures
            r@ == bytes_of(E::spec_is_little(), value as int, 8),
            r.spec_get() == value as int,
    {
        let mut r = U64 { bytes: [0u8, 0u8, 0u8, 0u8, 0u8, 0u8, 0u8, 0u8], marker: PhantomData };
        r.set(value);
        r
    }

    /// Decodes the stored bytes back to the native value.
    pub fn get(&self) -> (v: u64)
        ensures
            v as int == self.spec_get(),
    {
        value_of(E::is_little(), self.bytes.as_slice())
    }

    /// Re-encodes a native value in place.
    pub fn set(&mut self, value: u64)
        ensures
            final(self)@ == bytes_of(E::spec_is_little(), value as int, 8),
            final(self).spec_get() == value as int,
    {
        proof {
            assert(pow256(8) == 0x1_0000_0000_0000_0000) by {
                reveal_with_fuel(pow256, 9);
            }
        }
        let enc = encode(E::is_little(), value, 8);
        self.bytes = [enc[0], enc[1], enc[2], enc[3], enc[4], enc[5], enc[6], enc[7]];
        proof {
            assert(self.bytes@ =~= bytes_of(E::spec_is_little(), value as int, 8));
            if E::spec_is_little() {
                lemma_le_round_trip(value as int, 8);
            } else {
                lemma_be_round_trip(value as int, 8);
            }
        }
    }
}

impl<E: Endianness> Pod for U64<E> {
    open spec fn spec_size() -> usize {
        8
    }

    open spec fn pod_bytes(self) -> Seq<u8> {
        self.bytes@
    }

    proof fn lemma_pod_bytes_len(self) {
    }

    fn pod_size() -> (n: usize) {
        8
    }

    fn from_bytes(bytes: &[u8]) -> (r: Result<Self, BytesError>) {
        if bytes.len() == 8 {
            let v = U64 {
                bytes: [
                    bytes[0],
                    bytes[1],
                    bytes[2],
                    bytes[3],
                    bytes[4],
                    bytes[5],
                    bytes[6],
                    bytes[7],
                ],
                marker: PhantomData,
            };
            proof {
                assert(v.pod_bytes() =~= bytes@);
            }
            Ok(v)
        } else {
            Err(BytesError::SizeOfMismatch { length: bytes.len(), size_of: 8 })
        }
    }
}

impl<E: Endianness> U64<E> {
    /// The decoded value rendered in decimal.
    pub fn to_dec_string(&self) -> (r: String)
        ensures
            r@ == ascii_seq(spec_dec_bytes(self.spec_get())),
    {
        dec_string(self.get())
    }

    /// The decoded value rendered in lower-case hexadecimal, without
    /// a prefix.
    pub fn to_hex_string(&self) -> (r: String)
        ensures
            r@ == ascii_seq(spec_hex_bytes(self.spec_get())),
    {
        hex_string(self.get())
    }
}

impl<E: Endianness> PodValue for U64<E> {
    open spec fn spec_value(self) -> int {
        self.spec_get()
    }

    fn value64(&self) -> (v: u64) {
        self.get()
    }
}

/// A signed 16-bit integer stored in two's complement in the byte
/// order `E` declares.
#[derive(Debug, Copy, PartialEq, Eq, PartialOrd, Ord, Hash)]
pub struct I16<E: Endianness> {
    pub bytes: [u8; 2],
    pub marker: PhantomData<E>,
}

impl<E: Endianness> Clone for I16<E> {
    fn clone(&self) -> (r: Self)
        ensures
            r == *self,
    {
        *self
    }
}

impl<E: Endianness> View for I16<E> {
    type V = Seq<u8>;

    open spec fn view(&self) -> Seq<u8> {
        self.bytes@
    }
}

impl<E: Endianness> I16<E> {
    /// The native value this wrapper decodes to.
    pub open spec fn spec_get(self) -> int {
        as_signed(unsigned_value(E::spec_is_little(), self.bytes@), 2)
    }

    /// Encodes a native value into the declared byte order.
    pub fn from(value: i16) -> (r: Self)
        ensures
            r@ == bytes_of(E::spec_is_little(), as_unsigned(value as int, 2), 2),
            r.spec_get() == value as int,
    {
        let mut r = I16 { bytes: [0u8, 0u8], marker: PhantomData };
        r.set(value);
        r
    }

    /// Decodes the stored bytes back to the native value.
    pub fn get(&self) -> (v: i16)
        ensures
            v as int == self.spec_get(),
    {
        proof {
            assert(pow256(2) == 0x1_0000) by {
                reveal_with_fuel(pow256, 3);
            }
            if E::spec_is_little() {
                lemma_le_value_bound(self.bytes@);
            } else {
                lemma_be_value_bound(self.bytes@);
            }
        }
        let u = value_of(E::is_little(), self.bytes.as_slice());
        if u < 0x8000 {
            u as i16
        } else {
            ((u as i64) - 0x1_0000) as i16
        }
    }

    /// Re-encodes a native value in place.
    pub fn set(&mut self, value: i16)
        ensures
            final(self)@ == bytes_of(E::spec_is_little(), as_unsigned(value as int, 2), 2),
            final(self).spec_get() == value as int,
    {
        proof {
            assert(pow256(2) == 0x1_0000) by {
                reveal_with_fuel(pow256, 3);
            }
            lemma_signed_round_trip(value as int, 2);
        }
        let u: u64 = if value >= 0 {
            value as u64
        } else {
            ((value as i64) + 0x1_0000) as u64
        };
        let enc = encode(E::is_little(), u, 2);
        self.bytes = [enc[0], enc[1]];
        proof {
            assert(self.bytes@ =~= bytes_of(E::spec_is_little(), as_unsigned(value as int, 2), 2));
            if E::spec_is_little() {
                lemma_le_round_trip(u as int, 2);
            } else {
                lemma_be_round_trip(u as int, 2);
            }
        }
    }
}

impl<E: Endianness> Pod for I16<E> {
    open spec fn spec_size() -> usize {
        2
    }

    open spec fn pod_bytes(self) -> Seq<u8> {
        self.bytes@
    }

    proof fn lemma_pod_bytes_len(self) {
    }

    fn pod_size() -> (n: usize) {
        2
    }

    fn from_bytes(bytes: &[u8]) -> (r: Result<Self, BytesError>) {
        if bytes.len() == 2 {
            let v = I16 { bytes: [bytes[0], bytes[1]], marker: PhantomData };
            proof {
                assert(v.pod_bytes() =~= bytes@);
            }
            Ok(v)
        } else {
            Err(BytesError::SizeOfMismatch { length: bytes.len(), size_of: 2 })
        }
    }
}

/// A signed 32-bit integer stored in two's complement in the byte
/// order `E` declares.
#[derive(Debug, Copy, PartialEq, Eq, PartialOrd, Ord, Hash)]
pub struct I32<E: Endianness> {
    pub bytes: [u8; 4],
    pub marker: PhantomData<E>,
}

impl<E: Endianness> Clone for I32<E> {
    fn clone(&self) -> (r: Self)
        ensures
            r == *self,
    {
        *self
    }
}

impl<E: Endianness> View for I32<E> {
    type V = Seq<u8>;

    open spec fn view(&self) -> Seq<u8> {
        self.bytes@
    }
}

impl<E: Endianness> I32<E> {
    /// The native value this wrapper decodes to.
    pub open spec fn spec_get(self) -> int {
        as_signed(unsigned_value(E::spec_is_little(), self.bytes@), 4)
    }

    /// Encodes a native value into the declared byte order.
    pub fn from(value: i32) -> (r: Self)
        ensures
            r@ == bytes_of(E::spec_is_little(), as_unsigned(value as int, 4), 4),
            r.spec_get() == value as int,
    {
        let mut r = I32 { bytes: [0u8, 0u8, 0u8, 0u8], marker: PhantomData };
        r.set(value);
        r
    }

    /// Decodes the stored bytes back to the native value.
    pub fn get(&self) -> (v: i32)
        ensures
            v as int == self.spec_get(),
    {
        proof {
            assert(pow256(4) == 0x1_0000_0000) by {
                reveal_with_fuel(pow256, 5);
            }
            if E::spec_is_little() {
                lemma_le_value_bound(self.bytes@);
            } else {
                lemma_be_value_bound(self.bytes@);
            }
        }
        let u = value_of(E::is_little(), self.bytes.as_slice());
        if u < 0x8000_0000 {
            u as i32
        } else {
            ((u as i64) - 0x1_0000_0000) as i32
        }
    }

    /// Re-encodes a native value in place.
    pub fn set(&mut self, value: i32)
        ensures
            final(self)@ == bytes_of(E::spec_is_little(), as_unsigned(value as int, 4), 4),
            final(self).spec_get() == value as int,
    {
        proof {
            assert(pow256(4) == 0x1_0000_0000) by {
                reveal_with_fuel(pow256, 5);
            }
            lemma_signed_round_trip(value as int, 4);
        }
        let u: u64 = if value >= 0 {
            value as u64
        } else {
            ((value as i64) + 0x1_0000_0000) as u64
        };
        let enc = encode(E::is_little(), u, 4);
        self.bytes = [enc[0], enc[1], enc[2], enc[3]];
        proof {
            assert(self.bytes@ =~= bytes_of(E::spec_is_little(), as_unsigned(value as int, 4), 4));
            if E::spec_is_little() {
                lemma_le_round_trip(u as int, 4);
            } else {
                lemma_be_round_trip(u as int, 4);
            }
        }
    }
}

impl<E: Endianness> Pod for I32<E> {
    open spec fn spec_size() -> usize {
        4
    }

    open spec fn pod_bytes(self) -> Seq<u8> {
        self.bytes@
    }

    proof fn lemma_pod_bytes_len(self) {
    }

    fn pod_size() -> (n: usize) {
        4
    }

    fn from_bytes(bytes: &[u8]) -> (r: Result<Self, BytesError>) {
        if bytes.len() == 4 {
            let v = I32 { bytes: [bytes[0], bytes[1], bytes[2], bytes[3]], marker: PhantomData };
            proof {
                assert(v.pod_bytes() =~= bytes@);
            }
            Ok(v)
        } else {
            Err(BytesError::SizeOfMismatch { length: bytes.len(), size_of: 4 })
        }
    }
}

/// A signed 64-bit integer stored in two's complement in the byte
/// order `E` declares.
#[derive(Debug, Copy, PartialEq, Eq, PartialOrd, Ord, Hash)]
pub struct I64<E: Endianness> {
    pub bytes: [u8; 8],
    pub marker: PhantomData<E>,
}

impl<E: Endianness> Clone for I64<E> {
    fn clone(&self) -> (r: Self)
        ensures
            r == *self,
    {
        *self
    }
}

impl<E: Endianness> View for I64<E> {
    type V = Seq<u8>;

    open spec fn view(&self) -> Seq<u8> {
        self.bytes@
    }
}

impl<E: Endianness> I64<E> {
    /// The native value this wrapper decodes to.
    pub open spec fn spec_get(self) -> int {
        as_signed(unsigned_value(E::spec_is_little(), self.bytes@), 8)
    }

    /// Encodes a native value into the declared byte order.
    pub fn from(value: i64) -> (r: Self)
        ensures
            r@ == bytes_of(E::spec_is_little(), as_unsigned(value as int, 8), 8),
            r.spec_get() == value as int,
    {
        let mut r = I64 { bytes: [0u8, 0u8, 0u8, 0u8, 0u8, 0u8, 0u8, 0u8], marker: PhantomData };
        r.set(value);
        r
    }

    /// Decodes the stored bytes back to the native value.
    pub fn get(&self) -> (v: i64)
        ensures
            v as int == self.spec_get(),
    {
        proof {
            assert(pow256(8) == 0x1_0000_0000_0000_0000) by {
                reveal_with_fuel(pow256, 9);
            }
            if E::spec_is_little() {
                lemma_le_value_bound(self.bytes@);
            } else {
                lemma_be_value_bound(self.bytes@);
            }
        }
        let u = value_of(E::is_little(), self.bytes.as_slice());
        if u < 0x8000_0000_0000_0000 {
            u as i64
        } else {
            ((u as i128) - 0x1_0000_0000_0000_0000) as i64
        }
    }

    /// Re-encodes a native value in place.
    pub fn set(&mut self, value: i64)
        ensures
            final(self)@ == bytes_of(E::spec_is_little(), as_unsigned(value as int, 8), 8),
            final(self).spec_get() == value as int,
    {
        proof {
            assert(pow256(8) == 0x1_0000_0000_0000_0000) by {
                reveal_with_fuel(pow256, 9);
            }
            lemma_signed_round_trip(value as int, 8);
        }
        let u: u64 = if value >= 0 {
            value as u64
        } else {
            (((value as i128) + 0x1_0000_0000_0000_0000) as u64)
        };
        let enc = encode(E::is_little(), u, 8);
        self.bytes = [enc[0], enc[1], enc[2], enc[3], enc[4], enc[5], enc[6], enc[7]];
        proof {
            assert(self.bytes@ =~= bytes_of(E::spec_is_little(), as_unsigned(value as int, 8), 8));
            if E::spec_is_little() {
                lemma_le_round_trip(u as int, 8);
            } else {
                lemma_be_round_trip(u as int, 8);
            }
        }
    }
}

impl<E: Endianness> Pod for I64<E> {
    open spec fn spec_size() -> usize {
        8
    }

    open spec fn pod_bytes(self) -> Seq<u8> {
        self.bytes@
    }

    proof fn lemma_pod_bytes_len(self) {
    }

    fn pod_size() -> (n: usize) {
        8
    }

    fn from_bytes(bytes: &[u8]) -> (r: Result<Self, BytesError>) {
        if bytes.len() == 8 {
            let v = I64 {
                bytes: [
                    bytes[0],
                    bytes[1],
                    bytes[2],
                    bytes[3],
                    bytes[4],
                    bytes[5],
                    bytes[6],
                    bytes[7],
                ],
                marker: PhantomData,
            };
            proof {
                assert(v.pod_bytes() =~= bytes@);
            }
            Ok(v)
        } else {
            Err(BytesError::SizeOfMismatch { length: bytes.len(), size_of: 8 })
        }
    }
}

} // verus!

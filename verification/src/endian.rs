//! Byte-order codec.
//!
//! A stored multi-byte integer is modelled as the sequence of its
//! bytes; [`le_value`] and [`be_value`] give the integer a sequence
//! denotes in little- and big-endian order, [`le_bytes_of`] and
//! [`be_bytes_of`] the sequences a value encodes to.  The codec is
//! total and pure: encoding then decoding returns the value unchanged
//! ([`lemma_le_round_trip`], [`lemma_be_round_trip`]).

use vstd::prelude::*;

verus! {

/// 256 raised to `n`: the number of values `n` bytes can hold.
pub open spec fn pow256(n: nat) -> int
    decreases n,
{
    if n == 0 {
        1
    } else {
        256 * pow256((n - 1) as nat)
    }
}

/// The integer a byte sequence denotes in little-endian order
/// (first byte least significant).
pub open spec fn le_value(bytes: Seq<u8>) -> int
    decreases bytes.len(),
{
    if bytes.len() == 0 {
        0
    } else {
        bytes[0] + 256 * le_value(bytes.drop_first())
    }
}

/// The integer a byte sequence denotes in big-endian order
/// (last byte least significant).
pub open spec fn be_value(bytes: Seq<u8>) -> int
    decreases bytes.len(),
{
    if bytes.len() == 0 {
        0
    } else {
        256 * be_value(bytes.drop_last()) + bytes.last()
    }
}

/// The `n` bytes that encode `v` in little-endian order.
pub open spec fn le_bytes_of(v: int, n: nat) -> Seq<u8>
    decreases n,
{
    if n == 0 {
        Seq::empty()
    } else {
        seq![(v % 256) as u8] + le_bytes_of(v / 256, (n - 1) as nat)
    }
}

/// The `n` bytes that encode `v` in big-endian order.
pub open spec fn be_bytes_of(v: int, n: nat) -> Seq<u8>
    decreases n,
{
    if n == 0 {
        Seq::empty()
    } else {
        be_bytes_of(v / 256, (n - 1) as nat).push((v % 256) as u8)
    }
}

/// The integer a byte sequence denotes in the given byte order.
pub open spec fn unsigned_value(little: bool, bytes: Seq<u8>) -> int {
    if little {
        le_value(bytes)
    } else {
        be_value(bytes)
    }
}

/// The bytes that encode `v` in the given byte order.
pub open spec fn bytes_of(little: bool, v: int, n: nat) -> Seq<u8> {
    if little {
        le_bytes_of(v, n)
    } else {
        be_bytes_of(v, n)
    }
}

/// Reads an unsigned `n`-byte pattern as a signed value in two's
/// complement.
pub open spec fn as_signed(v: int, n: nat) -> int {
    if v < pow256(n) / 2 {
        v
    } else {
        v - pow256(n)
    }
}

/// The unsigned `n`-byte pattern of a signed value in two's
/// complement.
pub open spec fn as_unsigned(v: int, n: nat) -> int {
    if v >= 0 {
        v
    } else {
        v + pow256(n)
    }
}

pub proof fn lemma_pow256_positive(n: nat)
    ensures
        pow256(n) >= 1,
    decreases n,
{
    if n > 0 {
        lemma_pow256_positive((n - 1) as nat);
    }
}

pub proof fn lemma_pow256_increases(m: nat, n: nat)
    requires
        m <= n,
    ensures
        pow256(m) <= pow256(n),
    decreases n,
{
    if m < n {
        lemma_pow256_increases(m, (n - 1) as nat);
        lemma_pow256_positive((n - 1) as nat);
    }
}

/// A little-endian reading is bounded by what its length can hold.
pub proof fn lemma_le_value_bound(bytes: Seq<u8>)
    ensures
        0 <= le_value(bytes) < pow256(bytes.len()),
    decreases bytes.len(),
{
    if bytes.len() > 0 {
        lemma_le_value_bound(bytes.drop_first());
    }
}

/// A big-endian reading is bounded by what its length can hold.
pub proof fn lemma_be_value_bound(bytes: Seq<u8>)
    ensures
        0 <= be_value(bytes) < pow256(bytes.len()),
    decreases bytes.len(),
{
    if bytes.len() > 0 {
        lemma_be_value_bound(bytes.drop_last());
    }
}

pub proof fn lemma_le_bytes_of_len(v: int, n: nat)
    ensures
        le_bytes_of(v, n).len() == n,
    decreases n,
{
    if n > 0 {
        lemma_le_bytes_of_len(v / 256, (n - 1) as nat);
    }
}

pub proof fn lemma_be_bytes_of_len(v: int, n: nat)
    ensures
        be_bytes_of(v, n).len() == n,
    decreases n,
{
    if n > 0 {
        lemma_be_bytes_of_len(v / 256, (n - 1) as nat);
    }
}

/// Byte `k` of a little-endian encoding holds digit `k` of the
/// value in base 256.
pub proof fn lemma_le_bytes_of_index(v: int, n: nat, k: nat)
    requires
        0 <= v,
        k < n,
    ensures
        le_bytes_of(v, n).len() == n,
        le_bytes_of(v, n)[k as int] == ((v / pow256(k)) % 256) as u8,
    decreases k,
{
    lemma_le_bytes_of_len(v, n);
    if k > 0 {
        lemma_le_bytes_of_index(v / 256, (n - 1) as nat, (k - 1) as nat);
        lemma_pow256_positive((k - 1) as nat);
        vstd::arithmetic::div_mod::lemma_div_denominator(v, 256, pow256((k - 1) as nat));
    }
}

/// Byte `k` of a big-endian encoding holds digit `n - 1 - k` of the
/// value in base 256.
pub proof fn lemma_be_bytes_of_index(v: int, n: nat, k: nat)
    requires
        0 <= v,
        k < n,
    ensures
        be_bytes_of(v, n).len() == n,
        be_bytes_of(v, n)[k as int] == ((v / pow256((n - 1 - k) as nat)) % 256) as u8,
    decreases n,
{
    lemma_be_bytes_of_len(v, n);
    if k < n - 1 {
        lemma_be_bytes_of_index(v / 256, (n - 1) as nat, k);
        lemma_pow256_positive((n - 2 - k) as nat);
        vstd::arithmetic::div_mod::lemma_div_denominator(v, 256, pow256((n - 2 - k) as nat));
        assert(256 * pow256((n - 2 - k) as nat) == pow256((n - 1 - k) as nat));
    }
}

/// Codec round trip, little-endian: decoding an encoded value
/// returns the value, for every value the width can represent.
pub proof fn lemma_le_round_trip(v: int, n: nat)
    requires
        0 <= v < pow256(n),
    ensures
        le_bytes_of(v, n).len() == n,
        le_value(le_bytes_of(v, n)) == v,
    decreases n,
{
    if n > 0 {
        lemma_pow256_positive((n - 1) as nat);
        lemma_le_round_trip(v / 256, (n - 1) as nat);
        assert(le_bytes_of(v, n).drop_first() =~= le_bytes_of(v / 256, (n - 1) as nat));
    }
}

/// Codec round trip, big-endian: decoding an encoded value returns
/// the value, for every value the width can represent.
pub proof fn lemma_be_round_trip(v: int, n: nat)
    requires
        0 <= v < pow256(n),
    ensures
        be_bytes_of(v, n).len() == n,
        be_value(be_bytes_of(v, n)) == v,
    decreases n,
{
    if n > 0 {
        lemma_pow256_positive((n - 1) as nat);
        lemma_be_round_trip(v / 256, (n - 1) as nat);
        assert(be_bytes_of(v, n).drop_last() =~= be_bytes_of(v / 256, (n - 1) as nat));
    }
}

/// Codec round trip in the other direction, little-endian: encoding
/// a decoded sequence returns the sequence.
pub proof fn lemma_le_bytes_of_value(bytes: Seq<u8>)
    ensures
        le_bytes_of(le_value(bytes), bytes.len()) =~= bytes,
    decreases bytes.len(),
{
    if bytes.len() > 0 {
        lemma_le_value_bound(bytes.drop_first());
        lemma_le_bytes_of_value(bytes.drop_first());
        assert(le_value(bytes) % 256 == bytes[0]);
        assert(le_value(bytes) / 256 == le_value(bytes.drop_first()));
    }
}

/// Codec round trip in the other direction, big-endian: encoding a
/// decoded sequence returns the sequence.
pub proof fn lemma_be_bytes_of_value(bytes: Seq<u8>)
    ensures
        be_bytes_of(be_value(bytes), bytes.len()) =~= bytes,
    decreases bytes.len(),
{
    if bytes.len() > 0 {
        lemma_be_value_bound(bytes.drop_last());
        lemma_be_bytes_of_value(bytes.drop_last());
        assert(be_value(bytes) % 256 == bytes.last());
        assert(be_value(bytes) / 256 == be_value(bytes.drop_last()));
    }
}

/// Signed round trip: reading back the two's-complement pattern of a
/// representable signed value returns the value.
pub proof fn lemma_signed_round_trip(v: int, n: nat)
    requires
        n >= 1,
        -(pow256(n) / 2) <= v < pow256(n) / 2,
    ensures
        0 <= as_unsigned(v, n) < pow256(n),
        as_signed(as_unsigned(v, n), n) == v,
{
    lemma_pow256_positive(n);
}

/// Declares which byte order a marker type stands for, and names it.
///
/// The two implementations, [`BigEndian`] and [`LittleEndian`], are
/// zero-sized: the byte order is carried by the type alone, so the
/// endian-tagged wrappers built over it add nothing to the stored
/// representation.
pub trait Endianness: Sized + Copy {
    /// Whether this byte order stores the least significant byte
    /// first.
    spec fn spec_is_little() -> bool;

    /// Runtime test of the byte order.
    fn is_little() -> (b: bool)
        ensures
            b == Self::spec_is_little(),
    ;

    /// The byte order's long name (lower case).
    fn long_name() -> (s: &'static str)
        ensures
            s@ == spec_long_name(Self::spec_is_little()),
    ;

    /// The byte order's short name (capitals).
    fn short_name() -> (s: &'static str)
        ensures
            s@ == spec_short_name(Self::spec_is_little()),
    ;
}

/// The long name of a byte order.
pub open spec fn spec_long_name(little: bool) -> Seq<char> {
    if little {
        "little-endian"@
    } else {
        "big-endian"@
    }
}

/// The short name of a byte order.
pub open spec fn spec_short_name(little: bool) -> Seq<char> {
    if little {
        "LE"@
    } else {
        "BE"@
    }
}

/// Big-endian byte order: most significant byte first.
#[derive(Debug, Default, Copy, Clone, PartialEq, Eq, Structural)]
pub struct BigEndian;

impl Endianness for BigEndian {
    open spec fn spec_is_little() -> bool {
        false
    }

    fn is_little() -> (b: bool) {
        false
    }

    fn long_name() -> (s: &'static str) {
        "big-endian"
    }

    fn short_name() -> (s: &'static str) {
        "BE"
    }
}

/// Little-endian byte order: least significant byte first.
#[derive(Debug, Default, Copy, Clone, PartialEq, Eq, Structural)]
pub struct LittleEndian;

impl Endianness for LittleEndian {
    open spec fn spec_is_little() -> bool {
        true
    }

    fn is_little() -> (b: bool) {
        true
    }

    fn long_name() -> (s: &'static str) {
        "little-endian"
    }

    fn short_name() -> (s: &'static str) {
        "LE"
    }
}

/// Decodes a little-endian byte slice of at most eight bytes.
pub fn le_value_of(bytes: &[u8]) -> (v: u64)
    requires
        bytes@.len() <= 8,
    ensures
        v as int == le_value(bytes@),
{
    proof {
        lemma_pow256_increases(bytes@.len() as nat, 8);
        assert(pow256(8) == 0x1_0000_0000_0000_0000) by {
            reveal_with_fuel(pow256, 9);
        }
    }
    let mut v: u64 = 0;
    let mut i: usize = bytes.len();
    while i > 0
        invariant
            i <= bytes@.len() <= 8,
            v as int == le_value(bytes@.skip(i as int)),
            pow256(8) == 0x1_0000_0000_0000_0000,
        decreases i,
    {
        i = i - 1;
        proof {
            assert(bytes@.skip(i as int).drop_first() =~= bytes@.skip(i as int + 1));
            lemma_le_value_bound(bytes@.skip(i as int));
            lemma_pow256_increases(bytes@.skip(i as int).len() as nat, 8);
        }
        v = (bytes[i] as u64) + 256 * v;
    }
    proof {
        assert(bytes@.skip(0) =~= bytes@);
    }
    v
}

/// Decodes a big-endian byte slice of at most eight bytes.
pub fn be_value_of(bytes: &[u8]) -> (v: u64)
    requires
        bytes@.len() <= 8,
    ensures
        v as int == be_value(bytes@),
{
    proof {
        assert(pow256(8) == 0x1_0000_0000_0000_0000) by {
            reveal_with_fuel(pow256, 9);
        }
        assert(bytes@.take(0) =~= Seq::<u8>::empty());
    }
    let mut v: u64 = 0;
    let mut i: usize = 0;
    let n = bytes.len();
    while i < n
        invariant
            i <= n == bytes@.len() <= 8,
            v as int == be_value(bytes@.take(i as int)),
            pow256(8) == 0x1_0000_0000_0000_0000,
        decreases n - i,
    {
        proof {
            assert(bytes@.take(i as int + 1).drop_last() =~= bytes@.take(i as int));
            assert(bytes@.take(i as int + 1).last() == bytes@[i as int]);
            lemma_be_value_bound(bytes@.take(i as int + 1));
            lemma_pow256_increases(bytes@.take(i as int + 1).len() as nat, 8);
        }
        v = 256 * v + (bytes[i] as u64);
        i = i + 1;
    }
    proof {
        assert(bytes@.take(n as int) =~= bytes@);
    }
    v
}

/// Decodes a byte slice of at most eight bytes in the given order.
pub fn value_of(little: bool, bytes: &[u8]) -> (v: u64)
    requires
        bytes@.len() <= 8,
    ensures
        v as int == unsigned_value(little, bytes@),
{
    if little {
        le_value_of(bytes)
    } else {
        be_value_of(bytes)
    }
}

} // verus!

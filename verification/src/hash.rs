//! Byte arrays of a fixed width and the conversions between widths.

use crate::hex::{decode, decode_spec, encode, encoded, ExpectedLen, HexError};
use crate::uint::{be_value, Uint};
use vstd::prelude::*;
use vstd::string::*;

verus! {

/// A value of exactly `N` bytes, compared and ordered byte by byte.
#[derive(Clone, Copy, Debug, Eq, Ord, Hash)]
pub struct FixedHash<const N: usize> {
    pub bytes: [u8; N],
}

pub type H32 = FixedHash<4>;

pub type H64 = FixedHash<8>;

pub type H128 = FixedHash<16>;

pub type H160 = FixedHash<20>;

pub type H256 = FixedHash<32>;

pub type H264 = FixedHash<33>;

pub type H512 = FixedHash<64>;

pub type H520 = FixedHash<65>;

pub type H1024 = FixedHash<128>;

impl<const N: usize> View for FixedHash<N> {
    type V = Seq<u8>;

    open spec fn view(&self) -> Seq<u8> {
        self.bytes@
    }
}

/// The sequence of `n` zero bytes.
pub open spec fn zeros(n: nat) -> Seq<u8> {
    Seq::new(n, |i: int| 0u8)
}

/// The 20 low-order bytes of a 32-byte value: those at offsets 12 to 31.
pub open spec fn low_160(s: Seq<u8>) -> Seq<u8> {
    s.subrange(12, 32)
}

/// The 8 bytes of a 32-byte value at offsets 20 to 27.
pub open spec fn window_64(s: Seq<u8>) -> Seq<u8> {
    s.subrange(20, 28)
}

/// A 20-byte value widened to 32 bytes: twelve zero bytes in front of it.
pub open spec fn widen_160(s: Seq<u8>) -> Seq<u8> {
    zeros(12) + s
}

impl<const N: usize> FixedHash<N> {
    /// The value whose bytes are all zero.
    pub fn new() -> (r: Self)
        ensures
            r@ == zeros(N as nat),
    {
        let r = FixedHash { bytes: [0u8; N] };
        assert(r@ =~= zeros(N as nat));
        r
    }

    /// The value that holds the given bytes.
    pub fn from_bytes(bytes: [u8; N]) -> (r: Self)
        ensures
            r@ == bytes@,
    {
        FixedHash { bytes }
    }

    /// The value that holds the bytes of a slice of the same width.
    pub fn from_slice(src: &[u8]) -> (r: Self)
        requires
            src@.len() == N,
        ensures
            r@ == src@,
    {
        let mut bytes = [0u8; N];
        let mut i: usize = 0;
        while i < N
            invariant
                i <= N,
                src@.len() == N,
                forall|k: int| 0 <= k < i ==> bytes@[k] == src@[k],
            decreases N - i,
        {
            bytes[i] = src[i];
            i += 1;
        }
        assert(bytes@ =~= src@);
        FixedHash { bytes }
    }

    /// The text form: `0x` and two lowercase digits for each byte.
    pub fn to_hex(&self) -> (text: Vec<u8>)
        ensures
            text@ == encoded(self@),
            text@.len() == 2 + 2 * N,
    {
        encode(self.bytes.as_slice())
    }

    /// The value that a text stands for. The text has to hold `0x` and
    /// exactly two digits for each of the `N` bytes, in either case.
    pub fn from_hex(text: &[u8]) -> (r: Result<Self, HexError>)
        ensures
            match r {
                Ok(h) => decode_spec(text@, ExpectedLen::Exact(N)) == Ok::<Seq<u8>, HexError>(h@),
                Err(e) => decode_spec(text@, ExpectedLen::Exact(N)) == Err::<Seq<u8>, HexError>(
                    e,
                ),
            },
    {
        match decode(text, ExpectedLen::Exact(N)) {
            Ok(bytes) => Ok(Self::from_slice(bytes.as_slice())),
            Err(e) => Err(e),
        }
    }

    /// The value that a text stands for, as `from_hex` reads the text's bytes.
    pub fn from_hex_str(text: &str) -> (r: Result<Self, HexError>)
        ensures
            match r {
                Ok(h) => decode_spec(text.spec_bytes(), ExpectedLen::Exact(N)) == Ok::<
                    Seq<u8>,
                    HexError,
                >(h@),
                Err(e) => decode_spec(text.spec_bytes(), ExpectedLen::Exact(N)) == Err::<
                    Seq<u8>,
                    HexError,
                >(e),
            },
    {
        Self::from_hex(text.as_bytes())
    }

    /// The width in bytes.
    pub fn len() -> (n: usize)
        ensures
            n == N,
    {
        N
    }

    /// The bytes, most significant first.
    pub fn as_bytes(&self) -> (r: &[u8])
        ensures
            r@ == self@,
    {
        self.bytes.as_slice()
    }

    /// The byte at offset `i`.
    pub fn byte(&self, i: usize) -> (b: u8)
        requires
            i < N,
        ensures
            b == self@[i as int],
    {
        self.bytes[i]
    }

    /// The bytes at the offsets `from` up to, not including, `to`.
    pub fn range(&self, from: usize, to: usize) -> (r: &[u8])
        requires
            from <= to <= N,
        ensures
            r@ == self@.subrange(from as int, to as int),
    {
        vstd::slice::slice_subrange(self.bytes.as_slice(), from, to)
    }

    /// Whether every byte is zero.
    pub fn is_zero(&self) -> (r: bool)
        ensures
            r <==> self@ == zeros(N as nat),
    {
        let mut i: usize = 0;
        while i < N
            invariant
                i <= N,
                forall|k: int| 0 <= k < i ==> self@[k] == 0u8,
            decreases N - i,
        {
            if self.bytes[i] != 0 {
                assert(zeros(N as nat)[i as int] == 0u8);
                return false;
            }
            i += 1;
        }
        assert(self@ =~= zeros(N as nat));
        true
    }
}

impl<const N: usize> PartialEq for FixedHash<N> {
    /// Whether the two values hold the same bytes.
    fn eq(&self, other: &Self) -> (r: bool) {
        let mut i: usize = 0;
        while i < N
            invariant
                i <= N,
                forall|k: int| 0 <= k < i ==> self@[k] == other@[k],
            decreases N - i,
        {
            if self.bytes[i] != other.bytes[i] {
                return false;
            }
            i += 1;
        }
        assert(self@ =~= other@);
        true
    }
}

impl<const N: usize> vstd::std_specs::cmp::PartialEqSpecImpl for FixedHash<N> {
    open spec fn obeys_eq_spec() -> bool {
        true
    }

    open spec fn eq_spec(&self, other: &Self) -> bool {
        self@ == other@
    }
}

impl<const N: usize> Default for FixedHash<N> {
    /// The value whose bytes are all zero.
    fn default() -> (r: Self)
        ensures
            r@ == zeros(N as nat),
    {
        Self::new()
    }
}

impl FixedHash<32> {
    /// The legacy lossy narrowing to 20 bytes: the bytes at offsets 12 to 31
    /// are kept and the first twelve are dropped.
    pub fn to_low_h160(&self) -> (r: FixedHash<20>)
        ensures
            r@ == low_160(self@),
    {
        FixedHash::<20>::from_slice(self.range(12, 32))
    }

    /// The legacy lossy narrowing to 8 bytes: the bytes at offsets 20 to 27
    /// are kept, which are not the lowest eight.
    pub fn to_window_h64(&self) -> (r: FixedHash<8>)
        ensures
            r@ == window_64(self@),
    {
        FixedHash::<8>::from_slice(self.range(20, 28))
    }

    /// The lossless widening of a 20-byte value: twelve zero bytes, then the
    /// value.
    pub fn from_h160(value: &FixedHash<20>) -> (r: Self)
        ensures
            r@ == widen_160(value@),
    {
        let mut bytes = [0u8; 32];
        let mut i: usize = 0;
        while i < 20
            invariant
                i <= 20,
                forall|k: int| 0 <= k < 12 ==> bytes@[k] == 0u8,
                forall|k: int| 0 <= k < i ==> bytes@[12 + k] == value@[k],
            decreases 20 - i,
        {
            bytes[12 + i] = value.bytes[i];
            i += 1;
        }
        assert(bytes@ =~= widen_160(value@));
        FixedHash { bytes }
    }
}

/// Twelve zero bytes followed by the first `k` bytes of `value`, the rest zero.
pub open spec fn widened_bytes(value: [u8; 20], k: nat) -> [u8; 32]
    decreases k,
{
    if k == 0 {
        vstd::array::spec_array_fill_for_copy_type::<u8, 32>(0u8)
    } else {
        vstd::array::spec_array_update(
            widened_bytes(value, (k - 1) as nat),
            (11 + k) as int,
            value@[k - 1],
        )
    }
}

/// The 32-byte value that a 20-byte value widens to.
pub open spec fn widened(value: FixedHash<20>) -> FixedHash<32> {
    FixedHash { bytes: widened_bytes(value.bytes, 20) }
}

proof fn lemma_widened_bytes(value: [u8; 20], k: nat)
    requires
        k <= 20,
    ensures
        forall|i: int|
            0 <= i < 32 ==> #[trigger] widened_bytes(value, k)@[i] == if 12 <= i < 12 + k {
                value@[i - 12]
            } else {
                0u8
            },
    decreases k,
{
    if k > 0 {
        let before = widened_bytes(value, (k - 1) as nat);
        lemma_widened_bytes(value, (k - 1) as nat);
        vstd::array::axiom_spec_array_update(before, (11 + k) as int, value@[k - 1]);
        assert(widened_bytes(value, k)@ == before@.update((11 + k) as int, value@[k - 1]));
    } else {
        vstd::array::axiom_spec_array_fill_for_copy_type::<u8, 32>(0u8);
    }
}

/// The bytes of a widened value are twelve zero bytes and then the value.
pub proof fn lemma_widened(value: FixedHash<20>)
    ensures
        widened(value)@ == widen_160(value@),
{
    lemma_widened_bytes(value.bytes, 20);
    assert(widened(value)@ =~= widen_160(value@));
}

impl From<FixedHash<20>> for FixedHash<32> {
    fn from(value: FixedHash<20>) -> (r: Self) {
        let r = FixedHash::<32>::from_h160(&value);
        proof {
            let c = widened(value);
            lemma_widened(value);
            assert(c.bytes@ =~= r.bytes@);
            assert(c.bytes =~= r.bytes);
        }
        r
    }
}

impl vstd::std_specs::convert::FromSpecImpl<FixedHash<20>> for FixedHash<32> {
    open spec fn obeys_from_spec() -> bool {
        true
    }

    open spec fn from_spec(value: FixedHash<20>) -> Self {
        widened(value)
    }
}

impl<'a> From<&'a FixedHash<20>> for FixedHash<32> {
    fn from(value: &'a FixedHash<20>) -> (r: Self) {
        let r = FixedHash::<32>::from_h160(value);
        proof {
            let c = widened(*value);
            lemma_widened(*value);
            assert(c.bytes@ =~= r.bytes@);
            assert(c.bytes =~= r.bytes);
        }
        r
    }
}

impl<'a> vstd::std_specs::convert::FromSpecImpl<&'a FixedHash<20>> for FixedHash<32> {
    open spec fn obeys_from_spec() -> bool {
        true
    }

    open spec fn from_spec(value: &'a FixedHash<20>) -> Self {
        widened(*value)
    }
}

/// Widening loses nothing: narrowing a widened 20-byte value gives it back.
pub proof fn lemma_widen_then_narrow(a: FixedHash<20>)
    ensures
        low_160(widened(a)@) == a@,
{
    lemma_widened(a);
    assert(low_160(widen_160(a@)) =~= a@);
}

/// Narrowing loses the first twelve bytes: widening a narrowed value gives it
/// back with those bytes zero.
pub proof fn lemma_narrow_then_widen(h: Seq<u8>)
    requires
        h.len() == 32,
    ensures
        widen_160(low_160(h)) == zeros(12) + h.subrange(12, 32),
        widen_160(low_160(h)) == h <==> h.subrange(0, 12) == zeros(12),
{
    if h.subrange(0, 12) == zeros(12) {
        assert(widen_160(low_160(h)) =~= h);
    }
    if widen_160(low_160(h)) == h {
        assert(h.subrange(0, 12) =~= zeros(12));
    }
}

/// The byte array that holds an integer's bytes, most significant first.
pub open spec fn hash_of<const N: usize>(x: Uint<N>) -> FixedHash<N> {
    FixedHash { bytes: x.bytes }
}

/// The integer that a byte array stands for, read most significant byte first.
pub open spec fn uint_of<const N: usize>(h: FixedHash<N>) -> Uint<N> {
    Uint { bytes: h.bytes }
}

/// A byte array and the integer of its width stand for each other: each
/// conversion undoes the other, and the array's bytes are the integer's
/// big-endian form.
pub proof fn lemma_integer_round_trip<const N: usize>(x: Uint<N>, h: FixedHash<N>)
    ensures
        uint_of(hash_of(x)) == x,
        hash_of(uint_of(h)) == h,
        be_value(hash_of(x)@) == x@,
        uint_of(h)@ == be_value(h@),
{
}

impl From<Uint<16>> for FixedHash<16> {
    fn from(value: Uint<16>) -> (r: Self) {
        FixedHash { bytes: value.to_big_endian() }
    }
}

impl vstd::std_specs::convert::FromSpecImpl<Uint<16>> for FixedHash<16> {
    open spec fn obeys_from_spec() -> bool {
        true
    }

    open spec fn from_spec(value: Uint<16>) -> Self {
        hash_of(value)
    }
}

impl<'a> From<&'a Uint<16>> for FixedHash<16> {
    fn from(value: &'a Uint<16>) -> (r: Self) {
        FixedHash { bytes: value.to_big_endian() }
    }
}

impl<'a> vstd::std_specs::convert::FromSpecImpl<&'a Uint<16>> for FixedHash<16> {
    open spec fn obeys_from_spec() -> bool {
        true
    }

    open spec fn from_spec(value: &'a Uint<16>) -> Self {
        hash_of(*value)
    }
}

impl From<FixedHash<16>> for Uint<16> {
    fn from(value: FixedHash<16>) -> (r: Self) {
        let r = Uint::<16>::from_big_endian(value.as_bytes());
        proof {
            assert(r.bytes@ =~= value.bytes@);
            assert(r.bytes =~= value.bytes);
        }
        r
    }
}

impl vstd::std_specs::convert::FromSpecImpl<FixedHash<16>> for Uint<16> {
    open spec fn obeys_from_spec() -> bool {
        true
    }

    open spec fn from_spec(value: FixedHash<16>) -> Self {
        uint_of(value)
    }
}

impl<'a> From<&'a FixedHash<16>> for Uint<16> {
    fn from(value: &'a FixedHash<16>) -> (r: Self) {
        let r = Uint::<16>::from_big_endian(value.as_bytes());
        proof {
            assert(r.bytes@ =~= value.bytes@);
            assert(r.bytes =~= value.bytes);
        }
        r
    }
}

impl<'a> vstd::std_specs::convert::FromSpecImpl<&'a FixedHash<16>> for Uint<16> {
    open spec fn obeys_from_spec() -> bool {
        true
    }

    open spec fn from_spec(value: &'a FixedHash<16>) -> Self {
        uint_of(*value)
    }
}

impl From<Uint<32>> for FixedHash<32> {
    fn from(value: Uint<32>) -> (r: Self) {
        FixedHash { bytes: value.to_big_endian() }
    }
}

impl vstd::std_specs::convert::FromSpecImpl<Uint<32>> for FixedHash<32> {
    open spec fn obeys_from_spec() -> bool {
        true
    }

    open spec fn from_spec(value: Uint<32>) -> Self {
        hash_of(value)
    }
}

impl<'a> From<&'a Uint<32>> for FixedHash<32> {
    fn from(value: &'a Uint<32>) -> (r: Self) {
        FixedHash { bytes: value.to_big_endian() }
    }
}

impl<'a> vstd::std_specs::convert::FromSpecImpl<&'a Uint<32>> for FixedHash<32> {
    open spec fn obeys_from_spec() -> bool {
        true
    }

    open spec fn from_spec(value: &'a Uint<32>) -> Self {
        hash_of(*value)
    }
}

impl From<FixedHash<32>> for Uint<32> {
    fn from(value: FixedHash<32>) -> (r: Self) {
        let r = Uint::<32>::from_big_endian(value.as_bytes());
        proof {
            assert(r.bytes@ =~= value.bytes@);
            assert(r.bytes =~= value.bytes);
        }
        r
    }
}

impl vstd::std_specs::convert::FromSpecImpl<FixedHash<32>> for Uint<32> {
    open spec fn obeys_from_spec() -> bool {
        true
    }

    open spec fn from_spec(value: FixedHash<32>) -> Self {
        uint_of(value)
    }
}

impl<'a> From<&'a FixedHash<32>> for Uint<32> {
    fn from(value: &'a FixedHash<32>) -> (r: Self) {
        let r = Uint::<32>::from_big_endian(value.as_bytes());
        proof {
            assert(r.bytes@ =~= value.bytes@);
            assert(r.bytes =~= value.bytes);
        }
        r
    }
}

impl<'a> vstd::std_specs::convert::FromSpecImpl<&'a FixedHash<32>> for Uint<32> {
    open spec fn obeys_from_spec() -> bool {
        true
    }

    open spec fn from_spec(value: &'a FixedHash<32>) -> Self {
        uint_of(*value)
    }
}

impl From<Uint<64>> for FixedHash<64> {
    fn from(value: Uint<64>) -> (r: Self) {
        FixedHash { bytes: value.to_big_endian() }
    }
}

impl vstd::std_specs::convert::FromSpecImpl<Uint<64>> for FixedHash<64> {
    open spec fn obeys_from_spec() -> bool {
        true
    }

    open spec fn from_spec(value: Uint<64>) -> Self {
        hash_of(value)
    }
}

impl<'a> From<&'a Uint<64>> for FixedHash<64> {
    fn from(value: &'a Uint<64>) -> (r: Self) {
        FixedHash { bytes: value.to_big_endian() }
    }
}

impl<'a> vstd::std_specs::convert::FromSpecImpl<&'a Uint<64>> for FixedHash<64> {
    open spec fn obeys_from_spec() -> bool {
        true
    }

    open spec fn from_spec(value: &'a Uint<64>) -> Self {
        hash_of(*value)
    }
}

impl From<FixedHash<64>> for Uint<64> {
    fn from(value: FixedHash<64>) -> (r: Self) {
        let r = Uint::<64>::from_big_endian(value.as_bytes());
        proof {
            assert(r.bytes@ =~= value.bytes@);
            assert(r.bytes =~= value.bytes);
        }
        r
    }
}

impl vstd::std_specs::convert::FromSpecImpl<FixedHash<64>> for Uint<64> {
    open spec fn obeys_from_spec() -> bool {
        true
    }

    open spec fn from_spec(value: FixedHash<64>) -> Self {
        uint_of(value)
    }
}

impl<'a> From<&'a FixedHash<64>> for Uint<64> {
    fn from(value: &'a FixedHash<64>) -> (r: Self) {
        let r = Uint::<64>::from_big_endian(value.as_bytes());
        proof {
            assert(r.bytes@ =~= value.bytes@);
            assert(r.bytes =~= value.bytes);
        }
        r
    }
}

impl<'a> vstd::std_specs::convert::FromSpecImpl<&'a FixedHash<64>> for Uint<64> {
    open spec fn obeys_from_spec() -> bool {
        true
    }

    open spec fn from_spec(value: &'a FixedHash<64>) -> Self {
        uint_of(*value)
    }
}

} // verus!

//! Unsigned integers of a fixed width, held as their big-endian bytes.

use crate::hex::{decode, decode_spec, encode, encoded, ExpectedLen, HexError};
use vstd::prelude::*;

verus! {

/// An unsigned integer of `N` bytes, most significant byte first.
#[derive(Clone, Copy, Debug, Eq, PartialOrd, Ord, Hash)]
pub struct Uint<const N: usize> {
    pub bytes: [u8; N],
}

pub type U128 = Uint<16>;

pub type U256 = Uint<32>;

pub type U512 = Uint<64>;

/// Why a decimal text was not parsed.
#[derive(Clone, Copy, Debug, PartialEq, Eq, Structural)]
pub enum FromDecStrErr {
    /// A character is not in the range 0 to 9.
    InvalidCharacter,
    /// The number does not fit the width.
    InvalidLength,
}

/// 256 to the power `n`.
pub open spec fn pow256(n: nat) -> nat
    decreases n,
{
    if n == 0 {
        1
    } else {
        256 * pow256((n - 1) as nat)
    }
}

/// The number that a byte sequence stands for, most significant byte first.
pub open spec fn be_value(s: Seq<u8>) -> nat
    decreases s.len(),
{
    if s.len() == 0 {
        0
    } else {
        256 * be_value(s.drop_last()) + s.last() as nat
    }
}

/// The value of a decimal digit; another character counts as zero.
pub open spec fn dec_digit(c: char) -> nat {
    if '0' <= c <= '9' {
        (c as u32 - 48) as nat
    } else {
        0
    }
}

/// Whether every character is a decimal digit.
pub open spec fn all_dec_digits(s: Seq<char>) -> bool {
    forall|i: int| 0 <= i < s.len() ==> '0' <= #[trigger] s[i] <= '9'
}

/// The number that a run of decimal digits stands for; the empty run stands for zero.
pub open spec fn dec_value(s: Seq<char>) -> nat
    decreases s.len(),
{
    if s.len() == 0 {
        0
    } else {
        10 * dec_value(s.drop_last()) + dec_digit(s.last())
    }
}

/// What parsing a decimal text into `n` bytes gives: the number, or the
/// reason why there is none. A wrong character is reported before the size.
pub open spec fn dec_parse(text: Seq<char>, n: nat) -> Result<nat, FromDecStrErr> {
    if !all_dec_digits(text) {
        Err(FromDecStrErr::InvalidCharacter)
    } else if dec_value(text) >= pow256(n) {
        Err(FromDecStrErr::InvalidLength)
    } else {
        Ok(dec_value(text))
    }
}

/// A byte sequence with zero bytes in front, up to the length `n`.
pub open spec fn left_padded(s: Seq<u8>, n: nat) -> Seq<u8> {
    Seq::new((n - s.len()) as nat, |i: int| 0u8) + s
}

impl<const N: usize> View for Uint<N> {
    type V = nat;

    open spec fn view(&self) -> nat {
        be_value(self.bytes@)
    }
}

impl<const N: usize> PartialEq for Uint<N> {
    /// Whether the two integers are the same number.
    fn eq(&self, other: &Self) -> (r: bool) {
        let mut i: usize = 0;
        while i < N
            invariant
                i <= N,
                forall|k: int| 0 <= k < i ==> self.bytes@[k] == other.bytes@[k],
            decreases N - i,
        {
            if self.bytes[i] != other.bytes[i] {
                proof {
                    if self@ == other@ {
                        lemma_be_value_injective(self.bytes@, other.bytes@);
                    }
                }
                return false;
            }
            i += 1;
        }
        assert(self.bytes@ =~= other.bytes@);
        true
    }
}

impl<const N: usize> vstd::std_specs::cmp::PartialEqSpecImpl for Uint<N> {
    open spec fn obeys_eq_spec() -> bool {
        true
    }

    open spec fn eq_spec(&self, other: &Self) -> bool {
        self@ == other@
    }
}

/// A byte in front of a sequence adds its value at the sequence's length.
pub proof fn lemma_be_value_prepend(b: u8, s: Seq<u8>)
    ensures
        be_value(seq![b] + s) == b as nat * pow256(s.len()) + be_value(s),
    decreases s.len(),
{
    let t = seq![b] + s;
    if s.len() == 0 {
        assert(t.drop_last() =~= Seq::<u8>::empty());
        assert(be_value(t.drop_last()) == 0);
        assert(t.last() == b);
        assert(pow256(0) == 1);
        assert(be_value(s) == 0);
    } else {
        lemma_be_value_prepend(b, s.drop_last());
        assert(t.drop_last() =~= seq![b] + s.drop_last());
        assert(t.last() == s.last());
        let p = pow256((s.len() - 1) as nat);
        let v = be_value(s.drop_last());
        assert(pow256(s.len()) == 256 * p);
        assert(256 * (b as nat * p + v) == b as nat * (256 * p) + 256 * v) by (nonlinear_arith);
    }
}

/// A sequence of `n` bytes stands for a number below 256 to the power `n`.
pub proof fn lemma_be_value_bound(s: Seq<u8>)
    ensures
        be_value(s) < pow256(s.len()),
    decreases s.len(),
{
    if s.len() > 0 {
        lemma_be_value_bound(s.drop_last());
    }
}

/// Zero bytes in front do not change the number.
pub proof fn lemma_be_value_left_padded(s: Seq<u8>, n: nat)
    requires
        s.len() <= n,
    ensures
        be_value(left_padded(s, n)) == be_value(s),
        left_padded(s, n).len() == n,
    decreases n - s.len(),
{
    if s.len() < n {
        let t = seq![0u8] + s;
        lemma_be_value_prepend(0u8, s);
        lemma_be_value_left_padded(t, n);
        assert(left_padded(t, n) =~= left_padded(s, n));
        assert(0 * pow256(s.len()) == 0);
    } else {
        assert(left_padded(s, n) =~= s);
    }
}

/// Two byte sequences of one length that stand for the same number are equal.
pub proof fn lemma_be_value_injective(a: Seq<u8>, b: Seq<u8>)
    requires
        a.len() == b.len(),
        be_value(a) == be_value(b),
    ensures
        a == b,
    decreases a.len(),
{
    if a.len() > 0 {
        lemma_be_value_injective(a.drop_last(), b.drop_last());
        assert(a =~= a.drop_last().push(a.last()));
        assert(b =~= b.drop_last().push(b.last()));
    } else {
        assert(a =~= b);
    }
}

/// A run of digits stands for at least what each of its prefixes stands for.
pub proof fn lemma_dec_value_prefix(s: Seq<char>, k: int)
    requires
        0 <= k <= s.len(),
    ensures
        dec_value(s.subrange(0, k)) <= dec_value(s),
    decreases s.len() - k,
{
    if k < s.len() {
        lemma_dec_value_prefix(s.drop_last(), k);
        assert(s.drop_last().subrange(0, k) =~= s.subrange(0, k));
    } else {
        assert(s.subrange(0, k) =~= s);
    }
}

impl<const N: usize> Uint<N> {
    /// The number zero.
    pub fn zero() -> (r: Self)
        ensures
            r@ == 0,
            r.bytes@ == Seq::new(N as nat, |i: int| 0u8),
    {
        let r = Uint { bytes: [0u8; N] };
        proof {
            let e = Seq::<u8>::empty();
            lemma_be_value_left_padded(e, N as nat);
            assert(r.bytes@ =~= left_padded(e, N as nat));
            assert(r.bytes@ =~= Seq::new(N as nat, |i: int| 0u8));
        }
        r
    }

    /// Whether the number is zero.
    pub fn is_zero(&self) -> (r: bool)
        ensures
            r <==> self@ == 0,
    {
        let mut i: usize = 0;
        while i < N
            invariant
                i <= N,
                forall|k: int| 0 <= k < i ==> self.bytes@[k] == 0u8,
            decreases N - i,
        {
            if self.bytes[i] != 0 {
                proof {
                    let z = Seq::new(N as nat, |i: int| 0u8);
                    if self@ == 0 {
                        let e = Seq::<u8>::empty();
                        lemma_be_value_left_padded(e, N as nat);
                        assert(z =~= left_padded(e, N as nat));
                        lemma_be_value_injective(self.bytes@, z);
                        assert(z[i as int] == 0u8);
                    }
                }
                return false;
            }
            i += 1;
        }
        proof {
            let e = Seq::<u8>::empty();
            lemma_be_value_left_padded(e, N as nat);
            assert(self.bytes@ =~= left_padded(e, N as nat));
        }
        true
    }

    /// The number that up to `N` bytes stand for, most significant byte first.
    pub fn from_big_endian(slice: &[u8]) -> (r: Self)
        requires
            slice@.len() <= N,
        ensures
            r@ == be_value(slice@),
            r.bytes@ == left_padded(slice@, N as nat),
    {
        let mut bytes = [0u8; N];
        let n: usize = slice.len();
        let start: usize = N - n;
        let mut i: usize = 0;
        while i < n
            invariant
                i <= n,
                n == slice@.len(),
                start == N - n,
                n <= N,
                forall|k: int| 0 <= k < start ==> bytes@[k] == 0u8,
                forall|k: int| 0 <= k < i ==> bytes@[start + k] == slice@[k],
            decreases n - i,
        {
            bytes[start + i] = slice[i];
            i += 1;
        }
        proof {
            assert(bytes@ =~= left_padded(slice@, N as nat));
            lemma_be_value_left_padded(slice@, N as nat);
        }
        Uint { bytes }
    }

    /// The `N` bytes of the number, most significant first.
    pub fn to_big_endian(&self) -> (r: [u8; N])
        ensures
            r == self.bytes,
            be_value(r@) == self@,
    {
        self.bytes
    }

    /// The text form of the number's bytes: `0x` and two lowercase digits for
    /// each of the `N` bytes, leading zeros included.
    pub fn to_hex(&self) -> (text: Vec<u8>)
        ensures
            text@ == encoded(self.bytes@),
            text@.len() == 2 + 2 * N,
    {
        encode(self.bytes.as_slice())
    }

    /// The number that a text of full width stands for: `0x` and exactly two
    /// digits for each of the `N` bytes.
    pub fn from_hex(text: &[u8]) -> (r: Result<Self, HexError>)
        ensures
            match r {
                Ok(x) => decode_spec(text@, ExpectedLen::Exact(N)) == Ok::<Seq<u8>, HexError>(
                    x.bytes@,
                ),
                Err(e) => decode_spec(text@, ExpectedLen::Exact(N)) == Err::<Seq<u8>, HexError>(
                    e,
                ),
            },
    {
        match decode(text, ExpectedLen::Exact(N)) {
            Ok(bytes) => {
                let x = Self::from_big_endian(bytes.as_slice());
                assert(x.bytes@ =~= bytes@);
                Ok(x)
            },
            Err(e) => Err(e),
        }
    }

    /// Ten times the number plus a digit, with what does not fit the width
    /// returned as the carry.
    pub fn mul10_add(&self, digit: u8) -> (r: (Self, u8))
        requires
            digit <= 9,
        ensures
            r.1 <= 9,
            r.1 as nat * pow256(N as nat) + r.0@ == 10 * self@ + digit as nat,
    {
        let mut bytes = self.bytes;
        let mut carry: u16 = digit as u16;
        let mut i: usize = N;
        let ghost before = self.bytes@;
        proof {
            assert(bytes@.subrange(N as int, N as int) =~= Seq::<u8>::empty());
            assert(before.subrange(N as int, N as int) =~= Seq::<u8>::empty());
            assert(pow256((N - i) as nat) == 1);
            assert(carry as nat * pow256((N - i) as nat) == carry as nat) by (nonlinear_arith)
                requires
                    pow256((N - i) as nat) == 1,
            ;
            assert(be_value(Seq::<u8>::empty()) == 0);
        }
        while i > 0
            invariant
                i <= N,
                carry <= 9,
                before == self.bytes@,
                bytes@.subrange(0, i as int) == before.subrange(0, i as int),
                be_value(bytes@.subrange(i as int, N as int)) + carry as nat * pow256(
                    (N - i) as nat,
                ) == 10 * be_value(before.subrange(i as int, N as int)) + digit as nat,
            decreases i,
        {
            let ghost prev = bytes@;
            let ghost c = carry as nat;
            i -= 1;
            assert(prev.subrange(0, i + 1)[i as int] == before.subrange(0, i + 1)[i as int]);
            let b: u8 = bytes[i];
            let t: u16 = 10 * (b as u16) + carry;
            let nb: u8 = (t % 256) as u8;
            carry = t / 256;
            bytes[i] = nb;
            proof {
                let p = pow256((N - i - 1) as nat);
                let new_tail = bytes@.subrange(i + 1, N as int);
                let old_tail = before.subrange(i + 1, N as int);
                assert(new_tail =~= prev.subrange(i + 1, N as int));
                assert(bytes@.subrange(i as int, N as int) =~= seq![nb] + new_tail);
                assert(before.subrange(i as int, N as int) =~= seq![b] + old_tail);
                lemma_be_value_prepend(nb, new_tail);
                lemma_be_value_prepend(b, old_tail);
                assert(bytes@.subrange(0, i as int) =~= before.subrange(0, i as int)) by {
                    assert forall|k: int| 0 <= k < i implies bytes@[k] == before[k] by {
                        assert(prev.subrange(0, i + 1)[k] == before.subrange(0, i + 1)[k]);
                    }
                }
                let v = be_value(new_tail);
                let o = be_value(old_tail);
                let nbn = nb as nat;
                let cn = carry as nat;
                let bn = b as nat;
                assert(nbn + 256 * cn == 10 * bn + c);
                assert(pow256((N - i) as nat) == 256 * p);
                assert(nbn * p + v + cn * (256 * p) == 10 * (bn * p + o) + digit as nat) by (nonlinear_arith)
                    requires
                        nbn + 256 * cn == 10 * bn + c,
                        v + c * p == 10 * o + digit as nat,
                ;
            }
        }
        proof {
            assert(bytes@.subrange(0, N as int) =~= bytes@);
            assert(before.subrange(0, N as int) =~= before);
        }
        (Uint { bytes }, carry as u8)
    }

    /// Parses a decimal text. The empty text stands for zero.
    pub fn from_dec_str(text: &str) -> (r: Result<Self, FromDecStrErr>)
        ensures
            match r {
                Ok(x) => dec_parse(text@, N as nat) == Ok::<nat, FromDecStrErr>(x@),
                Err(e) => dec_parse(text@, N as nat) == Err::<nat, FromDecStrErr>(e),
            },
    {
        let n: usize = text.unicode_len();
        let mut k: usize = 0;
        while k < n
            invariant
                k <= n,
                n == text@.len(),
                forall|j: int| 0 <= j < k ==> '0' <= #[trigger] text@[j] <= '9',
            decreases n - k,
        {
            let c: char = text.get_char(k);
            if !('0' <= c && c <= '9') {
                return Err(FromDecStrErr::InvalidCharacter);
            }
            k += 1;
        }
        let mut acc = Self::zero();
        k = 0;
        proof {
            assert(text@.subrange(0, 0) =~= Seq::<char>::empty());
        }
        while k < n
            invariant
                k <= n,
                n == text@.len(),
                all_dec_digits(text@),
                acc@ == dec_value(text@.subrange(0, k as int)),
            decreases n - k,
        {
            let c: char = text.get_char(k);
            let d: u8 = ((c as u32) - 48) as u8;
            let (next, carry) = acc.mul10_add(d);
            proof {
                let pre = text@.subrange(0, k + 1);
                assert(pre.drop_last() =~= text@.subrange(0, k as int));
                assert(pre.last() == c);
                assert(dec_value(pre) == 10 * acc@ + d as nat);
                lemma_dec_value_prefix(text@, k + 1);
                lemma_be_value_bound(next.bytes@);
                if carry > 0 {
                    assert(carry as nat * pow256(N as nat) >= pow256(N as nat)) by (nonlinear_arith)
                        requires
                            carry > 0,
                    ;
                } else {
                    assert(carry as nat * pow256(N as nat) == 0) by (nonlinear_arith)
                        requires
                            carry == 0,
                    ;
                }
            }
            if carry > 0 {
                return Err(FromDecStrErr::InvalidLength);
            }
            acc = next;
            k += 1;
        }
        proof {
            assert(text@.subrange(0, n as int) =~= text@);
            lemma_be_value_bound(acc.bytes@);
        }
        Ok(acc)
    }
}

} // verus!

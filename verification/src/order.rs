//! The order of byte arrays: byte by byte from the front, the first
//! difference deciding.

use crate::hash::FixedHash;
use core::cmp::Ordering;
use vstd::prelude::*;

verus! {

/// How two byte sequences of one length compare from the offset `from` on:
/// by their first difference there, and as equal if there is none.
pub open spec fn lex_order(a: Seq<u8>, b: Seq<u8>, from: int) -> Ordering
    decreases a.len() - from,
{
    if from < 0 || from >= a.len() {
        Ordering::Equal
    } else if a[from] < b[from] {
        Ordering::Less
    } else if a[from] > b[from] {
        Ordering::Greater
    } else {
        lex_order(a, b, from + 1)
    }
}

impl<const N: usize> PartialOrd for FixedHash<N> {
    /// Compares the two values byte by byte from the front.
    fn partial_cmp(&self, other: &Self) -> (r: Option<Ordering>) {
        let mut i: usize = 0;
        while i < N
            invariant
                i <= N,
                lex_order(self@, other@, 0) == lex_order(self@, other@, i + 0),
            decreases N - i,
        {
            if self.bytes[i] < other.bytes[i] {
                return Some(Ordering::Less);
            }
            if self.bytes[i] > other.bytes[i] {
                return Some(Ordering::Greater);
            }
            i += 1;
        }
        Some(Ordering::Equal)
    }
}

impl<const N: usize> vstd::std_specs::cmp::PartialOrdSpecImpl for FixedHash<N> {
    open spec fn obeys_partial_cmp_spec() -> bool {
        true
    }

    open spec fn partial_cmp_spec(&self, other: &Self) -> Option<Ordering> {
        Some(lex_order(self@, other@, 0))
    }
}

/// Two byte sequences of one length compare as equal exactly if they are
/// equal, and one is before the other exactly if the other is after it.
pub proof fn lemma_lex_order(a: Seq<u8>, b: Seq<u8>, from: int)
    requires
        a.len() == b.len(),
        0 <= from <= a.len(),
    ensures
        lex_order(a, b, from) == Ordering::Equal <==> a.skip(from) == b.skip(from),
        lex_order(a, b, from) == Ordering::Less <==> lex_order(b, a, from) == Ordering::Greater,
    decreases a.len() - from,
{
    if from < a.len() {
        lemma_lex_order(a, b, from + 1);
        assert(a.skip(from)[0] == a[from]);
        assert(b.skip(from)[0] == b[from]);
        if a[from] == b[from] {
            if a.skip(from + 1) == b.skip(from + 1) {
                assert(a.skip(from) =~= seq![a[from]] + a.skip(from + 1));
                assert(b.skip(from) =~= seq![b[from]] + b.skip(from + 1));
            }
            if a.skip(from) == b.skip(from) {
                assert(a.skip(from + 1) =~= a.skip(from).skip(1));
                assert(b.skip(from + 1) =~= b.skip(from).skip(1));
            }
        }
    } else {
        assert(a.skip(from) =~= b.skip(from));
    }
}

} // verus!

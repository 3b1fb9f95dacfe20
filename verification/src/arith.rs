//! Sums over sequences of integers, with the bounds the window statistics
//! need.

use vstd::prelude::*;

verus! {

/// The sum of a sequence of integers.
pub open spec fn seq_sum(s: Seq<int>) -> int
    decreases s.len(),
{
    if s.len() == 0 {
        0
    } else {
        s[0] + seq_sum(s.skip(1))
    }
}

/// Appending an element adds its value to the sum.
pub proof fn lemma_seq_sum_push(s: Seq<int>, x: int)
    ensures
        seq_sum(s.push(x)) == seq_sum(s) + x,
    decreases s.len(),
{
    if s.len() == 0 {
        assert(s.push(x) =~= seq![x]);
        assert(seq_sum(seq![x].skip(1)) == 0) by {
            assert(seq![x].skip(1) =~= Seq::<int>::empty());
        }
    } else {
        assert(s.push(x).skip(1) =~= s.skip(1).push(x));
        lemma_seq_sum_push(s.skip(1), x);
    }
}

/// A sequence whose elements all lie in `[-b, b]` has a sum in
/// `[-len * b, len * b]`.
pub proof fn lemma_seq_sum_bound(s: Seq<int>, b: int)
    requires
        b >= 0,
        forall|i: int| 0 <= i < s.len() ==> -b <= #[trigger] s[i] <= b,
    ensures
        -(s.len() * b) <= seq_sum(s) <= s.len() * b,
    decreases s.len(),
{
    if s.len() == 0 {
    } else {
        lemma_seq_sum_bound(s.skip(1), b);
        assert(s.len() * b == (s.len() - 1) * b + b) by (nonlinear_arith);
    }
}

/// A constant sequence sums to its length times the constant.
pub proof fn lemma_seq_sum_constant(s: Seq<int>, k: int)
    requires
        forall|i: int| 0 <= i < s.len() ==> #[trigger] s[i] == k,
    ensures
        seq_sum(s) == s.len() * k,
    decreases s.len(),
{
    if s.len() == 0 {
    } else {
        lemma_seq_sum_constant(s.skip(1), k);
        assert(s.len() * k == (s.len() - 1) * k + k) by (nonlinear_arith);
    }
}

} // verus!

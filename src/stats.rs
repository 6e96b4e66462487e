use vstd::prelude::*;
use vstd::relations::total_ordering;
use vstd::seq_lib::lemma_sorted_unique;

verus! {

pub open spec fn is_sorted(s: Seq<u64>) -> bool {
    forall|i: int, j: int| 0 <= i < j < s.len() ==> s[i] <= s[j]
}

/// The samples of `s` in ascending order.
pub open spec fn sorted_samples(s: Seq<u64>) -> Seq<u64> {
    choose|t: Seq<u64>| is_sorted(t) && t.to_multiset() == s.to_multiset()
}

/// Five-number summary of a set of latency samples, in nanoseconds.
#[derive(Debug, Clone, Copy, PartialEq, Eq, Structural)]
pub struct Quartiles {
    pub min: u64,
    pub q1: u64,
    pub median: u64,
    pub q3: u64,
    pub max: u64,
}

/// The `k`-th quartile (`k` in 1..=3) of the ascending samples `s`: linear
/// interpolation between the two closest ranks at rank `k * (n - 1) / 4`,
/// rounded down to the nanosecond.
pub open spec fn quartile_point(s: Seq<u64>, k: int) -> int {
    let r = k * (s.len() - 1);
    let lo = r / 4;
    let f = r % 4;
    if f == 0 {
        s[lo] as int
    } else {
        s[lo] + (s[lo + 1] - s[lo]) * f / 4
    }
}

/// The summary of ascending, non-empty samples.
pub open spec fn summary_of_sorted(s: Seq<u64>) -> Quartiles {
    Quartiles {
        min: s[0],
        q1: quartile_point(s, 1) as u64,
        median: quartile_point(s, 2) as u64,
        q3: quartile_point(s, 3) as u64,
        max: s[s.len() - 1],
    }
}

/// The summary of non-empty samples, taken in any order.
pub open spec fn quartiles_of(s: Seq<u64>) -> Quartiles {
    summary_of_sorted(sorted_samples(s))
}

/// Relies on `slice::sort_unstable`: afterwards the slice is in ascending
/// order and holds the same elements.
#[verifier::external_body]
fn sort_ascending(v: &mut Vec<u64>)
    ensures
        is_sorted(final(v)@),
        final(v)@.to_multiset() == old(v)@.to_multiset(),
{
    v.sort_unstable();
}

proof fn lemma_sorted_is_unique(t: Seq<u64>, s: Seq<u64>)
    requires
        is_sorted(t),
        t.to_multiset() == s.to_multiset(),
    ensures
        sorted_samples(s) == t,
{
    let u = sorted_samples(s);
    assert(is_sorted(u) && u.to_multiset() == s.to_multiset());
    let leq = |a: u64, b: u64| a <= b;
    assert(total_ordering(leq));
    assert(vstd::relations::sorted_by(t, leq));
    assert(vstd::relations::sorted_by(u, leq));
    lemma_sorted_unique(t, u, leq);
}

/// Shuffling the samples does not change their summary.
pub proof fn lemma_quartiles_order_independent(a: Seq<u64>, b: Seq<u64>)
    requires
        a.to_multiset() == b.to_multiset(),
    ensures
        quartiles_of(a) == quartiles_of(b),
{
    assert(sorted_samples(a) == sorted_samples(b));
}

fn quartile_at(s: &Vec<u64>, k: usize) -> (r: u64)
    requires
        s@.len() > 0,
        1 <= k <= 3,
        is_sorted(s@),
    ensures
        r as int == quartile_point(s@, k as int),
{
    let n = s.len();
    assert((k as u128) * ((n - 1) as u128) <= 3 * (n - 1)) by (nonlinear_arith)
        requires
            1 <= k <= 3,
            n >= 1,
    ;
    let r: u128 = (k as u128) * ((n - 1) as u128);
    assert(r / 4 < n) by (nonlinear_arith)
        requires
            r == k * (n - 1),
            1 <= k <= 3,
            n >= 1,
    ;
    let lo = (r / 4) as usize;
    let f = (r % 4) as u64;
    if f == 0 {
        s[lo]
    } else {
        assert(lo + 1 < n) by (nonlinear_arith)
            requires
                lo == r / 4,
                f == r % 4,
                f != 0,
                r == k * (n - 1),
                1 <= k <= 3,
                n >= 1,
        ;
        let a = s[lo];
        let b = s[lo + 1];
        assert(a <= b);
        assert(((b - a) as u128) * (f as u128) <= u128::MAX) by (nonlinear_arith)
            requires
                a <= b,
                f < 4,
        ;
        let d = ((b - a) as u128) * (f as u128) / 4;
        assert(d <= b - a) by (nonlinear_arith)
            requires
                d == (b - a) * f / 4,
                f < 4,
                a <= b,
        ;
        a + d as u64
    }
}

/// Min, quartiles and max of the samples, whatever their order; `None` when
/// there are none.
pub fn summarize(samples: &Vec<u64>) -> (r: Option<Quartiles>)
    ensures
        r is None <==> samples@.len() == 0,
        r is Some ==> r->0 == quartiles_of(samples@),
{
    if samples.len() == 0 {
        return None;
    }
    let mut s = samples.clone();
    assert(s@ == samples@);
    sort_ascending(&mut s);
    proof {
        lemma_sorted_is_unique(s@, samples@);
        s@.to_multiset_ensures();
        samples@.to_multiset_ensures();
    }
    assert(s@.len() == samples@.len());
    let n = s.len();
    Some(
        Quartiles {
            min: s[0],
            q1: quartile_at(&s, 1),
            median: quartile_at(&s, 2),
            q3: quartile_at(&s, 3),
            max: s[n - 1],
        },
    )
}

} // verus!

use vstd::prelude::*;
use itertools::Itertools;
use crate::stats::{Quartiles, quartiles_of, summarize};

verus! {

/// The two benchmarked routes: `/` and `/greeting/:name`.
#[derive(Debug, Clone, Copy, PartialEq, Eq, Structural)]
pub enum Endpoint {
    Index,
    Pattern,
}

impl Endpoint {
    pub open spec fn label_spec(self) -> Seq<char> {
        match self {
            Endpoint::Index => "Index URL Request"@,
            Endpoint::Pattern => "Pattern URL Request"@,
        }
    }

    /// Series name of the endpoint in charts and exports.
    pub fn label(self) -> (r: &'static str)
        ensures
            r@ == self.label_spec(),
    {
        match self {
            Endpoint::Index => "Index URL Request",
            Endpoint::Pattern => "Pattern URL Request",
        }
    }
}

/// Latency samples, in nanoseconds, measured on one endpoint of one target.
pub struct EndpointRun {
    pub title: String,
    pub endpoint: Endpoint,
    pub samples: Vec<u64>,
}

/// Quartile summary of one endpoint of one target.
pub struct Summary {
    pub title: String,
    pub endpoint: Endpoint,
    pub quartiles: Quartiles,
}

pub open spec fn summary_view(s: Summary) -> (Seq<char>, Endpoint, Quartiles) {
    (s.title@, s.endpoint, s.quartiles)
}

pub open spec fn summaries_view(s: Seq<Summary>) -> Seq<(Seq<char>, Endpoint, Quartiles)> {
    s.map_values(|x: Summary| summary_view(x))
}

/// The summaries of the runs that hold samples, in the runs' order; a run
/// without samples has nothing to summarize and is left out.
pub open spec fn summaries_of(runs: Seq<EndpointRun>) -> Seq<(Seq<char>, Endpoint, Quartiles)>
    decreases runs.len(),
{
    if runs.len() == 0 {
        Seq::empty()
    } else {
        let r = runs.last();
        let p = summaries_of(runs.drop_last());
        if r.samples@.len() > 0 {
            p.push((r.title@, r.endpoint, quartiles_of(r.samples@)))
        } else {
            p
        }
    }
}

/// Summarizes each run that holds samples.
pub fn aggregate(runs: &Vec<EndpointRun>) -> (r: Vec<Summary>)
    ensures
        summaries_view(r@) == summaries_of(runs@),
{
    let mut out: Vec<Summary> = Vec::new();
    let mut i: usize = 0;
    while i < runs.len()
        invariant
            i <= runs@.len(),
            summaries_view(out@) == summaries_of(runs@.take(i as int)),
        decreases runs.len() - i,
    {
        let run = &runs[i];
        assert(runs@.take(i as int + 1).drop_last() =~= runs@.take(i as int));
        let ghost before = out@;
        match summarize(&run.samples) {
            Some(q) => {
                out.push(Summary { title: run.title.clone(), endpoint: run.endpoint, quartiles: q });
                assert(summaries_view(out@) =~= summaries_view(before).push(
                    summary_view(out@.last()),
                ));
            },
            None => {},
        }
        i = i + 1;
    }
    assert(runs@.take(runs@.len() as int) =~= runs@);
    out
}

/// `i` is the first summary of its target.
pub open spec fn opens_title(v: Seq<(Seq<char>, Endpoint, Quartiles)>, i: int) -> bool {
    &&& 0 <= i < v.len()
    &&& forall|j: int| 0 <= j < i ==> v[j].0 != v[i].0
}

/// Category order: a higher median first; on equal medians, the target
/// met first in the data first.
pub open spec fn ranks_before(v: Seq<(Seq<char>, Endpoint, Quartiles)>, i: int, j: int) -> bool {
    ||| v[i].2.median > v[j].2.median
    ||| (v[i].2.median == v[j].2.median && i < j)
}

/// `c` lists each target once, by the index of its first summary, ordered
/// by the median of that first summary, highest first.
pub open spec fn is_category_order(v: Seq<(Seq<char>, Endpoint, Quartiles)>, c: Seq<usize>) -> bool {
    &&& forall|k: int| 0 <= k < c.len() ==> opens_title(v, #[trigger] c[k] as int)
    &&& forall|i: int| opens_title(v, i) ==> c.contains(i as usize)
    &&& forall|k1: int, k2: int|
        0 <= k1 < k2 < c.len() ==> ranks_before(v, #[trigger] c[k1] as int, #[trigger] c[k2] as int)
}

/// Indices, ascending, of those of the first `n` summaries that open their
/// target.
pub open spec fn title_openers(v: Seq<(Seq<char>, Endpoint, Quartiles)>, n: int) -> Seq<usize>
    decreases n,
{
    if n <= 0 {
        Seq::empty()
    } else {
        let p = title_openers(v, n - 1);
        if opens_title(v, n - 1) {
            p.push((n - 1) as usize)
        } else {
            p
        }
    }
}

/// Relies on itertools `unique_by`: the items in order, keeping the first
/// of each key (here the title) and dropping the later ones.
#[verifier::external_body]
fn first_of_each_title(s: &Vec<Summary>) -> (r: Vec<usize>)
    ensures
        r@ == title_openers(summaries_view(s@), s@.len() as int),
{
    s.iter().enumerate().unique_by(|(_, x)| x.title.clone()).map(|(i, _)| i).collect()
}

/// Compares two summaries by median, the higher one first.
fn by_median_descending(s: &Vec<Summary>, a: usize, b: usize) -> (r: std::cmp::Ordering)
    requires
        a < s@.len(),
        b < s@.len(),
    ensures
        r == std::cmp::Ordering::Less <==> s@[a as int].quartiles.median > s@[b as int].quartiles.median,
        r == std::cmp::Ordering::Greater <==> s@[a as int].quartiles.median < s@[
            b as int
        ].quartiles.median,
        r == std::cmp::Ordering::Equal <==> s@[a as int].quartiles.median == s@[
            b as int
        ].quartiles.median,
{
    let x = s[a].quartiles.median;
    let y = s[b].quartiles.median;
    if x > y {
        std::cmp::Ordering::Less
    } else if x < y {
        std::cmp::Ordering::Greater
    } else {
        std::cmp::Ordering::Equal
    }
}

pub open spec fn strictly_ascending(x: Seq<usize>) -> bool {
    forall|i: int, j: int| 0 <= i < j < x.len() ==> x[i] < x[j]
}

/// Relies on itertools `sorted_by`, a stable `slice::sort_by`: the same
/// indices ordered by their summaries' medians, highest first, with equal
/// medians left in their (ascending) input order.
#[verifier::external_body]
fn sort_by_median(s: &Vec<Summary>, idx: Vec<usize>) -> (r: Vec<usize>)
    requires
        strictly_ascending(idx@),
        forall|k: int| 0 <= k < idx@.len() ==> #[trigger] idx@[k] < s@.len(),
    ensures
        r@.to_multiset() == idx@.to_multiset(),
        forall|k1: int, k2: int|
            0 <= k1 < k2 < r@.len() ==> ranks_before(
                summaries_view(s@),
                #[trigger] r@[k1] as int,
                #[trigger] r@[k2] as int,
            ),
{
    idx.into_iter().sorted_by(|a, b| by_median_descending(s, *a, *b)).collect()
}

proof fn lemma_title_openers(v: Seq<(Seq<char>, Endpoint, Quartiles)>, n: int)
    requires
        0 <= n <= v.len(),
        v.len() <= usize::MAX,
    ensures
        strictly_ascending(title_openers(v, n)),
        forall|k: int|
            0 <= k < title_openers(v, n).len() ==> #[trigger] title_openers(v, n)[k] < n
                && opens_title(v, title_openers(v, n)[k] as int),
        forall|i: int| 0 <= i < n && opens_title(v, i) ==> title_openers(v, n).contains(i as usize),
    decreases n,
{
    if n > 0 {
        lemma_title_openers(v, n - 1);
        let p = title_openers(v, n - 1);
        let q = title_openers(v, n);
        if opens_title(v, n - 1) {
            assert(q == p.push((n - 1) as usize));
            assert forall|i: int| 0 <= i < n && opens_title(v, i) implies q.contains(i as usize) by {
                if i == n - 1 {
                    assert(q[p.len() as int] == i as usize);
                } else {
                    let k = choose|k: int| 0 <= k < p.len() && p[k] == i as usize;
                    assert(q[k] == i as usize);
                }
            }
        }
    }
}

/// The chart's category axis: each target once, ordered by the median of
/// its first summary, highest first; equal medians keep data order.
pub fn category_order(s: &Vec<Summary>) -> (r: Vec<usize>)
    ensures
        is_category_order(summaries_view(s@), r@),
{
    let ghost v = summaries_view(s@);
    let len = s.len();
    let firsts = first_of_each_title(s);
    proof {
        assert(v.len() == len);
        lemma_title_openers(v, s@.len() as int);
    }
    let ghost f = firsts@;
    let r = sort_by_median(s, firsts);
    proof {
        broadcast use vstd::seq_lib::group_to_multiset_ensures;

        assert forall|k: int| 0 <= k < r@.len() implies opens_title(v, #[trigger] r@[k] as int) by {
            assert(r@.contains(r@[k]));
            assert(r@.to_multiset().count(r@[k]) > 0);
            assert(f.contains(r@[k]));
        }
        assert forall|i: int| opens_title(v, i) implies r@.contains(i as usize) by {
            assert(f.contains(i as usize));
            assert(f.to_multiset().count(i as usize) > 0);
        }
    }
    r
}

/// Indices, in increasing order, of the first `n` summaries that belong to
/// endpoint `e`.
pub open spec fn indices_with(v: Seq<(Seq<char>, Endpoint, Quartiles)>, e: Endpoint, n: int) -> Seq<
    usize,
>
    decreases n,
{
    if n <= 0 {
        Seq::empty()
    } else {
        let p = indices_with(v, e, n - 1);
        if v[n - 1].1 == e {
            p.push((n - 1) as usize)
        } else {
            p
        }
    }
}

/// Colors go to the endpoints in the order in which the data first shows
/// them: the endpoint of the first summary gets color 0, the other color 1.
pub open spec fn color_of(v: Seq<(Seq<char>, Endpoint, Quartiles)>, e: Endpoint) -> usize {
    if v[0].1 == e {
        0
    } else {
        1
    }
}

/// Each color has its own vertical offset so that the boxes of one target
/// sit side by side: -10 pixels, then +10.
pub open spec fn offset_of(color: usize) -> i32 {
    (-10 + 20 * color) as i32
}

/// One series of box glyphs: the summaries of one endpoint.
pub struct Series {
    pub endpoint: Endpoint,
    pub color: usize,
    pub offset: i32,
    /// Indices of the endpoint's summaries, in data order.
    pub members: Vec<usize>,
}

pub open spec fn series_view(s: Series) -> (Endpoint, usize, i32, Seq<usize>) {
    (s.endpoint, s.color, s.offset, s.members@)
}

pub open spec fn series_entry(v: Seq<(Seq<char>, Endpoint, Quartiles)>, e: Endpoint) -> Seq<
    (Endpoint, usize, i32, Seq<usize>),
> {
    let m = indices_with(v, e, v.len() as int);
    if m.len() > 0 {
        seq![(e, color_of(v, e), offset_of(color_of(v, e)), m)]
    } else {
        Seq::empty()
    }
}

/// The series of a chart, by endpoint name: the index series, then the
/// pattern series; an endpoint without summaries has none.
pub open spec fn series_plan(v: Seq<(Seq<char>, Endpoint, Quartiles)>) -> Seq<
    (Endpoint, usize, i32, Seq<usize>),
> {
    series_entry(v, Endpoint::Index) + series_entry(v, Endpoint::Pattern)
}

/// How far a box glyph reaches on the value axis: its maximum, or the end
/// of its upper whisker if that lies further; the box plot draws that
/// whisker at Q3 + 1.5 IQR, taken here rounded up. Capped at `u64::MAX`.
pub open spec fn glyph_extent(q: Quartiles) -> u64 {
    let iqr: int = if q.q3 >= q.q1 {
        q.q3 - q.q1
    } else {
        0
    };
    let fence: int = q.q3 + (3 * iqr + 1) / 2;
    let top: int = if fence > q.max {
        fence
    } else {
        q.max as int
    };
    if top > u64::MAX {
        u64::MAX
    } else {
        top as u64
    }
}

fn extent_of(q: Quartiles) -> (r: u64)
    ensures
        r == glyph_extent(q),
{
    let iqr: u128 = if q.q3 >= q.q1 {
        (q.q3 - q.q1) as u128
    } else {
        0
    };
    let fence: u128 = q.q3 as u128 + (3 * iqr + 1) / 2;
    let top: u128 = if fence > q.max as u128 {
        fence
    } else {
        q.max as u128
    };
    if top > u64::MAX as u128 {
        u64::MAX
    } else {
        top as u64
    }
}

/// Largest extent of the first `n` summaries' glyphs; zero for none.
pub open spec fn max_value(v: Seq<(Seq<char>, Endpoint, Quartiles)>, n: int) -> u64
    decreases n,
{
    if n <= 0 {
        0
    } else {
        let m = max_value(v, n - 1);
        let x = glyph_extent(v[n - 1].2);
        if x > m {
            x
        } else {
            m
        }
    }
}

fn members_of(s: &Vec<Summary>, e: Endpoint) -> (r: Vec<usize>)
    ensures
        r@ == indices_with(summaries_view(s@), e, s@.len() as int),
{
    let ghost v = summaries_view(s@);
    let mut out: Vec<usize> = Vec::new();
    let mut i: usize = 0;
    while i < s.len()
        invariant
            i <= s@.len(),
            v == summaries_view(s@),
            out@ == indices_with(v, e, i as int),
        decreases s.len() - i,
    {
        assert(v[i as int] == summary_view(s@[i as int]));
        if s[i].endpoint == e {
            out.push(i);
        }
        i = i + 1;
    }
    out
}

fn series_for(s: &Vec<Summary>, e: Endpoint, out: &mut Vec<Series>)
    ensures
        final(out)@.map_values(|x: Series| series_view(x)) == old(out)@.map_values(
            |x: Series| series_view(x),
        ) + series_entry(summaries_view(s@), e),
{
    let ghost v = summaries_view(s@);
    let members = members_of(s, e);
    let ghost before = out@;
    if members.len() > 0 {
        assert(v[0] == summary_view(s@[0]));
        let color: usize = if s[0].endpoint == e {
            0
        } else {
            1
        };
        let offset: i32 = if color == 0 {
            -10
        } else {
            10
        };
        out.push(Series { endpoint: e, color, offset, members });
        assert(out@.map_values(|x: Series| series_view(x)) =~= before.map_values(
            |x: Series| series_view(x),
        ) + series_entry(v, e));
    } else {
        assert(series_entry(v, e) =~= Seq::<(Endpoint, usize, i32, Seq<usize>)>::empty());
        assert(out@.map_values(|x: Series| series_view(x)) =~= before.map_values(
            |x: Series| series_view(x),
        ) + series_entry(v, e));
    }
}

/// What a box-plot chart of the summaries shows.
pub struct ChartPlan {
    /// The category axis, top to bottom: for each target the index of its
    /// first summary.
    pub categories: Vec<usize>,
    pub series: Vec<Series>,
    /// Largest value that a glyph reaches, in nanoseconds: the value axis
    /// must cover it.
    pub max_ns: u64,
}

/// Plans the chart of the summaries: category order, one series per
/// endpoint with its color and offset, and the extent of the value axis.
pub fn plan_chart(s: &Vec<Summary>) -> (r: ChartPlan)
    ensures
        is_category_order(summaries_view(s@), r.categories@),
        r.series@.map_values(|x: Series| series_view(x)) == series_plan(summaries_view(s@)),
        r.max_ns == max_value(summaries_view(s@), s@.len() as int),
{
    let ghost v = summaries_view(s@);
    let categories = category_order(s);
    let mut series: Vec<Series> = Vec::new();
    assert(series@.map_values(|x: Series| series_view(x)) =~= Seq::<
        (Endpoint, usize, i32, Seq<usize>),
    >::empty());
    series_for(s, Endpoint::Index, &mut series);
    series_for(s, Endpoint::Pattern, &mut series);
    assert(series_plan(v) =~= Seq::<(Endpoint, usize, i32, Seq<usize>)>::empty() + series_entry(
        v,
        Endpoint::Index,
    ) + series_entry(v, Endpoint::Pattern));
    let mut m: u64 = 0;
    let mut i: usize = 0;
    while i < s.len()
        invariant
            i <= s@.len(),
            v == summaries_view(s@),
            m == max_value(v, i as int),
        decreases s.len() - i,
    {
        assert(v[i as int] == summary_view(s@[i as int]));
        let x = extent_of(s[i].quartiles);
        if x > m {
            m = x;
        }
        i = i + 1;
    }
    ChartPlan { categories, series, max_ns: m }
}

} // verus!

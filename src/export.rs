use vstd::prelude::*;
use vstd::utf8::encode_utf8;
use crate::chart::{
    Endpoint, EndpointRun, indices_with, series_entry, series_plan, summaries_of,
};
use crate::stats::{Quartiles, quartiles_of};

verus! {

/// Decimal digits of `n`, without leading zeros.
pub open spec fn decimal_text(n: nat) -> Seq<u8>
    decreases n,
{
    if n < 10 {
        seq![(48 + n) as u8]
    } else {
        decimal_text(n / 10) + seq![(48 + n % 10) as u8]
    }
}

/// The last `w` decimal digits of `r`, with leading zeros.
pub open spec fn padded_digits(r: nat, w: nat) -> Seq<u8>
    decreases w,
{
    if w == 0 {
        Seq::empty()
    } else {
        padded_digits(r / 10, (w - 1) as nat).push((48 + r % 10) as u8)
    }
}

/// `padded_digits(r, w)` without its trailing zeros.
pub open spec fn trimmed_digits(r: nat, w: nat) -> Seq<u8>
    decreases w,
{
    if w > 0 && r % 10 == 0 {
        trimmed_digits(r / 10, (w - 1) as nat)
    } else {
        padded_digits(r, w)
    }
}

/// A number of nanoseconds written in milliseconds: the whole part, then,
/// unless it is zero, a `.` and the fraction without trailing zeros.
pub open spec fn millis_text(ns: nat) -> Seq<u8> {
    let q = ns / 1_000_000;
    let f = ns % 1_000_000;
    if f == 0 {
        decimal_text(q)
    } else {
        decimal_text(q) + seq![46u8] + trimmed_digits(f, 6)
    }
}

/// The raw samples of the runs as (target, endpoint, nanoseconds), run by
/// run, each run's samples in order.
pub open spec fn tsv_rows(runs: Seq<EndpointRun>) -> Seq<(Seq<char>, Endpoint, u64)>
    decreases runs.len(),
{
    if runs.len() == 0 {
        Seq::empty()
    } else {
        let r = runs.last();
        tsv_rows(runs.drop_last()) + r.samples@.map_values(|v: u64| (r.title@, r.endpoint, v))
    }
}

/// One exported line: target, endpoint name and milliseconds, separated by
/// tabs.
pub open spec fn row_text(row: (Seq<char>, Endpoint, u64)) -> Seq<u8> {
    encode_utf8(row.0) + seq![9u8] + encode_utf8(row.1.label_spec()) + seq![9u8] + millis_text(
        row.2 as nat,
    )
}

/// The lines of the rows joined by `\n`, with no newline at the end.
pub open spec fn tsv_text(rows: Seq<(Seq<char>, Endpoint, u64)>) -> Seq<u8>
    decreases rows.len(),
{
    if rows.len() == 0 {
        Seq::empty()
    } else if rows.len() == 1 {
        row_text(rows[0])
    } else {
        tsv_text(rows.drop_last()) + seq![10u8] + row_text(rows.last())
    }
}

fn push_bytes(out: &mut Vec<u8>, b: &[u8])
    ensures
        final(out)@ == old(out)@ + b@,
{
    let ghost start = out@;
    let mut i: usize = 0;
    while i < b.len()
        invariant
            i <= b@.len(),
            out@ == start + b@.take(i as int),
        decreases b.len() - i,
    {
        out.push(b[i]);
        assert(b@.take(i as int + 1) =~= b@.take(i as int).push(b@[i as int]));
        i = i + 1;
    }
    assert(b@.take(b@.len() as int) =~= b@);
}

fn push_decimal(out: &mut Vec<u8>, n: u64)
    ensures
        final(out)@ == old(out)@ + decimal_text(n as nat),
    decreases n,
{
    if n >= 10 {
        push_decimal(out, n / 10);
    }
    out.push(48 + (n % 10) as u8);
    proof {
        if n >= 10 {
            assert(decimal_text(n as nat) == decimal_text((n / 10) as nat) + seq![
                (48 + n % 10) as u8,
            ]);
        }
    }
    assert(final(out)@ =~= old(out)@ + decimal_text(n as nat));
}

fn push_padded(out: &mut Vec<u8>, r: u64, w: u64)
    ensures
        final(out)@ == old(out)@ + padded_digits(r as nat, w as nat),
    decreases w,
{
    if w == 0 {
        assert(final(out)@ =~= old(out)@ + padded_digits(r as nat, w as nat));
        return;
    }
    push_padded(out, r / 10, w - 1);
    out.push(48 + (r % 10) as u8);
    assert(final(out)@ =~= old(out)@ + padded_digits(r as nat, w as nat));
}

fn push_trimmed(out: &mut Vec<u8>, r: u64, w: u64)
    ensures
        final(out)@ == old(out)@ + trimmed_digits(r as nat, w as nat),
    decreases w,
{
    if w > 0 && r % 10 == 0 {
        push_trimmed(out, r / 10, w - 1);
    } else {
        push_padded(out, r, w);
    }
}

fn push_millis(out: &mut Vec<u8>, ns: u64)
    ensures
        final(out)@ == old(out)@ + millis_text(ns as nat),
{
    let q = ns / 1_000_000;
    let f = ns % 1_000_000;
    push_decimal(out, q);
    if f != 0 {
        out.push(46);
        push_trimmed(out, f, 6);
    }
    assert(final(out)@ =~= old(out)@ + millis_text(ns as nat));
}

fn push_row(out: &mut Vec<u8>, title: &String, e: Endpoint, ns: u64)
    ensures
        final(out)@ == old(out)@ + row_text((title@, e, ns)),
{
    push_bytes(out, title.as_str().as_bytes());
    out.push(9);
    push_bytes(out, e.label().as_bytes());
    out.push(9);
    push_millis(out, ns);
    assert(final(out)@ =~= old(out)@ + row_text((title@, e, ns)));
}

/// Tab-separated export of the raw samples: one line per sample, target
/// title, endpoint name and milliseconds, lines joined by `\n`.
pub fn tsv_export(runs: &Vec<EndpointRun>) -> (r: Vec<u8>)
    ensures
        r@ == tsv_text(tsv_rows(runs@)),
{
    let mut out: Vec<u8> = Vec::new();
    let ghost mut rows: Seq<(Seq<char>, Endpoint, u64)> = Seq::empty();
    let mut any = false;
    let mut i: usize = 0;
    while i < runs.len()
        invariant
            i <= runs@.len(),
            rows == tsv_rows(runs@.take(i as int)),
            out@ == tsv_text(rows),
            any == (rows.len() > 0),
        decreases runs.len() - i,
    {
        let run = &runs[i];
        let ghost base = rows;
        let mut j: usize = 0;
        while j < run.samples.len()
            invariant
                i < runs@.len(),
                run == runs@[i as int],
                j <= run.samples@.len(),
                rows == base + run.samples@.take(j as int).map_values(
                    |v: u64| (run.title@, run.endpoint, v),
                ),
                out@ == tsv_text(rows),
                any == (rows.len() > 0),
            decreases run.samples.len() - j,
        {
            let ghost row = (run.title@, run.endpoint, run.samples@[j as int]);
            if any {
                out.push(10);
            }
            any = true;
            push_row(&mut out, &run.title, run.endpoint, run.samples[j]);
            proof {
                let next = rows.push(row);
                assert(next.drop_last() =~= rows);
                if rows.len() == 0 {
                    assert(out@ =~= tsv_text(next));
                } else {
                    assert(out@ =~= tsv_text(next));
                }
                assert(run.samples@.take(j as int + 1) =~= run.samples@.take(j as int).push(
                    run.samples@[j as int],
                ));
                assert(base + run.samples@.take(j as int + 1).map_values(
                    |v: u64| (run.title@, run.endpoint, v),
                ) =~= next);
                rows = next;
            }
            j = j + 1;
        }
        proof {
            assert(run.samples@.take(run.samples@.len() as int) =~= run.samples@);
            assert(runs@.take(i as int + 1).drop_last() =~= runs@.take(i as int));
        }
        i = i + 1;
    }
    assert(runs@.take(runs@.len() as int) =~= runs@);
    out
}

proof fn lemma_indices_with(v: Seq<(Seq<char>, Endpoint, Quartiles)>, e: Endpoint, n: int, i: int)
    requires
        0 <= n <= v.len(),
        v.len() <= usize::MAX,
        0 <= i <= usize::MAX,
    ensures
        indices_with(v, e, n).contains(i as usize) <==> (0 <= i < n && v[i].1 == e),
        forall|k: int| 0 <= k < indices_with(v, e, n).len() ==> #[trigger] indices_with(v, e, n)[k] < n,
    decreases n,
{
    if n > 0 {
        lemma_indices_with(v, e, n - 1, i);
        let p = indices_with(v, e, n - 1);
        let q = indices_with(v, e, n);
        assert forall|k: int| 0 <= k < q.len() implies #[trigger] q[k] < n by {
            if k < p.len() {
                assert(q[k] == p[k]);
            }
        }
        if v[n - 1].1 == e {
            assert(p.push((n - 1) as usize)[p.len() as int] == (n - 1) as usize);
            if p.contains(i as usize) {
                let k = choose|k: int| 0 <= k < p.len() && p[k] == i as usize;
                assert(p.push((n - 1) as usize)[k] == i as usize);
            }
            if 0 <= i < n && v[i].1 == e && i < n - 1 {
                let k = choose|k: int| 0 <= k < p.len() && p[k] == i as usize;
                assert(p.push((n - 1) as usize)[k] == i as usize);
            }
            if q.contains(i as usize) {
                let k = choose|k: int| 0 <= k < q.len() && q[k] == i as usize;
                if k < p.len() {
                    assert(p[k] == q[k]);
                }
            }
        } else {
            assert(q == p);
        }
    }
}

/// The export holds a pair (target, endpoint) exactly when the runs
/// summarized for the chart do.
proof fn lemma_rows_match_summaries(runs: Seq<EndpointRun>, t: Seq<char>, e: Endpoint)
    ensures
        (exists|k: int| 0 <= k < tsv_rows(runs).len() && #[trigger] tsv_rows(runs)[k].0 == t
            && tsv_rows(runs)[k].1 == e) <==> (exists|k: int|
            0 <= k < summaries_of(runs).len() && #[trigger] summaries_of(runs)[k].0 == t
                && summaries_of(runs)[k].1 == e),
    decreases runs.len(),
{
    if runs.len() > 0 {
        let p = runs.drop_last();
        lemma_rows_match_summaries(p, t, e);
        let r = runs.last();
        let rows = tsv_rows(runs);
        let prow = tsv_rows(p);
        let sums = summaries_of(runs);
        let psum = summaries_of(p);
        let tail = r.samples@.map_values(|v: u64| (r.title@, r.endpoint, v));
        assert(rows == prow + tail);
        if r.samples@.len() > 0 {
            assert(sums == psum.push((r.title@, r.endpoint, quartiles_of(r.samples@))));
        } else {
            assert(sums == psum);
        }
        if exists|k: int| 0 <= k < rows.len() && #[trigger] rows[k].0 == t && rows[k].1 == e {
            let k = choose|k: int| 0 <= k < rows.len() && #[trigger] rows[k].0 == t && rows[k].1
                == e;
            if k < prow.len() {
                assert(prow[k] == rows[k]);
                let m = choose|m: int| 0 <= m < psum.len() && #[trigger] psum[m].0 == t && psum[m].1
                    == e;
                assert(sums[m] == psum[m]);
            } else {
                assert(rows[k] == tail[k - prow.len()]);
                assert(tail[k - prow.len()].0 == r.title@);
                assert(tail[k - prow.len()].1 == r.endpoint);
                assert(sums[psum.len() as int].0 == t);
                assert(sums[psum.len() as int].1 == e);
            }
        }
        if exists|k: int| 0 <= k < sums.len() && #[trigger] sums[k].0 == t && sums[k].1 == e {
            let k = choose|k: int| 0 <= k < sums.len() && #[trigger] sums[k].0 == t && sums[k].1
                == e;
            if k < psum.len() {
                assert(psum[k] == sums[k]);
                let m = choose|m: int| 0 <= m < prow.len() && #[trigger] prow[m].0 == t && prow[m].1
                    == e;
                assert(rows[m] == prow[m]);
            } else {
                assert(r.samples@.len() > 0);
                assert(rows[prow.len() as int] == tail[0]);
                assert(tail[0].0 == t && tail[0].1 == e);
            }
        }
    }
}

proof fn lemma_summaries_len(runs: Seq<EndpointRun>)
    ensures
        summaries_of(runs).len() <= runs.len(),
    decreases runs.len(),
{
    if runs.len() > 0 {
        lemma_summaries_len(runs.drop_last());
    }
}

/// Export and chart never disagree on which (target, endpoint) pairs they
/// include: a pair has exported lines exactly when the chart planned from
/// the same runs draws a box for it in the series of that endpoint.
pub proof fn lemma_export_matches_chart(runs: Seq<EndpointRun>, t: Seq<char>, e: Endpoint)
    requires
        runs.len() <= usize::MAX,
    ensures
        (exists|k: int| 0 <= k < tsv_rows(runs).len() && #[trigger] tsv_rows(runs)[k].0 == t
            && tsv_rows(runs)[k].1 == e) <==> (exists|s: int, m: int|
            0 <= s < series_plan(summaries_of(runs)).len() && series_plan(summaries_of(runs))[s].0
                == e && 0 <= m < series_plan(summaries_of(runs))[s].3.len()
                && summaries_of(runs)[#[trigger] series_plan(
                summaries_of(runs),
            )[s].3[m] as int].0 == t),
{
    let v = summaries_of(runs);
    let plan = series_plan(v);
    lemma_rows_match_summaries(runs, t, e);
    lemma_summaries_len(runs);
    let a = series_entry(v, Endpoint::Index);
    let b = series_entry(v, Endpoint::Pattern);
    assert(plan == a + b);
    if exists|k: int| 0 <= k < v.len() && #[trigger] v[k].0 == t && v[k].1 == e {
        let k = choose|k: int| 0 <= k < v.len() && #[trigger] v[k].0 == t && v[k].1 == e;
        lemma_indices_with(v, e, v.len() as int, k);
        let ms = indices_with(v, e, v.len() as int);
        assert(ms.contains(k as usize));
        let m = choose|m: int| 0 <= m < ms.len() && ms[m] == k as usize;
        let s: int = if e == Endpoint::Index {
            0
        } else {
            a.len() as int
        };
        assert(plan[s].0 == e && plan[s].3 == ms);
        assert(v[plan[s].3[m] as int].0 == t);
    }
    if exists|s: int, m: int|
        0 <= s < plan.len() && plan[s].0 == e && 0 <= m < plan[s].3.len() && v[#[trigger] plan[
            s
        ].3[m] as int].0 == t {
        let (s, m) = choose|s: int, m: int|
            0 <= s < plan.len() && plan[s].0 == e && 0 <= m < plan[s].3.len() && v[#[trigger] plan[
                s
            ].3[m] as int].0 == t;
        let ms = indices_with(v, e, v.len() as int);
        assert(plan[s].3 == ms);
        let k = ms[m] as int;
        lemma_indices_with(v, e, v.len() as int, k);
        assert(ms.contains(k as usize));
        assert(0 <= k < v.len() && v[k].0 == t && v[k].1 == e);
    }
}

} // verus!

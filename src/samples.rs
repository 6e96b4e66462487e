use vstd::prelude::*;
use crate::text::{all_digits, digits_value, is_digit, parse_digits, pow10, lemma_pow10_positive};

verus! {

/// Latencies are held as whole nanoseconds; the load generator reports
/// seconds.
pub const NANOS_PER_SECOND: u64 = 1_000_000_000;

/// A byte of a numeric CSV field: a digit, or also `.` unless the field is
/// an integer field.
pub open spec fn in_field(b: u8, integer: bool) -> bool {
    is_digit(b) || (!integer && b == 46)
}

/// End of the run of field bytes that starts at `i`.
pub open spec fn run_end(l: Seq<u8>, i: int, integer: bool) -> int
    decreases l.len() - i,
{
    if i < 0 || i >= l.len() {
        if i < 0 { i } else { l.len() as int }
    } else if in_field(l[i], integer) {
        run_end(l, i + 1, integer)
    } else {
        i
    }
}

/// The fields `k..8` of a timing record start at `i`: response time, DNS
/// lookup, DNS, request write, response delay and response read (decimal),
/// status code (integer), offset (decimal), separated by commas. The last
/// field needs one byte only; what follows it is not looked at.
pub open spec fn fields_match(l: Seq<u8>, i: int, k: nat) -> bool
    decreases 7 - k,
{
    if k >= 7 {
        0 <= i < l.len() && in_field(l[i], false)
    } else {
        let e = run_end(l, i, k == 6);
        &&& 0 <= i < e < l.len()
        &&& l[e] == 44
        &&& fields_match(l, e + 1, k + 1)
    }
}

/// `i` is the leftmost position of `l` where a timing record starts.
pub open spec fn is_first_match(l: Seq<u8>, i: int) -> bool {
    &&& 0 <= i < l.len()
    &&& fields_match(l, i, 0)
    &&& forall|j: int| 0 <= j < i ==> !fields_match(l, j, 0)
}

/// Position of the first `.` at or after `i`, or the length.
pub open spec fn dot_pos(t: Seq<u8>, i: int) -> int
    decreases t.len() - i,
{
    if i < 0 || i >= t.len() {
        if i < 0 { i } else { t.len() as int }
    } else if t[i] == 46 {
        i
    } else {
        dot_pos(t, i + 1)
    }
}

/// Nanoseconds in the fractional digits `f` of a number of seconds; digits
/// past the ninth are dropped.
pub open spec fn frac_nanos(f: Seq<u8>) -> nat {
    if f.len() >= 9 {
        digits_value(f.subrange(0, 9))
    } else {
        digits_value(f) * pow10((9 - f.len()) as nat)
    }
}

/// Whole nanoseconds in a decimal number of seconds written as digits with
/// at most one `.` and at least one digit (rounded toward zero); `None` for
/// any other text or for a value past `u64::MAX`.
pub open spec fn seconds_text_nanos(t: Seq<u8>) -> Option<u64> {
    let p = dot_pos(t, 0);
    let int_part = t.subrange(0, p);
    let frac = if p < t.len() {
        t.subrange(p + 1, t.len() as int)
    } else {
        Seq::<u8>::empty()
    };
    let v = digits_value(int_part) * pow10(9) + frac_nanos(frac);
    if all_digits(int_part) && all_digits(frac) && int_part.len() + frac.len() > 0 && v
        <= u64::MAX {
        Some(v as u64)
    } else {
        None
    }
}

/// The sample that one line of the load generator's CSV output gives: the
/// response time of the leftmost timing record in the line, in nanoseconds.
pub open spec fn line_sample(l: Seq<u8>) -> Option<u64> {
    if exists|i: int| is_first_match(l, i) {
        let i = choose|i: int| is_first_match(l, i);
        seconds_text_nanos(l.subrange(i, run_end(l, i, false)))
    } else {
        None
    }
}

pub open spec fn opt_seq(o: Option<u64>) -> Seq<u64> {
    match o {
        Some(v) => seq![v],
        None => Seq::empty(),
    }
}

/// The samples of the lines of `c`, in order, scanning from `i` inside the
/// line that starts at `start`; lines are separated by `\n`, and a line that
/// holds no timing record gives none.
pub open spec fn samples_scan(c: Seq<u8>, start: int, i: int) -> Seq<u64>
    decreases c.len() - i,
{
    if i < 0 || i >= c.len() {
        opt_seq(line_sample(c.subrange(start, c.len() as int)))
    } else if c[i] == 10 {
        opt_seq(line_sample(c.subrange(start, i))) + samples_scan(c, i + 1, i + 1)
    } else {
        samples_scan(c, start, i + 1)
    }
}

/// The samples of all lines of `c`.
pub open spec fn samples_of(c: Seq<u8>) -> Seq<u64> {
    samples_scan(c, 0, 0)
}

pub proof fn lemma_run_end_bounds(l: Seq<u8>, i: int, integer: bool)
    requires
        0 <= i <= l.len(),
    ensures
        i <= run_end(l, i, integer) <= l.len(),
    decreases l.len() - i,
{
    if i < l.len() && in_field(l[i], integer) {
        lemma_run_end_bounds(l, i + 1, integer);
    }
}

pub(crate) fn field_run_end(l: &[u8], i: usize, integer: bool) -> (e: usize)
    requires
        i <= l@.len(),
    ensures
        e as int == run_end(l@, i as int, integer),
{
    let mut j = i;
    while j < l.len() && (is_digit_byte(l[j]) || (!integer && l[j] == 46))
        invariant
            i <= j <= l@.len(),
            run_end(l@, i as int, integer) == run_end(l@, j as int, integer),
        decreases l.len() - j,
    {
        j = j + 1;
    }
    j
}

fn is_digit_byte(b: u8) -> (r: bool)
    ensures
        r == is_digit(b),
{
    48 <= b && b <= 57
}

fn record_starts_at(l: &[u8], i: usize) -> (r: bool)
    requires
        i <= l@.len(),
    ensures
        r == fields_match(l@, i as int, 0),
{
    let mut pos = i;
    let mut k: usize = 0;
    while k < 7
        invariant
            0 <= k <= 7,
            pos <= l@.len(),
            fields_match(l@, i as int, 0) == fields_match(l@, pos as int, k as nat),
        decreases 7 - k,
    {
        let e = field_run_end(l, pos, k == 6);
        if !(pos < e && e < l.len() && l[e] == 44) {
            return false;
        }
        pos = e + 1;
        k = k + 1;
    }
    pos < l.len() && (is_digit_byte(l[pos]) || l[pos] == 46)
}

fn first_record(l: &[u8]) -> (r: Option<usize>)
    ensures
        r is Some ==> is_first_match(l@, r->0 as int),
        r is None ==> forall|i: int| !is_first_match(l@, i),
{
    let mut i: usize = 0;
    while i < l.len()
        invariant
            i <= l@.len(),
            forall|j: int| 0 <= j < i ==> !fields_match(l@, j, 0),
        decreases l.len() - i,
    {
        if record_starts_at(l, i) {
            return Some(i);
        }
        i = i + 1;
    }
    None
}

fn all_digit_bytes(s: &[u8]) -> (r: bool)
    ensures
        r == all_digits(s@),
{
    let mut i: usize = 0;
    while i < s.len()
        invariant
            i <= s@.len(),
            forall|j: int| 0 <= j < i ==> is_digit(#[trigger] s@[j]),
        decreases s.len() - i,
    {
        if !is_digit_byte(s[i]) {
            return false;
        }
        i = i + 1;
    }
    true
}

fn dot_index(t: &[u8]) -> (p: usize)
    ensures
        p as int == dot_pos(t@, 0),
{
    let mut j: usize = 0;
    while j < t.len() && t[j] != 46
        invariant
            j <= t@.len(),
            dot_pos(t@, 0) == dot_pos(t@, j as int),
        decreases t.len() - j,
    {
        j = j + 1;
    }
    j
}

fn pow10_u64(n: usize) -> (r: u64)
    requires
        n <= 9,
    ensures
        r as nat == pow10(n as nat),
        r <= 1_000_000_000,
{
    let mut r: u64 = 1;
    let mut i: usize = 0;
    while i < n
        invariant
            i <= n <= 9,
            r as nat == pow10(i as nat),
            r <= 1_000_000_000,
        decreases n - i,
    {
        proof {
            assert(pow10((i + 1) as nat) == 10 * pow10(i as nat));
            if i < 9 {
                lemma_pow10_le(i as nat);
            }
        }
        r = r * 10;
        i = i + 1;
    }
    r
}

proof fn lemma_pow10_le(n: nat)
    requires
        n < 9,
    ensures
        pow10(n) <= 100_000_000,
    decreases n,
{
    reveal_with_fuel(pow10, 10);
    if n > 0 {
        lemma_pow10_le((n - 1) as nat);
    }
}

/// Reads a number of seconds written in decimal and gives it in whole
/// nanoseconds, dropping digits past the ninth decimal.
pub fn seconds_to_nanos(t: &[u8]) -> (r: Option<u64>)
    ensures
        r == seconds_text_nanos(t@),
{
    let p = dot_index(t);
    proof {
        lemma_dot_pos_bounds(t@, 0);
    }
    let int_part = vstd::slice::slice_subrange(t, 0, p);
    let frac = if p < t.len() {
        vstd::slice::slice_subrange(t, p + 1, t.len())
    } else {
        vstd::slice::slice_subrange(t, 0, 0)
    };
    let ghost gfrac = if p < t@.len() {
        t@.subrange(p + 1, t@.len() as int)
    } else {
        Seq::<u8>::empty()
    };
    assert(frac@ =~= gfrac);
    if int_part.len() + frac.len() == 0 {
        return None;
    }
    let ip = match parse_digits(int_part) {
        Some(v) => v,
        None => {
            proof {
                if all_digits(int_part@) {
                    lemma_pow10_positive(9);
                    assert(digits_value(int_part@) * pow10(9) >= digits_value(int_part@))
                        by (nonlinear_arith)
                        requires
                            pow10(9) >= 1,
                    ;
                }
            }
            return None;
        },
    };
    let m: usize = if frac.len() >= 9 {
        9
    } else {
        frac.len()
    };
    let head = vstd::slice::slice_subrange(frac, 0, m);
    let tail = vstd::slice::slice_subrange(frac, m, frac.len());
    let fv = match parse_digits(head) {
        Some(v) => v,
        None => {
            assert(!all_digits(frac@)) by {
                if all_digits(frac@) {
                    assert forall|i: int| 0 <= i < head@.len() implies is_digit(
                        #[trigger] head@[i],
                    ) by {
                        assert(head@[i] == frac@[i]);
                    }
                    lemma_digits_below(head@);
                    lemma_pow10_le_nine(head@.len());
                }
            }
            return None;
        },
    };
    if !all_digit_bytes(tail) {
        assert(!all_digits(frac@)) by {
            if all_digits(frac@) {
                assert(all_digits(tail@));
            }
        }
        return None;
    }
    assert(all_digits(frac@)) by {
        assert forall|i: int| 0 <= i < frac@.len() implies is_digit(#[trigger] frac@[i]) by {
            if i < m {
                assert(head@[i] == frac@[i]);
            } else {
                assert(tail@[i - m] == frac@[i]);
            }
        }
    }
    let scale = pow10_u64(9 - m);
    proof {
        reveal_with_fuel(pow10, 10);
        if frac@.len() >= 9 {
            assert(head@ =~= frac@.subrange(0, 9));
        } else {
            assert(head@ =~= frac@);
        }
        lemma_digits_below(head@);
    }
    assert((ip as u128) * (NANOS_PER_SECOND as u128) + (fv as u128) * (scale as u128)
        <= u128::MAX) by (nonlinear_arith)
        requires
            ip <= u64::MAX,
            fv <= u64::MAX,
            scale <= 1_000_000_000,
    ;
    proof {
        assert(pow10(9) == 1_000_000_000);
        assert(fv == digits_value(head@));
        assert(scale == pow10((9 - m) as nat));
        if frac@.len() >= 9 {
            assert(m == 9);
            assert(frac_nanos(frac@) == digits_value(frac@.subrange(0, 9)));
            assert(scale == 1);
            assert(frac_nanos(frac@) == fv * scale);
        } else {
            assert(m == frac@.len());
            assert(frac_nanos(frac@) == digits_value(frac@) * pow10((9 - frac@.len()) as nat));
            assert(frac_nanos(frac@) == fv * scale);
        }
        assert(int_part@ =~= t@.subrange(0, dot_pos(t@, 0)));
    }
    let total: u128 = (ip as u128) * (NANOS_PER_SECOND as u128) + (fv as u128) * (scale as u128);
    if total > u64::MAX as u128 {
        return None;
    }
    Some(total as u64)
}

proof fn lemma_pow10_le_nine(n: nat)
    requires
        n <= 9,
    ensures
        pow10(n) <= 1_000_000_000,
{
    reveal_with_fuel(pow10, 10);
}

/// A string of `n` digits is worth less than `10^n`.
proof fn lemma_digits_below(s: Seq<u8>)
    requires
        all_digits(s),
    ensures
        digits_value(s) < pow10(s.len()),
    decreases s.len(),
{
    if s.len() > 0 {
        let t = s.drop_last();
        assert(all_digits(t));
        lemma_digits_below(t);
        assert(digits_value(s) == digits_value(t) * 10 + (s.last() - 48) as nat);
        assert(pow10(s.len()) == 10 * pow10(t.len()));
    }
}

proof fn lemma_dot_pos_bounds(t: Seq<u8>, i: int)
    requires
        0 <= i <= t.len(),
    ensures
        i <= dot_pos(t, i) <= t.len(),
        dot_pos(t, i) < t.len() ==> t[dot_pos(t, i)] == 46,
        forall|j: int| i <= j < dot_pos(t, i) ==> t[j] != 46,
    decreases t.len() - i,
{
    if i < t.len() && t[i] != 46 {
        lemma_dot_pos_bounds(t, i + 1);
    }
}

/// The response time of the leftmost timing record in one CSV line of the
/// load generator, in nanoseconds; `None` for a line without a record (the
/// header, a blank line, a malformed line).
pub fn parse_line(l: &[u8]) -> (r: Option<u64>)
    ensures
        r == line_sample(l@),
{
    match first_record(l) {
        Some(i) => {
            proof {
                assert forall|j: int| is_first_match(l@, j) implies j == i by {
                    if j < i {
                        assert(!fields_match(l@, j, 0));
                    }
                    if j > i {
                        assert(!fields_match(l@, i as int, 0));
                    }
                }
                lemma_run_end_bounds(l@, i as int, false);
            }
            let e = field_run_end(l, i, false);
            let t = vstd::slice::slice_subrange(l, i, e);
            seconds_to_nanos(t)
        },
        None => None,
    }
}

/// The latency samples, in nanoseconds and in order, of the load generator's
/// CSV output: one per line that holds a timing record; other lines are
/// skipped.
pub fn parse_samples(content: &[u8]) -> (r: Vec<u64>)
    ensures
        r@ == samples_of(content@),
{
    let mut out: Vec<u64> = Vec::new();
    let mut start: usize = 0;
    let mut i: usize = 0;
    while i < content.len()
        invariant
            start <= i <= content@.len(),
            out@ + samples_scan(content@, start as int, i as int) == samples_of(content@),
        decreases content.len() - i,
    {
        if content[i] == 10 {
            let line = vstd::slice::slice_subrange(content, start, i);
            let v = parse_line(line);
            let ghost before = out@;
            match v {
                Some(x) => out.push(x),
                None => {},
            }
            assert(out@ =~= before + opt_seq(v));
            assert(before + (opt_seq(v) + samples_scan(content@, i as int + 1, i as int + 1))
                =~= out@ + samples_scan(content@, i as int + 1, i as int + 1));
            start = i + 1;
        }
        i = i + 1;
    }
    let line = vstd::slice::slice_subrange(content, start, content.len());
    let v = parse_line(line);
    let ghost before = out@;
    match v {
        Some(x) => out.push(x),
        None => {},
    }
    assert(out@ =~= before + opt_seq(v));
    out
}

pub open spec fn has_no_newline(l: Seq<u8>) -> bool {
    forall|k: int| 0 <= k < l.len() ==> l[k] != 10
}

proof fn lemma_scan_shift(p: Seq<u8>, c: Seq<u8>, s: int, i: int)
    requires
        0 <= s <= i <= c.len(),
    ensures
        samples_scan(p + c, p.len() + s, p.len() + i) == samples_scan(c, s, i),
    decreases c.len() - i,
{
    let q = p + c;
    let n = p.len() as int;
    if i >= c.len() {
        assert(q.subrange(n + s, q.len() as int) =~= c.subrange(s, c.len() as int));
    } else {
        assert(q[n + i] == c[i]);
        if c[i] == 10 {
            assert(q.subrange(n + s, n + i) =~= c.subrange(s, i));
            lemma_scan_shift(p, c, i + 1, i + 1);
        } else {
            lemma_scan_shift(p, c, s, i + 1);
        }
    }
}

proof fn lemma_scan_skips(c: Seq<u8>, s: int, i: int, j: int)
    requires
        0 <= s <= i <= j < c.len(),
        forall|k: int| i <= k < j ==> c[k] != 10,
    ensures
        samples_scan(c, s, i) == samples_scan(c, s, j),
    decreases j - i,
{
    if i < j {
        lemma_scan_skips(c, s, i + 1, j);
    }
}

/// A line ended by `\n` contributes its own sample, or nothing, ahead of
/// the samples of what follows it.
pub proof fn lemma_first_line(l: Seq<u8>, rest: Seq<u8>)
    requires
        has_no_newline(l),
    ensures
        samples_of(l + seq![10u8] + rest) == opt_seq(line_sample(l)) + samples_of(rest),
{
    let p = l + seq![10u8];
    let c = p + rest;
    let n = l.len() as int;
    assert(c[n] == 10);
    lemma_scan_skips(c, 0, 0, n);
    assert(c.subrange(0, n) =~= l);
    lemma_scan_shift(p, rest, 0, 0);
}

/// A line that holds no well-formed timing record, for instance one whose
/// response time is not a number, gives no sample and leaves the samples of
/// the other lines as they are; a well-formed line gives exactly its own.
pub proof fn lemma_malformed_line_skipped(before: Seq<u8>, l: Seq<u8>, rest: Seq<u8>)
    requires
        has_no_newline(before),
        has_no_newline(l),
    ensures
        line_sample(l) is None ==> samples_of(before + seq![10u8] + l + seq![10u8] + rest)
            == opt_seq(line_sample(before)) + samples_of(rest),
        line_sample(l) is Some ==> samples_of(before + seq![10u8] + l + seq![10u8] + rest)
            == opt_seq(line_sample(before)) + seq![line_sample(l)->0] + samples_of(rest),
{
    let tail = l + seq![10u8] + rest;
    assert(before + seq![10u8] + l + seq![10u8] + rest =~= before + seq![10u8] + tail);
    lemma_first_line(before, tail);
    lemma_first_line(l, rest);
    assert(opt_seq(None) =~= Seq::<u64>::empty());
}

/// Text with two dots, or with no digit, is no number of seconds.
pub proof fn lemma_not_a_number(t: Seq<u8>)
    requires
        (exists|i: int, j: int| 0 <= i < j < t.len() && t[i] == 46 && t[j] == 46) || (forall|
            k: int,
        | 0 <= k < t.len() ==> t[k] == 46),
    ensures
        seconds_text_nanos(t) is None,
{
    lemma_dot_pos_bounds(t, 0);
    let p = dot_pos(t, 0);
    let frac = if p < t.len() {
        t.subrange(p + 1, t.len() as int)
    } else {
        Seq::<u8>::empty()
    };
    if exists|i: int, j: int| 0 <= i < j < t.len() && t[i] == 46 && t[j] == 46 {
        let (i, j) = choose|i: int, j: int| 0 <= i < j < t.len() && t[i] == 46 && t[j] == 46;
        assert(p <= i);
        assert(frac[j - p - 1] == t[j]);
        assert(!all_digits(frac));
    } else if t.len() > 0 {
        assert(t[0] == 46);
        assert(p == 0);
        if frac.len() > 0 {
            assert(frac[0] == t[1]);
            assert(!all_digits(frac));
        }
    }
}

/// A line whose leftmost record has a response time that is no number
/// gives no sample.
pub proof fn lemma_non_number_response_skipped(l: Seq<u8>, i: int)
    requires
        is_first_match(l, i),
        ({
            let t = l.subrange(i, run_end(l, i, false));
            (exists|a: int, b: int| 0 <= a < b < t.len() && t[a] == 46 && t[b] == 46) || (forall|
                k: int,
            | 0 <= k < t.len() ==> t[k] == 46)
        }),
    ensures
        line_sample(l) is None,
{
    assert forall|j: int| is_first_match(l, j) implies j == i by {
        if j < i {
            assert(!fields_match(l, j, 0));
        }
        if j > i {
            assert(!fields_match(l, i, 0));
        }
    }
    lemma_not_a_number(l.subrange(i, run_end(l, i, false)));
}

} // verus!

use vstd::prelude::*;
use vstd::arithmetic::div_mod::{lemma_div_is_ordered, lemma_div_multiples_vanish};

verus! {

/// Error raised when no move was recorded, so that no average exists.
#[derive(Clone, Copy, Debug, PartialEq, Eq)]
pub enum SearchError {
    /// No move was recorded ("no data found for the given data & sl").
    NoData,
    /// None of the preset timeframes showed a single move of the requested size.
    NoTimeframe,
    /// A request window would start before the earliest supported instant.
    TimeOutOfRange,
}

/// Division of `a` by a positive `b`, rounded toward zero.
pub open spec fn trunc_div(a: int, b: int) -> int {
    if a >= 0 {
        a / b
    } else {
        -((-a) / b)
    }
}

/// Whole seconds in a duration of `ms` milliseconds, rounded toward zero.
pub open spec fn whole_secs(ms: int) -> int {
    trunc_div(ms, 1000)
}

/// Sum of the whole seconds of each duration weighted by recency: entries
/// come newest first, and of `n` entries the `i`-th one (from 0) counts
/// `n - i` times, so the most recent move weighs most and the oldest least.
pub open spec fn weighted_sum(s: Seq<i64>) -> int
    decreases s.len(),
{
    if s.len() == 0 {
        0
    } else {
        whole_secs(s[0] as int) * s.len() + weighted_sum(s.drop_first())
    }
}

/// Sum of the weights `1 + 2 + ... + n`.
pub open spec fn weight_total(n: nat) -> nat
    decreases n,
{
    if n == 0 {
        0
    } else {
        weight_total((n - 1) as nat) + n
    }
}

/// Weighted average of the durations in whole seconds, rounded toward zero.
pub open spec fn weighted_average(s: Seq<i64>) -> int {
    trunc_div(weighted_sum(s), weight_total(s.len()) as int)
}

/// What `weighted_average_secs` returns for `s`.
pub open spec fn average_result(s: Seq<i64>) -> Result<i64, SearchError> {
    if s.len() == 0 {
        Err(SearchError::NoData)
    } else {
        Ok(weighted_average(s) as i64)
    }
}

pub open spec fn fits_i64(x: int) -> bool {
    i64::MIN <= x <= i64::MAX
}

/// Every term and every running total of the weighted sum, accumulated from
/// the oldest entry to the newest, fits in an `i64`.
pub open spec fn accumulation_fits(s: Seq<i64>) -> bool {
    forall|k: int|
        0 <= k < s.len() ==> #[trigger] fits_i64(weighted_sum(s.subrange(k, s.len() as int)))
            && fits_i64(whole_secs(s[k] as int) * (s.len() - k))
}

proof fn lemma_weight_total_closed(n: nat)
    ensures
        weight_total(n) * 2 == n * (n + 1),
    decreases n,
{
    if n > 0 {
        let m = (n - 1) as nat;
        lemma_weight_total_closed(m);
        assert(weight_total(n) == weight_total(m) + n);
        assert(m * (m + 1) + 2 * n == n * (n + 1)) by (nonlinear_arith)
            requires
                m + 1 == n,
        {
        }
        assert(weight_total(n) * 2 == weight_total(m) * 2 + 2 * n);
    } else {
        assert(weight_total(0) == 0);
    }
}

proof fn lemma_weight_total_positive(n: nat)
    requires
        n >= 1,
    ensures
        weight_total(n) >= 1,
    decreases n,
{
    if n > 1 {
        lemma_weight_total_positive((n - 1) as nat);
    }
}

proof fn lemma_suffix_drop_first(s: Seq<i64>, k: int)
    requires
        0 <= k < s.len(),
    ensures
        s.subrange(k, s.len() as int).drop_first() == s.subrange(k + 1, s.len() as int),
        s.subrange(k, s.len() as int)[0] == s[k],
        s.subrange(k, s.len() as int).len() == s.len() - k,
{
    assert(s.subrange(k, s.len() as int).drop_first() =~= s.subrange(k + 1, s.len() as int));
}

/// Rounding toward zero keeps the whole seconds between zero and the
/// millisecond count.
pub proof fn lemma_whole_secs_bounds(ms: int)
    ensures
        ms >= 0 ==> 0 <= whole_secs(ms) <= ms,
        ms < 0 ==> ms <= whole_secs(ms) <= 0,
{
    if ms >= 0 {
        assert(0 <= ms / 1000 <= ms) by (nonlinear_arith)
            requires
                ms >= 0,
        {
        }
    } else {
        assert(0 <= (-ms) / 1000 <= -ms) by (nonlinear_arith)
            requires
                ms < 0,
        {
        }
    }
}

/// Whole seconds of `ms`, rounded toward zero like a cast of `ms / 1000.0`.
fn whole_secs_exec(ms: i64) -> (r: i64)
    ensures
        r == whole_secs(ms as int),
{
    proof {
        lemma_whole_secs_bounds(ms as int);
    }
    let wide = ms as i128;
    if wide >= 0 {
        (wide / 1000) as i64
    } else {
        let q = (-wide) / 1000;
        (-q) as i64
    }
}

/// Whole hours in a duration of `secs` seconds, rounded toward zero.
pub fn whole_hours(secs: i64) -> (h: i64)
    ensures
        h == trunc_div(secs as int, 3600),
{
    let wide = secs as i128;
    if wide >= 0 {
        assert(0 <= wide / 3600 <= wide) by (nonlinear_arith)
            requires
                wide >= 0,
        {
        }
        (wide / 3600) as i64
    } else {
        let q = (-wide) / 3600;
        assert(0 <= q <= -wide) by (nonlinear_arith)
            requires
                wide < 0,
                q == (-wide) / 3600,
        {
        }
        (-q) as i64
    }
}

/// Weighted average of the recorded move durations (milliseconds, newest
/// first), in whole seconds: of `n` durations the `i`-th (from 0) counts
/// `n - i` times, so recent moves weigh most, and the sum is divided by
/// `1 + 2 + ... + n`, rounding toward zero. `NoData` when there is no
/// duration at all.
pub fn weighted_average_secs(durations_ms: &Vec<i64>) -> (r: Result<i64, SearchError>)
    requires
        accumulation_fits(durations_ms@),
    ensures
        r == average_result(durations_ms@),
        r is Err <==> durations_ms@.len() == 0,
{
    let n = durations_ms.len();
    if n == 0 {
        return Err(SearchError::NoData);
    }
    let ghost s = durations_ms@;
    let mut acc: i64 = 0;
    let mut i: usize = n;
    assert(s.subrange(n as int, n as int) =~= Seq::<i64>::empty());
    while i > 0
        invariant
            n == s.len(),
            s == durations_ms@,
            accumulation_fits(s),
            0 <= i <= n,
            acc == weighted_sum(s.subrange(i as int, n as int)),
        decreases i,
    {
        let k = i - 1;
        proof {
            lemma_suffix_drop_first(s, k as int);
            assert(fits_i64(weighted_sum(s.subrange(k as int, n as int))));
        }
        let secs = whole_secs_exec(durations_ms[k]) as i128;
        let weight = (n - k) as i128;
        proof {
            assert(secs * weight <= 0x7fff_ffff_ffff_ffff * 0xffff_ffff_ffff_ffff) by (nonlinear_arith)
                requires
                    -0x8000_0000_0000_0000 <= secs <= 0x7fff_ffff_ffff_ffff,
                    1 <= weight <= 0xffff_ffff_ffff_ffff,
            {
            }
            assert(secs * weight >= -0x8000_0000_0000_0000 * 0xffff_ffff_ffff_ffff) by (nonlinear_arith)
                requires
                    -0x8000_0000_0000_0000 <= secs <= 0x7fff_ffff_ffff_ffff,
                    1 <= weight <= 0xffff_ffff_ffff_ffff,
            {
            }
        }
        let term = secs * weight;
        acc = (acc as i128 + term) as i64;
        i = k;
    }
    assert(s.subrange(0, n as int) =~= s);
    let nn = n as u128;
    assert(nn * (nn + 1) <= 0xffff_ffff_ffff_ffff * 0x1_0000_0000_0000_0000) by (nonlinear_arith)
        requires
            nn <= 0xffff_ffff_ffff_ffff,
    {
    }
    let total_u = nn * (nn + 1) / 2;
    proof {
        lemma_weight_total_closed(n as nat);
        lemma_weight_total_positive(n as nat);
        assert(total_u == weight_total(n as nat));
    }
    let total = total_u as i128;
    let wide = acc as i128;
    let avg: i128 = if wide >= 0 {
        proof {
            assert(wide / total <= wide) by (nonlinear_arith)
                requires
                    wide >= 0,
                    total >= 1,
            {
            }
            assert(wide / total >= 0) by (nonlinear_arith)
                requires
                    wide >= 0,
                    total >= 1,
            {
            }
        }
        wide / total
    } else {
        let neg = -wide;
        proof {
            assert(neg / total <= neg) by (nonlinear_arith)
                requires
                    neg >= 0,
                    total >= 1,
            {
            }
            assert(neg / total >= 0) by (nonlinear_arith)
                requires
                    neg >= 0,
                    total >= 1,
            {
            }
        }
        -(neg / total)
    };
    Ok(avg as i64)
}

/// Averaging a run of equal durations gives back that duration (in whole
/// seconds).
pub proof fn lemma_average_of_constant(s: Seq<i64>, d: i64)
    requires
        s.len() >= 1,
        forall|i: int| 0 <= i < s.len() ==> #[trigger] s[i] == d,
    ensures
        weighted_average(s) == whole_secs(d as int),
{
    let c = whole_secs(d as int);
    lemma_weighted_sum_constant(s, d);
    lemma_weight_total_positive(s.len());
    let t = weight_total(s.len()) as int;
    if c >= 0 {
        lemma_div_multiples_vanish(c, t);
        assert(t * c == c * t) by (nonlinear_arith);
    } else {
        lemma_div_multiples_vanish(-c, t);
        assert(t * (-c) == -(c * t)) by (nonlinear_arith);
        assert(c * t < 0) by (nonlinear_arith)
            requires
                c < 0,
                t >= 1,
        {
        }
    }
}

proof fn lemma_weighted_sum_constant(s: Seq<i64>, d: i64)
    requires
        forall|i: int| 0 <= i < s.len() ==> #[trigger] s[i] == d,
    ensures
        weighted_sum(s) == whole_secs(d as int) * weight_total(s.len()),
    decreases s.len(),
{
    if s.len() > 0 {
        let p = s.drop_first();
        assert forall|i: int| 0 <= i < p.len() implies #[trigger] p[i] == d by {
            assert(p[i] == s[i + 1]);
        }
        lemma_weighted_sum_constant(p, d);
        let c = whole_secs(d as int);
        let n = s.len();
        let m = (n - 1) as nat;
        let w = weight_total(m);
        assert(p.len() == m);
        assert(weight_total(n) == w + n);
        assert(c * w + c * n == c * (w + n)) by (nonlinear_arith);
        assert(s[0] == d);
        assert(weighted_sum(s) == weighted_sum(p) + c * n);
    } else {
        assert(weight_total(0) == 0);
        assert(whole_secs(d as int) * 0 == 0) by (nonlinear_arith);
    }
}

proof fn lemma_weighted_sum_between(s: Seq<i64>, lo: int, hi: int)
    requires
        forall|i: int| 0 <= i < s.len() ==> lo <= #[trigger] whole_secs(s[i] as int) <= hi,
    ensures
        lo * weight_total(s.len()) <= weighted_sum(s) <= hi * weight_total(s.len()),
    decreases s.len(),
{
    if s.len() > 0 {
        let p = s.drop_first();
        assert forall|i: int| 0 <= i < p.len() implies lo <= #[trigger] whole_secs(p[i] as int)
            <= hi by {
            assert(p[i] == s[i + 1]);
        }
        lemma_weighted_sum_between(p, lo, hi);
        let n = s.len() as int;
        let x = whole_secs(s[0] as int);
        let w = weight_total((n - 1) as nat) as int;
        assert(lo <= x <= hi);
        assert(lo * n <= x * n <= hi * n) by (nonlinear_arith)
            requires
                lo <= x <= hi,
                n >= 1,
        {
        }
        assert(lo * (w + n) == lo * w + lo * n) by (nonlinear_arith);
        assert(hi * (w + n) == hi * w + hi * n) by (nonlinear_arith);
        assert(p.len() == n - 1);
        assert(weight_total(s.len()) == w + n);
        assert(weighted_sum(s) == weighted_sum(p) + x * n);
    } else {
        assert(weight_total(0) == 0);
        assert(lo * 0 == 0 && hi * 0 == 0) by (nonlinear_arith);
    }
}

/// Of two neighbouring moves, the more recent one counts exactly once more:
/// exchanging the moves at positions `i` and `i + 1` (position `i` being the
/// more recent) changes the weighted sum by the difference of their whole
/// seconds. So putting the longer of two moves in the more recent place
/// never lowers the sum.
pub proof fn lemma_recent_weighs_more(s: Seq<i64>, i: int)
    requires
        0 <= i < s.len() - 1,
    ensures
        weighted_sum(s) - weighted_sum(s.update(i, s[i + 1]).update(i + 1, s[i])) == whole_secs(
            s[i] as int,
        ) - whole_secs(s[i + 1] as int),
    decreases i,
{
    let t = s.update(i, s[i + 1]).update(i + 1, s[i]);
    let n = s.len() as int;
    if i == 0 {
        let a = whole_secs(s[0] as int);
        let b = whole_secs(s[1] as int);
        let r = s.drop_first().drop_first();
        assert(t.drop_first().drop_first() =~= r);
        assert(t[0] == s[1] && t.drop_first()[0] == s[0] && s.drop_first()[0] == s[1]);
        let sd = s.drop_first();
        let td = t.drop_first();
        assert(sd.len() == n - 1 && td.len() == n - 1 && t.len() == n);
        assert(sd.drop_first() == r);
        assert(td.drop_first() == r);
        assert(weighted_sum(sd) == b * (n - 1) + weighted_sum(r));
        assert(weighted_sum(td) == a * (n - 1) + weighted_sum(r));
        assert(weighted_sum(s) == a * n + weighted_sum(sd));
        assert(weighted_sum(t) == b * n + weighted_sum(td));
        assert(a * n + b * (n - 1) - (b * n + a * (n - 1)) == a - b) by (nonlinear_arith);
    } else {
        let sd = s.drop_first();
        lemma_recent_weighs_more(sd, i - 1);
        assert(t.drop_first() =~= sd.update(i - 1, sd[i]).update(i, sd[i - 1]));
        assert(t[0] == s[0]);
    }
}

/// The weighted average never leaves the range spanned by the averaged
/// durations: if every duration is between `lo` and `hi` whole seconds, so is
/// the average.
pub proof fn lemma_average_between(s: Seq<i64>, lo: int, hi: int)
    requires
        s.len() >= 1,
        forall|i: int| 0 <= i < s.len() ==> lo <= #[trigger] whole_secs(s[i] as int) <= hi,
    ensures
        lo <= weighted_average(s) <= hi,
{
    lemma_weighted_sum_between(s, lo, hi);
    lemma_weight_total_positive(s.len());
    let t = weight_total(s.len()) as int;
    let x = weighted_sum(s);
    assert(lo * t == t * lo && hi * t == t * hi) by (nonlinear_arith);
    lemma_div_multiples_vanish(lo, t);
    lemma_div_multiples_vanish(hi, t);
    lemma_div_multiples_vanish(-lo, t);
    lemma_div_multiples_vanish(-hi, t);
    assert(t * (-lo) == -(t * lo) && t * (-hi) == -(t * hi)) by (nonlinear_arith);
    if x >= 0 {
        lemma_div_is_ordered(t * lo, x, t);
        lemma_div_is_ordered(x, t * hi, t);
    } else {
        lemma_div_is_ordered(-x, t * (-lo), t);
        lemma_div_is_ordered(t * (-hi), -x, t);
    }
}

} // verus!

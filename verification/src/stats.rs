//! Per-sub-test accumulators and the goodness-of-fit / proportion analysis.
//!
//! All statistics are held as fixed-point integers scaled by
//! [`crate::eval::SCALE`]; see that module for the convention.

use vstd::prelude::*;

use crate::eval::{decile_index, decile_of, TestOutcome, SCALE};

verus! {

/// Expected pass probability under the null hypothesis, scaled by `SCALE`:
/// one minus the significance level of the test suite (`0.99`).
pub const PA_SCALED: u64 = 99_000;

/// Scaled goodness-of-fit rejection threshold: a sub-test whose chi-square
/// p-value falls below `0.0001` is judged non-random.
pub const PVALUE_REJECT: u64 = 10;

/// Numerator of the squared proportion-band half-width in scaled units:
/// `9 * PA_SCALED * (SCALE - PA_SCALED)`, so that the half-width of the band
/// `PA +- 3*sqrt(PA*(1-PA)/n)` is `sqrt(BAND_NUM / n)` after scaling.
pub const BAND_NUM: u64 = 891_000_000;

/// Largest sample size (blocks contributing to one sub-test) the analysis
/// accepts; keeps every intermediate chi-square term inside `u128`.
pub const MAX_SAMPLE: u64 = 0x1000_0000_0000_0000;

/// Accumulated statistics of one sub-test across all processed blocks.
pub struct TestStat {
    /// Number of blocks on which the sub-test passed.
    pub pass_count: u64,
    /// Ten counters; bucket `i` counts the blocks whose p-value fell in
    /// the `i`-th tenth of `[0,1]`.
    pub p_distr: Vec<u64>,
}

/// Sum of a sequence of counters.
pub open spec fn sum_counts(s: Seq<u64>) -> int
    decreases s.len(),
{
    if s.len() == 0 {
        0
    } else {
        s[0] + sum_counts(s.drop_first())
    }
}

/// Every counter is bounded by the sum of all of them.
pub proof fn lemma_elem_le_sum(s: Seq<u64>, i: int)
    requires
        0 <= i < s.len(),
    ensures
        s[i] <= sum_counts(s),
        sum_counts(s) >= 0,
    decreases s.len(),
{
    lemma_sum_nonneg(s.drop_first());
    if i > 0 {
        lemma_elem_le_sum(s.drop_first(), i - 1);
    }
}

/// A sum of counters is never negative.
pub proof fn lemma_sum_nonneg(s: Seq<u64>)
    ensures
        sum_counts(s) >= 0,
    decreases s.len(),
{
    if s.len() > 0 {
        lemma_sum_nonneg(s.drop_first());
    }
}

/// Replacing one counter changes the sum by the difference.
pub proof fn lemma_sum_update(s: Seq<u64>, i: int, v: u64)
    requires
        0 <= i < s.len(),
    ensures
        sum_counts(s.update(i, v)) == sum_counts(s) - s[i] + v,
    decreases s.len(),
{
    if i == 0 {
        assert(s.update(0, v).drop_first() =~= s.drop_first());
    } else {
        assert(s.update(i, v).drop_first() =~= s.drop_first().update(i - 1, v));
        lemma_sum_update(s.drop_first(), i - 1, v);
    }
}

impl TestStat {
    /// Total number of blocks recorded in the decile histogram: by
    /// construction, the number of blocks for which this sub-test
    /// produced a successful outcome.
    pub open spec fn total(&self) -> int {
        sum_counts(self.p_distr@)
    }

    /// Structural invariant: ten buckets, and no more passes than
    /// recorded blocks.
    pub open spec fn wf(&self) -> bool {
        &&& self.p_distr@.len() == 10
        &&& self.pass_count <= self.total()
    }

    /// A fresh accumulator with an empty histogram.
    pub fn new() -> (r: TestStat)
        ensures
            r.wf(),
            r.total() == 0,
            r.pass_count == 0,
            forall|i: int| 0 <= i < 10 ==> r.p_distr@[i] == 0,
    {
        let mut d: Vec<u64> = Vec::new();
        let mut k: usize = 0;
        while k < 10
            invariant
                k <= 10,
                d@.len() == k,
                forall|i: int| 0 <= i < k ==> d@[i] == 0,
            decreases 10 - k,
        {
            d.push(0);
            k += 1;
        }
        proof {
            lemma_zero_sum(d@);
        }
        TestStat { pass_count: 0, p_distr: d }
    }

    /// Record one successful outcome: bump the decile bucket of its
    /// p-value, and the pass counter when it passed. The histogram total
    /// grows by exactly one, so it keeps counting the blocks for which
    /// this sub-test produced an outcome.
    pub fn record(&mut self, o: TestOutcome)
        requires
            old(self).wf(),
            old(self).total() < MAX_SAMPLE,
        ensures
            final(self).wf(),
            final(self).p_distr@ == old(self).p_distr@.update(
                decile_of(o.p_value),
                (old(self).p_distr@[decile_of(o.p_value)] + 1) as u64,
            ),
            final(self).pass_count == old(self).pass_count + (if o.pass {
                1int
            } else {
                0int
            }),
            final(self).total() == old(self).total() + 1,
    {
        let i = decile_index(o.p_value);
        proof {
            lemma_elem_le_sum(self.p_distr@, i as int);
            lemma_sum_update(
                self.p_distr@,
                i as int,
                (self.p_distr@[i as int] + 1) as u64,
            );
        }
        let c = self.p_distr[i];
        self.p_distr.set(i, c + 1);
        if o.pass {
            self.pass_count = self.pass_count + 1;
        }
    }
}

/// A sequence of zero counters sums to zero.
pub proof fn lemma_zero_sum(s: Seq<u64>)
    requires
        forall|i: int| 0 <= i < s.len() ==> s[i] == 0,
    ensures
        sum_counts(s) == 0,
    decreases s.len(),
{
    if s.len() > 0 {
        lemma_zero_sum(s.drop_first());
    }
}

/// Floor of the square root of a natural number.
pub open spec fn isqrt_spec(x: nat) -> nat
    decreases x,
{
    if x < 1 {
        0
    } else {
        let r = isqrt_spec((x - 1) as nat);
        if (r + 1) * (r + 1) <= x {
            r + 1
        } else {
            r
        }
    }
}

/// `isqrt_spec` is characterized by bracketing `x` between consecutive
/// squares.
pub proof fn lemma_isqrt_spec(x: nat)
    ensures
        isqrt_spec(x) * isqrt_spec(x) <= x,
        (isqrt_spec(x) + 1) * (isqrt_spec(x) + 1) > x,
    decreases x,
{
    if x < 1 {
        assert(isqrt_spec(x) == 0);
        assert((isqrt_spec(x) + 1) * (isqrt_spec(x) + 1) > x) by (nonlinear_arith)
            requires
                isqrt_spec(x) == 0,
                x < 1,
        ;
    } else {
        lemma_isqrt_spec((x - 1) as nat);
        let r = isqrt_spec((x - 1) as nat);
        assert(r * r <= x - 1);
        assert((r + 1) * (r + 1) > x - 1);
        if (r + 1) * (r + 1) <= x {
            assert(isqrt_spec(x) == r + 1);
            assert((r + 1 + 1) * (r + 1 + 1) > x) by (nonlinear_arith)
                requires
                    (r + 1) * (r + 1) >= x,
            ;
        } else {
            assert(isqrt_spec(x) == r);
            assert(r * r <= x);
        }
    }
}

/// Any value bracketing `x` between consecutive squares is the floor of
/// its square root.
pub proof fn lemma_isqrt_unique(x: nat, r: nat)
    requires
        r * r <= x,
        (r + 1) * (r + 1) > x,
    ensures
        r == isqrt_spec(x),
{
    let s = isqrt_spec(x);
    lemma_isqrt_spec(x);
    if r < s {
        assert((r + 1) * (r + 1) <= s * s) by (nonlinear_arith)
            requires r + 1 <= s;
    }
    if s < r {
        assert((s + 1) * (s + 1) <= r * r) by (nonlinear_arith)
            requires s + 1 <= r;
    }
}

/// Floor of the square root, by binary search.
pub fn isqrt(x: u64) -> (r: u64)
    requires
        x < 0x4000_0000_0000_0000,
    ensures
        r == isqrt_spec(x as nat),
        r * r <= x,
{
    let mut lo: u64 = 0;
    let mut hi: u64 = 0x8000_0000;
    while lo < hi
        invariant
            lo <= hi <= 0x8000_0000,
            lo * lo <= x,
            x < (hi + 1) * (hi + 1),
        decreases hi - lo,
    {
        let mid = lo + (hi - lo + 1) / 2;
        proof {
            assert(mid * mid <= 0x8000_0000 * 0x8000_0000) by (nonlinear_arith)
                requires mid <= 0x8000_0000u64;
        }
        if mid * mid <= x {
            lo = mid;
        } else {
            hi = mid - 1;
        }
    }
    proof {
        lemma_isqrt_unique(x as nat, lo as nat);
    }
    lo
}

/// A prefix sum together with the sum of the rest gives the whole sum.
pub proof fn lemma_sum_split(s: Seq<u64>, i: int)
    requires
        0 <= i <= s.len(),
    ensures
        sum_counts(s) == sum_counts(s.take(i)) + sum_counts(s.skip(i)),
    decreases i,
{
    if i == 0 {
        assert(s.take(0) =~= Seq::<u64>::empty());
        assert(s.skip(0) =~= s);
    } else {
        lemma_sum_split(s.drop_first(), i - 1);
        assert(s.take(i).drop_first() =~= s.drop_first().take(i - 1));
        assert(s.skip(i) =~= s.drop_first().skip(i - 1));
    }
}

/// Extending a prefix by one element adds that element to its sum.
pub proof fn lemma_sum_take_snoc(s: Seq<u64>, i: int)
    requires
        0 <= i < s.len(),
    ensures
        sum_counts(s.take(i + 1)) == sum_counts(s.take(i)) + s[i],
    decreases i,
{
    if i == 0 {
        assert(s.take(1).drop_first() =~= Seq::<u64>::empty());
        assert(s.take(0) =~= Seq::<u64>::empty());
    } else {
        lemma_sum_take_snoc(s.drop_first(), i - 1);
        assert(s.take(i + 1).drop_first() =~= s.drop_first().take(i));
        assert(s.take(i).drop_first() =~= s.drop_first().take(i - 1));
    }
}

/// The chi-square numerator of a histogram against a uniform expectation
/// `c` per bucket: the sum of squared deviations.
pub open spec fn chi_num_spec(hist: Seq<u64>, c: int) -> int
    decreases hist.len(),
{
    if hist.len() == 0 {
        0
    } else {
        (hist[0] - c) * (hist[0] - c) + chi_num_spec(hist.drop_first(), c)
    }
}

/// Extending a prefix by one bucket adds its squared deviation.
pub proof fn lemma_chi_take_snoc(s: Seq<u64>, c: int, i: int)
    requires
        0 <= i < s.len(),
    ensures
        chi_num_spec(s.take(i + 1), c) == chi_num_spec(s.take(i), c) + (s[i] - c) * (s[i] - c),
    decreases i,
{
    if i == 0 {
        assert(s.take(1).drop_first() =~= Seq::<u64>::empty());
        assert(s.take(0) =~= Seq::<u64>::empty());
    } else {
        lemma_chi_take_snoc(s.drop_first(), c, i - 1);
        assert(s.take(i + 1).drop_first() =~= s.drop_first().take(i));
        assert(s.take(i).drop_first() =~= s.drop_first().take(i - 1));
    }
}

/// Sample size of a sub-test: how many blocks its histogram records.
pub open spec fn sample_of(hist: Seq<u64>) -> int {
    sum_counts(hist)
}

/// The goodness-of-fit p-value of a histogram, scaled by `SCALE`, given the
/// value `survival` that the chi-square survival capability returned for the
/// histogram's statistic: zero on the degenerate sample
/// (`expected_per_bucket == 0`); one on a perfectly uniform histogram (the
/// survival function at zero); otherwise `survival`, clamped into
/// `[0, SCALE]`.
pub open spec fn subtest_pvalue(hist: Seq<u64>, survival: u64) -> int {
    let c = sample_of(hist) / 10;
    if c == 0 {
        0
    } else if chi_num_spec(hist, c) == 0 {
        SCALE as int
    } else if survival > SCALE {
        SCALE as int
    } else {
        survival as int
    }
}

/// The scaled half-width of the acceptable proportion band,
/// `3 * sqrt(PA * (1 - PA) / n)`: the floor of `sqrt(BAND_NUM / n)` in
/// scaled units. On an empty sample the band degenerates to `PA +- PA`.
pub open spec fn band_halfwidth(n: int) -> int {
    if n <= 0 {
        PA_SCALED as int
    } else {
        isqrt_spec((BAND_NUM as int / n) as nat) as int
    }
}

/// Lower endpoint of the acceptable proportion band.
pub open spec fn band_min(n: int) -> int {
    PA_SCALED - band_halfwidth(n)
}

/// Upper endpoint of the acceptable proportion band.
pub open spec fn band_max(n: int) -> int {
    PA_SCALED + band_halfwidth(n)
}

/// Scaled observed pass ratio: `pass_count / sample_size`, or zero on an
/// empty sample.
pub open spec fn ratio_of(pass_count: u64, n: int) -> int {
    if n <= 0 {
        0
    } else {
        (pass_count * SCALE) / n
    }
}

/// The verdict on one sub-test: it passes when the observed pass ratio
/// lies inside the proportion band and the goodness-of-fit p-value is not
/// below the rejection threshold.
pub open spec fn verdict_of(hist: Seq<u64>, pass_count: u64, survival: u64) -> bool {
    let n = sample_of(hist);
    let ratio = ratio_of(pass_count, n);
    &&& band_min(n) <= ratio
    &&& ratio <= band_max(n)
    &&& subtest_pvalue(hist, survival) >= PVALUE_REJECT
}

/// The band half-width never exceeds `PA`, so the lower endpoint never
/// underflows; on a non-empty sample it stays strictly below `PA`.
pub proof fn lemma_halfwidth_small(n: int)
    requires
        n >= 0,
    ensures
        0 <= band_halfwidth(n) <= PA_SCALED,
        n > 0 ==> band_halfwidth(n) < PA_SCALED,
{
    if n > 0 {
        assert(BAND_NUM as int / n <= BAND_NUM as int) by (nonlinear_arith)
            requires
                n >= 1,
        ;
        let x = (BAND_NUM as int / n) as nat;
        lemma_isqrt_spec(x);
        if isqrt_spec(x) >= 29850 {
            assert(isqrt_spec(x) * isqrt_spec(x) >= 29850 * 29850) by (nonlinear_arith)
                requires
                    isqrt_spec(x) >= 29850,
            ;
        }
    }
}

/// The goodness-of-fit p-value always lies in `[0, 1]` (scaled: in
/// `[0, SCALE]`), whatever the survival capability returned, and is exactly
/// zero whenever the expected count per bucket, `floor(sample_size / 10)`,
/// is zero.
pub proof fn lemma_pvalue_range(hist: Seq<u64>, survival: u64)
    ensures
        0 <= subtest_pvalue(hist, survival) <= SCALE,
        sample_of(hist) / 10 == 0 ==> subtest_pvalue(hist, survival) == 0,
{
}

/// Band endpoints are symmetric around `PA` and bracket it strictly, for
/// any sample a file of blocks can yield (up to `BAND_NUM` blocks; past
/// that the scaled half-width underflows to zero).
pub proof fn lemma_band_brackets_pa(n: int)
    requires
        0 <= n <= BAND_NUM,
    ensures
        band_min(n) < PA_SCALED < band_max(n),
        PA_SCALED - band_min(n) == band_max(n) - PA_SCALED,
        band_min(n) >= 0,
{
    lemma_halfwidth_small(n);
    if n > 0 {
        assert(BAND_NUM as int / n >= 1) by (nonlinear_arith)
            requires
                1 <= n <= BAND_NUM as int,
        ;
        let x = (BAND_NUM as int / n) as nat;
        lemma_isqrt_spec(x);
        if isqrt_spec(x) == 0 {
            assert(false);
        }
    }
}

/// The analysis of one sub-test: every field is a function of the
/// accumulator alone.
#[derive(Clone, Copy, PartialEq, Eq, Structural, Debug)]
pub struct SubtestReport {
    /// Goodness-of-fit p-value for uniformity of the decile histogram,
    /// scaled by `SCALE`.
    pub chi_square_pvalue: u64,
    /// Observed pass ratio, scaled by `SCALE`.
    pub pass_ratio: u64,
    /// Lower endpoint of the acceptable proportion band, scaled.
    pub min_endpoint: u64,
    /// Upper endpoint of the acceptable proportion band, scaled.
    pub max_endpoint: u64,
    /// True when the sub-test is judged consistent with randomness.
    pub verdict: bool,
}

/// Sum of the ten decile counters of an accumulator.
pub fn sample_size(st: &TestStat) -> (n: u64)
    requires
        st.wf(),
        st.total() <= MAX_SAMPLE,
    ensures
        n == st.total(),
{
    let mut acc: u64 = 0;
    let mut i: usize = 0;
    proof {
        assert(st.p_distr@.take(0) =~= Seq::<u64>::empty());
    }
    while i < 10
        invariant
            st.wf(),
            st.total() <= MAX_SAMPLE,
            i <= 10,
            acc == sum_counts(st.p_distr@.take(i as int)),
        decreases 10 - i,
    {
        proof {
            lemma_sum_take_snoc(st.p_distr@, i as int);
            lemma_sum_split(st.p_distr@, i as int + 1);
            lemma_sum_nonneg(st.p_distr@.skip(i as int + 1));
        }
        acc = acc + st.p_distr[i];
        i += 1;
    }
    proof {
        assert(st.p_distr@.take(10) =~= st.p_distr@);
    }
    acc
}

/// The chi-square statistic of an accumulator as an exact rational: the
/// expected count per bucket (the denominator) and the sum of squared
/// deviations (the numerator). The survival capability evaluates the
/// chi-square survival function at `numerator / denominator`.
pub fn chi_square_stat(st: &TestStat) -> (r: (u64, u128))
    requires
        st.wf(),
        st.total() <= MAX_SAMPLE,
    ensures
        r.0 == st.total() / 10,
        r.1 == chi_num_spec(st.p_distr@, r.0 as int),
{
    let n = sample_size(st);
    let c = n / 10;

    // Chi-square numerator: sum of squared deviations from `c`.
    let mut chi: u128 = 0;
    let mut i: usize = 0;
    proof {
        assert(st.p_distr@.take(0) =~= Seq::<u64>::empty());
    }
    while i < 10
        invariant
            st.wf(),
            st.total() <= MAX_SAMPLE,
            c <= MAX_SAMPLE,
            i <= 10,
            chi == chi_num_spec(st.p_distr@.take(i as int), c as int),
            chi <= (i as int) * 0x1000000000000000000000000000000,
        decreases 10 - i,
    {
        let obs = st.p_distr[i];
        proof {
            lemma_elem_le_sum(st.p_distr@, i as int);
            lemma_chi_take_snoc(st.p_distr@, c as int, i as int);
        }
        let d: u64 = if obs >= c {
            obs - c
        } else {
            c - obs
        };
        proof {
            assert((d as int) * (d as int) <= 0x1000000000000000000000000000000)
                by (nonlinear_arith)
                requires
                    0 <= d as int <= 0x1000_0000_0000_0000,
            ;
            assert(((i as int) + 1) * 0x1000000000000000000000000000000 == (i as int)
                * 0x1000000000000000000000000000000 + 0x1000000000000000000000000000000)
                by (nonlinear_arith);
            assert((st.p_distr@[i as int] - c) * (st.p_distr@[i as int] - c) == (d as int) * (
            d as int)) by (nonlinear_arith)
                requires
                    d == if st.p_distr@[i as int] >= c {
                        st.p_distr@[i as int] - c
                    } else {
                        c - st.p_distr@[i as int]
                    },
            ;
        }
        chi = chi + (d as u128) * (d as u128);
        i += 1;
    }
    proof {
        assert(st.p_distr@.take(10) =~= st.p_distr@);
    }
    (c, chi)
}

/// Analyze one sub-test accumulator: chi-square p-value, pass ratio,
/// proportion band, and the pass/fail verdict. `survival` is what the
/// chi-square survival capability returned for this accumulator's
/// statistic (see [`chi_square_stat`]); the analysis holds for every value
/// it may take.
pub fn analyze_subtest(st: &TestStat, survival: u64) -> (r: SubtestReport)
    requires
        st.wf(),
        st.total() <= MAX_SAMPLE,
    ensures
        r.chi_square_pvalue == subtest_pvalue(st.p_distr@, survival),
        r.pass_ratio == ratio_of(st.pass_count, st.total()),
        r.min_endpoint == band_min(st.total()),
        r.max_endpoint == band_max(st.total()),
        r.verdict == verdict_of(st.p_distr@, st.pass_count, survival),
        r.chi_square_pvalue <= SCALE,
        r.pass_ratio <= SCALE,
        r.min_endpoint < PA_SCALED < r.max_endpoint || st.total() > BAND_NUM,
{
    let n = sample_size(st);
    let (c, chi) = chi_square_stat(st);

    let pvalue: u64 = if c == 0 {
        0
    } else if chi == 0 {
        SCALE
    } else {
        if survival > SCALE {
            SCALE
        } else {
            survival
        }
    };

    let ratio: u64 = if n == 0 {
        0
    } else {
        proof {
            assert((st.pass_count as int * SCALE as int) / (n as int) <= SCALE as int)
                by (nonlinear_arith)
                requires
                    0 <= st.pass_count as int <= n as int,
                    n as int >= 1,
            ;
        }
        ((st.pass_count as u128) * (SCALE as u128) / (n as u128)) as u64
    };

    let hw: u64 = if n == 0 {
        PA_SCALED
    } else {
        isqrt(BAND_NUM / n)
    };
    proof {
        lemma_halfwidth_small(n as int);
    }
    let minp = PA_SCALED - hw;
    let maxp = PA_SCALED + hw;

    let verdict = !(ratio < minp || ratio > maxp || pvalue < PVALUE_REJECT);
    proof {
        if st.total() <= BAND_NUM {
            lemma_band_brackets_pa(st.total());
        }
    }
    SubtestReport {
        chi_square_pvalue: pvalue,
        pass_ratio: ratio,
        min_endpoint: minp,
        max_endpoint: maxp,
        verdict,
    }
}

} // verus!

//! The statistics aggregator: turns the run's accumulators into per-sub-test
//! verdicts, global display data and the textual report.
//!
//! Every field of the result is a function of the accumulators and of the
//! chi-square survival values supplied for them, so re-running the
//! aggregation on the same snapshot yields an identical report.

use vstd::prelude::*;
use vstd::string::StringExecFns;

use crate::params::NistWrapper;
use crate::stats::{
    analyze_subtest, band_max, band_min, lemma_halfwidth_small, ratio_of, subtest_pvalue,
    verdict_of, TestStat, MAX_SAMPLE,
};
use crate::text::{
    aligned_seq, dec_seq, fill_seq, fixed5_seq, push_aligned, push_dec, push_fixed5,
};

verus! {

/// Largest registry length and group length the aggregator accepts; far
/// beyond what fits in memory, and small enough that a row counter cannot
/// overflow.
pub const MAX_GROUPS: usize = 0x7fff_ffff;

/// The ten decile cells of one report row, right-aligned in width five.
pub open spec fn cells_upto(hist: Seq<u64>, k: int) -> Seq<char>
    decreases k,
{
    if k <= 0 {
        Seq::<char>::empty()
    } else {
        cells_upto(hist, k - 1) + aligned_seq(hist[k - 1] as int, 5, ' ')
    }
}

/// A scaled value as a fixed-point number right-aligned in width twelve.
pub open spec fn fixed12(v: int) -> Seq<char> {
    fill_seq(' ', 12 - fixed5_seq(v).len()) + fixed5_seq(v)
}

/// The three-character pass/fail marker.
pub open spec fn marker_seq(verdict: bool) -> Seq<char> {
    if verdict {
        "   "@
    } else {
        " * "@
    }
}

/// One report row: ten decile counts, the chi-square p-value and the pass
/// ratio, the marker, the test name, a line break.
pub open spec fn row_seq(name: Seq<char>, st: TestStat, sv: u64) -> Seq<char> {
    cells_upto(st.p_distr@, 10) + fixed12(subtest_pvalue(st.p_distr@, sv)) + fixed12(
        ratio_of(st.pass_count, st.total()),
    ) + marker_seq(verdict_of(st.p_distr@, st.pass_count, sv)) + name + "\n"@
}

/// The rows of one test's first `j` sub-tests.
pub open spec fn g_text(name: Seq<char>, g: Seq<TestStat>, sv: Seq<u64>, j: int) -> Seq<char>
    decreases j,
{
    if j <= 0 {
        Seq::<char>::empty()
    } else {
        g_text(name, g, sv, j - 1) + row_seq(name, g[j - 1], sv[j - 1])
    }
}

/// Failing sub-tests among one test's first `j`.
pub open spec fn g_failed(g: Seq<TestStat>, sv: Seq<u64>, j: int) -> int
    decreases j,
{
    if j <= 0 {
        0
    } else {
        g_failed(g, sv, j - 1) + (if verdict_of(g[j - 1].p_distr@, g[j - 1].pass_count, sv[j - 1]) {
            0int
        } else {
            1int
        })
    }
}

/// Sum of lower band endpoints over one test's first `j` sub-tests.
pub open spec fn g_summin(g: Seq<TestStat>, j: int) -> int
    decreases j,
{
    if j <= 0 {
        0
    } else {
        g_summin(g, j - 1) + band_min(g[j - 1].total())
    }
}

/// Sum of upper band endpoints over one test's first `j` sub-tests.
pub open spec fn g_summax(g: Seq<TestStat>, j: int) -> int
    decreases j,
{
    if j <= 0 {
        0
    } else {
        g_summax(g, j - 1) + band_max(g[j - 1].total())
    }
}

/// One bucket of the global decile histogram over one test's first `j`
/// sub-tests.
pub open spec fn g_bucket(g: Seq<TestStat>, j: int, b: int) -> int
    decreases j,
{
    if j <= 0 {
        0
    } else {
        g_bucket(g, j - 1, b) + g[j - 1].p_distr@[b]
    }
}

/// The pass ratios of one test's first `j` sub-tests, in order.
pub open spec fn g_ratios(g: Seq<TestStat>, j: int) -> Seq<u64>
    decreases j,
{
    if j <= 0 {
        Seq::<u64>::empty()
    } else {
        g_ratios(g, j - 1) + seq![ratio_of(g[j - 1].pass_count, g[j - 1].total()) as u64]
    }
}

/// The report rows of the first `i` tests (disabled tests contribute
/// nothing).
pub open spec fn all_text(t: Seq<NistWrapper>, s: Seq<Vec<TestStat>>, v: Seq<Vec<u64>>, i: int) -> Seq<char>
    decreases i,
{
    if i <= 0 {
        Seq::<char>::empty()
    } else {
        all_text(t, s, v, i - 1) + (if t[i - 1].enable {
            g_text(t[i - 1].name@, s[i - 1]@, v[i - 1]@, s[i - 1]@.len() as int)
        } else {
            Seq::<char>::empty()
        })
    }
}

/// Failing sub-tests among the first `i` tests.
pub open spec fn all_failed(t: Seq<NistWrapper>, s: Seq<Vec<TestStat>>, v: Seq<Vec<u64>>, i: int) -> int
    decreases i,
{
    if i <= 0 {
        0
    } else {
        all_failed(t, s, v, i - 1) + (if t[i - 1].enable {
            g_failed(s[i - 1]@, v[i - 1]@, s[i - 1]@.len() as int)
        } else {
            0int
        })
    }
}

/// Number of sub-test rows among the first `i` tests.
pub open spec fn all_rows(t: Seq<NistWrapper>, s: Seq<Vec<TestStat>>, i: int) -> int
    decreases i,
{
    if i <= 0 {
        0
    } else {
        all_rows(t, s, i - 1) + (if t[i - 1].enable {
            s[i - 1]@.len() as int
        } else {
            0int
        })
    }
}

/// Sum of lower band endpoints over the first `i` tests.
pub open spec fn all_summin(t: Seq<NistWrapper>, s: Seq<Vec<TestStat>>, i: int) -> int
    decreases i,
{
    if i <= 0 {
        0
    } else {
        all_summin(t, s, i - 1) + (if t[i - 1].enable {
            g_summin(s[i - 1]@, s[i - 1]@.len() as int)
        } else {
            0int
        })
    }
}

/// Sum of upper band endpoints over the first `i` tests.
pub open spec fn all_summax(t: Seq<NistWrapper>, s: Seq<Vec<TestStat>>, i: int) -> int
    decreases i,
{
    if i <= 0 {
        0
    } else {
        all_summax(t, s, i - 1) + (if t[i - 1].enable {
            g_summax(s[i - 1]@, s[i - 1]@.len() as int)
        } else {
            0int
        })
    }
}

/// One bucket of the global decile histogram over the first `i` tests.
pub open spec fn all_bucket(t: Seq<NistWrapper>, s: Seq<Vec<TestStat>>, i: int, b: int) -> int
    decreases i,
{
    if i <= 0 {
        0
    } else {
        all_bucket(t, s, i - 1, b) + (if t[i - 1].enable {
            g_bucket(s[i - 1]@, s[i - 1]@.len() as int, b)
        } else {
            0int
        })
    }
}

/// The pass ratios of all sub-test rows of the first `i` tests, in order.
pub open spec fn all_ratios(t: Seq<NistWrapper>, s: Seq<Vec<TestStat>>, i: int) -> Seq<u64>
    decreases i,
{
    if i <= 0 {
        Seq::<u64>::empty()
    } else {
        all_ratios(t, s, i - 1) + (if t[i - 1].enable {
            g_ratios(s[i - 1]@, s[i - 1]@.len() as int)
        } else {
            Seq::<u64>::empty()
        })
    }
}

/// The derived, read-only result of one aggregation.
pub struct AggregateReport {
    /// Global decile histogram: per bucket, the sum over all sub-tests.
    pub p_distr: Vec<u128>,
    /// Observed pass ratio of every sub-test row, scaled, in report order.
    pub p_p_distr: Vec<u64>,
    /// Mean lower band endpoint across all rows, scaled.
    pub tresh_min: u64,
    /// Mean upper band endpoint across all rows, scaled.
    pub tresh_max: u64,
    /// The rendered report.
    pub result: String,
    /// Number of failing sub-tests.
    pub failed: u64,
}

/// What it means for a report to be the aggregation of a snapshot: every
/// field is pinned by the accumulators, the registry and the supplied
/// survival values.
pub open spec fn is_aggregate_of(
    r: AggregateReport,
    t: Seq<NistWrapper>,
    s: Seq<Vec<TestStat>>,
    v: Seq<Vec<u64>>,
) -> bool {
    let n = t.len() as int;
    let rows = all_rows(t, s, n);
    &&& r.failed == all_failed(t, s, v, n)
    &&& r.p_distr@.len() == 10
    &&& forall|b: int| 0 <= b < 10 ==> r.p_distr@[b] == all_bucket(t, s, n, b)
    &&& r.p_p_distr@ == all_ratios(t, s, n)
    &&& (rows <= 0 ==> r.tresh_min == 0 && r.tresh_max == 0)
    &&& (rows > 0 ==> r.tresh_min == all_summin(t, s, n) / rows && r.tresh_max == all_summax(
        t,
        s,
        n,
    ) / rows)
    &&& r.result@ == all_text(t, s, v, n) + "\n"@ + "Number of failed tests (*): "@ + dec_seq(
        all_failed(t, s, v, n),
    )
}

/// Aggregation is a pure function of the snapshot: two reports of the same
/// snapshot agree in every field.
pub proof fn lemma_aggregate_deterministic(
    r1: AggregateReport,
    r2: AggregateReport,
    t: Seq<NistWrapper>,
    s: Seq<Vec<TestStat>>,
    v: Seq<Vec<u64>>,
)
    requires
        is_aggregate_of(r1, t, s, v),
        is_aggregate_of(r2, t, s, v),
    ensures
        r1.failed == r2.failed,
        r1.p_distr@ == r2.p_distr@,
        r1.p_p_distr@ == r2.p_p_distr@,
        r1.tresh_min == r2.tresh_min,
        r1.tresh_max == r2.tresh_max,
        r1.result@ == r2.result@,
{
    assert(r1.p_distr@ =~= r2.p_distr@);
}

/// Consume the run's accumulators and produce the aggregate report.
///
/// `survivals` holds, for each sub-test, what the chi-square survival
/// capability returned for that accumulator's statistic (see
/// [`crate::stats::chi_square_stat`]); the shape must match `stats`. The
/// ensures pin every field of the result as a function of the inputs.
#[verifier::rlimit(100)]
pub fn aggregate(
    tests: &Vec<NistWrapper>,
    stats: &Vec<Vec<TestStat>>,
    survivals: &Vec<Vec<u64>>,
) -> (r: AggregateReport)
    requires
        stats@.len() == tests@.len(),
        survivals@.len() == tests@.len(),
        tests@.len() <= MAX_GROUPS,
        forall|i: int|
            0 <= i < tests@.len() ==> (#[trigger] survivals@[i])@.len() == stats@[i]@.len(),
        forall|i: int| 0 <= i < tests@.len() ==> (#[trigger] stats@[i])@.len() <= MAX_GROUPS,
        forall|i: int, j: int|
            0 <= i < tests@.len() && 0 <= j < stats@[i]@.len() ==> {
                &&& (#[trigger] stats@[i]@[j]).wf()
                &&& stats@[i]@[j].total() <= MAX_SAMPLE
            },
    ensures
        is_aggregate_of(r, tests@, stats@, survivals@),
{
    let ghost t = tests@;
    let ghost s = stats@;
    let ghost v = survivals@;
    let n = tests.len();

    let mut result: String = String::new();
    let mut failed: u64 = 0;
    let mut rows: u64 = 0;
    let mut summin: u128 = 0;
    let mut summax: u128 = 0;
    let mut ratios: Vec<u64> = Vec::new();
    let mut gh: Vec<u128> = Vec::new();
    let mut z: usize = 0;
    while z < 10
        invariant
            z <= 10,
            gh@.len() == z,
            forall|b: int| 0 <= b < z ==> gh@[b] == 0,
        decreases 10 - z,
    {
        gh.push(0);
        z += 1;
    }

    let mut i: usize = 0;
    while i < n
        invariant
            n == t.len(),
            s.len() == n,
            v.len() == n,
            n <= MAX_GROUPS,
            t == tests@,
            s == stats@,
            v == survivals@,
            forall|k: int| 0 <= k < n ==> (#[trigger] v[k])@.len() == s[k]@.len(),
            forall|k: int| 0 <= k < n ==> (#[trigger] s[k])@.len() <= MAX_GROUPS,
            forall|k: int, j: int|
                0 <= k < n && 0 <= j < s[k]@.len() ==> {
                    &&& (#[trigger] s[k]@[j]).wf()
                    &&& s[k]@[j].total() <= MAX_SAMPLE
                },
            i <= n,
            result@ == all_text(t, s, v, i as int),
            failed == all_failed(t, s, v, i as int),
            rows == all_rows(t, s, i as int),
            rows <= (i as int) * (MAX_GROUPS as int),
            failed <= rows,
            summin == all_summin(t, s, i as int),
            summax == all_summax(t, s, i as int),
            summin <= (rows as int) * 200_000,
            summax <= (rows as int) * 200_000,
            ratios@ == all_ratios(t, s, i as int),
            gh@.len() == 10,
            forall|b: int| 0 <= b < 10 ==> #[trigger] gh@[b] == all_bucket(t, s, i as int, b),
            forall|b: int|
                0 <= b < 10 ==> #[trigger] gh@[b] <= (rows as int) * (MAX_SAMPLE as int),
        decreases n - i,
    {
        if tests[i].enable {
            let g = &stats[i];
            let sv = &survivals[i];
            let m = g.len();
            let mut j: usize = 0;
            while j < m
                invariant
                    n == t.len(),
                    s.len() == n,
                    v.len() == n,
                    t == tests@,
                    s == stats@,
                    v == survivals@,
                    n <= MAX_GROUPS,
                    i < n,
                    t[i as int].enable,
                    g == &stats[i as int],
                    sv == &survivals[i as int],
                    m == g@.len(),
                    m <= MAX_GROUPS,
                    sv@.len() == m,
                    forall|k: int|
                        0 <= k < m ==> {
                            &&& (#[trigger] g@[k]).wf()
                            &&& g@[k].total() <= MAX_SAMPLE
                        },
                    j <= m,
                    result@ == all_text(t, s, v, i as int) + g_text(
                        t[i as int].name@,
                        g@,
                        sv@,
                        j as int,
                    ),
                    failed == all_failed(t, s, v, i as int) + g_failed(g@, sv@, j as int),
                    rows == all_rows(t, s, i as int) + j,
                    rows <= (i as int) * (MAX_GROUPS as int) + j,
                    failed <= rows,
                    summin == all_summin(t, s, i as int) + g_summin(g@, j as int),
                    summax == all_summax(t, s, i as int) + g_summax(g@, j as int),
                    summin <= (rows as int) * 200_000,
                    summax <= (rows as int) * 200_000,
                    ratios@ == all_ratios(t, s, i as int) + g_ratios(g@, j as int),
                    gh@.len() == 10,
                    forall|b: int|
                        0 <= b < 10 ==> #[trigger] gh@[b] == all_bucket(t, s, i as int, b)
                            + g_bucket(g@, j as int, b),
                    forall|b: int|
                        0 <= b < 10 ==> #[trigger] gh@[b] <= (rows as int) * (MAX_SAMPLE as int),
                decreases m - j,
            {
                let st = &g[j];
                let rep = analyze_subtest(st, sv[j]);
                proof {
                    lemma_halfwidth_small(st.total());
                }

                // The ten decile cells, and the global histogram.
                let ghost row_start = result@;
                let ghost gh_base = gh@;
                let mut b: usize = 0;
                proof {
                    assert(row_start + cells_upto(st.p_distr@, 0) =~= row_start);
                }
                while b < 10
                    invariant
                        b <= 10,
                        st.wf(),
                        st.total() <= MAX_SAMPLE,
                        rows < 0xffff_ffff_ffff_ffff,
                        result@ == row_start + cells_upto(st.p_distr@, b as int),
                        gh@.len() == 10,
                        gh_base.len() == 10,
                        forall|bb: int|
                            0 <= bb < 10 ==> #[trigger] gh_base[bb] <= (rows as int) * (
                            MAX_SAMPLE as int),
                        forall|bb: int|
                            b <= bb < 10 ==> #[trigger] gh@[bb] == gh_base[bb],
                        forall|bb: int|
                            0 <= bb < b ==> #[trigger] gh@[bb] == gh_base[bb]
                                + st.p_distr@[bb],
                    decreases 10 - b,
                {
                    let cnt = st.p_distr[b];
                    push_aligned(&mut result, cnt, 5);
                    proof {
                        crate::stats::lemma_elem_le_sum(st.p_distr@, b as int);
                    }
                    let cur = gh[b];
                    gh.set(b, cur + (cnt as u128));
                    b += 1;
                }

                proof {
                    assert forall|bb: int| 0 <= bb < 10 implies st.p_distr@[bb]
                        <= MAX_SAMPLE by {
                        crate::stats::lemma_elem_le_sum(st.p_distr@, bb);
                    }
                }
                push_fixed5(&mut result, rep.chi_square_pvalue, 12);
                push_fixed5(&mut result, rep.pass_ratio, 12);
                proof {
                    reveal_strlit("   ");
                    reveal_strlit(" * ");
                }
                if rep.verdict {
                    result.append("   ");
                } else {
                    result.append(" * ");
                    failed = failed + 1;
                }
                result.append(tests[i].name.as_str());
                proof {
                    reveal_strlit("\n");
                }
                result.append("\n");
                proof {
                    assert(result@ =~= all_text(t, s, v, i as int) + g_text(
                        t[i as int].name@,
                        g@,
                        sv@,
                        j as int + 1,
                    ));
                }

                summin = summin + (rep.min_endpoint as u128);
                summax = summax + (rep.max_endpoint as u128);
                ratios.push(rep.pass_ratio);
                rows = rows + 1;
                j += 1;
            }
            proof {
                assert(all_text(t, s, v, i as int + 1) =~= result@);
                assert(all_ratios(t, s, i as int + 1) =~= ratios@);
            }
        } else {
            proof {
                assert(all_text(t, s, v, i as int + 1) =~= result@);
                assert(all_ratios(t, s, i as int + 1) =~= ratios@);
            }
        }
        i += 1;
    }

    // Mean band endpoints across all rows.
    let (tmin, tmax): (u64, u64) = if rows == 0 {
        (0, 0)
    } else {
        proof {
            assert(summin as int / rows as int <= 200_000) by (nonlinear_arith)
                requires
                    summin as int <= (rows as int) * 200_000,
                    rows as int >= 1,
            ;
            assert(summax as int / rows as int <= 200_000) by (nonlinear_arith)
                requires
                    summax as int <= (rows as int) * 200_000,
                    rows as int >= 1,
            ;
        }
        ((summin / (rows as u128)) as u64, (summax / (rows as u128)) as u64)
    };

    // The summary line.
    proof {
        reveal_strlit("\n");
        reveal_strlit("Number of failed tests (*): ");
    }
    result.append("\n");
    result.append("Number of failed tests (*): ");
    push_dec(&mut result, failed);
    proof {
        assert(result@ =~= all_text(t, s, v, n as int) + "\n"@ + "Number of failed tests (*): "@
            + dec_seq(all_failed(t, s, v, n as int)));
    }

    AggregateReport {
        p_distr: gh,
        p_p_distr: ratios,
        tresh_min: tmin,
        tresh_max: tmax,
        result,
        failed,
    }
}

} // verus!

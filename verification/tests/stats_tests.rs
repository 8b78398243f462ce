use nist_runner::eval::{decile_index, TestOutcome, SCALE};
use nist_runner::stats::{
    analyze_subtest, chi_square_stat, isqrt, sample_size, TestStat, PA_SCALED,
};
use nist_runner::text::duration_string;

fn fresh_stat() -> TestStat {
    TestStat::new()
}

fn stat_with(hist: [u64; 10], pass: u64) -> TestStat {
    let mut st = TestStat::new();
    st.p_distr = hist.to_vec();
    st.pass_count = pass;
    st
}

#[test]
fn decile_buckets() {
    assert_eq!(decile_index(0), 0);
    assert_eq!(decile_index(9_999), 0);
    assert_eq!(decile_index(10_000), 1);
    assert_eq!(decile_index(55_000), 5);
    assert_eq!(decile_index(99_999), 9);
    // A p-value of exactly one stays in the last bucket.
    assert_eq!(decile_index(SCALE), 9);
}

#[test]
fn isqrt_exact() {
    assert_eq!(isqrt(0), 0);
    assert_eq!(isqrt(1), 1);
    assert_eq!(isqrt(3), 1);
    assert_eq!(isqrt(4), 2);
    assert_eq!(isqrt(890_962_801), 29_849);
    assert_eq!(isqrt(891_000_000), 29_849);
}

#[test]
fn record_fills_buckets() {
    let mut st = fresh_stat();
    st.record(TestOutcome { pass: true, p_value: SCALE });
    st.record(TestOutcome { pass: false, p_value: 0 });
    st.record(TestOutcome { pass: true, p_value: 34_000 });
    assert_eq!(st.pass_count, 2);
    assert_eq!(st.p_distr[9], 1);
    assert_eq!(st.p_distr[0], 1);
    assert_eq!(st.p_distr[3], 1);
    assert_eq!(sample_size(&st), 3);
}

#[test]
fn empty_sample_pvalue_is_zero() {
    // Degenerate sample: expected-per-bucket is zero, so the p-value is
    // exactly zero whatever the survival capability would have said.
    let st = fresh_stat();
    let r = analyze_subtest(&st, 77_777);
    assert_eq!(r.chi_square_pvalue, 0);
    assert!(!r.verdict);
}

#[test]
fn small_sample_pvalue_is_zero() {
    // Nine blocks: expected-per-bucket floor(9/10) == 0.
    let st = stat_with([1, 1, 1, 1, 1, 1, 1, 1, 1, 0], 9);
    let r = analyze_subtest(&st, 99_999);
    assert_eq!(r.chi_square_pvalue, 0);
}

#[test]
fn band_brackets_pa_symmetrically() {
    // One block: half-width is floor(sqrt(891e6)) = 29849 scaled units.
    let st = stat_with([1, 0, 0, 0, 0, 0, 0, 0, 0, 0], 1);
    let r = analyze_subtest(&st, 0);
    assert_eq!(r.min_endpoint, PA_SCALED - 29_849);
    assert_eq!(r.max_endpoint, PA_SCALED + 29_849);
    assert_eq!(PA_SCALED - r.min_endpoint, r.max_endpoint - PA_SCALED);
    assert!(r.min_endpoint < PA_SCALED && PA_SCALED < r.max_endpoint);
}

#[test]
fn uniform_histogram_gives_pvalue_one() {
    // Ten counts of ten: a perfect fit, chi-square zero, survival one.
    let st = stat_with([10; 10], 99);
    let (c, chi) = chi_square_stat(&st);
    assert_eq!(c, 10);
    assert_eq!(chi, 0);
    let r = analyze_subtest(&st, 0);
    assert_eq!(r.chi_square_pvalue, SCALE);
}

#[test]
fn survival_is_clamped_into_unit_range() {
    let st = stat_with([19, 1, 10, 10, 10, 10, 10, 10, 10, 10], 95);
    let r = analyze_subtest(&st, 2 * SCALE);
    assert_eq!(r.chi_square_pvalue, SCALE);
}

#[test]
fn survival_from_statrs_flows_through() {
    // chi-square: (19-10)^2 + (1-10)^2 = 162 over c = 10, so 16.2.
    let st = stat_with([19, 1, 10, 10, 10, 10, 10, 10, 10, 10], 95);
    let (c, chi) = chi_square_stat(&st);
    assert_eq!((c, chi), (10, 162));
    let x = chi as f64 / c as f64;
    let sv = (statrs::function::gamma::gamma_ur(4.5, x / 2.0) * 100_000.0) as u64;
    assert!(0 < sv && sv < SCALE);
    let r = analyze_subtest(&st, sv);
    assert_eq!(r.chi_square_pvalue, sv);
}

#[test]
fn verdict_fails_outside_band() {
    // 100 blocks of which 90 pass: a ratio of 0.9 falls below the band,
    // whose lower endpoint at this sample size is 0.96016.
    let st = stat_with([10; 10], 90);
    let r = analyze_subtest(&st, SCALE);
    assert_eq!(r.pass_ratio, 90_000);
    assert_eq!(r.min_endpoint, 96_016);
    assert!(r.pass_ratio < r.min_endpoint);
    assert!(!r.verdict);
}

#[test]
fn verdict_fails_on_tiny_pvalue() {
    // Ratio at PA but a p-value below 1e-4 fails the sub-test.
    let st = stat_with([100, 0, 0, 0, 0, 0, 0, 0, 0, 0], 99);
    let r = analyze_subtest(&st, 9);
    assert_eq!(r.chi_square_pvalue, 9);
    assert!(!r.verdict);
}

#[test]
fn duration_rendering() {
    assert_eq!(duration_string(0), "00:00:00.000");
    assert_eq!(duration_string(3_661_001), "01:01:01.001");
    assert_eq!(duration_string(59_999), "00:00:59.999");
    assert_eq!(duration_string(360_000_000), "100:00:00.000");
}

use nist_runner::eval::{TestError, TestOutcome};
use nist_runner::params::{ConfigureTests, NistWrapper, TestId, TestParam};
use nist_runner::pipeline::{BlockPipeline, RunState};
use nist_runner::report::aggregate;
use nist_runner::stats::TestStat;

fn one_test_registry() -> Vec<NistWrapper> {
    vec![NistWrapper {
        id: TestId::Frequency,
        name: "Frequency".to_string(),
        enable: true,
        param: None,
    }]
}

fn ok_outcome(pass: bool, p_value: u64) -> Result<Vec<TestOutcome>, TestError> {
    Ok(vec![TestOutcome { pass, p_value }])
}

#[test]
fn registry_defaults() {
    let cfg = ConfigureTests::new();
    assert_eq!(cfg.tests.len(), 15);
    assert_eq!(cfg.tests[0].name, "Frequency");
    assert_eq!(cfg.tests[14].name, "RandomExcursionsVariant");
    assert!(cfg.tests.iter().all(|t| t.enable));
    assert_eq!(
        cfg.tests[1].param,
        Some(TestParam { min_value: 10, max_value: 1000, value: 128 })
    );
}

#[test]
fn set_param_value_clamps() {
    let mut cfg = ConfigureTests::new();
    cfg.set_param_value(10, 5000);
    assert_eq!(cfg.tests[10].param.unwrap().value, 128);
    cfg.set_param_value(10, 0);
    assert_eq!(cfg.tests[10].param.unwrap().value, 2);
    cfg.set_param_value(10, 64);
    assert_eq!(cfg.tests[10].param.unwrap().value, 64);
    // A test without a parameter is left alone.
    cfg.set_param_value(0, 7);
    assert_eq!(cfg.tests[0].param, None);
}

#[test]
fn set_enable_toggles_one_entry() {
    let mut cfg = ConfigureTests::new();
    cfg.set_enable(3, false);
    assert!(!cfg.tests[3].enable);
    assert!(cfg.tests[2].enable && cfg.tests[4].enable);
}

#[test]
fn histogram_total_counts_blocks() {
    let mut state = RunState::new(5);
    let mut p = BlockPipeline::new(one_test_registry());
    for i in 0..5u64 {
        let results = vec![ok_outcome(true, i * 20_000)];
        assert!(p.process_block(&mut state, &results, 10));
    }
    assert_eq!(state.completed_blocks, 5);
    let st = &p.stats[0][0];
    let total: u64 = st.p_distr.iter().sum();
    assert_eq!(total, 5);
    assert_eq!(st.pass_count, 5);
}

#[test]
fn failed_evaluation_contributes_nothing() {
    let mut state = RunState::new(3);
    let mut p = BlockPipeline::new(one_test_registry());
    assert!(p.process_block(&mut state, &vec![ok_outcome(true, 50_000)], 1));
    assert!(p.process_block(
        &mut state,
        &vec![Err(TestError::Diagnostic("bad block".to_string()))],
        1,
    ));
    assert!(p.process_block(&mut state, &vec![Err(TestError::Silent)], 1));
    assert_eq!(state.completed_blocks, 3);
    let total: u64 = p.stats[0][0].p_distr.iter().sum();
    assert_eq!(total, 1);
}

#[test]
fn disabled_test_is_skipped() {
    let mut reg = one_test_registry();
    reg[0].enable = false;
    let mut state = RunState::new(2);
    let mut p = BlockPipeline::new(reg);
    assert!(p.process_block(&mut state, &vec![ok_outcome(true, 50_000)], 1));
    assert_eq!(p.stats[0].len(), 0);
}

#[test]
fn group_grows_and_never_shrinks() {
    let mut state = RunState::new(3);
    let mut p = BlockPipeline::new(one_test_registry());
    let two = Ok(vec![
        TestOutcome { pass: true, p_value: 10_000 },
        TestOutcome { pass: false, p_value: 95_000 },
    ]);
    assert!(p.process_block(&mut state, &vec![two], 1));
    assert_eq!(p.stats[0].len(), 2);
    assert!(p.process_block(&mut state, &vec![ok_outcome(true, 10_000)], 1));
    assert_eq!(p.stats[0].len(), 2);
    let t0: u64 = p.stats[0][0].p_distr.iter().sum();
    let t1: u64 = p.stats[0][1].p_distr.iter().sum();
    assert_eq!((t0, t1), (2, 1));
}

#[test]
fn progress_counters_track_times() {
    let mut state = RunState::new(3);
    let mut p = BlockPipeline::new(one_test_registry());
    for ms in [10u128, 20, 30] {
        p.process_block(&mut state, &vec![ok_outcome(true, 50_000)], ms);
    }
    assert_eq!(state.completed_blocks, 3);
    assert_eq!(state.avg_block_millis, 20);
    assert_eq!(state.elapsed_millis, 60);
}

#[test]
fn cancellation_mid_run() {
    // Cancellation requested after block three of a ten-block target:
    // the count stays at three, later blocks change nothing, and no
    // accumulators are handed out.
    let mut state = RunState::new(10);
    let mut p = BlockPipeline::new(one_test_registry());
    for _ in 0..3 {
        assert!(p.process_block(&mut state, &vec![ok_outcome(true, 50_000)], 1));
    }
    state.request_stop();
    let before = p.stats[0][0].p_distr.clone();
    assert!(!p.process_block(&mut state, &vec![ok_outcome(true, 50_000)], 1));
    assert_eq!(state.completed_blocks, 3);
    assert_eq!(p.stats[0][0].p_distr, before);
    assert!(p.finish(&state).is_none());
}

#[test]
fn completed_run_hands_out_accumulators() {
    let mut state = RunState::new(1);
    let mut p = BlockPipeline::new(one_test_registry());
    assert!(p.process_block(&mut state, &vec![ok_outcome(false, 0)], 1));
    let stats = p.finish(&state).unwrap();
    assert_eq!(stats.len(), 1);
    assert_eq!(stats[0][0].pass_count, 0);
}

fn uniform_stat() -> TestStat {
    let mut st = TestStat::new();
    st.p_distr = vec![10; 10];
    st.pass_count = 99;
    st
}

#[test]
fn uniform_run_passes_with_report() {
    // One hundred blocks whose p-values fill the deciles exactly evenly
    // and whose pass count sits exactly at PA times the sample size:
    // survival is one, the ratio lies inside the band, nothing fails.
    let tests = one_test_registry();
    let stats = vec![vec![uniform_stat()]];
    let survivals = vec![vec![0u64]];
    let r = aggregate(&tests, &stats, &survivals);
    assert_eq!(r.failed, 0);
    assert_eq!(r.p_p_distr, vec![99_000]);
    assert!(r.tresh_min < 99_000 && 99_000 < r.tresh_max);
    let mut expected = String::new();
    for _ in 0..10 {
        expected += "   10";
    }
    expected += "     1.00000     0.99000   Frequency\n";
    expected += "\nNumber of failed tests (*): 0";
    assert_eq!(r.result, expected);
}

#[test]
fn aggregate_is_idempotent() {
    let tests = one_test_registry();
    let stats = vec![vec![uniform_stat()], vec![]];
    let tests2 = vec![
        tests[0].clone(),
        NistWrapper {
            id: TestId::Runs,
            name: "Runs".to_string(),
            enable: false,
            param: None,
        },
    ];
    let survivals = vec![vec![12_345u64], vec![]];
    let a = aggregate(&tests2, &stats, &survivals);
    let b = aggregate(&tests2, &stats, &survivals);
    assert_eq!(a.result, b.result);
    assert_eq!(a.failed, b.failed);
    assert_eq!(a.p_distr, b.p_distr);
    assert_eq!(a.p_p_distr, b.p_p_distr);
    assert_eq!((a.tresh_min, a.tresh_max), (b.tresh_min, b.tresh_max));
}

#[test]
fn global_histogram_sums_rows() {
    let tests = vec![
        NistWrapper { id: TestId::Frequency, name: "A".to_string(), enable: true, param: None },
        NistWrapper { id: TestId::Runs, name: "B".to_string(), enable: true, param: None },
    ];
    let mut s1 = TestStat::new();
    s1.p_distr = vec![3, 0, 0, 0, 0, 0, 0, 0, 0, 7];
    s1.pass_count = 5;
    let mut s2 = TestStat::new();
    s2.p_distr = vec![1, 0, 0, 0, 0, 0, 0, 0, 0, 2];
    s2.pass_count = 3;
    let stats = vec![vec![s1], vec![s2]];
    let survivals = vec![vec![0u64], vec![0u64]];
    let r = aggregate(&tests, &stats, &survivals);
    assert_eq!(r.p_distr[0], 4);
    assert_eq!(r.p_distr[9], 9);
    assert_eq!(r.p_distr[5], 0);
}

#[test]
fn empty_registry_aggregates_to_empty_report() {
    let tests: Vec<NistWrapper> = vec![];
    let stats: Vec<Vec<TestStat>> = vec![];
    let survivals: Vec<Vec<u64>> = vec![];
    let r = aggregate(&tests, &stats, &survivals);
    assert_eq!(r.failed, 0);
    assert_eq!(r.p_p_distr.len(), 0);
    assert_eq!((r.tresh_min, r.tresh_max), (0, 0));
    assert!(r.p_distr.iter().all(|c| *c == 0));
    assert_eq!(r.result, "\nNumber of failed tests (*): 0");
}

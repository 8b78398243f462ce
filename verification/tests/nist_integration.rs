//! Runs the library against the real randomness-test capability: nistrs
//! evaluates the blocks, statrs supplies the chi-square survival values,
//! and the library does everything in between.

use nist_runner::eval::{TestError, TestOutcome};
use nist_runner::params::{ConfigureTests, TestId};
use nist_runner::pipeline::{BlockPipeline, RunState};
use nist_runner::report::aggregate;
use nist_runner::stats::{chi_square_stat, TestStat};

use nistrs::block_freq::block_frequency_test;
use nistrs::cusum::cumulative_sums_test;
use nistrs::freq::frequency_test;
use nistrs::runs::runs_test;
use nistrs::{BitsData, TestResultT};

fn scaled(p: f64) -> u64 {
    let v = p * 100_000.0;
    if v.is_nan() || v < 0.0 {
        0
    } else if v > 100_000.0 {
        100_000
    } else {
        v.round() as u64
    }
}

fn outcome(t: TestResultT) -> TestOutcome {
    TestOutcome { pass: t.0, p_value: scaled(t.1) }
}

/// The evaluation capability: one test on one block, floats folded into
/// scaled integers at this edge.
fn evaluate(id: TestId, data: &BitsData, param: Option<usize>) -> Result<Vec<TestOutcome>, TestError> {
    match id {
        TestId::Frequency => Ok(vec![outcome(frequency_test(data))]),
        TestId::Runs => Ok(vec![outcome(runs_test(data))]),
        TestId::CumulativeSums => {
            Ok(cumulative_sums_test(data).iter().map(|t| outcome(*t)).collect())
        }
        TestId::BlockFrequency => match block_frequency_test(data, param.unwrap()) {
            Ok(t) => Ok(vec![outcome(t)]),
            Err(e) => Err(TestError::Diagnostic(e)),
        },
        _ => Err(TestError::Silent),
    }
}

fn survivals_for(stats: &Vec<Vec<TestStat>>) -> Vec<Vec<u64>> {
    stats
        .iter()
        .map(|g| {
            g.iter()
                .map(|st| {
                    let (c, chi) = chi_square_stat(st);
                    if c > 0 && chi > 0 {
                        let x = chi as f64 / c as f64;
                        scaled(statrs::function::gamma::gamma_ur(4.5, x / 2.0))
                    } else {
                        0
                    }
                })
                .collect()
        })
        .collect()
}

#[test]
fn all_zero_block_fails_frequency() {
    // One block of a million zero bits with only the frequency test
    // enabled: the pass ratio lands far outside the proportion band and
    // exactly one sub-test fails.
    let mut cfg = ConfigureTests::new();
    for i in 0..cfg.tests.len() {
        cfg.set_enable(i, i == 0);
    }
    let mut state = RunState::new(1);
    let mut pipe = BlockPipeline::new(cfg.tests.clone());

    let bytes = vec![0u8; 125_000];
    let data = BitsData::from_binary(bytes);
    let results: Vec<Result<Vec<TestOutcome>, TestError>> = cfg
        .tests
        .iter()
        .map(|t| {
            if t.enable {
                evaluate(t.id, &data, t.param.map(|p| p.value))
            } else {
                Err(TestError::Silent)
            }
        })
        .collect();
    assert!(pipe.process_block(&mut state, &results, 5));

    let stats = pipe.finish(&state).expect("run completed");
    let survivals = survivals_for(&stats);
    let r = aggregate(&cfg.tests, &stats, &survivals);
    assert_eq!(r.failed, 1);
    assert_eq!(r.p_p_distr.len(), 1);
    assert!(r.p_p_distr[0] < r.tresh_min);
    assert!(r.result.contains(" * Frequency"));
    assert!(r.result.ends_with("Number of failed tests (*): 1"));
}

#[test]
fn frequency_outcome_matches_nistrs() {
    let data = BitsData::from_binary(vec![0x23, 0x44]);
    let direct = frequency_test(&data);
    let via = evaluate(TestId::Frequency, &data, None).unwrap();
    assert_eq!(via.len(), 1);
    assert_eq!(via[0].pass, direct.0);
    assert_eq!(via[0].p_value, scaled(direct.1));
}

#[test]
fn multi_subtest_capability_fills_two_rows() {
    // The cumulative-sums test yields two sub-results per block.
    let mut state = RunState::new(2);
    let reg = vec![nist_runner::params::NistWrapper {
        id: TestId::CumulativeSums,
        name: "CumulativeSums".to_string(),
        enable: true,
        param: None,
    }];
    let mut pipe = BlockPipeline::new(reg.clone());
    let data = BitsData::from_binary(vec![0xA7, 0x13, 0x5C, 0x99, 0x42, 0x61]);
    for _ in 0..2 {
        let results = vec![evaluate(TestId::CumulativeSums, &data, None)];
        assert!(pipe.process_block(&mut state, &results, 1));
    }
    let stats = pipe.finish(&state).unwrap();
    assert_eq!(stats[0].len(), 2);
    let t0: u64 = stats[0][0].p_distr.iter().sum();
    let t1: u64 = stats[0][1].p_distr.iter().sum();
    assert_eq!((t0, t1), (2, 2));
}

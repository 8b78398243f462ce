//! Block-by-block processing: merging per-test outcomes into accumulators,
//! progress bookkeeping, and cooperative cancellation.
//!
//! The pipeline owns the run's registry snapshot and the accumulators. The
//! caller reads blocks and invokes the evaluation capability for every
//! enabled test; the pipeline merges the results, so the accumulator
//! contents are a function of the result stream alone, independent of how
//! the evaluations were scheduled.

use vstd::prelude::*;

use crate::eval::{decile_of, TestError, TestOutcome};
use crate::params::NistWrapper;
use crate::stats::{TestStat, MAX_SAMPLE};

verus! {

/// Shared progress and cancellation counters, read by a monitoring
/// collaborator while the pipeline runs. Each field is independently
/// meaningful; no cross-field snapshot is promised.
pub struct RunState {
    /// Cooperative cancellation flag: polled before each block.
    pub stop_requested: bool,
    /// Blocks fully processed so far.
    pub completed_blocks: usize,
    /// Mean processing time of one block, in milliseconds.
    pub avg_block_millis: u128,
    /// How many blocks the run is to process.
    pub total_blocks_target: usize,
    /// Accumulated processing time of all completed blocks, in
    /// milliseconds.
    pub elapsed_millis: u128,
}

impl RunState {
    /// Fresh counters for a run over `target` blocks.
    pub fn new(target: usize) -> (r: RunState)
        ensures
            !r.stop_requested,
            r.completed_blocks == 0,
            r.avg_block_millis == 0,
            r.total_blocks_target == target,
            r.elapsed_millis == 0,
    {
        RunState {
            stop_requested: false,
            completed_blocks: 0,
            avg_block_millis: 0,
            total_blocks_target: target,
            elapsed_millis: 0,
        }
    }

    /// Request cooperative cancellation; every other counter keeps its
    /// last-written value.
    pub fn request_stop(&mut self)
        ensures
            final(self).stop_requested,
            final(self).completed_blocks == old(self).completed_blocks,
            final(self).avg_block_millis == old(self).avg_block_millis,
            final(self).total_blocks_target == old(self).total_blocks_target,
            final(self).elapsed_millis == old(self).elapsed_millis,
    {
        self.stop_requested = true;
    }
}

/// The outcome sequence of ten fresh decile buckets.
pub open spec fn zero_hist() -> Seq<u64> {
    Seq::new(10, |i: int| 0u64)
}

/// How one accumulator changes when one successful outcome is merged:
/// the outcome's decile bucket grows by one, and the pass counter by one
/// when it passed.
pub open spec fn stat_recorded(old_hist: Seq<u64>, old_pass: int, new: TestStat, o: TestOutcome) -> bool {
    &&& new.p_distr@ == old_hist.update(decile_of(o.p_value), (old_hist[decile_of(o.p_value)] + 1) as u64)
    &&& new.pass_count == old_pass + (if o.pass {
        1int
    } else {
        0int
    })
}

/// How one test's accumulator group changes when the result of one block's
/// evaluation is merged. A disabled test, or a failed evaluation,
/// contributes nothing. On success the group grows to the outcome count if
/// it was shorter (never shrinks), every returned outcome is recorded in
/// its sub-test accumulator, and accumulators past the returned outcomes
/// are untouched.
pub open spec fn merged_group(
    enable: bool,
    r: Result<Vec<TestOutcome>, TestError>,
    old_g: Vec<TestStat>,
    new_g: Vec<TestStat>,
) -> bool {
    match r {
        Ok(outs) => {
            if enable {
                &&& new_g@.len() == (if old_g@.len() >= outs@.len() {
                    old_g@.len() as int
                } else {
                    outs@.len() as int
                })
                &&& (forall|j: int|
                    0 <= j < outs@.len() ==> stat_recorded(
                        if j < old_g@.len() {
                            old_g@[j].p_distr@
                        } else {
                            zero_hist()
                        },
                        if j < old_g@.len() {
                            old_g@[j].pass_count as int
                        } else {
                            0int
                        },
                        #[trigger] new_g@[j],
                        outs@[j],
                    ))
                &&& (forall|j: int|
                    outs@.len() <= j < old_g@.len() ==> #[trigger] new_g@[j] == old_g@[j])
            } else {
                new_g == old_g
            }
        },
        Err(_) => new_g == old_g,
    }
}

/// The run's processing state: the registry snapshot taken at run start
/// and one accumulator group per test.
pub struct BlockPipeline {
    /// The registry as it stood when the run began.
    pub tests: Vec<NistWrapper>,
    /// One group of sub-test accumulators per registry entry; groups grow
    /// on the first successful evaluation and never shrink.
    pub stats: Vec<Vec<TestStat>>,
    /// Accumulated block processing time, in milliseconds.
    pub sum_millis: u128,
}

impl BlockPipeline {
    /// Well-formedness against the number of blocks merged so far: one
    /// group per test, and every accumulator histogram total is exactly
    /// bounded by the processed block count.
    pub open spec fn wf(&self, completed: int) -> bool {
        &&& self.stats@.len() == self.tests@.len()
        &&& forall|i: int, j: int|
            0 <= i < self.stats@.len() && 0 <= j < self.stats@[i]@.len() ==> {
                &&& (#[trigger] self.stats@[i]@[j]).wf()
                &&& self.stats@[i]@[j].total() <= completed
            }
    }

    /// A fresh pipeline over a registry snapshot: one empty accumulator
    /// group per test.
    pub fn new(tests: Vec<NistWrapper>) -> (r: BlockPipeline)
        ensures
            r.wf(0),
            r.tests == tests,
            r.sum_millis == 0,
            forall|i: int| 0 <= i < r.stats@.len() ==> (#[trigger] r.stats@[i])@.len() == 0,
    {
        let n = tests.len();
        let mut stats: Vec<Vec<TestStat>> = Vec::new();
        let mut i: usize = 0;
        while i < n
            invariant
                i <= n,
                stats@.len() == i,
                forall|k: int| 0 <= k < i ==> (#[trigger] stats@[k])@.len() == 0,
            decreases n - i,
        {
            stats.push(Vec::new());
            i += 1;
        }
        BlockPipeline { tests, stats, sum_millis: 0 }
    }

    /// Merge one block's evaluation results and update the progress
    /// counters.
    ///
    /// `results` holds, for each registry entry, what the evaluation
    /// capability returned for this block (its entry is ignored for a
    /// disabled test). `block_millis` is the measured processing time of
    /// the block.
    ///
    /// If cancellation was requested, nothing at all changes and the
    /// block does not count as processed. Otherwise every enabled test's
    /// successful outcomes are recorded, `completed_blocks` grows by one,
    /// and the mean block time is the accumulated time over the blocks
    /// processed so far.
    pub fn process_block(
        &mut self,
        state: &mut RunState,
        results: &Vec<Result<Vec<TestOutcome>, TestError>>,
        block_millis: u128,
    ) -> (processed: bool)
        requires
            old(self).wf(old(state).completed_blocks as int),
            results@.len() == old(self).tests@.len(),
            old(state).completed_blocks < old(state).total_blocks_target,
            old(state).total_blocks_target <= MAX_SAMPLE,
            old(self).sum_millis + block_millis <= u128::MAX,
        ensures
            old(state).stop_requested ==> {
                &&& !processed
                &&& *final(self) == *old(self)
                &&& *final(state) == *old(state)
            },
            !old(state).stop_requested ==> {
                &&& processed
                &&& final(self).wf(final(state).completed_blocks as int)
                &&& final(self).tests == old(self).tests
                &&& final(self).sum_millis == old(self).sum_millis + block_millis
                &&& final(state).completed_blocks == old(state).completed_blocks + 1
                &&& final(state).stop_requested == old(state).stop_requested
                &&& final(state).total_blocks_target == old(state).total_blocks_target
                &&& final(state).avg_block_millis == final(self).sum_millis / (
                final(state).completed_blocks as u128)
                &&& final(state).elapsed_millis == final(self).sum_millis
                &&& final(self).stats@.len() == old(self).stats@.len()
                &&& forall|i: int|
                    0 <= i < old(self).tests@.len() ==> merged_group(
                        old(self).tests@[i].enable,
                        results@[i],
                        old(self).stats@[i],
                        #[trigger] final(self).stats@[i],
                    )
            },
    {
        if state.stop_requested {
            return false;
        }
        let n = self.tests.len();
        let mut i: usize = 0;
        while i < n
            invariant
                n == self.tests@.len(),
                self.tests == old(self).tests,
                results@.len() == n,
                i <= n,
                self.stats@.len() == n,
                old(self).stats@.len() == n,
                old(self).wf(old(state).completed_blocks as int),
                old(state).completed_blocks < MAX_SAMPLE,
                self.sum_millis == old(self).sum_millis,
                forall|k: int|
                    i <= k < n ==> #[trigger] self.stats@[k] == old(self).stats@[k],
                forall|k: int|
                    0 <= k < i ==> merged_group(
                        old(self).tests@[k].enable,
                        results@[k],
                        old(self).stats@[k],
                        #[trigger] self.stats@[k],
                    ),
                forall|k: int, j: int|
                    0 <= k < n && 0 <= j < self.stats@[k]@.len() ==> {
                        &&& (#[trigger] self.stats@[k]@[j]).wf()
                        &&& self.stats@[k]@[j].total() <= old(state).completed_blocks + 1
                    },
            decreases n - i,
        {
            let enabled = self.tests[i].enable;
            if enabled {
                match &results[i] {
                    Ok(outs) => {
                        let g = &mut self.stats[i];
                        let m = outs.len();
                        let ghost g0 = g@;
                        let ghost done = old(state).completed_blocks as int;
                        proof {
                            assert(old(self).stats@[i as int]@ == g0);
                        }
                        // Grow the group to the outcome count; never shrink.
                        while g.len() < m
                            invariant
                                g0.len() <= g@.len(),
                                g@.len() <= (if g0.len() >= m {
                                    g0.len() as int
                                } else {
                                    m as int
                                }),
                                forall|j: int| 0 <= j < g0.len() ==> #[trigger] g@[j] == g0[j],
                                forall|j: int|
                                    g0.len() <= j < g@.len() ==> {
                                        &&& (#[trigger] g@[j]).p_distr@ == zero_hist()
                                        &&& g@[j].pass_count == 0
                                        &&& g@[j].wf()
                                        &&& g@[j].total() == 0
                                    },
                            decreases m - g@.len(),
                        {
                            let fresh = TestStat::new();
                            proof {
                                assert(fresh.p_distr@ =~= zero_hist());
                                crate::stats::lemma_zero_sum(zero_hist());
                            }
                            g.push(fresh);
                        }
                        let mut j: usize = 0;
                        while j < m
                            invariant
                                m == outs@.len(),
                                j <= m,
                                m <= g@.len(),
                                done < MAX_SAMPLE,
                                g@.len() == (if g0.len() >= m {
                                    g0.len() as int
                                } else {
                                    m as int
                                }),
                                forall|k: int|
                                    j <= k < g@.len() && k < g0.len() ==> #[trigger] g@[k]
                                        == g0[k],
                                forall|k: int|
                                    j <= k < g@.len() && g0.len() <= k ==> {
                                        &&& (#[trigger] g@[k]).p_distr@ == zero_hist()
                                        &&& g@[k].pass_count == 0
                                    },
                                forall|k: int|
                                    j <= k < g@.len() ==> {
                                        &&& (#[trigger] g@[k]).wf()
                                        &&& g@[k].total() <= done
                                    },
                                forall|k: int|
                                    0 <= k < j ==> {
                                        &&& stat_recorded(
                                            if k < g0.len() {
                                                g0[k].p_distr@
                                            } else {
                                                zero_hist()
                                            },
                                            if k < g0.len() {
                                                g0[k].pass_count as int
                                            } else {
                                                0int
                                            },
                                            #[trigger] g@[k],
                                            outs@[k],
                                        )
                                        &&& g@[k].wf()
                                        &&& g@[k].total() <= done + 1
                                    },
                            decreases m - j,
                        {
                            let o = outs[j];
                            g[j].record(o);
                            j += 1;
                        }
                    },
                    Err(_) => {},
                }
            }
            i += 1;
        }
        self.sum_millis = self.sum_millis + block_millis;
        state.completed_blocks = state.completed_blocks + 1;
        state.avg_block_millis = self.sum_millis / (state.completed_blocks as u128);
        state.elapsed_millis = self.sum_millis;
        true
    }

    /// End the run: hand the accumulators to the aggregation when the run
    /// completed, and nothing at all when cancellation was requested.
    pub fn finish(self, state: &RunState) -> (r: Option<Vec<Vec<TestStat>>>)
        ensures
            state.stop_requested <==> r is None,
            !state.stop_requested ==> r == Some(self.stats),
    {
        if state.stop_requested {
            None
        } else {
            Some(self.stats)
        }
    }
}

/// Two accumulators with the same histogram and pass counter.
pub open spec fn stat_equiv(a: TestStat, b: TestStat) -> bool {
    &&& a.p_distr@ == b.p_distr@
    &&& a.pass_count == b.pass_count
}

/// Two accumulator groups that agree accumulator by accumulator.
pub open spec fn group_equiv(a: Seq<TestStat>, b: Seq<TestStat>) -> bool {
    &&& a.len() == b.len()
    &&& forall|j: int| 0 <= j < a.len() ==> stat_equiv(#[trigger] a[j], b[j])
}

/// Two evaluation results that drive the merge identically: both succeed
/// with the same outcomes, or both fail.
pub open spec fn results_equiv(
    r1: Result<Vec<TestOutcome>, TestError>,
    r2: Result<Vec<TestOutcome>, TestError>,
) -> bool {
    match (r1, r2) {
        (Ok(a), Ok(b)) => a@ == b@,
        (Err(_), Err(_)) => true,
        _ => false,
    }
}

/// Merging is deterministic: fed the same evaluation results, two runs
/// whose accumulators agree go on agreeing, however each run's vectors
/// were allocated. With [`lemma_aggregate_deterministic`] in the report
/// module this makes the whole run's output a function of the result
/// stream, independent of scheduling.
pub proof fn lemma_merge_deterministic(
    enable: bool,
    r1: Result<Vec<TestOutcome>, TestError>,
    r2: Result<Vec<TestOutcome>, TestError>,
    old1: Vec<TestStat>,
    old2: Vec<TestStat>,
    new1: Vec<TestStat>,
    new2: Vec<TestStat>,
)
    requires
        results_equiv(r1, r2),
        group_equiv(old1@, old2@),
        merged_group(enable, r1, old1, new1),
        merged_group(enable, r2, old2, new2),
    ensures
        group_equiv(new1@, new2@),
{
    match (r1, r2) {
        (Ok(a), Ok(b)) => {
            if enable {
                assert forall|j: int| 0 <= j < new1@.len() implies stat_equiv(
                    #[trigger] new1@[j],
                    new2@[j],
                ) by {
                    if j < a@.len() {
                        assert(stat_recorded(
                            if j < old1@.len() {
                                old1@[j].p_distr@
                            } else {
                                zero_hist()
                            },
                            if j < old1@.len() {
                                old1@[j].pass_count as int
                            } else {
                                0int
                            },
                            new1@[j],
                            a@[j],
                        ));
                    }
                }
            }
        },
        _ => {},
    }
}

/// Each successfully returned outcome grows its sub-test histogram total
/// by exactly one, so a histogram total counts exactly the blocks for
/// which that sub-test produced an outcome; a failed or disabled
/// evaluation leaves every total unchanged.
pub proof fn lemma_merge_counts(
    enable: bool,
    r: Result<Vec<TestOutcome>, TestError>,
    old_g: Vec<TestStat>,
    new_g: Vec<TestStat>,
)
    requires
        merged_group(enable, r, old_g, new_g),
        forall|j: int| 0 <= j < old_g@.len() ==> (#[trigger] old_g@[j]).p_distr@.len() == 10,
        forall|j: int| 0 <= j < old_g@.len() ==> (#[trigger] old_g@[j]).total() < MAX_SAMPLE,
    ensures
        match r {
            Ok(outs) => {
                if enable {
                    forall|j: int|
                        0 <= j < new_g@.len() ==> (#[trigger] new_g@[j]).total() == (
                        if j < outs@.len() {
                            1int
                        } else {
                            0int
                        }) + (if j < old_g@.len() {
                            old_g@[j].total()
                        } else {
                            0int
                        })
                } else {
                    group_equiv(new_g@, old_g@)
                }
            },
            Err(_) => group_equiv(new_g@, old_g@),
        },
{
    crate::stats::lemma_zero_sum(zero_hist());
    match r {
        Ok(outs) => {
            if enable {
                assert forall|j: int| 0 <= j < new_g@.len() implies (#[trigger] new_g@[j]).total()
                    == (if j < outs@.len() {
                    1int
                } else {
                    0int
                }) + (if j < old_g@.len() {
                    old_g@[j].total()
                } else {
                    0int
                }) by {
                    if j < outs@.len() {
                        let h = if j < old_g@.len() {
                            old_g@[j].p_distr@
                        } else {
                            zero_hist()
                        };
                        let d = decile_of(outs@[j].p_value);
                        crate::stats::lemma_elem_le_sum(h, d);
                        crate::stats::lemma_sum_update(h, d, (h[d] + 1) as u64);
                    }
                }
            }
        },
        Err(_) => {},
    }
}

/// One whole block step is deterministic: two runs whose accumulator
/// groups agree, fed equivalent per-test results for the next block, go on
/// agreeing group by group — the scheduling of the evaluations leaves no
/// trace in the accumulators.
pub proof fn lemma_step_deterministic(
    tests: Seq<NistWrapper>,
    res1: Seq<Result<Vec<TestOutcome>, TestError>>,
    res2: Seq<Result<Vec<TestOutcome>, TestError>>,
    olds1: Seq<Vec<TestStat>>,
    olds2: Seq<Vec<TestStat>>,
    news1: Seq<Vec<TestStat>>,
    news2: Seq<Vec<TestStat>>,
)
    requires
        res1.len() == tests.len(),
        res2.len() == tests.len(),
        olds1.len() == tests.len(),
        olds2.len() == tests.len(),
        news1.len() == tests.len(),
        news2.len() == tests.len(),
        forall|i: int| 0 <= i < tests.len() ==> results_equiv(#[trigger] res1[i], res2[i]),
        forall|i: int| 0 <= i < tests.len() ==> group_equiv((#[trigger] olds1[i])@, olds2[i]@),
        forall|i: int|
            0 <= i < tests.len() ==> merged_group(
                tests[i].enable,
                res1[i],
                olds1[i],
                #[trigger] news1[i],
            ),
        forall|i: int|
            0 <= i < tests.len() ==> merged_group(
                tests[i].enable,
                res2[i],
                olds2[i],
                #[trigger] news2[i],
            ),
    ensures
        forall|i: int| 0 <= i < tests.len() ==> group_equiv((#[trigger] news1[i])@, news2[i]@),
{
    assert forall|i: int| 0 <= i < tests.len() implies group_equiv(
        (#[trigger] news1[i])@,
        news2[i]@,
    ) by {
        lemma_merge_deterministic(
            tests[i].enable,
            res1[i],
            res2[i],
            olds1[i],
            olds2[i],
            news1[i],
            news2[i],
        );
    }
}

} // verus!

//! What the evaluation capability hands back: per-sub-test outcomes and
//! errors.
//!
//! A p-value is carried as a fixed-point integer: `p_value` holds
//! `p * SCALE`, so the unit is `1/SCALE` and the whole range `[0,1]`
//! is `0..=SCALE`.

use vstd::prelude::*;

verus! {

/// Fixed-point unit for p-values, ratios and band endpoints: one part in
/// `SCALE` stands for `1/100000`, so five decimal digits are exact.
pub const SCALE: u64 = 100_000;

/// One named sub-result of a single test evaluation.
#[derive(Clone, Copy, PartialEq, Eq, Structural, Debug)]
pub struct TestOutcome {
    /// Whether the sub-test passed on this block.
    pub pass: bool,
    /// The p-value of the sub-test, scaled by `SCALE`.
    pub p_value: u64,
}

/// How a test evaluation failed for one block.
#[derive(Clone, PartialEq, Eq, Debug)]
pub enum TestError {
    /// A failure carrying a message worth logging; the test contributes
    /// nothing for the current block.
    Diagnostic(String),
    /// A failure to be skipped without logging ("not applicable").
    Silent,
}

/// The decile bucket of a scaled p-value: `min(floor(p * 10 / SCALE), 9)`.
/// A p-value of exactly one falls in the last bucket.
pub open spec fn decile_of(p: u64) -> int {
    let b = p * 10 / (SCALE as int);
    if b < 9 {
        b
    } else {
        9
    }
}

/// Decile bucket index for a scaled p-value; clamped so that `p == SCALE`
/// (that is, a p-value of one) lands in bucket nine.
pub fn decile_index(p: u64) -> (i: usize)
    ensures
        i == decile_of(p),
        i < 10,
{
    let b: u64 = p / (SCALE / 10);
    proof {
        assert(p / 10_000 == p * 10 / 100_000) by (nonlinear_arith);
    }
    if b < 9 {
        b as usize
    } else {
        9
    }
}

} // verus!

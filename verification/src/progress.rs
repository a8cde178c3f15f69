//! Progress samples and the checkpoints they fall into.

use vstd::prelude::*;

verus! {

/// Distance units in one lap: progress is measured in millionths of a lap.
pub const UNITS_PER_LAP: u64 = 1_000_000;

/// Width of one checkpoint: five percent of a lap, that is twenty checkpoints per lap.
pub const CHECKPOINT_INTERVAL: u64 = 50_000;

/// Where one car is at one tick.
#[derive(Clone, Copy, Debug, PartialEq, Eq, Structural)]
pub struct Progress {
    /// Part of the current lap already driven, in millionths of a lap.
    pub distance_fraction: u32,
    /// Number of laps already completed.
    pub laps_completed: u32,
}

/// Total distance travelled, in millionths of a lap.
pub open spec fn spec_total_progress(p: Progress) -> int {
    p.laps_completed as int * UNITS_PER_LAP as int + p.distance_fraction as int
}

/// The checkpoint that a total distance falls into: the number of whole intervals in it.
pub open spec fn spec_checkpoint(total: int) -> int {
    total / CHECKPOINT_INTERVAL as int
}

/// The checkpoint that a sample falls into.
pub open spec fn spec_checkpoint_of(p: Progress) -> int {
    spec_checkpoint(spec_total_progress(p))
}

/// Total distance travelled: completed laps plus the fraction of the current one.
pub fn total_progress(p: Progress) -> (total: u64)
    ensures
        total == spec_total_progress(p),
{
    let laps: u64 = p.laps_completed as u64;
    let part: u64 = p.distance_fraction as u64;
    laps * UNITS_PER_LAP + part
}

/// Index of the checkpoint that `total` lies in.
pub fn checkpoint_index(total: u64) -> (checkpoint: u64)
    ensures
        checkpoint == spec_checkpoint(total as int),
{
    total / CHECKPOINT_INTERVAL
}

/// Distance and checkpoint of a sample fit a 64-bit unsigned integer.
pub proof fn lemma_progress_fits(p: Progress)
    ensures
        0 <= spec_total_progress(p) <= u64::MAX,
        0 <= spec_checkpoint_of(p) <= spec_total_progress(p),
{
    let total = spec_total_progress(p);
    assert(0 <= total <= u64::MAX) by (nonlinear_arith)
        requires
            total == p.laps_completed as int * 1_000_000 + p.distance_fraction as int,
            0 <= p.laps_completed <= u32::MAX,
            0 <= p.distance_fraction <= u32::MAX,
    ;
    assert(0 <= total / 50_000 <= total) by (nonlinear_arith)
        requires
            0 <= total,
    ;
}

/// A larger distance never falls into an earlier checkpoint.
pub proof fn lemma_checkpoint_monotonic(a: int, b: int)
    requires
        0 <= a <= b,
    ensures
        0 <= spec_checkpoint(a) <= spec_checkpoint(b),
{
    assert(0 <= a / 50_000 <= b / 50_000) by (nonlinear_arith)
        requires
            0 <= a <= b,
    ;
}

} // verus!

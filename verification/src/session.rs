//! What holds of the history over one tick and over a run of ticks.

use crate::gap_calculator::{crossings_after, initial_state, is_session_restart, tick, TrackerState};
use crate::history::{record_crossing, Crossings};
use crate::progress::{
    lemma_checkpoint_monotonic, lemma_progress_fits, spec_checkpoint_of, spec_total_progress, Progress,
};
use crate::ranking::has_data;
use vstd::prelude::*;

verus! {

/// The input of one tick.
pub struct TickInput {
    /// One slot per car; a slot without data is `None`.
    pub samples: Seq<Option<Progress>>,
    /// The session clock.
    pub session_time: u64,
}

/// The state after the ticks of `run`, in order, starting from `s`.
pub open spec fn replay(s: TrackerState, run: Seq<TickInput>) -> TrackerState
    decreases run.len(),
{
    if run.len() == 0 {
        s
    } else {
        tick(replay(s, run.drop_last()), run.last().samples, run.last().session_time)
    }
}

/// The session clock never runs backwards during `run`, nor against the state `s`
/// that the run starts from.
pub open spec fn clock_never_regresses(s: TrackerState, run: Seq<TickInput>) -> bool {
    &&& forall|i: int| 0 <= i < run.len() ==> s.last_session_time <= (#[trigger] run[i]).session_time
    &&& forall|i: int, j: int|
        0 <= i <= j < run.len() ==> (#[trigger] run[i]).session_time <= (#[trigger] run[j]).session_time
}

/// Car `e` never goes backwards during `run`: of two ticks at which it has data, the
/// later one shows at least the distance of the earlier.
pub open spec fn never_regresses(run: Seq<TickInput>, e: usize) -> bool {
    forall|i: int, j: int|
        0 <= i <= j < run.len() && has_data((#[trigger] run[i]).samples, e) && has_data(
            (#[trigger] run[j]).samples,
            e,
        ) ==> spec_total_progress(run[i].samples[e as int].unwrap()) <= spec_total_progress(
            run[j].samples[e as int].unwrap(),
        )
}

/// The times recorded for car `e` do not decrease from one checkpoint to a later one.
pub open spec fn times_follow_checkpoints(h: Crossings, e: usize) -> bool {
    forall|c1: u64, c2: u64|
        c1 <= c2 && h.contains_key((e, c1)) && h.contains_key((e, c2)) ==> h[(e, c1)] <= h[(e, c2)]
}

/// No time in the history is later than the clock of the latest tick.
pub open spec fn times_within_clock(s: TrackerState) -> bool {
    forall|k: (usize, u64)| s.crossings.contains_key(k) ==> s.crossings[k] <= s.last_session_time
}

/// A second sighting at the same checkpoint changes nothing: the first time stays.
pub proof fn lemma_first_sighting_stays(
    h: Crossings,
    entity: usize,
    checkpoint: u64,
    first: u64,
    second: u64,
)
    ensures
        record_crossing(record_crossing(h, entity, checkpoint, first), entity, checkpoint, second)
            == record_crossing(h, entity, checkpoint, first),
        record_crossing(h, entity, checkpoint, first).contains_key((entity, checkpoint)),
        !h.contains_key((entity, checkpoint)) ==> record_crossing(
            h,
            entity,
            checkpoint,
            first,
        )[(entity, checkpoint)] == first,
{
}

/// A tick that starts no new session leaves every entry of the history as it was.
pub proof fn lemma_tick_keeps_crossings(
    s: TrackerState,
    samples: Seq<Option<Progress>>,
    time: u64,
    k: (usize, u64),
)
    requires
        !is_session_restart(s, time),
        s.crossings.contains_key(k),
    ensures
        tick(s, samples, time).crossings.contains_key(k),
        tick(s, samples, time).crossings[k] == s.crossings[k],
{
}

/// After a tick every car with data has an entry at the checkpoint it is in, and a
/// car without data has exactly the entries that the tick started from.
pub proof fn lemma_tick_records_current_checkpoint(
    s: TrackerState,
    samples: Seq<Option<Progress>>,
    time: u64,
    e: usize,
)
    ensures
        has_data(samples, e) ==> tick(s, samples, time).crossings.contains_key(
            (e, spec_checkpoint_of(samples[e as int].unwrap()) as u64),
        ),
        !has_data(samples, e) && !is_session_restart(s, time) ==> forall|c: u64|
            tick(s, samples, time).crossings.contains_key((e, c)) == s.crossings.contains_key(
                (e, c),
            ),
{
    if has_data(samples, e) {
        lemma_progress_fits(samples[e as int].unwrap());
    }
}

/// A car seen at the same checkpoint at two ticks in a row has that checkpoint recorded
/// with a time no later than either tick. Where the clock did not run backwards between
/// the two, the second tick leaves the entry exactly as the first left it.
pub proof fn lemma_same_checkpoint_keeps_earlier_time(
    s: TrackerState,
    first: TickInput,
    second: TickInput,
    e: usize,
)
    requires
        has_data(first.samples, e),
        has_data(second.samples, e),
        spec_checkpoint_of(first.samples[e as int].unwrap()) == spec_checkpoint_of(
            second.samples[e as int].unwrap(),
        ),
    ensures
        ({
            let k = (e, spec_checkpoint_of(first.samples[e as int].unwrap()) as u64);
            let after_first = tick(s, first.samples, first.session_time);
            let after_second = tick(after_first, second.samples, second.session_time);
            &&& after_first.crossings.contains_key(k)
            &&& after_second.crossings.contains_key(k)
            &&& first.session_time <= second.session_time ==> after_second.crossings[k]
                == after_first.crossings[k]
            &&& times_within_clock(s) ==> after_second.crossings[k] <= first.session_time
                && after_second.crossings[k] <= second.session_time
        }),
{
    lemma_progress_fits(first.samples[e as int].unwrap());
}

/// A tick whose clock is below that of the tick before starts from an empty history:
/// afterwards the history holds, for each car with data, the checkpoint it is in at
/// this tick's time, and nothing else. So no car has more than one checkpoint.
pub proof fn lemma_restart_starts_afresh(s: TrackerState, samples: Seq<Option<Progress>>, time: u64)
    requires
        is_session_restart(s, time),
    ensures
        tick(s, samples, time).crossings == crossings_after(Crossings::empty(), samples, time),
        forall|k: (usize, u64)| #[trigger]
            tick(s, samples, time).crossings.contains_key(k) <==> has_data(samples, k.0) && k.1
                == spec_checkpoint_of(samples[k.0 as int].unwrap()),
        forall|k: (usize, u64)| #[trigger]
            tick(s, samples, time).crossings.contains_key(k) ==> tick(s, samples, time).crossings[k]
                == time,
        forall|e: usize, c1: u64, c2: u64|
            tick(s, samples, time).crossings.contains_key((e, c1)) && tick(
                s,
                samples,
                time,
            ).crossings.contains_key((e, c2)) ==> c1 == c2,
{
}

/// Every tick keeps the times in the history within the clock.
pub proof fn lemma_tick_keeps_times_within_clock(
    s: TrackerState,
    samples: Seq<Option<Progress>>,
    time: u64,
)
    requires
        times_within_clock(s),
    ensures
        times_within_clock(tick(s, samples, time)),
{
}

/// The times in the history stay within the clock over any run of ticks.
pub proof fn lemma_replay_keeps_times_within_clock(s: TrackerState, run: Seq<TickInput>)
    requires
        times_within_clock(s),
    ensures
        times_within_clock(replay(s, run)),
    decreases run.len(),
{
    if run.len() > 0 {
        lemma_replay_keeps_times_within_clock(s, run.drop_last());
        lemma_tick_keeps_times_within_clock(
            replay(s, run.drop_last()),
            run.last().samples,
            run.last().session_time,
        );
    }
}

/// The clock after a run is that of its last tick.
pub proof fn lemma_replay_clock(s: TrackerState, run: Seq<TickInput>)
    ensures
        replay(s, run).last_session_time == (if run.len() == 0 {
            s.last_session_time
        } else {
            run.last().session_time
        }),
{
}

/// Within one session an entry of the history, once set, keeps its value: over a run
/// of ticks whose clock never runs backwards, whatever the cars do.
pub proof fn lemma_replay_keeps_crossings(s: TrackerState, run: Seq<TickInput>, k: (usize, u64))
    requires
        clock_never_regresses(s, run),
        s.crossings.contains_key(k),
    ensures
        replay(s, run).crossings.contains_key(k),
        replay(s, run).crossings[k] == s.crossings[k],
    decreases run.len(),
{
    if run.len() > 0 {
        let front = run.drop_last();
        assert(clock_never_regresses(s, front)) by {
            assert forall|i: int| 0 <= i < front.len() implies s.last_session_time <= (
            #[trigger] front[i]).session_time by {
                assert(front[i] == run[i]);
            }
            assert forall|i: int, j: int| 0 <= i <= j < front.len() implies (
            #[trigger] front[i]).session_time <= (#[trigger] front[j]).session_time by {
                assert(front[i] == run[i] && front[j] == run[j]);
            }
        }
        lemma_replay_keeps_crossings(s, front, k);
        lemma_replay_clock(s, front);
        if front.len() > 0 {
            assert(front.last() == run[front.len() - 1]);
            assert(run.last() == run[run.len() - 1]);
        } else {
            assert(run.last() == run[0]);
        }
        lemma_tick_keeps_crossings(
            replay(s, front),
            run.last().samples,
            run.last().session_time,
            k,
        );
    }
}

/// Every checkpoint that the history holds for car `e` is one that `e` was in at
/// some tick of `run`.
spec fn checkpoints_come_from(h: Crossings, run: Seq<TickInput>, e: usize) -> bool {
    forall|c: u64| #[trigger]
        h.contains_key((e, c)) ==> exists|i: int|
            0 <= i < run.len() && has_data((#[trigger] run[i]).samples, e) && c
                == spec_checkpoint_of(run[i].samples[e as int].unwrap())
}

proof fn lemma_replay_of_steady_car(run: Seq<TickInput>, e: usize)
    requires
        never_regresses(run, e),
    ensures
        times_follow_checkpoints(replay(initial_state(), run).crossings, e),
        times_within_clock(replay(initial_state(), run)),
        checkpoints_come_from(replay(initial_state(), run).crossings, run, e),
    decreases run.len(),
{
    if run.len() > 0 {
        let front = run.drop_last();
        let last = run.last();
        assert(last == run[run.len() - 1]);
        assert(never_regresses(front, e)) by {
            assert forall|i: int, j: int|
                0 <= i <= j < front.len() && has_data((#[trigger] front[i]).samples, e)
                    && has_data((#[trigger] front[j]).samples, e) implies spec_total_progress(
                front[i].samples[e as int].unwrap(),
            ) <= spec_total_progress(front[j].samples[e as int].unwrap()) by {
                assert(front[i] == run[i] && front[j] == run[j]);
            }
        }
        lemma_replay_of_steady_car(front, e);
        let before = replay(initial_state(), front);
        let after = replay(initial_state(), run);
        assert(after == tick(before, last.samples, last.session_time));
        lemma_tick_keeps_times_within_clock(before, last.samples, last.session_time);
        assert forall|c: u64| #[trigger] after.crossings.contains_key((e, c)) implies exists|i: int|
            0 <= i < run.len() && has_data((#[trigger] run[i]).samples, e) && c
                == spec_checkpoint_of(run[i].samples[e as int].unwrap()) by {
            if before.crossings.contains_key((e, c)) {
                let i = choose|i: int|
                    0 <= i < front.len() && has_data((#[trigger] front[i]).samples, e) && c
                        == spec_checkpoint_of(front[i].samples[e as int].unwrap());
                assert(front[i] == run[i]);
            } else {
                assert(has_data(run[run.len() - 1].samples, e));
            }
        }
        assert forall|c1: u64, c2: u64|
            c1 <= c2 && after.crossings.contains_key((e, c1)) && after.crossings.contains_key(
                (e, c2),
            ) implies after.crossings[(e, c1)] <= after.crossings[(e, c2)] by {
            if !is_session_restart(before, last.session_time) {
                if before.crossings.contains_key((e, c1)) && !before.crossings.contains_key(
                    (e, c2),
                ) {
                    assert(after.crossings[(e, c2)] == last.session_time);
                } else if !before.crossings.contains_key((e, c1)) && before.crossings.contains_key(
                    (e, c2),
                ) {
                    // c1 is where the car is now, and c2 is where it was at an earlier tick
                    let i = choose|i: int|
                        0 <= i < front.len() && has_data((#[trigger] front[i]).samples, e) && c2
                            == spec_checkpoint_of(front[i].samples[e as int].unwrap());
                    assert(front[i] == run[i]);
                    let earlier = run[i].samples[e as int].unwrap();
                    let now = last.samples[e as int].unwrap();
                    lemma_progress_fits(earlier);
                    lemma_checkpoint_monotonic(spec_total_progress(earlier), spec_total_progress(now));
                    assert(c2 <= c1);
                }
            }
        }
    }
}

/// A car that never goes backwards crosses its checkpoints in order of time: from the
/// start of the tracker on, over any run of ticks and whatever the session clock does,
/// an earlier checkpoint of that car never has a later time than a later checkpoint.
pub proof fn lemma_steady_car_times_follow_checkpoints(run: Seq<TickInput>, e: usize)
    requires
        never_regresses(run, e),
    ensures
        times_follow_checkpoints(replay(initial_state(), run).crossings, e),
{
    lemma_replay_of_steady_car(run, e);
}

} // verus!

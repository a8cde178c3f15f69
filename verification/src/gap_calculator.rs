//! The per-tick update: session-reset detection, history update, ranking and gaps.

use crate::history::{spec_time_gap, Crossings, History};
use crate::progress::{
    checkpoint_index, lemma_progress_fits, spec_checkpoint_of, spec_total_progress, total_progress,
    Progress,
};
use crate::ranking::{
    contender_of, data_count, has_data, is_ranking, lemma_ranking_is_unique, outranks, rank,
    Contender,
};
use vstd::prelude::*;

verus! {

/// What the tracker knows between two ticks, as a mathematical object.
pub struct TrackerState {
    /// First-crossing times of the running session.
    pub crossings: Crossings,
    /// The session clock at the latest tick.
    pub last_session_time: u64,
}

/// The state before the first tick: nothing recorded, clock at zero.
pub open spec fn initial_state() -> TrackerState {
    TrackerState { crossings: Crossings::empty(), last_session_time: 0 }
}

/// The history once every car with data in `samples` has been seen at its current
/// checkpoint at time `time`: an entry of `base` keeps its value, and each such car
/// whose checkpoint had no entry gets one with `time`.
pub open spec fn crossings_after(
    base: Crossings,
    samples: Seq<Option<Progress>>,
    time: u64,
) -> Crossings {
    Map::new(
        |k: (usize, u64)|
            base.contains_key(k) || (has_data(samples, k.0) && k.1 == spec_checkpoint_of(
                samples[k.0 as int].unwrap(),
            )),
        |k: (usize, u64)|
            if base.contains_key(k) {
                base[k]
            } else {
                time
            },
    )
}

/// A session clock that runs backwards marks a new session.
pub open spec fn is_session_restart(s: TrackerState, time: u64) -> bool {
    time < s.last_session_time
}

/// The state after one tick. A new session starts from an empty history; otherwise
/// the history so far is kept. Then this tick's crossings are recorded.
pub open spec fn tick(s: TrackerState, samples: Seq<Option<Progress>>, time: u64) -> TrackerState {
    let base = if is_session_restart(s, time) {
        Crossings::empty()
    } else {
        s.crossings
    };
    TrackerState { crossings: crossings_after(base, samples, time), last_session_time: time }
}

/// One line of a tick's result.
#[derive(Clone, Copy, Debug, PartialEq, Eq, Structural)]
pub struct Standing {
    /// The car's slot in the tick's samples.
    pub entity_index: usize,
    /// Position in the ranking; the leader has rank 1.
    pub rank: usize,
    /// Time gap to the car one rank better, in ticks of the session clock.
    pub gap_to_ahead: i128,
    /// Time gap to the leader, in ticks of the session clock.
    pub gap_to_leader: i128,
}

/// The time gap of the car in slot `behind` to the car in slot `ahead`, both taken at
/// the checkpoints that their samples fall into.
pub open spec fn gap_between(
    h: Crossings,
    samples: Seq<Option<Progress>>,
    behind: usize,
    ahead: usize,
) -> int {
    spec_time_gap(
        h,
        behind,
        contender_of(samples, behind).checkpoint,
        ahead,
        contender_of(samples, ahead).checkpoint,
    )
}

/// `table` is the result of a tick with `samples` whose history afterwards is `h`:
/// one line for each slot with data and no other, best car first, ranks counted
/// from 1, the leader's gaps zero and every other car's gaps taken from `h`.
pub open spec fn is_standings(
    table: Seq<Standing>,
    samples: Seq<Option<Progress>>,
    h: Crossings,
) -> bool {
    &&& forall|p: int| 0 <= p < table.len() ==> has_data(samples, (#[trigger] table[p]).entity_index)
    &&& forall|e: usize|
        #![trigger has_data(samples, e)]
        has_data(samples, e) ==> exists|p: int|
            0 <= p < table.len() && (#[trigger] table[p]).entity_index == e
    &&& forall|p: int, q: int|
        0 <= p < q < table.len() ==> outranks(
            contender_of(samples, (#[trigger] table[p]).entity_index),
            contender_of(samples, (#[trigger] table[q]).entity_index),
        )
    &&& forall|p: int| 0 <= p < table.len() ==> (#[trigger] table[p]).rank == p + 1
    &&& forall|p: int|
        0 <= p < table.len() ==> (#[trigger] table[p]).gap_to_ahead == (if p == 0 {
            0
        } else {
            gap_between(h, samples, table[p].entity_index, table[p - 1].entity_index)
        })
    &&& forall|p: int|
        0 <= p < table.len() ==> (#[trigger] table[p]).gap_to_leader == (if p == 0 {
            0
        } else {
            gap_between(h, samples, table[p].entity_index, table[0].entity_index)
        })
}

/// In a tick's result a car that has travelled further has the better rank, and a
/// better rank never goes with a shorter distance.
pub proof fn lemma_further_car_ranks_better(
    table: Seq<Standing>,
    samples: Seq<Option<Progress>>,
    h: Crossings,
    p: int,
    q: int,
)
    requires
        is_standings(table, samples, h),
        0 <= p < table.len(),
        0 <= q < table.len(),
    ensures
        spec_total_progress(samples[table[p].entity_index as int].unwrap()) > spec_total_progress(
            samples[table[q].entity_index as int].unwrap(),
        ) ==> table[p].rank < table[q].rank,
        table[p].rank < table[q].rank ==> spec_total_progress(
            samples[table[p].entity_index as int].unwrap(),
        ) >= spec_total_progress(samples[table[q].entity_index as int].unwrap()),
{
    lemma_progress_fits(samples[table[p].entity_index as int].unwrap());
    lemma_progress_fits(samples[table[q].entity_index as int].unwrap());
}

/// The samples with the contents of slots `a` and `b` exchanged.
pub open spec fn exchanged(samples: Seq<Option<Progress>>, a: usize, b: usize) -> Seq<
    Option<Progress>,
>
    recommends
        a < samples.len(),
        b < samples.len(),
{
    samples.update(a as int, samples[b as int]).update(b as int, samples[a as int])
}

/// Exchanging the progress of two cars that have not travelled equally far exchanges
/// their order: the one that was ranked better is then ranked worse. `pa` and `pb` are
/// the lines of the two cars in the result before, `qa` and `qb` in the result after.
pub proof fn lemma_exchanged_progress_reverses_rank(
    table: Seq<Standing>,
    samples: Seq<Option<Progress>>,
    h: Crossings,
    table2: Seq<Standing>,
    h2: Crossings,
    a: usize,
    b: usize,
    pa: int,
    pb: int,
    qa: int,
    qb: int,
)
    requires
        has_data(samples, a),
        has_data(samples, b),
        spec_total_progress(samples[a as int].unwrap()) != spec_total_progress(
            samples[b as int].unwrap(),
        ),
        is_standings(table, samples, h),
        is_standings(table2, exchanged(samples, a, b), h2),
        0 <= pa < table.len() && table[pa].entity_index == a,
        0 <= pb < table.len() && table[pb].entity_index == b,
        0 <= qa < table2.len() && table2[qa].entity_index == a,
        0 <= qb < table2.len() && table2[qb].entity_index == b,
    ensures
        table[pa].rank < table[pb].rank <==> table2[qb].rank < table2[qa].rank,
        table[pa].rank != table[pb].rank,
        table2[qa].rank != table2[qb].rank,
{
    lemma_progress_fits(samples[a as int].unwrap());
    lemma_progress_fits(samples[b as int].unwrap());
    let samples2 = exchanged(samples, a, b);
    assert(samples2[a as int] == samples[b as int]);
    assert(samples2[b as int] == samples[a as int]);
    if pa < pb {
        assert(outranks(contender_of(samples, table[pa].entity_index), contender_of(samples, table[pb].entity_index)));
    }
    if pb < pa {
        assert(outranks(contender_of(samples, table[pb].entity_index), contender_of(samples, table[pa].entity_index)));
    }
    if qa < qb {
        assert(outranks(contender_of(samples2, table2[qa].entity_index), contender_of(samples2, table2[qb].entity_index)));
    }
    if qb < qa {
        assert(outranks(contender_of(samples2, table2[qb].entity_index), contender_of(samples2, table2[qa].entity_index)));
    }
}

/// The ranking that the lines of `table` spell out.
pub open spec fn order_of(table: Seq<Standing>, samples: Seq<Option<Progress>>) -> Seq<Contender> {
    Seq::new(table.len(), |p: int| contender_of(samples, table[p].entity_index))
}

/// The lines of a tick's result, read as contenders, are the ranking of its samples.
pub proof fn lemma_standings_follow_ranking(
    table: Seq<Standing>,
    samples: Seq<Option<Progress>>,
    h: Crossings,
)
    requires
        is_standings(table, samples, h),
    ensures
        is_ranking(order_of(table, samples), samples),
{
    let order = order_of(table, samples);
    assert forall|e: usize| has_data(samples, e) implies order.contains(
        #[trigger] contender_of(samples, e),
    ) by {
        let p = choose|p: int| 0 <= p < table.len() && (#[trigger] table[p]).entity_index == e;
        assert(order[p] == contender_of(samples, e));
    }
    assert forall|p: int, q: int| 0 <= p < q < order.len() implies outranks(order[p], order[q]) by {
        assert(outranks(
            contender_of(samples, table[p].entity_index),
            contender_of(samples, table[q].entity_index),
        ));
    }
    assert forall|p: int| 0 <= p < order.len() implies has_data(
        samples,
        (#[trigger] order[p]).entity_index,
    ) && order[p] == contender_of(samples, order[p].entity_index) by {
        assert(has_data(samples, table[p].entity_index));
    }
}

/// A tick has one result only: samples and history determine every line of it, so
/// that the same input always gives the same table.
pub proof fn lemma_standings_are_unique(
    first: Seq<Standing>,
    second: Seq<Standing>,
    samples: Seq<Option<Progress>>,
    h: Crossings,
)
    requires
        is_standings(first, samples, h),
        is_standings(second, samples, h),
    ensures
        first == second,
{
    lemma_standings_follow_ranking(first, samples, h);
    lemma_standings_follow_ranking(second, samples, h);
    lemma_ranking_is_unique(order_of(first, samples), order_of(second, samples), samples);
    assert(order_of(first, samples).len() == first.len());
    assert(order_of(second, samples).len() == second.len());
    assert forall|p: int| 0 <= p < first.len() implies first[p] == second[p] by {
        assert(order_of(first, samples)[p] == order_of(second, samples)[p]);
        assert(first[p].entity_index == second[p].entity_index);
        if p > 0 {
            assert(order_of(first, samples)[p - 1] == order_of(second, samples)[p - 1]);
            assert(order_of(first, samples)[0] == order_of(second, samples)[0]);
        }
    }
    assert(first =~= second);
}

/// Owner of one session's history. The caller keeps it and hands it to every tick.
pub struct GapTracker {
    history: History,
    last_session_time: u64,
}

impl View for GapTracker {
    type V = TrackerState;

    closed spec fn view(&self) -> TrackerState {
        TrackerState { crossings: self.history@, last_session_time: self.last_session_time }
    }
}

impl GapTracker {
    /// A tracker that has seen no tick yet.
    pub fn new() -> (tracker: GapTracker)
        ensures
            tracker@ == initial_state(),
    {
        GapTracker { history: History::new(), last_session_time: 0 }
    }

    /// The session clock at the latest tick.
    pub fn last_session_time(&self) -> (time: u64)
        ensures
            time == self@.last_session_time,
    {
        self.last_session_time
    }

    /// The history of the running session.
    pub fn history(&self) -> (history: &History)
        ensures
            history@ == self@.crossings,
    {
        &self.history
    }

    /// The time at which `entity` first reached `checkpoint` in the running session.
    pub fn crossing_time(&self, entity: usize, checkpoint: u64) -> (time: Option<u64>)
        ensures
            time == self@.crossings.get((entity, checkpoint)),
    {
        self.history.crossing_time(entity, checkpoint)
    }
}

/// Records this tick's crossings in `history`.
fn record_crossings(history: &mut History, samples: &Vec<Option<Progress>>, time: u64)
    ensures
        final(history)@ == crossings_after(old(history)@, samples@, time),
{
    let ghost base = history@;
    let mut i: usize = 0;
    while i < samples.len()
        invariant
            i <= samples.len(),
            history@ == crossings_after(base, samples@.take(i as int), time),
        decreases samples.len() - i,
    {
        match samples[i] {
            Some(p) => {
                history.record(i, checkpoint_index(total_progress(p)), time);
            },
            None => {},
        }
        assert(history@ =~= crossings_after(base, samples@.take(i + 1), time)) by {
            assert forall|k: (usize, u64)|
                has_data(samples@.take(i + 1), k.0) <==> (has_data(samples@.take(i as int), k.0)
                    || (k.0 == i && samples@[i as int] is Some)) by {}
        }
        i += 1;
    }
    assert(samples@.take(samples.len() as int) =~= samples@);
}

/// Lists the ranked cars with their ranks and gaps.
fn derive_standings(
    history: &History,
    order: &Vec<Contender>,
    Ghost(samples): Ghost<Seq<Option<Progress>>>,
) -> (table: Vec<Standing>)
    requires
        is_ranking(order@, samples),
    ensures
        is_standings(table@, samples, history@),
        table.len() == order.len(),
{
    let mut table: Vec<Standing> = Vec::new();
    let mut p: usize = 0;
    while p < order.len()
        invariant
            p <= order.len(),
            is_ranking(order@, samples),
            table.len() == p,
            forall|q: int|
                0 <= q < p ==> {
                    &&& (#[trigger] table[q]).entity_index == order[q].entity_index
                    &&& table[q].rank == q + 1
                    &&& table[q].gap_to_ahead == (if q == 0 {
                        0
                    } else {
                        gap_between(
                            history@,
                            samples,
                            order[q].entity_index,
                            order[q - 1].entity_index,
                        )
                    })
                    &&& table[q].gap_to_leader == (if q == 0 {
                        0
                    } else {
                        gap_between(history@, samples, order[q].entity_index, order[0].entity_index)
                    })
                },
        decreases order.len() - p,
    {
        let me = order[p];
        let (gap_to_ahead, gap_to_leader) = if p == 0 {
            (0, 0)
        } else {
            let ahead = order[p - 1];
            let leader = order[0];
            (
                history.time_gap(me.entity_index, me.checkpoint, ahead.entity_index, ahead.checkpoint),
                history.time_gap(
                    me.entity_index,
                    me.checkpoint,
                    leader.entity_index,
                    leader.checkpoint,
                ),
            )
        };
        table.push(Standing { entity_index: me.entity_index, rank: p + 1, gap_to_ahead, gap_to_leader });
        p += 1;
    }
    proof {
        assert forall|e: usize| #![trigger has_data(samples, e)] has_data(samples, e) implies exists|
            q: int,
        |
            0 <= q < table.len() && (#[trigger] table[q]).entity_index == e by {
            let c = contender_of(samples, e);
            assert(order@.contains(c));
            let q = choose|q: int| 0 <= q < order.len() && order[q] == c;
            assert(table[q].entity_index == e);
        }
    }
    table
}

/// One tick of the engine.
///
/// A session clock below that of the tick before starts a new session: the history
/// is emptied first. Then every car with data is recorded at the checkpoint it has
/// reached, unless that checkpoint already has a time. The cars with data are ranked
/// by distance travelled and each gets its gap to the car one rank better and to the
/// leader, read from the history as it stands after this tick.
pub fn calculate_gaps(
    tracker: &mut GapTracker,
    samples: &Vec<Option<Progress>>,
    session_time: u64,
) -> (table: Vec<Standing>)
    ensures
        final(tracker)@ == tick(old(tracker)@, samples@, session_time),
        is_standings(table@, samples@, final(tracker)@.crossings),
        table.len() == data_count(samples@),
        table.len() > 0 ==> table[0].rank == 1 && table[0].gap_to_ahead == 0
            && table[0].gap_to_leader == 0,
{
    if session_time < tracker.last_session_time {
        tracker.history.clear();
    }
    tracker.last_session_time = session_time;
    record_crossings(&mut tracker.history, samples, session_time);
    let order = rank(samples);
    derive_standings(&tracker.history, &order, Ghost(samples@))
}

} // verus!

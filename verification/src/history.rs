//! First-crossing history: when each car first reached each checkpoint.

use std::collections::HashMap;
use vstd::prelude::*;

verus! {

broadcast use vstd::std_specs::hash::group_hash_axioms;

/// The history as a mathematical object: a finite map from (car, checkpoint) to the
/// session time at which that car was first seen at that checkpoint.
pub type Crossings = Map<(usize, u64), u64>;

/// The history after car `entity` is seen at `checkpoint` at time `time`:
/// an entry that already exists keeps its value.
pub open spec fn record_crossing(h: Crossings, entity: usize, checkpoint: u64, time: u64) -> Crossings {
    if h.contains_key((entity, checkpoint)) {
        h
    } else {
        h.insert((entity, checkpoint), time)
    }
}

/// Both cars have an entry at `checkpoint`.
pub open spec fn both_crossed(h: Crossings, a: usize, b: usize, checkpoint: u64) -> bool {
    h.contains_key((a, checkpoint)) && h.contains_key((b, checkpoint))
}

/// The latest checkpoint not after `start` that both cars have an entry for, if any.
pub open spec fn latest_common_checkpoint(h: Crossings, a: usize, b: usize, start: u64) -> Option<u64>
    decreases start,
{
    if both_crossed(h, a, b, start) {
        Some(start)
    } else if start == 0 {
        None
    } else {
        latest_common_checkpoint(h, a, b, (start - 1) as u64)
    }
}

/// What `latest_common_checkpoint` finds is a checkpoint not after `start` that both
/// cars have crossed, and no later one up to `start` is common to both; it finds
/// nothing only where no checkpoint up to `start` is common to both.
pub proof fn lemma_latest_common_checkpoint(h: Crossings, a: usize, b: usize, start: u64)
    ensures
        match latest_common_checkpoint(h, a, b, start) {
            Some(cp) => {
                &&& cp <= start
                &&& both_crossed(h, a, b, cp)
                &&& forall|c: u64| cp < c <= start ==> !both_crossed(h, a, b, c)
            },
            None => forall|c: u64| c <= start ==> !both_crossed(h, a, b, c),
        },
    decreases start,
{
    if !both_crossed(h, a, b, start) && start > 0 {
        lemma_latest_common_checkpoint(h, a, b, (start - 1) as u64);
    }
}

/// The time gap of car `behind` to car `ahead`, who are at the checkpoints given: the
/// difference of their first-crossing times at the latest checkpoint that both have
/// crossed, searched downward from the earlier of the two current checkpoints. Where
/// they share no checkpoint the gap is zero.
pub open spec fn spec_time_gap(
    h: Crossings,
    behind: usize,
    behind_checkpoint: u64,
    ahead: usize,
    ahead_checkpoint: u64,
) -> int {
    let start = if behind_checkpoint <= ahead_checkpoint {
        behind_checkpoint
    } else {
        ahead_checkpoint
    };
    match latest_common_checkpoint(h, behind, ahead, start) {
        Some(cp) => h[(behind, cp)] as int - h[(ahead, cp)] as int,
        None => 0,
    }
}

/// A car that has no entry at all shares no checkpoint with anyone.
proof fn lemma_no_common_without_track(h: Crossings, a: usize, b: usize, start: u64)
    requires
        (forall|c: u64| !h.contains_key((a, c))) || (forall|c: u64| !h.contains_key((b, c))),
    ensures
        latest_common_checkpoint(h, a, b, start) is None,
    decreases start,
{
    if start > 0 {
        lemma_no_common_without_track(h, a, b, (start - 1) as u64);
    }
}

/// Per-session record of first crossings, one table of checkpoints per car.
pub struct History {
    tracks: HashMap<usize, HashMap<u64, u64>>,
}

impl View for History {
    type V = Crossings;

    closed spec fn view(&self) -> Crossings {
        Map::new(
            |k: (usize, u64)| self.tracks@.contains_key(k.0) && self.tracks@[k.0]@.contains_key(k.1),
            |k: (usize, u64)| self.tracks@[k.0]@[k.1],
        )
    }
}

impl History {
    /// An empty history.
    pub fn new() -> (h: History)
        ensures
            h@ == Crossings::empty(),
    {
        let h = History { tracks: HashMap::new() };
        assert(h@ =~= Crossings::empty());
        h
    }

    /// Forgets every crossing.
    pub fn clear(&mut self)
        ensures
            final(self)@ == Crossings::empty(),
    {
        self.tracks.clear();
        assert(self@ =~= Crossings::empty());
    }

    /// The time at which `entity` first reached `checkpoint`, if it was ever seen there.
    pub fn crossing_time(&self, entity: usize, checkpoint: u64) -> (time: Option<u64>)
        ensures
            time == self@.get((entity, checkpoint)),
    {
        match self.tracks.get(&entity) {
            Some(track) => match track.get(&checkpoint) {
                Some(t) => Some(*t),
                None => None,
            },
            None => None,
        }
    }

    /// Notes that `entity` was seen at `checkpoint` at time `time`. Only the first
    /// sighting counts: an entry that already exists is left as it is.
    pub fn record(&mut self, entity: usize, checkpoint: u64, time: u64)
        ensures
            final(self)@ == record_crossing(old(self)@, entity, checkpoint, time),
    {
        let track = self.tracks.entry(entity).or_insert(HashMap::new());
        track.entry(checkpoint).or_insert(time);
        assert(self@ =~= record_crossing(old(self)@, entity, checkpoint, time));
    }
    /// Searches from `start` downward for the latest checkpoint at which both `a` and
    /// `b` have been seen.
    pub fn common_checkpoint(&self, a: usize, b: usize, start: u64) -> (found: Option<u64>)
        ensures
            found == latest_common_checkpoint(self@, a, b, start),
    {
        let track_a = match self.tracks.get(&a) {
            Some(track) => track,
            None => {
                proof {
                    lemma_no_common_without_track(self@, a, b, start);
                }
                return None;
            },
        };
        let track_b = match self.tracks.get(&b) {
            Some(track) => track,
            None => {
                proof {
                    lemma_no_common_without_track(self@, a, b, start);
                }
                return None;
            },
        };
        let mut cp: u64 = start;
        loop
            invariant
                cp <= start,
                self.tracks@.contains_key(a) && self.tracks@[a] == *track_a,
                self.tracks@.contains_key(b) && self.tracks@[b] == *track_b,
                latest_common_checkpoint(self@, a, b, start) == latest_common_checkpoint(
                    self@,
                    a,
                    b,
                    cp,
                ),
            decreases cp,
        {
            if track_a.contains_key(&cp) && track_b.contains_key(&cp) {
                return Some(cp);
            }
            if cp == 0 {
                return None;
            }
            cp = cp - 1;
        }
    }

    /// The time gap of car `behind` to car `ahead`, in ticks of the session clock.
    pub fn time_gap(
        &self,
        behind: usize,
        behind_checkpoint: u64,
        ahead: usize,
        ahead_checkpoint: u64,
    ) -> (gap: i128)
        ensures
            gap == spec_time_gap(self@, behind, behind_checkpoint, ahead, ahead_checkpoint),
    {
        let start = if behind_checkpoint <= ahead_checkpoint {
            behind_checkpoint
        } else {
            ahead_checkpoint
        };
        match self.common_checkpoint(behind, ahead, start) {
            Some(cp) => {
                proof {
                    lemma_latest_common_checkpoint(self@, behind, ahead, start);
                }
                match (self.crossing_time(behind, cp), self.crossing_time(ahead, cp)) {
                    (Some(mine), Some(theirs)) => mine as i128 - theirs as i128,
                    _ => 0,
                }
            },
            None => 0,
        }
    }
}

} // verus!

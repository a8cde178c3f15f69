//! Ranking of the cars that have data at one tick.

use crate::progress::{checkpoint_index, spec_checkpoint_of, spec_total_progress, total_progress, Progress};
use vstd::prelude::*;

verus! {

/// One car taking part in a tick's ranking.
#[derive(Clone, Copy, Debug, PartialEq, Eq, Structural)]
pub struct Contender {
    /// The car's slot in the tick's samples.
    pub entity_index: usize,
    /// Total distance travelled, in millionths of a lap.
    pub total_progress: u64,
    /// The checkpoint that this distance falls into.
    pub checkpoint: u64,
}

/// Slot `e` exists in `samples` and holds data.
pub open spec fn has_data(samples: Seq<Option<Progress>>, e: usize) -> bool {
    e < samples.len() && samples[e as int] is Some
}

/// The number of slots of `samples` that hold data.
pub open spec fn data_count(samples: Seq<Option<Progress>>) -> nat
    decreases samples.len(),
{
    if samples.len() == 0 {
        0
    } else {
        data_count(samples.drop_last()) + (if samples.last() is Some {
            1nat
        } else {
            0nat
        })
    }
}

/// The contender that the sample in slot `e` makes. Distance and checkpoint of any
/// sample fit their fields (`lemma_progress_fits`).
pub open spec fn contender_of(samples: Seq<Option<Progress>>, e: usize) -> Contender
    recommends
        has_data(samples, e),
{
    let p = samples[e as int].unwrap();
    Contender {
        entity_index: e,
        total_progress: spec_total_progress(p) as u64,
        checkpoint: spec_checkpoint_of(p) as u64,
    }
}

/// `a` is ranked before `b`: it has travelled further, or as far and sits in the lower slot.
pub open spec fn outranks(a: Contender, b: Contender) -> bool {
    a.total_progress > b.total_progress || (a.total_progress == b.total_progress
        && a.entity_index < b.entity_index)
}

/// Every contender in `order` outranks all that follow it.
pub open spec fn ranked(order: Seq<Contender>) -> bool {
    forall|p: int, q: int| 0 <= p < q < order.len() ==> outranks(order[p], order[q])
}

/// `order` is the ranking of `samples`: it holds the contender of each slot with data,
/// nothing else, best first.
pub open spec fn is_ranking(order: Seq<Contender>, samples: Seq<Option<Progress>>) -> bool {
    &&& forall|p: int|
        0 <= p < order.len() ==> has_data(samples, (#[trigger] order[p]).entity_index) && order[p]
            == contender_of(samples, order[p].entity_index)
    &&& forall|e: usize| has_data(samples, e) ==> order.contains(#[trigger] contender_of(samples, e))
    &&& ranked(order)
}

/// Two rankings of the same samples agree on their first `n` places.
proof fn lemma_rankings_agree_upto(
    first: Seq<Contender>,
    second: Seq<Contender>,
    samples: Seq<Option<Progress>>,
    n: nat,
)
    requires
        is_ranking(first, samples),
        is_ranking(second, samples),
    ensures
        forall|k: int| 0 <= k < n && k < first.len() && k < second.len() ==> first[k] == second[k],
    decreases n,
{
    if n > 0 {
        lemma_rankings_agree_upto(first, second, samples, (n - 1) as nat);
        let p = n - 1;
        if p < first.len() && p < second.len() {
            let x = first[p];
            let y = second[p];
            assert(second.contains(contender_of(samples, x.entity_index)));
            assert(first.contains(contender_of(samples, y.entity_index)));
            let q = choose|q: int| 0 <= q < second.len() && second[q] == x;
            let r = choose|r: int| 0 <= r < first.len() && first[r] == y;
            if q < p {
                assert(outranks(first[q], first[p]));
            }
            if r < p {
                assert(outranks(second[r], second[p]));
            }
            if q > p && r > p {
                assert(outranks(second[p], second[q]));
                assert(outranks(first[p], first[r]));
            }
        }
    }
}

/// The ranking of a tick is determined by its samples: there is only one.
pub proof fn lemma_ranking_is_unique(
    first: Seq<Contender>,
    second: Seq<Contender>,
    samples: Seq<Option<Progress>>,
)
    requires
        is_ranking(first, samples),
        is_ranking(second, samples),
    ensures
        first == second,
{
    lemma_rankings_agree_upto(first, second, samples, first.len() + second.len());
    if first.len() > second.len() {
        let x = first[second.len() as int];
        assert(second.contains(contender_of(samples, x.entity_index)));
        let q = choose|q: int| 0 <= q < second.len() && second[q] == x;
        assert(outranks(first[q], first[second.len() as int]));
    }
    if second.len() > first.len() {
        let y = second[first.len() as int];
        assert(first.contains(contender_of(samples, y.entity_index)));
        let r = choose|r: int| 0 <= r < first.len() && first[r] == y;
        assert(outranks(second[r], second[first.len() as int]));
    }
    assert(first =~= second);
}

/// Whether `a` is ranked before `b`.
pub fn is_ahead(a: &Contender, b: &Contender) -> (ahead: bool)
    ensures
        ahead == outranks(*a, *b),
{
    a.total_progress > b.total_progress || (a.total_progress == b.total_progress && a.entity_index
        < b.entity_index)
}

/// The contender that a sample in slot `entity_index` makes.
pub fn contender(entity_index: usize, p: Progress) -> (c: Contender)
    ensures
        c.entity_index == entity_index,
        c.total_progress == spec_total_progress(p),
        c.checkpoint == spec_checkpoint_of(p),
{
    let total = total_progress(p);
    Contender { entity_index, total_progress: total, checkpoint: checkpoint_index(total) }
}

/// Inserting into a sequence keeps what was there and adds the new item.
proof fn lemma_insert_contains<A>(s: Seq<A>, pos: int, item: A, x: A)
    requires
        0 <= pos <= s.len(),
        s.contains(x) || x == item,
    ensures
        s.insert(pos, item).contains(x),
{
    let t = s.insert(pos, item);
    if x == item {
        assert(t[pos] == x);
    } else {
        let i = choose|i: int| 0 <= i < s.len() && s[i] == x;
        if i < pos {
            assert(t[i] == x);
        } else {
            assert(t[i + 1] == x);
        }
    }
}

/// Puts `c` at its place in a ranked list and returns that place.
fn insert_ranked(order: &mut Vec<Contender>, c: Contender) -> (pos: usize)
    requires
        ranked(old(order)@),
        forall|p: int|
            0 <= p < old(order).len() ==> (#[trigger] old(order)[p]).entity_index
                != c.entity_index,
    ensures
        pos <= old(order).len(),
        final(order)@ == old(order)@.insert(pos as int, c),
        ranked(final(order)@),
{
    let mut pos: usize = 0;
    while pos < order.len() && is_ahead(&order[pos], &c)
        invariant
            pos <= order.len(),
            order@ == old(order)@,
            forall|q: int| 0 <= q < pos ==> outranks(#[trigger] order[q], c),
        decreases order.len() - pos,
    {
        pos += 1;
    }
    proof {
        let before = order@;
        let after = before.insert(pos as int, c);
        assert forall|p: int, q: int| 0 <= p < q < after.len() implies outranks(
            after[p],
            after[q],
        ) by {
            if q < pos {
                assert(after[p] == before[p] && after[q] == before[q]);
            } else if q == pos {
                assert(after[p] == before[p]);
            } else if p == pos {
                assert(after[q] == before[q - 1]);
                assert(!outranks(before[pos as int], c));
                if q - 1 > pos {
                    assert(outranks(before[pos as int], before[q - 1]));
                }
            } else if p < pos {
                assert(after[p] == before[p] && after[q] == before[q - 1]);
            } else {
                assert(after[p] == before[p - 1] && after[q] == before[q - 1]);
            }
        }
    }
    order.insert(pos, c);
    pos
}

/// Ranks the cars that have data: furthest first, and of two cars that have travelled
/// equally far the one in the lower slot first.
pub fn rank(samples: &Vec<Option<Progress>>) -> (order: Vec<Contender>)
    ensures
        is_ranking(order@, samples@),
        order.len() == data_count(samples@),
{
    let mut order: Vec<Contender> = Vec::new();
    let mut i: usize = 0;
    while i < samples.len()
        invariant
            i <= samples.len(),
            ranked(order@),
            order.len() == data_count(samples@.take(i as int)),
            forall|p: int|
                0 <= p < order.len() ==> (#[trigger] order[p]).entity_index < i && has_data(
                    samples@,
                    order[p].entity_index,
                ) && order[p] == contender_of(samples@, order[p].entity_index),
            forall|e: usize|
                e < i && has_data(samples@, e) ==> order@.contains(
                    #[trigger] contender_of(samples@, e),
                ),
        decreases samples.len() - i,
    {
        match samples[i] {
            Some(p) => {
                let c = contender(i, p);
                let ghost before = order@;
                let pos = insert_ranked(&mut order, c);
                proof {
                    assert(c == contender_of(samples@, i));
                    assert forall|q: int| 0 <= q < order.len() implies (#[trigger] order[q]).entity_index
                        < i + 1 && has_data(samples@, order[q].entity_index) && order[q]
                        == contender_of(samples@, order[q].entity_index) by {
                        if q < pos {
                            assert(order[q] == before[q]);
                        } else if q > pos {
                            assert(order[q] == before[q - 1]);
                        }
                    }
                    assert forall|e: usize| e < i + 1 && has_data(samples@, e) implies order@.contains(
                        #[trigger] contender_of(samples@, e),
                    ) by {
                        lemma_insert_contains(before, pos as int, c, contender_of(samples@, e));
                    }
                }
            },
            None => {},
        }
        assert(samples@.take(i + 1).drop_last() == samples@.take(i as int));
        i += 1;
    }
    assert(samples@.take(samples.len() as int) == samples@);
    order
}

} // verus!

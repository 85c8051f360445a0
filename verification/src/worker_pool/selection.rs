//! The order in which workers take turns.

use vstd::prelude::*;

use crate::config::RoutingStrategy;
use crate::worker_pool::profile::MAX_WORKERS;

verus! {

/// The position of the first worker, at `from` or later in the order, that is
/// a candidate; the end of the order if there is none.
pub open spec fn first_candidate(order: Seq<usize>, candidates: Seq<bool>, from: int) -> int
    decreases order.len() - from,
{
    if from >= order.len() {
        order.len() as int
    } else if candidates[order[from] as int] {
        from
    } else {
        first_candidate(order, candidates, from + 1)
    }
}

/// The candidate whose turn it is.
pub open spec fn turn(order: Seq<usize>, candidates: Seq<bool>) -> Option<usize> {
    let position = first_candidate(order, candidates, 0);
    if position < order.len() {
        Some(order[position])
    } else {
        None
    }
}

/// The order after the candidate whose turn it was has moved to its end.
pub open spec fn turned(order: Seq<usize>, candidates: Seq<bool>) -> Seq<usize> {
    let position = first_candidate(order, candidates, 0);
    if position < order.len() {
        order.remove(position).push(order[position])
    } else {
        order
    }
}

/// The order lists every worker below `count` once.
pub open spec fn is_turn_order(order: Seq<usize>, count: nat) -> bool {
    &&& order.len() == count
    &&& order.no_duplicates()
    &&& forall|i: int| 0 <= i < order.len() ==> (#[trigger] order[i]) < count
}

/// Where the first candidate stands.
pub proof fn lemma_first_candidate(order: Seq<usize>, candidates: Seq<bool>, from: int)
    requires
        0 <= from <= order.len(),
    ensures
        ({
            let position = first_candidate(order, candidates, from);
            &&& from <= position <= order.len()
            &&& position < order.len() ==> candidates[order[position] as int]
            &&& forall|i: int| from <= i < position ==> !candidates[#[trigger] order[i] as int]
        }),
    decreases order.len() - from,
{
    if from < order.len() && !candidates[order[from] as int] {
        lemma_first_candidate(order, candidates, from + 1);
    }
}

/// A turn order lists every worker.
pub proof fn lemma_turn_order_is_total(order: Seq<usize>, count: nat, worker: usize)
    requires
        is_turn_order(order, count),
        worker < count,
    ensures
        order.contains(worker),
{
    let listed = order.map_values(|w: usize| w as int);
    assert(listed.no_duplicates());
    listed.unique_seq_to_set();
    let all = vstd::set_lib::set_int_range(0, count as int);
    vstd::set_lib::lemma_int_range(0, count as int);
    assert(listed.to_set().subset_of(all)) by {
        assert forall|w: int| listed.to_set().contains(w) implies all.contains(w) by {
            let i = listed.index_of(w);
            assert(listed[i] == w);
            assert(order[i] < count);
        }
    }
    vstd::set_lib::lemma_subset_equality(listed.to_set(), all);
    assert(listed.to_set().contains(worker as int));
    let i = listed.index_of(worker as int);
    assert(order[i] == worker);
}

/// Some candidate has a turn whenever there is a candidate.
pub proof fn lemma_candidate_has_turn(
    order: Seq<usize>,
    candidates: Seq<bool>,
    count: nat,
    worker: usize,
)
    requires
        is_turn_order(order, count),
        worker < count,
        candidates[worker as int],
    ensures
        turn(order, candidates) is Some,
{
    lemma_turn_order_is_total(order, count, worker);
    lemma_first_candidate(order, candidates, 0);
    let i = order.index_of(worker);
    assert(order[i] == worker);
}

/// Taking a turn keeps every worker in the order exactly once.
pub proof fn law_turn_order_is_kept(order: Seq<usize>, candidates: Seq<bool>, count: nat)
    requires
        is_turn_order(order, count),
    ensures
        is_turn_order(turned(order, candidates), count),
{
    lemma_first_candidate(order, candidates, 0);
    let position = first_candidate(order, candidates, 0);
    if position < order.len() {
        let after = turned(order, candidates);
        assert forall|i: int, j: int| 0 <= i < after.len() && 0 <= j < after.len() && i != j implies
            after[i] != after[j] by {
            let from_i = if i == after.len() - 1 {
                position
            } else if i < position {
                i
            } else {
                i + 1
            };
            let from_j = if j == after.len() - 1 {
                position
            } else if j < position {
                j
            } else {
                j + 1
            };
            assert(after[i] == order[from_i]);
            assert(after[j] == order[from_j]);
            assert(from_i != from_j);
        }
        assert forall|i: int| 0 <= i < after.len() implies (#[trigger] after[i]) < count by {
            let from = if i == after.len() - 1 {
                position
            } else if i < position {
                i
            } else {
                i + 1
            };
            assert(after[i] == order[from]);
        }
    }
}

/// No candidate starves: a candidate that stands at `position` and is passed
/// over stands one place further ahead at the next turn, so it is selected
/// after at most that many turns of others.
pub proof fn law_passed_over_candidate_advances(
    order: Seq<usize>,
    candidates: Seq<bool>,
    count: nat,
    position: int,
)
    requires
        is_turn_order(order, count),
        0 <= position < order.len(),
        candidates[order[position] as int],
        turn(order, candidates) != Some(order[position]),
    ensures
        position > 0,
        turned(order, candidates)[position - 1] == order[position],
{
    lemma_first_candidate(order, candidates, 0);
}

/// Turns are fair: the candidate whose turn it is stands ahead of every other
/// candidate, so it is the one selected longest ago; it moves to the end, and
/// the others keep their order.
pub proof fn law_longest_waiting_candidate_is_selected(
    order: Seq<usize>,
    candidates: Seq<bool>,
    count: nat,
    worker: usize,
)
    requires
        is_turn_order(order, count),
        turn(order, candidates) == Some(worker),
    ensures
        candidates[worker as int],
        forall|i: int|
            0 <= i < order.len() && candidates[#[trigger] order[i] as int] && order[i] != worker
                ==> order.index_of(worker) < i,
        turned(order, candidates).last() == worker,
        turned(order, candidates).drop_last() == order.remove_value(worker),
{
    lemma_first_candidate(order, candidates, 0);
    let position = first_candidate(order, candidates, 0);
    assert(order[position] == worker);
    assert(order.index_of(worker) == position);
    assert(turned(order, candidates).drop_last() =~= order.remove(position));
    assert(order.contains(worker));
    assert(order.index_of_first(worker) == Some(position)) by {
        order.index_of_first_ensures(worker);
    }
}

/// Picks among candidates in turn, least recently picked first.
#[derive(Debug)]
pub struct Selector {
    strategy: RoutingStrategy,
    order: Vec<usize>,
}

impl Selector {
    /// The turn order.
    pub closed spec fn order(&self) -> Seq<usize> {
        self.order@
    }

    /// The routing strategy.
    pub closed spec fn rule(&self) -> RoutingStrategy {
        self.strategy
    }

    /// The order lists each of its workers once.
    pub open spec fn wf(&self) -> bool {
        is_turn_order(self.order(), self.order().len()) && self.order().len() <= MAX_WORKERS
    }

    /// A selector over `count` workers, in startup order.
    pub fn new(strategy: RoutingStrategy, count: usize) -> (selector: Self)
        requires
            count <= MAX_WORKERS,
        ensures
            selector.wf(),
            selector.rule() == strategy,
            selector.order() == Seq::new(count as nat, |i: int| i as usize),
    {
        let mut order: Vec<usize> = Vec::new();
        let mut i: usize = 0;
        while i < count
            invariant
                i <= count,
                order@.len() == i,
                forall|j: int| 0 <= j < i ==> order@[j] == j,
            decreases count - i,
        {
            order.push(i);
            i += 1;
        }
        assert(order@ =~= Seq::new(count as nat, |i: int| i as usize));
        Selector { strategy, order }
    }

    pub fn strategy(&self) -> (strategy: RoutingStrategy)
        ensures
            strategy == self.rule(),
    {
        self.strategy
    }

    /// Picks the candidate whose turn it is.
    pub fn select(&mut self, candidates: &[bool; MAX_WORKERS]) -> (selected: Option<usize>)
        requires
            old(self).wf(),
        ensures
            selected == turn(old(self).order(), candidates@),
            final(self).order() == turned(old(self).order(), candidates@),
            final(self).rule() == old(self).rule(),
            final(self).wf(),
    {
        let ghost before = self.order@;
        let mut position: usize = 0;
        while position < self.order.len()
            invariant
                position <= self.order@.len(),
                self.order@ == before,
                old(self).wf(),
                candidates@.len() == MAX_WORKERS,
                first_candidate(before, candidates@, 0) == first_candidate(
                    before,
                    candidates@,
                    position as int,
                ),
                self.strategy == old(self).strategy,
                before == old(self).order@,
            decreases self.order@.len() - position,
        {
            let worker: usize = self.order[position];
            if candidates[worker] {
                proof {
                    law_turn_order_is_kept(before, candidates@, before.len());
                }
                let moved: usize = self.order.remove(position);
                self.order.push(moved);
                return Some(worker);
            }
            position += 1;
        }
        None
    }
}

} // verus!

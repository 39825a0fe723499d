//! Proof of stake: the producer is drawn at random, and a participant's
//! chance is its share of the total stake.

use crate::random::RandomSource;
use crate::registry::{NodeView, ValidatorRegistry};
use crate::strategy::ConsensusError;
use vstd::prelude::*;

verus! {

/// The sum of all stakes.
pub open spec fn total_stake(nodes: Seq<NodeView>) -> nat
    decreases nodes.len(),
{
    if nodes.len() == 0 {
        0
    } else {
        total_stake(nodes.drop_last()) + nodes.last().stake as nat
    }
}

/// The sum of the stakes of the entries before position `i`.
pub open spec fn stake_before(nodes: Seq<NodeView>, i: int) -> nat {
    total_stake(nodes.take(i))
}

/// Entry `i` is the pick for `draw`: the draw is at least the stake before
/// the entry and less than the stake up to and including it.
pub open spec fn is_weighted_pick(nodes: Seq<NodeView>, draw: nat, i: int) -> bool {
    &&& 0 <= i < nodes.len()
    &&& stake_before(nodes, i) <= draw < stake_before(nodes, i) + nodes[i].stake
}

/// The stake before an entry and its own make the stake before the next.
pub proof fn lemma_stake_before_next(nodes: Seq<NodeView>, i: int)
    requires
        0 <= i < nodes.len(),
    ensures
        stake_before(nodes, i + 1) == stake_before(nodes, i) + nodes[i].stake,
{
    assert(nodes.take(i + 1).drop_last() =~= nodes.take(i));
}

/// The stake before a position grows with the position, up to the total.
pub proof fn lemma_stake_before_monotone(nodes: Seq<NodeView>, i: int, j: int)
    requires
        0 <= i <= j <= nodes.len(),
    ensures
        stake_before(nodes, i) <= stake_before(nodes, j) <= total_stake(nodes),
    decreases nodes.len() - i,
{
    if i < j {
        lemma_stake_before_next(nodes, i);
        lemma_stake_before_monotone(nodes, i + 1, j);
    } else {
        assert(stake_before(nodes, i) <= total_stake(nodes)) by {
            if i < nodes.len() {
                lemma_stake_before_next(nodes, i);
                lemma_stake_before_monotone(nodes, i + 1, i + 1);
            } else {
                assert(nodes.take(i) =~= nodes);
            }
        }
    }
}

/// A draw has at most one pick, and the pick has a stake.
pub proof fn lemma_weighted_pick_unique(nodes: Seq<NodeView>, draw: nat, i: int, j: int)
    requires
        is_weighted_pick(nodes, draw, i),
        is_weighted_pick(nodes, draw, j),
    ensures
        i == j,
        nodes[i].stake > 0,
        draw < total_stake(nodes),
{
    if i < j {
        lemma_stake_before_next(nodes, i);
        lemma_stake_before_monotone(nodes, i + 1, j);
    } else if j < i {
        lemma_stake_before_next(nodes, j);
        lemma_stake_before_monotone(nodes, j + 1, i);
    }
    lemma_stake_before_next(nodes, i);
    lemma_stake_before_monotone(nodes, i + 1, i + 1);
}

/// The total stake is 0 exactly where every stake is 0.
pub proof fn lemma_total_stake_zero(nodes: Seq<NodeView>)
    ensures
        total_stake(nodes) == 0 <==> forall|i: int|
            0 <= i < nodes.len() ==> (#[trigger] nodes[i]).stake == 0,
    decreases nodes.len(),
{
    if nodes.len() > 0 {
        let front = nodes.drop_last();
        lemma_total_stake_zero(front);
        if total_stake(nodes) == 0 {
            assert forall|i: int| 0 <= i < nodes.len() implies (#[trigger] nodes[i]).stake == 0 by {
                if i < front.len() {
                    assert(front[i].stake == 0);
                }
            }
        } else if nodes.last().stake == 0 {
            let i = choose|i: int| 0 <= i < front.len() && (#[trigger] front[i]).stake != 0;
            assert(nodes[i].stake != 0);
        } else {
            assert(nodes[nodes.len() - 1].stake != 0);
        }
    }
}

/// A sum of stakes is at most the greatest stake times their number.
pub proof fn lemma_total_stake_bound(nodes: Seq<NodeView>)
    ensures
        total_stake(nodes) <= nodes.len() * u64::MAX,
    decreases nodes.len(),
{
    if nodes.len() > 0 {
        lemma_total_stake_bound(nodes.drop_last());
    }
}

/// Adds up all stakes.
pub fn total_stake_of(registry: &ValidatorRegistry) -> (total: u128)
    ensures
        total == total_stake(registry@),
{
    let mut total: u128 = 0;
    let mut i: usize = 0;
    while i < registry.len()
        invariant
            i <= registry@.len(),
            total == stake_before(registry@, i as int),
        decreases registry@.len() - i,
    {
        proof {
            lemma_stake_before_next(registry@, i as int);
            lemma_total_stake_bound(registry@.take(i as int + 1));
        }
        total = total + registry.node(i).stake as u128;
        i += 1;
    }
    assert(registry@.take(i as int) =~= registry@);
    total
}

/// Finds the pick for `draw` by walking the entries in registration order.
/// There is one exactly where the draw is less than the total stake.
pub fn pick_by_stake(registry: &ValidatorRegistry, draw: u128) -> (picked: Option<usize>)
    ensures
        picked is Some <==> draw < total_stake(registry@),
        picked matches Some(i) ==> is_weighted_pick(registry@, draw as nat, i as int),
{
    let mut remaining: u128 = draw;
    let mut i: usize = 0;
    while i < registry.len()
        invariant
            i <= registry@.len(),
            remaining + stake_before(registry@, i as int) == draw,
        decreases registry@.len() - i,
    {
        let stake = registry.node(i).stake as u128;
        proof {
            lemma_stake_before_next(registry@, i as int);
            lemma_stake_before_monotone(registry@, i as int + 1, i as int + 1);
        }
        if remaining < stake {
            return Some(i);
        }
        remaining = remaining - stake;
        i += 1;
    }
    assert(registry@.take(i as int) =~= registry@);
    None
}

/// Draws a producer, each participant weighted by its stake. There is
/// none where no participant has any stake.
pub fn select_producer(
    registry: &ValidatorRegistry,
    source: &mut RandomSource,
) -> (result: Result<String, ConsensusError>)
    ensures
        result is Err <==> total_stake(registry@) == 0,
        result matches Err(error) ==> error == ConsensusError::NoEligibleValidator,
        result matches Ok(name) ==> exists|draw: nat, i: int|
            {
                &&& draw < total_stake(registry@)
                &&& #[trigger] is_weighted_pick(registry@, draw, i)
                &&& name@ == registry@[i].name
            },
{
    let total = total_stake_of(registry);
    match source.draw_below(total) {
        None => Err(ConsensusError::NoEligibleValidator),
        Some(draw) => match pick_by_stake(registry, draw) {
            Some(i) => {
                let name = registry.node(i).name.clone();
                assert(is_weighted_pick(registry@, draw as nat, i as int));
                Ok(name)
            },
            None => Err(ConsensusError::NoEligibleValidator),
        },
    }
}

} // verus!

//! Delegated proof of stake: participants vote their stake to delegates,
//! an election ranks the participants by the votes they hold, and the
//! first of the elected delegates produces the blocks.

use crate::text::texts;
use crate::registry::{has_name, lemma_name_index_unique, name_index, NodeView, ValidatorRegistry};
use crate::strategy::ConsensusError;
use vstd::prelude::*;

verus! {

/// The vote can be counted: where both are registered, the delegate's
/// votes and the voter's stake together fit the 64-bit tally.
pub open spec fn vote_fits(nodes: Seq<NodeView>, voter: Seq<char>, delegate: Seq<char>) -> bool {
    has_name(nodes, voter) && has_name(nodes, delegate) ==> nodes[name_index(nodes, delegate)].votes
        + nodes[name_index(nodes, voter)].stake <= u64::MAX
}

/// The entries after the vote: the delegate holds the voter's whole stake
/// more, and nothing else has changed.
pub open spec fn after_vote(
    nodes: Seq<NodeView>,
    voter: Seq<char>,
    delegate: Seq<char>,
) -> Seq<NodeView> {
    let from = name_index(nodes, voter);
    let to = name_index(nodes, delegate);
    nodes.update(to, NodeView { votes: (nodes[to].votes + nodes[from].stake) as u64, ..nodes[to] })
}

/// Entry `i` ranks before entry `j`: it holds more votes, or as many and
/// was registered earlier.
pub open spec fn outranks(nodes: Seq<NodeView>, i: int, j: int) -> bool {
    nodes[i].votes > nodes[j].votes || (nodes[i].votes == nodes[j].votes && i < j)
}

/// Whether position `i` of the registry is listed in `order`.
pub open spec fn lists(order: Seq<usize>, i: int) -> bool {
    exists|p: int| 0 <= p < order.len() && #[trigger] order[p] == i
}

/// `order` lists each of the first `count` positions of the registry once,
/// every one before those that it outranks.
pub open spec fn ranks_first(nodes: Seq<NodeView>, count: int, order: Seq<usize>) -> bool {
    &&& order.len() == count
    &&& forall|p: int| 0 <= p < order.len() ==> (#[trigger] order[p]) < count
    &&& forall|i: int| 0 <= i < count ==> #[trigger] lists(order, i)
    &&& forall|p: int, q: int|
        0 <= p < q < order.len() ==> outranks(
            nodes,
            #[trigger] order[p] as int,
            #[trigger] order[q] as int,
        )
}

/// `order` is the ranking of the whole registry.
pub open spec fn is_ranking(nodes: Seq<NodeView>, order: Seq<usize>) -> bool {
    ranks_first(nodes, nodes.len() as int, order)
}

/// The names of the first `seats` entries of a ranking, or of all where
/// there are fewer.
pub open spec fn top_names(nodes: Seq<NodeView>, order: Seq<usize>, seats: nat) -> Seq<Seq<char>> {
    Seq::new(
        if seats <= order.len() {
            seats
        } else {
            order.len()
        },
        |p: int| nodes[order[p] as int].name,
    )
}

/// `delegates` is the outcome of an election for `seats` seats: the names
/// of the participants that rank first, in rank order.
pub open spec fn is_election(nodes: Seq<NodeView>, seats: nat, delegates: Seq<Seq<char>>) -> bool {
    exists|order: Seq<usize>|
        #[trigger] is_ranking(nodes, order) && delegates == top_names(nodes, order, seats)
}

/// Two rankings of one registry agree at every rank.
pub proof fn lemma_rankings_agree_at(nodes: Seq<NodeView>, a: Seq<usize>, b: Seq<usize>, p: int)
    requires
        is_ranking(nodes, a),
        is_ranking(nodes, b),
        0 <= p < nodes.len(),
    ensures
        a[p] == b[p],
    decreases p,
{
    assert forall|q: int| 0 <= q < p implies a[q] == b[q] by {
        lemma_rankings_agree_at(nodes, a, b, q);
    }
    let x = a[p];
    let y = b[p];
    if x != y {
        assert(lists(b, x as int) && lists(a, y as int));
        let in_b = choose|q: int| 0 <= q < b.len() && #[trigger] b[q] == x;
        let in_a = choose|q: int| 0 <= q < a.len() && #[trigger] a[q] == y;
        if in_b < p {
            assert(a[in_b] == b[in_b]);
            assert(outranks(nodes, a[in_b] as int, a[p] as int));
        }
        if in_a < p {
            assert(a[in_a] == b[in_a]);
            assert(outranks(nodes, b[in_a] as int, b[p] as int));
        }
        assert(outranks(nodes, b[p] as int, b[in_b] as int));
        assert(outranks(nodes, a[p] as int, a[in_a] as int));
    }
}

/// A registry has one ranking only.
pub proof fn lemma_ranking_unique(nodes: Seq<NodeView>, a: Seq<usize>, b: Seq<usize>)
    requires
        is_ranking(nodes, a),
        is_ranking(nodes, b),
    ensures
        a == b,
{
    assert forall|p: int| 0 <= p < a.len() implies a[p] == b[p] by {
        lemma_rankings_agree_at(nodes, a, b, p);
    }
    assert(a =~= b);
}

/// An election has one outcome only.
pub proof fn lemma_election_unique(
    nodes: Seq<NodeView>,
    seats: nat,
    first: Seq<Seq<char>>,
    second: Seq<Seq<char>>,
)
    requires
        is_election(nodes, seats, first),
        is_election(nodes, seats, second),
    ensures
        first == second,
{
    let a = choose|order: Seq<usize>| #[trigger]
        is_ranking(nodes, order) && first == top_names(nodes, order, seats);
    let b = choose|order: Seq<usize>| #[trigger]
        is_ranking(nodes, order) && second == top_names(nodes, order, seats);
    lemma_ranking_unique(nodes, a, b);
}

/// The delegates of an election are registered, and there are as many as
/// there are seats, or participants where those are fewer.
pub proof fn lemma_election_shape(nodes: Seq<NodeView>, seats: nat, delegates: Seq<Seq<char>>)
    requires
        is_election(nodes, seats, delegates),
    ensures
        delegates.len() == if seats <= nodes.len() {
            seats
        } else {
            nodes.len()
        },
        forall|p: int| 0 <= p < delegates.len() ==> has_name(nodes, #[trigger] delegates[p]),
{
    let order = choose|order: Seq<usize>| #[trigger]
        is_ranking(nodes, order) && delegates == top_names(nodes, order, seats);
    assert forall|p: int| 0 <= p < delegates.len() implies has_name(
        nodes,
        #[trigger] delegates[p],
    ) by {
        assert(order[p] < nodes.len());
        assert(nodes[order[p] as int].name == delegates[p]);
    }
}

/// Counts a vote: the voter's whole stake is added to the delegate's
/// votes. A vote that names an unregistered voter or delegate is refused
/// and changes nothing. Votes add up: a voter may vote again, for the same
/// delegate or another.
pub fn vote(
    registry: &mut ValidatorRegistry,
    voter: &str,
    delegate: &str,
) -> (result: Result<(), ConsensusError>)
    requires
        old(registry).wf(),
        vote_fits(old(registry)@, voter@, delegate@),
    ensures
        final(registry).wf(),
        match result {
            Ok(()) => {
                &&& has_name(old(registry)@, voter@)
                &&& has_name(old(registry)@, delegate@)
                &&& final(registry)@ == after_vote(old(registry)@, voter@, delegate@)
            },
            Err(ConsensusError::UnknownVoter) => {
                &&& !has_name(old(registry)@, voter@)
                &&& final(registry)@ == old(registry)@
            },
            Err(ConsensusError::UnknownDelegate) => {
                &&& has_name(old(registry)@, voter@)
                &&& !has_name(old(registry)@, delegate@)
                &&& final(registry)@ == old(registry)@
            },
            Err(_) => false,
        },
{
    let from = match registry.position(voter) {
        Some(position) => position,
        None => {
            return Err(ConsensusError::UnknownVoter);
        },
    };
    let to = match registry.position(delegate) {
        Some(position) => position,
        None => {
            return Err(ConsensusError::UnknownDelegate);
        },
    };
    proof {
        lemma_name_index_unique(registry@, from as int);
        lemma_name_index_unique(registry@, to as int);
    }
    let stake = registry.node(from).stake;
    registry.credit_votes(to, stake);
    Ok(())
}

/// Whether a vote can be counted without overflowing the delegate's tally.
pub fn vote_would_fit(registry: &ValidatorRegistry, voter: &str, delegate: &str) -> (fits: bool)
    requires
        registry.wf(),
    ensures
        fits == vote_fits(registry@, voter@, delegate@),
{
    match registry.position(voter) {
        None => true,
        Some(from) => match registry.position(delegate) {
            None => true,
            Some(to) => {
                proof {
                    lemma_name_index_unique(registry@, from as int);
                    lemma_name_index_unique(registry@, to as int);
                }
                registry.node(to).votes <= u64::MAX - registry.node(from).stake
            },
        },
    }
}

/// Ranks the registry: the positions of all entries, those with more votes
/// first and, among equals, those registered earlier.
pub fn rank(registry: &ValidatorRegistry) -> (order: Vec<usize>)
    ensures
        is_ranking(registry@, order@),
{
    let mut order: Vec<usize> = Vec::new();
    let mut i: usize = 0;
    while i < registry.len()
        invariant
            i <= registry@.len(),
            ranks_first(registry@, i as int, order@),
        decreases registry@.len() - i,
    {
        let votes = registry.node(i).votes;
        let mut at: usize = 0;
        while at < order.len() && registry.node(order[at]).votes >= votes
            invariant
                i < registry@.len(),
                at <= order@.len(),
                ranks_first(registry@, i as int, order@),
                votes == registry@[i as int].votes,
                forall|p: int|
                    0 <= p < at ==> registry@[(#[trigger] order@[p]) as int].votes >= votes,
            decreases order@.len() - at,
        {
            at += 1;
        }
        let ghost before = order@;
        order.insert(at, i);
        proof {
            let after = order@;
            assert forall|p: int| 0 <= p < after.len() implies (#[trigger] after[p]) < i + 1 by {
                if p < at {
                    assert(after[p] == before[p]);
                } else if p > at {
                    assert(after[p] == before[p - 1]);
                }
            }
            assert forall|k: int| 0 <= k < i + 1 implies #[trigger] lists(after, k) by {
                if k == i {
                    assert(after[at as int] == k);
                } else {
                    assert(lists(before, k));
                    let p = choose|p: int| 0 <= p < before.len() && #[trigger] before[p] == k;
                    if p < at {
                        assert(after[p] == k);
                    } else {
                        assert(after[p + 1] == k);
                    }
                }
            }
            assert forall|p: int, q: int| 0 <= p < q < after.len() implies outranks(
                registry@,
                #[trigger] after[p] as int,
                #[trigger] after[q] as int,
            ) by {
                if q < at {
                    assert(after[p] == before[p] && after[q] == before[q]);
                } else if q == at {
                    assert(after[p] == before[p]);
                    assert(before[p] < i);
                } else if p == at {
                    assert(after[q] == before[q - 1]);
                    if q - 1 > at {
                        assert(outranks(registry@, before[at as int] as int, before[q - 1] as int));
                    }
                } else if p < at {
                    assert(after[p] == before[p] && after[q] == before[q - 1]);
                } else {
                    assert(after[p] == before[p - 1] && after[q] == before[q - 1]);
                }
            }
        }
        i += 1;
    }
    order
}

/// Holds an election for `seats` seats: the delegates are the participants
/// that rank first, in rank order, and all of them where there are fewer
/// than `seats`.
pub fn elect(registry: &ValidatorRegistry, seats: usize) -> (delegates: Vec<String>)
    ensures
        is_election(registry@, seats as nat, texts(delegates@)),
{
    let order = rank(registry);
    let mut delegates: Vec<String> = Vec::new();
    let mut p: usize = 0;
    while p < seats && p < order.len()
        invariant
            is_ranking(registry@, order@),
            p <= seats,
            p <= order@.len(),
            delegates@.len() == p,
            forall|q: int|
                0 <= q < p ==> (#[trigger] delegates@[q])@ == registry@[order@[q] as int].name,
        decreases order@.len() - p,
    {
        assert(order@[p as int] < registry@.len());
        delegates.push(registry.node(order[p]).name.clone());
        p += 1;
    }
    assert(texts(delegates@) =~= top_names(registry@, order@, seats as nat));
    delegates
}

/// Names the first delegate. There is none before an election has seated
/// one.
pub fn select_producer(delegates: &Vec<String>) -> (result: Result<String, ConsensusError>)
    ensures
        match result {
            Ok(name) => delegates@.len() > 0 && name@ == delegates@[0]@,
            Err(error) => delegates@.len() == 0 && error == ConsensusError::NoDelegatesElected,
        },
{
    if delegates.len() == 0 {
        Err(ConsensusError::NoDelegatesElected)
    } else {
        Ok(delegates[0].clone())
    }
}

} // verus!

//! The quorum check: a transaction is admitted where a strict majority of
//! the registered participants is healthy. The check reads the health
//! flags as registered; it exchanges no messages.

use crate::text::texts;
use crate::registry::{NodeView, ValidatorRegistry};
use vstd::prelude::*;
use vstd::string::*;

verus! {

/// The number of entries that are not faulty.
pub open spec fn healthy_count(nodes: Seq<NodeView>) -> nat
    decreases nodes.len(),
{
    if nodes.len() == 0 {
        0
    } else {
        healthy_count(nodes.drop_last()) + if nodes.last().is_faulty {
            0nat
        } else {
            1nat
        }
    }
}

/// Twice the healthy entries are more than all entries.
pub open spec fn has_quorum(nodes: Seq<NodeView>) -> bool {
    healthy_count(nodes) * 2 > nodes.len()
}

/// Whether any entry is healthy.
pub open spec fn has_healthy(nodes: Seq<NodeView>) -> bool {
    exists|i: int| 0 <= i < nodes.len() && !(#[trigger] nodes[i]).is_faulty
}

/// Entry `i` is healthy and no entry before it is.
pub open spec fn is_first_healthy(nodes: Seq<NodeView>, i: int) -> bool {
    &&& 0 <= i < nodes.len()
    &&& !nodes[i].is_faulty
    &&& forall|j: int| 0 <= j < i ==> (#[trigger] nodes[j]).is_faulty
}

/// There are no more healthy entries than entries.
pub proof fn lemma_healthy_count_bound(nodes: Seq<NodeView>)
    ensures
        healthy_count(nodes) <= nodes.len(),
    decreases nodes.len(),
{
    if nodes.len() > 0 {
        lemma_healthy_count_bound(nodes.drop_last());
    }
}

/// A registry with no healthy entry has no quorum, and neither has an
/// empty one.
pub proof fn lemma_quorum_needs_healthy(nodes: Seq<NodeView>)
    ensures
        has_quorum(nodes) ==> has_healthy(nodes),
    decreases nodes.len(),
{
    if nodes.len() > 0 {
        let front = nodes.drop_last();
        lemma_quorum_needs_healthy(front);
        lemma_healthy_count_bound(front);
        if !nodes.last().is_faulty {
            assert(!nodes[nodes.len() - 1].is_faulty);
        } else if has_quorum(nodes) {
            assert(has_quorum(front));
            let i = choose|i: int| 0 <= i < front.len() && !(#[trigger] front[i]).is_faulty;
            assert(!nodes[i].is_faulty);
        }
    }
}

/// Counts the healthy entries.
pub fn count_healthy(registry: &ValidatorRegistry) -> (healthy: usize)
    ensures
        healthy == healthy_count(registry@),
{
    let mut healthy: usize = 0;
    let mut i: usize = 0;
    while i < registry.len()
        invariant
            i <= registry@.len(),
            healthy == healthy_count(registry@.take(i as int)),
            healthy <= i,
        decreases registry@.len() - i,
    {
        assert(registry@.take(i + 1).drop_last() =~= registry@.take(i as int));
        if !registry.node(i).is_faulty {
            healthy += 1;
        }
        i += 1;
    }
    assert(registry@.take(i as int) =~= registry@);
    healthy
}

/// Admits a transaction exactly where the registry has a quorum. The
/// verdict does not depend on the transaction.
pub fn validate(transaction: &str, registry: &ValidatorRegistry) -> (admitted: bool)
    ensures
        admitted == has_quorum(registry@),
{
    let healthy = count_healthy(registry);
    let total = registry.len();
    proof {
        lemma_healthy_count_bound(registry@);
    }
    healthy > total - healthy
}

/// Keeps, in order, the transactions that the quorum check admits: all of
/// them where the registry has a quorum, and none where it has not.
pub fn admitted_transactions(
    pending: &Vec<String>,
    registry: &ValidatorRegistry,
) -> (admitted: Vec<String>)
    ensures
        texts(admitted@) == if has_quorum(registry@) {
            texts(pending@)
        } else {
            Seq::<Seq<char>>::empty()
        },
{
    let mut admitted: Vec<String> = Vec::new();
    let mut i: usize = 0;
    while i < pending.len()
        invariant
            i <= pending@.len(),
            admitted@.len() == if has_quorum(registry@) {
                i as int
            } else {
                0
            },
            forall|j: int| 0 <= j < admitted@.len() ==> (#[trigger] admitted@[j])@ == pending@[j]@,
        decreases pending@.len() - i,
    {
        if validate(pending[i].as_str(), registry) {
            admitted.push(pending[i].clone());
        }
        i += 1;
    }
    proof {
        if has_quorum(registry@) {
            assert(texts(admitted@) =~= texts(pending@));
        } else {
            assert(texts(admitted@) =~= Seq::<Seq<char>>::empty());
        }
    }
    admitted
}

/// The position of the first healthy entry, if there is one.
pub fn first_healthy(registry: &ValidatorRegistry) -> (found: Option<usize>)
    ensures
        found is Some <==> has_healthy(registry@),
        found matches Some(i) ==> is_first_healthy(registry@, i as int),
{
    let mut i: usize = 0;
    while i < registry.len()
        invariant
            i <= registry@.len(),
            forall|j: int| 0 <= j < i ==> (#[trigger] registry@[j]).is_faulty,
        decreases registry@.len() - i,
    {
        if !registry.node(i).is_faulty {
            return Some(i);
        }
        i += 1;
    }
    None
}

/// Names the first healthy participant, or the reserved identity
/// `"System"` where every participant is faulty.
pub fn select_producer(registry: &ValidatorRegistry) -> (name: String)
    ensures
        has_healthy(registry@) ==> exists|i: int| #[trigger]
            is_first_healthy(registry@, i) && name@ == registry@[i].name,
        !has_healthy(registry@) ==> name@ == "System"@,
{
    match first_healthy(registry) {
        Some(i) => {
            let name = registry.node(i).name.clone();
            assert(is_first_healthy(registry@, i as int));
            name
        },
        None => String::from_str("System"),
    }
}

} // verus!

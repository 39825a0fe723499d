//! Proof of authority: the producer is the first approved authority, in
//! registration order.

use crate::registry::{NodeView, ValidatorRegistry};
use crate::strategy::ConsensusError;
use vstd::prelude::*;

verus! {

/// Whether any entry is an approved authority.
pub open spec fn has_authority(nodes: Seq<NodeView>) -> bool {
    exists|i: int| 0 <= i < nodes.len() && (#[trigger] nodes[i]).is_authority
}

/// Entry `i` is an approved authority and no entry before it is.
pub open spec fn is_first_authority(nodes: Seq<NodeView>, i: int) -> bool {
    &&& 0 <= i < nodes.len()
    &&& nodes[i].is_authority
    &&& forall|j: int| 0 <= j < i ==> !(#[trigger] nodes[j]).is_authority
}

/// The position of the first approved authority, if there is one.
pub fn first_authority(registry: &ValidatorRegistry) -> (found: Option<usize>)
    ensures
        found is Some <==> has_authority(registry@),
        found matches Some(i) ==> is_first_authority(registry@, i as int),
{
    let mut i: usize = 0;
    while i < registry.len()
        invariant
            i <= registry@.len(),
            forall|j: int| 0 <= j < i ==> !(#[trigger] registry@[j]).is_authority,
        decreases registry@.len() - i,
    {
        if registry.node(i).is_authority {
            return Some(i);
        }
        i += 1;
    }
    None
}

/// Names the first approved authority. There is none where no entry is
/// one.
pub fn select_producer(registry: &ValidatorRegistry) -> (result: Result<String, ConsensusError>)
    ensures
        result is Ok <==> has_authority(registry@),
        result matches Err(error) ==> error == ConsensusError::NoApprovedAuthority,
        result matches Ok(name) ==> exists|i: int| #[trigger]
            is_first_authority(registry@, i) && name@ == registry@[i].name,
{
    match first_authority(registry) {
        Some(i) => {
            let name = registry.node(i).name.clone();
            assert(is_first_authority(registry@, i as int));
            Ok(name)
        },
        None => Err(ConsensusError::NoApprovedAuthority),
    }
}

} // verus!

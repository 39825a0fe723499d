//! The participants of a run and what each consensus strategy reads of
//! them. Entries are kept in the order of their first registration.

use vstd::prelude::*;
use vstd::string::*;

verus! {

/// A participant as the registry holds it.
#[derive(Debug, PartialEq, Eq)]
pub struct Node {
    /// The identity, unique in a registry.
    pub name: String,
    /// What the participant has staked.
    pub stake: u64,
    /// The stake that voters have delegated to the participant.
    pub votes: u64,
    /// Whether the participant is an approved authority.
    pub is_authority: bool,
    /// Whether the participant is marked faulty.
    pub is_faulty: bool,
}

/// What a registry entry holds, as plain values.
pub struct NodeView {
    pub name: Seq<char>,
    pub stake: u64,
    pub votes: u64,
    pub is_authority: bool,
    pub is_faulty: bool,
}

impl View for Node {
    type V = NodeView;

    open spec fn view(&self) -> NodeView {
        NodeView {
            name: self.name@,
            stake: self.stake,
            votes: self.votes,
            is_authority: self.is_authority,
            is_faulty: self.is_faulty,
        }
    }
}

impl Clone for Node {
    fn clone(&self) -> (copy: Self)
        ensures
            copy@ == self@,
    {
        Node {
            name: self.name.clone(),
            stake: self.stake,
            votes: self.votes,
            is_authority: self.is_authority,
            is_faulty: self.is_faulty,
        }
    }
}

impl Node {
    /// A healthy participant with a stake, no votes and no authority.
    pub fn new(name: &str, stake: u64) -> (node: Node)
        ensures
            node@ == (NodeView {
                name: name@,
                stake,
                votes: 0,
                is_authority: false,
                is_faulty: false,
            }),
    {
        Node {
            name: String::from_str(name),
            stake,
            votes: 0,
            is_authority: false,
            is_faulty: false,
        }
    }

    /// A participant known only by its health: no stake, no votes and no
    /// authority.
    pub fn with_health(name: &str, is_faulty: bool) -> (node: Node)
        ensures
            node@ == (NodeView { name: name@, stake: 0, votes: 0, is_authority: false, is_faulty }),
    {
        Node { name: String::from_str(name), stake: 0, votes: 0, is_authority: false, is_faulty }
    }
}

/// A participant that may produce blocks by authority alone.
#[derive(Debug, PartialEq, Eq)]
pub struct Authority {
    /// The identity.
    pub name: String,
    /// Whether the authority is approved.
    pub approved: bool,
}

impl Authority {
    /// An approved authority.
    pub fn new(name: &str) -> (authority: Authority)
        ensures
            authority.name@ == name@,
            authority.approved,
    {
        Authority { name: String::from_str(name), approved: true }
    }

    /// The registry entry of an authority: healthy, with no stake and no
    /// votes.
    pub open spec fn entry(&self) -> NodeView {
        NodeView {
            name: self.name@,
            stake: 0,
            votes: 0,
            is_authority: self.approved,
            is_faulty: false,
        }
    }

    /// Turns the authority into its registry entry.
    pub fn into_node(self) -> (node: Node)
        ensures
            node@ == self.entry(),
    {
        Node { name: self.name, stake: 0, votes: 0, is_authority: self.approved, is_faulty: false }
    }
}

/// The views of a sequence of entries.
pub open spec fn node_views(nodes: Seq<Node>) -> Seq<NodeView> {
    Seq::new(nodes.len(), |i: int| nodes[i]@)
}

/// Whether an entry of that name is registered.
pub open spec fn has_name(nodes: Seq<NodeView>, name: Seq<char>) -> bool {
    exists|i: int| 0 <= i < nodes.len() && (#[trigger] nodes[i]).name == name
}

/// No two entries share a name.
pub open spec fn names_distinct(nodes: Seq<NodeView>) -> bool {
    forall|i: int, j: int|
        0 <= i < j < nodes.len() ==> (#[trigger] nodes[i]).name != (#[trigger] nodes[j]).name
}

/// The position of the entry of that name, where there is one.
pub open spec fn name_index(nodes: Seq<NodeView>, name: Seq<char>) -> int {
    choose|i: int| 0 <= i < nodes.len() && (#[trigger] nodes[i]).name == name
}

/// The entries after `node` is registered: it takes the place of the entry
/// of its name, or the last place where the name is new.
pub open spec fn upserted(nodes: Seq<NodeView>, node: NodeView) -> Seq<NodeView> {
    if has_name(nodes, node.name) {
        nodes.update(name_index(nodes, node.name), node)
    } else {
        nodes.push(node)
    }
}

/// Where names are distinct, an entry's name is found at its own position.
pub proof fn lemma_name_index_unique(nodes: Seq<NodeView>, i: int)
    requires
        names_distinct(nodes),
        0 <= i < nodes.len(),
    ensures
        has_name(nodes, nodes[i].name),
        name_index(nodes, nodes[i].name) == i,
{
    let found = name_index(nodes, nodes[i].name);
    assert(nodes[found].name == nodes[i].name);
    if found < i {
        assert(nodes[found].name != nodes[i].name);
    } else if i < found {
        assert(nodes[i].name != nodes[found].name);
    }
}

/// Registering keeps names distinct.
pub proof fn lemma_upserted_names_distinct(nodes: Seq<NodeView>, node: NodeView)
    requires
        names_distinct(nodes),
    ensures
        names_distinct(upserted(nodes, node)),
        has_name(upserted(nodes, node), node.name),
{
    let after = upserted(nodes, node);
    if has_name(nodes, node.name) {
        let at = name_index(nodes, node.name);
        assert(nodes[at].name == node.name);
        assert forall|i: int, j: int| 0 <= i < j < after.len() implies (#[trigger] after[i]).name
            != (#[trigger] after[j]).name by {
            assert(after[i].name == nodes[i].name);
            assert(after[j].name == nodes[j].name);
        }
        assert(after[at].name == node.name);
    } else {
        assert forall|i: int, j: int| 0 <= i < j < after.len() implies (#[trigger] after[i]).name
            != (#[trigger] after[j]).name by {
            if j < nodes.len() {
                assert(after[i] == nodes[i]);
                assert(after[j] == nodes[j]);
            } else {
                assert(after[i] == nodes[i]);
                assert(after[j] == node);
            }
        }
        assert(after[nodes.len() as int].name == node.name);
    }
}

/// Registering removes nothing: every name that was registered still is.
pub proof fn lemma_register_keeps_names(nodes: Seq<NodeView>, node: NodeView, name: Seq<char>)
    requires
        has_name(nodes, name),
    ensures
        has_name(upserted(nodes, node), name),
        upserted(nodes, node).len() >= nodes.len(),
{
    let after = upserted(nodes, node);
    let i = choose|i: int| 0 <= i < nodes.len() && (#[trigger] nodes[i]).name == name;
    if has_name(nodes, node.name) {
        let at = name_index(nodes, node.name);
        assert(nodes[at].name == node.name);
        assert(after[i].name == name);
    } else {
        assert(after[i] == nodes[i]);
    }
}

/// Registering the same entry twice is registering it once.
pub proof fn lemma_register_idempotent(nodes: Seq<NodeView>, node: NodeView)
    requires
        names_distinct(nodes),
    ensures
        upserted(upserted(nodes, node), node) == upserted(nodes, node),
{
    let once = upserted(nodes, node);
    lemma_upserted_names_distinct(nodes, node);
    let at = name_index(once, node.name);
    assert(once[at].name == node.name);
    if has_name(nodes, node.name) {
        let first = name_index(nodes, node.name);
        assert(once[first].name == node.name);
        lemma_name_index_unique(once, first);
    } else {
        let last = nodes.len() as int;
        assert(once[last].name == node.name);
        lemma_name_index_unique(once, last);
    }
    assert(once.update(at, node) =~= once);
}

/// The registry: identities with their attributes, in registration order.
pub struct ValidatorRegistry {
    nodes: Vec<Node>,
}

impl View for ValidatorRegistry {
    type V = Seq<NodeView>;

    closed spec fn view(&self) -> Seq<NodeView> {
        node_views(self.nodes@)
    }
}

impl ValidatorRegistry {
    /// A registry is well formed when its names are distinct.
    pub open spec fn wf(&self) -> bool {
        names_distinct(self@)
    }

    /// A registry with no entries.
    pub fn new() -> (registry: ValidatorRegistry)
        ensures
            registry@ == Seq::<NodeView>::empty(),
            registry.wf(),
    {
        let registry = ValidatorRegistry { nodes: Vec::new() };
        assert(registry@ =~= Seq::<NodeView>::empty());
        registry
    }

    /// The number of entries.
    pub fn len(&self) -> (count: usize)
        ensures
            count == self@.len(),
    {
        self.nodes.len()
    }

    /// The entries in registration order, for reading.
    pub fn nodes(&self) -> (nodes: &Vec<Node>)
        ensures
            node_views(nodes@) == self@,
    {
        &self.nodes
    }

    /// The entry at a position.
    pub fn node(&self, position: usize) -> (node: &Node)
        requires
            position < self@.len(),
        ensures
            node@ == self@[position as int],
    {
        &self.nodes[position]
    }

    /// The position of the first entry of that name, if any.
    pub fn position(&self, name: &str) -> (found: Option<usize>)
        ensures
            match found {
                Some(position) => {
                    &&& position < self@.len()
                    &&& self@[position as int].name == name@
                    &&& forall|j: int| 0 <= j < position ==> (#[trigger] self@[j]).name != name@
                },
                None => !has_name(self@, name@),
            },
    {
        let wanted = String::from_str(name);
        let mut i: usize = 0;
        while i < self.nodes.len()
            invariant
                i <= self.nodes.len(),
                wanted@ == name@,
                forall|j: int| 0 <= j < i ==> (#[trigger] self@[j]).name != name@,
            decreases self.nodes.len() - i,
        {
            if self.nodes[i].name == wanted {
                assert(self@[i as int].name == name@);
                return Some(i);
            }
            assert(self@[i as int].name != name@);
            i += 1;
        }
        None
    }

    /// Registers `node`: it replaces the entry of its name, which keeps its
    /// place, or is added last where the name is new.
    pub fn register(&mut self, node: Node)
        requires
            old(self).wf(),
        ensures
            final(self)@ == upserted(old(self)@, node@),
            final(self).wf(),
    {
        proof {
            lemma_upserted_names_distinct(self@, node@);
        }
        match self.position(node.name.as_str()) {
            Some(position) => {
                proof {
                    lemma_name_index_unique(self@, position as int);
                }
                self.nodes.set(position, node);
                assert(self@ =~= old(self)@.update(position as int, node@));
            },
            None => {
                self.nodes.push(node);
                assert(self@ =~= old(self)@.push(node@));
            },
        }
    }

    /// Adds `amount` to the votes of the entry at `position`.
    pub fn credit_votes(&mut self, position: usize, amount: u64)
        requires
            position < old(self)@.len(),
            old(self)@[position as int].votes + amount <= u64::MAX,
        ensures
            final(self)@ == old(self)@.update(
                position as int,
                NodeView {
                    votes: (old(self)@[position as int].votes + amount) as u64,
                    ..old(self)@[position as int]
                },
            ),
            old(self).wf() ==> final(self).wf(),
    {
        let mut node = self.nodes[position].clone();
        node.votes = node.votes + amount;
        self.nodes.set(position, node);
        assert(self@ =~= old(self)@.update(
            position as int,
            NodeView {
                votes: (old(self)@[position as int].votes + amount) as u64,
                ..old(self)@[position as int]
            },
        ));
        assert(old(self).wf() ==> self.wf()) by {
            if old(self).wf() {
                assert forall|i: int, j: int| 0 <= i < j < self@.len() implies (
                #[trigger] self@[i]).name != (#[trigger] self@[j]).name by {
                    assert(self@[i].name == old(self)@[i].name);
                    assert(self@[j].name == old(self)@[j].name);
                }
            }
        }
    }
}

} // verus!

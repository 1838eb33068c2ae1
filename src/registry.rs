use vstd::prelude::*;
use crate::archetype::{NodeArchetype, OutputFlowSocket, OutputValueSocket};
use crate::engine::creates;
use crate::nodes::{sequence_template, Behavior, MathAdd, MathPi, PrintNode, SequenceNode};
use crate::value::NodeId;

verus! {

/// The built-in node types a registry entry can produce.
#[derive(Clone, Copy, Debug, PartialEq, Eq, Structural)]
pub enum NodeKind {
    Pi,
    Add,
    Print,
    Sequence,
}

/// The behavior that a node of type `kind` gets for id `id`.
pub open spec fn make(kind: NodeKind, id: NodeId) -> Behavior {
    match kind {
        NodeKind::Pi => Behavior::Pi(MathPi { node_id: id }),
        NodeKind::Add => Behavior::Add(MathAdd { node_id: id }),
        NodeKind::Print => Behavior::Print(PrintNode { node_id: id }),
        NodeKind::Sequence => Behavior::Sequence(SequenceNode { node_id: id }),
    }
}

/// `r` is the unbound template of a new node `id` of type `kind`.
pub open spec fn builds(kind: NodeKind, id: NodeId, r: NodeArchetype) -> bool {
    match kind {
        NodeKind::Sequence => sequence_template(r, id),
        _ => creates(make(kind, id), Seq::empty(), Seq::empty(), r),
    }
}

/// One registration: a type name and what it builds.
#[derive(Debug)]
pub struct RegistryEntry {
    pub name: String,
    pub kind: NodeKind,
}

/// The kind most recently registered under `name`.
pub open spec fn find(entries: Seq<RegistryEntry>, name: Seq<char>) -> Option<NodeKind>
    decreases entries.len(),
{
    if entries.len() == 0 {
        None
    } else if entries.last().name@ == name {
        Some(entries.last().kind)
    } else {
        find(entries.drop_last(), name)
    }
}

/// Maps node type names to the archetype templates and behaviors of new
/// nodes. Registering a name again replaces the earlier registration. It
/// is an explicit value handed to whoever inserts nodes, not a global.
#[derive(Debug)]
pub struct NodeRegistry {
    pub entries: Vec<RegistryEntry>,
}

impl NodeRegistry {
    pub open spec fn get(&self, name: Seq<char>) -> Option<NodeKind> {
        find(self.entries@, name)
    }

    pub fn new() -> (r: Self)
        ensures
            forall|n: Seq<char>| #[trigger] r.get(n) is None,
    {
        NodeRegistry { entries: Vec::new() }
    }

    pub fn register(&mut self, name: String, kind: NodeKind)
        ensures
            final(self).get(name@) == Some(kind),
            forall|n: Seq<char>| n != name@ ==> #[trigger] final(self).get(n) == old(self).get(n),
    {
        self.entries.push(RegistryEntry { name, kind });
        assert(self.entries@.drop_last() =~= old(self).entries@);
    }

    pub fn lookup(&self, name: &String) -> (r: Option<NodeKind>)
        ensures
            r == self.get(name@),
    {
        let mut i: usize = self.entries.len();
        assert(self.entries@.subrange(0, i as int) =~= self.entries@);
        while i > 0
            invariant
                i <= self.entries@.len(),
                self.get(name@) == find(self.entries@.subrange(0, i as int), name@),
            decreases i,
        {
            assert(self.entries@.subrange(0, i as int).drop_last() =~= self.entries@.subrange(0, i - 1));
            if self.entries[i - 1].name == *name {
                return Some(self.entries[i - 1].kind);
            }
            i = i - 1;
        }
        None
    }

    /// A fresh behavior of the type registered as `name`, for node `node_id`.
    pub fn new_node(&self, name: &String, node_id: NodeId) -> (r: Option<Behavior>)
        ensures
            match self.get(name@) {
                Some(k) => r == Some(make(k, node_id)),
                None => r is None,
            },
    {
        match self.lookup(name) {
            Some(NodeKind::Pi) => Some(MathPi::new_node(node_id)),
            Some(NodeKind::Add) => Some(MathAdd::new_node(node_id)),
            Some(NodeKind::Print) => Some(PrintNode::new_node(node_id)),
            Some(NodeKind::Sequence) => Some(SequenceNode::new_node(node_id)),
            None => None,
        }
    }

    /// The unbound archetype template of the type registered as `name`,
    /// for node `node_id`.
    pub fn build(&self, name: &String, node_id: NodeId) -> (r: Option<NodeArchetype>)
        ensures
            match self.get(name@) {
                Some(k) => r is Some && builds(k, node_id, r->Some_0),
                None => r is None,
            },
    {
        match self.lookup(name) {
            Some(NodeKind::Pi) => Some(MathPi::build(node_id)),
            Some(NodeKind::Add) => Some(MathAdd::build(node_id)),
            Some(NodeKind::Print) => Some(PrintNode::build(node_id)),
            Some(NodeKind::Sequence) => Some(SequenceNode::build(node_id)),
            None => None,
        }
    }
}

/// A node type that can add itself to a registry under its type name.
pub trait RegisterNode {
    spec fn registered_name() -> Seq<char>;

    spec fn registered_kind() -> NodeKind;

    fn register(registry: &mut NodeRegistry)
        ensures
            final(registry).get(Self::registered_name()) == Some(Self::registered_kind()),
            forall|n: Seq<char>| n != Self::registered_name() ==> #[trigger] final(registry).get(n) == old(registry).get(n),
    ;
}

impl RegisterNode for MathPi {
    open spec fn registered_name() -> Seq<char> {
        "math/pi"@
    }

    open spec fn registered_kind() -> NodeKind {
        NodeKind::Pi
    }

    fn register(registry: &mut NodeRegistry) {
        registry.register(Self::name(), NodeKind::Pi);
    }
}

impl RegisterNode for MathAdd {
    open spec fn registered_name() -> Seq<char> {
        "math/add"@
    }

    open spec fn registered_kind() -> NodeKind {
        NodeKind::Add
    }

    fn register(registry: &mut NodeRegistry) {
        registry.register(Self::name(), NodeKind::Add);
    }
}

impl RegisterNode for PrintNode {
    open spec fn registered_name() -> Seq<char> {
        "custom/print"@
    }

    open spec fn registered_kind() -> NodeKind {
        NodeKind::Print
    }

    fn register(registry: &mut NodeRegistry) {
        registry.register(Self::name(), NodeKind::Print);
    }
}

impl RegisterNode for SequenceNode {
    open spec fn registered_name() -> Seq<char> {
        "flow/sequence"@
    }

    open spec fn registered_kind() -> NodeKind {
        NodeKind::Sequence
    }

    fn register(registry: &mut NodeRegistry) {
        registry.register(Self::name(), NodeKind::Sequence);
    }
}

/// A registry holding the four built-in node types.
pub fn builtin_registry() -> (r: NodeRegistry)
    ensures
        r.get("math/pi"@) == Some(NodeKind::Pi),
        r.get("math/add"@) == Some(NodeKind::Add),
        r.get("custom/print"@) == Some(NodeKind::Print),
        r.get("flow/sequence"@) == Some(NodeKind::Sequence),
{
    proof {
        reveal_strlit("math/pi");
        reveal_strlit("math/add");
        reveal_strlit("custom/print");
        reveal_strlit("flow/sequence");
        assert("math/pi"@[5] != "flow/sequence"@[5]);
        assert("math/pi"@[0] != "custom/print"@[0]);
        assert("math/add"@[0] != "flow/sequence"@[0]);
        assert("math/add"@[0] != "custom/print"@[0]);
        assert("math/add"@.len() != "math/pi"@.len());
        assert("flow/sequence"@[0] != "custom/print"@[0]);
    }
    let mut r = NodeRegistry::new();
    MathAdd::register(&mut r);
    MathPi::register(&mut r);
    SequenceNode::register(&mut r);
    PrintNode::register(&mut r);
    r
}

} // verus!

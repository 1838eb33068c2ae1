use vstd::prelude::*;
use crate::archetype::{
    InputFlowSocket, InputValueSocket, NodeArchetype, NodeArchetypes, OutputFlowSocket,
    OutputValueSocket,
};
use crate::cache::{lookup, CacheView, ExistingValues};
use crate::archetype::all_bound;
use crate::value::{EngineError, NodeId, Value, PI_BITS};

verus! {

/// A node that produces the constant pi on its `value` output.
#[derive(Clone, Copy, Debug, PartialEq, Eq, Structural)]
pub struct MathPi {
    pub node_id: NodeId,
}

/// A node that adds its inputs `a` and `b` into its `value` output.
#[derive(Clone, Copy, Debug, PartialEq, Eq, Structural)]
pub struct MathAdd {
    pub node_id: NodeId,
}

/// A sink that, when activated, emits the value on its `print_value` input.
#[derive(Clone, Copy, Debug, PartialEq, Eq, Structural)]
pub struct PrintNode {
    pub node_id: NodeId,
}

/// A control node that forwards activation to each of its flow outputs in
/// declaration order.
#[derive(Clone, Copy, Debug, PartialEq, Eq, Structural)]
pub struct SequenceNode {
    pub node_id: NodeId,
}

/// What an activated sink emitted: the node and the value it read.
#[derive(Clone, Copy, Debug, PartialEq, Eq, Structural)]
pub struct Effect {
    pub node_id: NodeId,
    pub value: Value,
}

/// The behavior of one node instance.
#[derive(Clone, Copy, Debug, PartialEq, Eq, Structural)]
pub enum Behavior {
    Pi(MathPi),
    Add(MathAdd),
    Print(PrintNode),
    Sequence(SequenceNode),
}

/// The producer at position `i` of `srcs`, or unbound past its end.
pub open spec fn slot(srcs: Seq<OutputValueSocket>, i: int) -> Option<OutputValueSocket> {
    if 0 <= i < srcs.len() {
        Some(srcs[i])
    } else {
        None
    }
}

/// The flow output at position `i` of `srcs`, or unbound past its end.
pub open spec fn flow_slot(srcs: Seq<OutputFlowSocket>, i: int) -> Option<OutputFlowSocket> {
    if 0 <= i < srcs.len() {
        Some(srcs[i])
    } else {
        None
    }
}

/// `a` declares exactly one value output, named `value`, owned by `a`.
pub open spec fn single_value_output(a: NodeArchetype) -> bool {
    &&& a.output_value_sockets@.len() == 1
    &&& a.output_value_sockets@[0].name@ == "value"@
    &&& a.output_value_sockets@[0].node_id == a.node_id
}

/// `a` has an input value socket at `i`, named `name`, bound as `src`.
pub open spec fn value_input(a: NodeArchetype, i: int, name: Seq<char>, src: Option<OutputValueSocket>) -> bool {
    &&& 0 <= i < a.input_value_sockets@.len()
    &&& a.input_value_sockets@[i].name@ == name
    &&& a.input_value_sockets@[i].output_value_socket == src
}

/// The shape of a pi node: one value output and nothing else.
pub open spec fn pi_shape(r: NodeArchetype, id: NodeId) -> bool {
    &&& r.node_id == id
    &&& r.name@ == "math/pi"@
    &&& r.input_value_sockets@.len() == 0
    &&& r.input_flow_sockets@.len() == 0
    &&& single_value_output(r)
    &&& r.output_flow_sockets@.len() == 0
}

/// The shape of an add node: inputs `a` and `b` bound as given, one value
/// output.
pub open spec fn add_shape(r: NodeArchetype, id: NodeId, a: Option<OutputValueSocket>, b: Option<OutputValueSocket>) -> bool {
    &&& r.node_id == id
    &&& r.name@ == "math/add"@
    &&& r.input_value_sockets@.len() == 2
    &&& value_input(r, 0, "a"@, a)
    &&& value_input(r, 1, "b"@, b)
    &&& r.input_flow_sockets@.len() == 0
    &&& single_value_output(r)
    &&& r.output_flow_sockets@.len() == 0
}

/// The shape of a print node: one value input and one flow input, bound as
/// given, no outputs.
pub open spec fn print_shape(r: NodeArchetype, id: NodeId, v: Option<OutputValueSocket>, f: Option<OutputFlowSocket>) -> bool {
    &&& r.node_id == id
    &&& r.name@ == "custom/print"@
    &&& r.input_value_sockets@.len() == 1
    &&& value_input(r, 0, "print_value"@, v)
    &&& r.input_flow_sockets@.len() == 1
    &&& r.input_flow_sockets@[0].name@ == "print_input"@
    &&& r.input_flow_sockets@[0].node_id == id
    &&& r.input_flow_sockets@[0].output_flow_socket == f
    &&& r.output_value_sockets@.len() == 0
    &&& r.output_flow_sockets@.len() == 0
}

/// The shape of a sequence node: one flow input bound as given, and the
/// flow outputs `outs`.
pub open spec fn sequence_shape(r: NodeArchetype, id: NodeId, f: Option<OutputFlowSocket>, outs: Seq<OutputFlowSocket>) -> bool {
    &&& r.node_id == id
    &&& r.name@ == "flow/sequence"@
    &&& r.input_value_sockets@.len() == 0
    &&& r.input_flow_sockets@.len() == 1
    &&& r.input_flow_sockets@[0].name@ == "in"@
    &&& r.input_flow_sockets@[0].node_id == id
    &&& r.input_flow_sockets@[0].output_flow_socket == f
    &&& r.output_value_sockets@.len() == 0
    &&& r.output_flow_sockets@ == outs
}

/// The template of a sequence node: its `in` input and one `out` output,
/// both unbound.
pub open spec fn sequence_template(r: NodeArchetype, id: NodeId) -> bool {
    &&& r.output_flow_sockets@.len() == 1
    &&& r.output_flow_sockets@[0].name@ == "out"@
    &&& r.output_flow_sockets@[0].input_flow_socket is None
    &&& sequence_shape(r, id, None, r.output_flow_sockets@)
}

fn bind_value(srcs: &[OutputValueSocket], i: usize) -> (r: Option<OutputValueSocket>)
    ensures
        r == slot(srcs@, i as int),
{
    if i < srcs.len() {
        Some(srcs[i].duplicate())
    } else {
        None
    }
}

fn bind_flow(srcs: &[OutputFlowSocket], i: usize) -> (r: Option<OutputFlowSocket>)
    ensures
        r == flow_slot(srcs@, i as int),
{
    if i < srcs.len() {
        Some(srcs[i].duplicate())
    } else {
        None
    }
}

fn copy_flow_outputs(srcs: &[OutputFlowSocket]) -> (r: Vec<OutputFlowSocket>)
    ensures
        r@ == srcs@,
{
    let mut out: Vec<OutputFlowSocket> = Vec::new();
    let mut i: usize = 0;
    while i < srcs.len()
        invariant
            i <= srcs@.len(),
            out@ == srcs@.take(i as int),
        decreases srcs@.len() - i,
    {
        out.push(srcs[i].duplicate());
        assert(out@ =~= srcs@.take(i + 1));
        i = i + 1;
    }
    assert(srcs@.take(i as int) =~= srcs@);
    out
}

/// The two float operands of an add node, read from the cache, or why
/// they cannot be read.
pub open spec fn add_operands(g: Map<NodeId, NodeArchetype>, c: CacheView, id: NodeId) -> Result<(u32, u32), EngineError> {
    if !g.contains_key(id) {
        Err(EngineError::UnknownNode { node_id: id })
    } else {
        let socks = g[id].input_value_sockets@;
        if socks.len() < 1 || socks[0].output_value_socket is None {
            Err(EngineError::UnboundSocket { node_id: id, socket: 0 })
        } else if socks.len() < 2 || socks[1].output_value_socket is None {
            Err(EngineError::UnboundSocket { node_id: id, socket: 1 })
        } else {
            let sa = socks[0].output_value_socket->Some_0;
            let sb = socks[1].output_value_socket->Some_0;
            match (lookup(c, sa.node_id, sa.name@), lookup(c, sb.node_id, sb.name@)) {
                (Some(Value::Float(x)), Some(Value::Float(y))) => Ok((x, y)),
                (None, _) => Err(EngineError::UnresolvedDependency { node_id: id }),
                (_, None) => Err(EngineError::UnresolvedDependency { node_id: id }),
                _ => Err(EngineError::TypeMismatch { node_id: id }),
            }
        }
    }
}

/// Every input value socket of node `id` is bound and its producer's value
/// is in the cache.
pub open spec fn inputs_resolved(g: Map<NodeId, NodeArchetype>, c: CacheView, id: NodeId) -> bool {
    &&& g.contains_key(id)
    &&& all_bound(g[id].input_value_sockets@)
    &&& forall|i: int| 0 <= i < g[id].input_value_sockets@.len() ==> {
        let src = (#[trigger] g[id].input_value_sockets@[i]).output_value_socket->Some_0;
        lookup(c, src.node_id, src.name@) is Some
    }
}

/// Float addition as the host supplies it gives one result per pair of
/// operands.
pub open spec fn deterministic<F: Fn(u32, u32) -> u32>(f: F) -> bool {
    forall|x: u32, y: u32, s1: u32, s2: u32| f.ensures((x, y), s1) && f.ensures((x, y), s2) ==> s1 == s2
}

/// The bit pattern that the host's float addition gives for `x + y`.
pub open spec fn float_sum<F: Fn(u32, u32) -> u32>(f: F, x: u32, y: u32) -> u32 {
    choose|s: u32| f.ensures((x, y), s)
}

/// What activating a print node does to the effect log `log`, reading the
/// cache `c`.
pub open spec fn print_step(g: Map<NodeId, NodeArchetype>, c: CacheView, id: NodeId, log: Seq<Effect>) -> (Result<(), EngineError>, Seq<Effect>) {
    if !g.contains_key(id) {
        (Err(EngineError::UnknownNode { node_id: id }), log)
    } else if g[id].input_value_sockets@.len() == 0 || g[id].input_value_sockets@[0].output_value_socket is None {
        (Err(EngineError::UnboundSocket { node_id: id, socket: 0 }), log)
    } else {
        let src = g[id].input_value_sockets@[0].output_value_socket->Some_0;
        match lookup(c, src.node_id, src.name@) {
            Some(v) => (Ok(()), log.push(Effect { node_id: id, value: v })),
            None => (Err(EngineError::UnresolvedDependency { node_id: id }), log),
        }
    }
}

impl MathPi {
    pub fn new(node_id: NodeId) -> (r: Self)
        ensures
            r.node_id == node_id,
    {
        Self { node_id }
    }

    /// A fresh behavior of this type for node `node_id`.
    pub fn new_node(node_id: NodeId) -> (r: Behavior)
        ensures
            r == Behavior::Pi(Self { node_id }),
    {
        Behavior::Pi(Self::new(node_id))
    }

    /// The archetype template of a new node `node_id` of this type: its
    /// sockets, none of them bound.
    pub fn build(node_id: NodeId) -> (r: NodeArchetype)
        ensures
            pi_shape(r, node_id),
    {
        Self::new(node_id).create_node_archetype(&[], &[])
    }

    /// The registered type name.
    pub fn name() -> (r: String)
        ensures
            r@ == "math/pi"@,
    {
        "math/pi".to_string()
    }

    pub fn create_node_archetype(&self, _input_value_nodes: &[OutputValueSocket], _input_flow_nodes: &[OutputFlowSocket]) -> (r: NodeArchetype)
        ensures
            pi_shape(r, self.node_id),
    {
        let mut outs: Vec<OutputValueSocket> = Vec::new();
        outs.push(OutputValueSocket::new("value".to_string(), self.node_id));
        NodeArchetype {
            node_id: self.node_id,
            name: Self::name(),
            input_value_sockets: Vec::new(),
            input_flow_sockets: Vec::new(),
            output_value_sockets: outs,
            output_flow_sockets: Vec::new(),
        }
    }

    /// Writes pi under this node's `value` output.
    pub fn value(&self, existing_values: &mut ExistingValues)
        ensures
            final(existing_values)@ == old(existing_values)@.push((self.node_id, "value"@, Value::Float(PI_BITS))),
    {
        existing_values.set_value(self.node_id, "value".to_string(), Value::Float(PI_BITS));
    }
}

impl MathAdd {
    pub fn new(node_id: NodeId) -> (r: Self)
        ensures
            r.node_id == node_id,
    {
        Self { node_id }
    }

    /// A fresh behavior of this type for node `node_id`.
    pub fn new_node(node_id: NodeId) -> (r: Behavior)
        ensures
            r == Behavior::Add(Self { node_id }),
    {
        Behavior::Add(Self::new(node_id))
    }

    /// The archetype template of a new node `node_id` of this type: its
    /// sockets, none of them bound.
    pub fn build(node_id: NodeId) -> (r: NodeArchetype)
        ensures
            add_shape(r, node_id, None, None),
    {
        Self::new(node_id).create_node_archetype(&[], &[])
    }

    /// The registered type name.
    pub fn name() -> (r: String)
        ensures
            r@ == "math/add"@,
    {
        "math/add".to_string()
    }

    pub fn create_node_archetype(&self, input_value_nodes: &[OutputValueSocket], _input_flow_nodes: &[OutputFlowSocket]) -> (r: NodeArchetype)
        ensures
            add_shape(r, self.node_id, slot(input_value_nodes@, 0), slot(input_value_nodes@, 1)),
    {
        let mut ins: Vec<InputValueSocket> = Vec::new();
        ins.push(InputValueSocket { name: "a".to_string(), output_value_socket: bind_value(input_value_nodes, 0) });
        ins.push(InputValueSocket { name: "b".to_string(), output_value_socket: bind_value(input_value_nodes, 1) });
        let mut outs: Vec<OutputValueSocket> = Vec::new();
        outs.push(OutputValueSocket::new("value".to_string(), self.node_id));
        NodeArchetype {
            node_id: self.node_id,
            name: Self::name(),
            input_value_sockets: ins,
            input_flow_sockets: Vec::new(),
            output_value_sockets: outs,
            output_flow_sockets: Vec::new(),
        }
    }

    /// Reads the float values bound to `a` and `b` from the cache and writes
    /// their sum, as computed by `add_float` on the bit patterns, under this
    /// node's `value` output.
    pub fn value<F: Fn(u32, u32) -> u32>(&self, node_archetypes: &NodeArchetypes, existing_values: &mut ExistingValues, add_float: &F) -> (r: Result<(), EngineError>)
        requires
            forall|x: u32, y: u32| add_float.requires((x, y)),
            deterministic(*add_float),
        ensures
            match add_operands(node_archetypes@, old(existing_values)@, self.node_id) {
                Ok((x, y)) => r == Ok::<(), EngineError>(()) && final(existing_values)@ == old(existing_values)@.push(
                    (self.node_id, "value"@, Value::Float(float_sum(*add_float, x, y))),
                ),
                Err(e) => r == Err::<(), EngineError>(e) && final(existing_values)@ == old(existing_values)@,
            },
    {
        let id = self.node_id;
        let archetype = match node_archetypes.0.get(&id) {
            Some(a) => a,
            None => return Err(EngineError::UnknownNode { node_id: id }),
        };
        if archetype.input_value_sockets.len() < 1 {
            return Err(EngineError::UnboundSocket { node_id: id, socket: 0 });
        }
        let sa = match &archetype.input_value_sockets[0].output_value_socket {
            Some(s) => s,
            None => return Err(EngineError::UnboundSocket { node_id: id, socket: 0 }),
        };
        if archetype.input_value_sockets.len() < 2 {
            return Err(EngineError::UnboundSocket { node_id: id, socket: 1 });
        }
        let sb = match &archetype.input_value_sockets[1].output_value_socket {
            Some(s) => s,
            None => return Err(EngineError::UnboundSocket { node_id: id, socket: 1 }),
        };
        let va = existing_values.get_value(sa.node_id, &sa.name);
        let vb = existing_values.get_value(sb.node_id, &sb.name);
        match (va, vb) {
            (Some(Value::Float(x)), Some(Value::Float(y))) => {
                let s = add_float(x, y);
                assert(s == float_sum(*add_float, x, y));
                existing_values.set_value(id, "value".to_string(), Value::Float(s));
                Ok(())
            },
            (None, _) => Err(EngineError::UnresolvedDependency { node_id: id }),
            (_, None) => Err(EngineError::UnresolvedDependency { node_id: id }),
            _ => Err(EngineError::TypeMismatch { node_id: id }),
        }
    }
}

impl PrintNode {
    pub fn new(node_id: NodeId) -> (r: Self)
        ensures
            r.node_id == node_id,
    {
        Self { node_id }
    }

    /// A fresh behavior of this type for node `node_id`.
    pub fn new_node(node_id: NodeId) -> (r: Behavior)
        ensures
            r == Behavior::Print(Self { node_id }),
    {
        Behavior::Print(Self::new(node_id))
    }

    /// The archetype template of a new node `node_id` of this type: its
    /// sockets, none of them bound.
    pub fn build(node_id: NodeId) -> (r: NodeArchetype)
        ensures
            print_shape(r, node_id, None, None),
    {
        Self::new(node_id).create_node_archetype(&[], &[])
    }

    /// The registered type name.
    pub fn name() -> (r: String)
        ensures
            r@ == "custom/print"@,
    {
        "custom/print".to_string()
    }

    pub fn create_node_archetype(&self, input_value_nodes: &[OutputValueSocket], input_flow_nodes: &[OutputFlowSocket]) -> (r: NodeArchetype)
        ensures
            print_shape(r, self.node_id, slot(input_value_nodes@, 0), flow_slot(input_flow_nodes@, 0)),
    {
        let mut ins: Vec<InputValueSocket> = Vec::new();
        ins.push(InputValueSocket { name: "print_value".to_string(), output_value_socket: bind_value(input_value_nodes, 0) });
        let mut flows: Vec<InputFlowSocket> = Vec::new();
        flows.push(InputFlowSocket {
            name: "print_input".to_string(),
            node_id: self.node_id,
            output_flow_socket: bind_flow(input_flow_nodes, 0),
        });
        NodeArchetype {
            node_id: self.node_id,
            name: Self::name(),
            input_value_sockets: ins,
            input_flow_sockets: flows,
            output_value_sockets: Vec::new(),
            output_flow_sockets: Vec::new(),
        }
    }

    /// Emits the value bound to the first input, read from the cache.
    pub fn activate_input_node(&self, node_archetypes: &NodeArchetypes, existing_values: &ExistingValues, effects: &mut Vec<Effect>) -> (r: Result<(), EngineError>)
        ensures
            (r, final(effects)@) == print_step(node_archetypes@, existing_values@, self.node_id, old(effects)@),
    {
        let archetype = match node_archetypes.0.get(&self.node_id) {
            Some(a) => a,
            None => return Err(EngineError::UnknownNode { node_id: self.node_id }),
        };
        if archetype.input_value_sockets.len() == 0 {
            return Err(EngineError::UnboundSocket { node_id: self.node_id, socket: 0 });
        }
        let src = match &archetype.input_value_sockets[0].output_value_socket {
            Some(s) => s,
            None => return Err(EngineError::UnboundSocket { node_id: self.node_id, socket: 0 }),
        };
        match existing_values.get_value(src.node_id, &src.name) {
            Some(v) => {
                effects.push(Effect { node_id: self.node_id, value: v });
                Ok(())
            },
            None => Err(EngineError::UnresolvedDependency { node_id: self.node_id }),
        }
    }
}

impl SequenceNode {
    pub fn new(node_id: NodeId) -> (r: Self)
        ensures
            r.node_id == node_id,
    {
        Self { node_id }
    }

    /// A fresh behavior of this type for node `node_id`.
    pub fn new_node(node_id: NodeId) -> (r: Behavior)
        ensures
            r == Behavior::Sequence(Self { node_id }),
    {
        Behavior::Sequence(Self::new(node_id))
    }

    /// The archetype template of a new sequence node `node_id`: one flow
    /// input and one flow output, `out`, both unbound.
    pub fn build(node_id: NodeId) -> (r: NodeArchetype)
        ensures
            sequence_template(r, node_id),
    {
        let mut flows: Vec<InputFlowSocket> = Vec::new();
        flows.push(InputFlowSocket { name: "in".to_string(), node_id, output_flow_socket: None });
        let mut outs: Vec<OutputFlowSocket> = Vec::new();
        outs.push(OutputFlowSocket { name: "out".to_string(), input_flow_socket: None });
        NodeArchetype {
            node_id,
            name: Self::name(),
            input_value_sockets: Vec::new(),
            input_flow_sockets: flows,
            output_value_sockets: Vec::new(),
            output_flow_sockets: outs,
        }
    }

    /// The registered type name.
    pub fn name() -> (r: String)
        ensures
            r@ == "flow/sequence"@,
    {
        "flow/sequence".to_string()
    }

    /// The flow sources become this node's outputs, in order.
    pub fn create_node_archetype(&self, _input_value_nodes: &[OutputValueSocket], input_flow_nodes: &[OutputFlowSocket]) -> (r: NodeArchetype)
        ensures
            sequence_shape(r, self.node_id, flow_slot(input_flow_nodes@, 0), input_flow_nodes@),
    {
        let mut flows: Vec<InputFlowSocket> = Vec::new();
        flows.push(InputFlowSocket {
            name: "in".to_string(),
            node_id: self.node_id,
            output_flow_socket: bind_flow(input_flow_nodes, 0),
        });
        NodeArchetype {
            node_id: self.node_id,
            name: Self::name(),
            input_value_sockets: Vec::new(),
            input_flow_sockets: flows,
            output_value_sockets: Vec::new(),
            output_flow_sockets: copy_flow_outputs(input_flow_nodes),
        }
    }
}

} // verus!

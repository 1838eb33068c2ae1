use vstd::prelude::*;
use std::collections::HashMap;
use crate::value::{EngineError, NodeId};

verus! {

/// A value output of a node: identity only, the payload lives in the cache.
#[derive(Debug)]
pub struct OutputValueSocket {
    pub name: String,
    pub node_id: NodeId,
}

/// A value input: its name and, once connected, the producing output.
#[derive(Debug)]
pub struct InputValueSocket {
    pub name: String,
    pub output_value_socket: Option<OutputValueSocket>,
}

/// A flow input: at most one incoming flow edge.
#[derive(Debug)]
pub struct InputFlowSocket {
    pub name: String,
    pub node_id: NodeId,
    pub output_flow_socket: Option<OutputFlowSocket>,
}

/// A flow output: once connected, an owned copy of the destination input.
#[derive(Debug)]
pub struct OutputFlowSocket {
    pub name: String,
    pub input_flow_socket: Option<Box<InputFlowSocket>>,
}

/// The structural description of one node instance.
#[derive(Debug)]
pub struct NodeArchetype {
    pub node_id: NodeId,
    pub name: String,
    pub input_value_sockets: Vec<InputValueSocket>,
    pub input_flow_sockets: Vec<InputFlowSocket>,
    pub output_value_sockets: Vec<OutputValueSocket>,
    pub output_flow_sockets: Vec<OutputFlowSocket>,
}

/// All archetypes of a graph, keyed by node.
#[derive(Debug)]
pub struct NodeArchetypes(pub HashMap<NodeId, NodeArchetype>);

impl View for NodeArchetypes {
    type V = Map<NodeId, NodeArchetype>;

    open spec fn view(&self) -> Map<NodeId, NodeArchetype> {
        self.0@
    }
}

impl OutputValueSocket {
    pub fn new(name: String, node_id: NodeId) -> (r: Self)
        ensures
            r.name@ == name@,
            r.node_id == node_id,
    {
        OutputValueSocket { name, node_id }
    }

    pub fn duplicate(&self) -> (r: Self)
        ensures
            r == *self,
    {
        OutputValueSocket { name: self.name.clone(), node_id: self.node_id }
    }
}

impl InputFlowSocket {
    pub fn duplicate(&self) -> (r: Self)
        ensures
            r == *self,
        decreases *self,
    {
        let output_flow_socket = match &self.output_flow_socket {
            None => None,
            Some(o) => Some(o.duplicate()),
        };
        InputFlowSocket { name: self.name.clone(), node_id: self.node_id, output_flow_socket }
    }
}

impl OutputFlowSocket {
    pub fn duplicate(&self) -> (r: Self)
        ensures
            r == *self,
        decreases *self,
    {
        let input_flow_socket = match &self.input_flow_socket {
            None => None,
            Some(i) => Some(Box::new((**i).duplicate())),
        };
        OutputFlowSocket { name: self.name.clone(), input_flow_socket }
    }

    /// The node that activation reaches through this output, if connected.
    pub open spec fn target(&self) -> Option<NodeId> {
        match self.input_flow_socket {
            Some(i) => Some(i.node_id),
            None => None,
        }
    }
}

/// Every input value socket has a producer bound to it.
pub open spec fn all_bound(socks: Seq<InputValueSocket>) -> bool {
    forall|i: int| 0 <= i < socks.len() ==> (#[trigger] socks[i]).output_value_socket is Some
}

/// The producing node of each input value socket, in socket order.
pub open spec fn producers(socks: Seq<InputValueSocket>) -> Seq<NodeId> {
    socks.map_values(|s: InputValueSocket| s.output_value_socket->Some_0.node_id)
}

/// `k` is the position of the first unbound input value socket.
pub open spec fn is_first_unbound(socks: Seq<InputValueSocket>, k: int) -> bool {
    &&& 0 <= k < socks.len()
    &&& socks[k].output_value_socket is None
    &&& forall|j: int| 0 <= j < k ==> (#[trigger] socks[j]).output_value_socket is Some
}

/// What listing a node's dependencies yields: the producers of its input
/// value sockets in order, or the first unbound socket.
pub open spec fn dependencies(a: NodeArchetype) -> Result<Seq<NodeId>, EngineError> {
    let socks = a.input_value_sockets@;
    if all_bound(socks) {
        Ok(producers(socks))
    } else {
        Err(EngineError::UnboundSocket {
            node_id: a.node_id,
            socket: (choose|k: int| is_first_unbound(socks, k)) as usize,
        })
    }
}

/// Of two positions that are both the first unbound socket, they are equal.
pub proof fn lemma_first_unbound_unique(socks: Seq<InputValueSocket>, k1: int, k2: int)
    requires
        is_first_unbound(socks, k1),
        is_first_unbound(socks, k2),
    ensures
        k1 == k2,
{
    if k1 < k2 {
        assert(socks[k1].output_value_socket is Some);
    } else if k2 < k1 {
        assert(socks[k2].output_value_socket is Some);
    }
}

/// Listing dependencies depends on the archetype alone: asked twice of an
/// unchanged graph, it yields the same ordered list (or the same failure).
pub proof fn lemma_dependencies_stable(g1: Map<NodeId, NodeArchetype>, g2: Map<NodeId, NodeArchetype>, id: NodeId)
    requires
        g1.contains_key(id),
        g1 == g2,
    ensures
        dependencies(g1[id]) == dependencies(g2[id]),
{
}

/// Node `id` declares a value output named `name`.
pub open spec fn declares_output(g: Map<NodeId, NodeArchetype>, id: NodeId, name: Seq<char>) -> bool {
    exists|k: int| 0 <= k < g[id].output_value_sockets@.len() && (#[trigger] g[id].output_value_sockets@[k]).name@ == name
}

/// Why connecting `from` to input `socket` of node `to` is refused, if it is.
pub open spec fn value_edge_error(g: Map<NodeId, NodeArchetype>, from: OutputValueSocket, to: NodeId, socket: int) -> Option<EngineError> {
    if !g.contains_key(to) {
        Some(EngineError::UnknownNode { node_id: to })
    } else if !g.contains_key(from.node_id) {
        Some(EngineError::UnknownNode { node_id: from.node_id })
    } else if !declares_output(g, from.node_id, from.name@) {
        Some(EngineError::Unsupported { node_id: from.node_id })
    } else if socket >= g[to].input_value_sockets@.len() {
        Some(EngineError::Unsupported { node_id: to })
    } else {
        None
    }
}

impl NodeArchetypes {
    fn declares(&self, node_id: NodeId, name: &String) -> (r: bool)
        requires
            self@.contains_key(node_id),
        ensures
            r == declares_output(self@, node_id, name@),
    {
        let a = self.0.get(&node_id).unwrap();
        let mut k: usize = 0;
        while k < a.output_value_sockets.len()
            invariant
                *a == self@[node_id],
                k <= a.output_value_sockets@.len(),
                forall|j: int| 0 <= j < k ==> (#[trigger] a.output_value_sockets@[j]).name@ != name@,
            decreases a.output_value_sockets@.len() - k,
        {
            if a.output_value_sockets[k].name == *name {
                return true;
            }
            k = k + 1;
        }
        false
    }

    /// Binds input value socket `to_socket` of node `to_node` to the output
    /// `from`, replacing any earlier binding. Both ends must exist: the
    /// producer must declare that output and the consumer that input.
    pub fn connect_value(&mut self, from: &OutputValueSocket, to_node: NodeId, to_socket: usize) -> (r: Result<(), EngineError>)
        ensures
            match value_edge_error(old(self)@, *from, to_node, to_socket as int) {
                Some(e) => r == Err::<(), EngineError>(e) && final(self)@ == old(self)@,
                None => {
                    let a = old(self)@[to_node];
                    &&& r is Ok
                    &&& final(self)@ == old(self)@.insert(to_node, final(self)@[to_node])
                    &&& final(self)@[to_node].node_id == a.node_id
                    &&& final(self)@[to_node].name == a.name
                    &&& final(self)@[to_node].input_flow_sockets == a.input_flow_sockets
                    &&& final(self)@[to_node].output_value_sockets == a.output_value_sockets
                    &&& final(self)@[to_node].output_flow_sockets == a.output_flow_sockets
                    &&& final(self)@[to_node].input_value_sockets@ == a.input_value_sockets@.update(
                        to_socket as int,
                        InputValueSocket { name: a.input_value_sockets@[to_socket as int].name, output_value_socket: Some(*from) },
                    )
                },
            },
    {
        if !self.0.contains_key(&to_node) {
            return Err(EngineError::UnknownNode { node_id: to_node });
        }
        if !self.0.contains_key(&from.node_id) {
            return Err(EngineError::UnknownNode { node_id: from.node_id });
        }
        if !self.declares(from.node_id, &from.name) {
            return Err(EngineError::Unsupported { node_id: from.node_id });
        }
        let mut a = match self.0.remove(&to_node) {
            Some(a) => a,
            None => return Err(EngineError::UnknownNode { node_id: to_node }),
        };
        if to_socket >= a.input_value_sockets.len() {
            self.0.insert(to_node, a);
            assert(self@ =~= old(self)@);
            return Err(EngineError::Unsupported { node_id: to_node });
        }
        let name = a.input_value_sockets[to_socket].name.clone();
        a.input_value_sockets.set(to_socket, InputValueSocket { name, output_value_socket: Some(from.duplicate()) });
        self.0.insert(to_node, a);
        assert(self@ =~= old(self)@.insert(to_node, self@[to_node]));
        Ok(())
    }
}

/// Why connecting flow output `fs` of node `from` to flow input `ts` of
/// node `to` is refused, if it is.
pub open spec fn flow_edge_error(g: Map<NodeId, NodeArchetype>, from: NodeId, fs: int, to: NodeId, ts: int) -> Option<EngineError> {
    if !g.contains_key(to) {
        Some(EngineError::UnknownNode { node_id: to })
    } else if !g.contains_key(from) {
        Some(EngineError::UnknownNode { node_id: from })
    } else if fs >= g[from].output_flow_sockets@.len() {
        Some(EngineError::Unsupported { node_id: from })
    } else if ts >= g[to].input_flow_sockets@.len() {
        Some(EngineError::Unsupported { node_id: to })
    } else {
        None
    }
}

/// The destination input once bound: it records the source output as it
/// stood before the edge was made.
pub open spec fn bound_input(g: Map<NodeId, NodeArchetype>, from: NodeId, fs: int, to: NodeId, ts: int) -> InputFlowSocket {
    let dest = g[to].input_flow_sockets@[ts];
    InputFlowSocket {
        name: dest.name,
        node_id: dest.node_id,
        output_flow_socket: Some(g[from].output_flow_sockets@[fs]),
    }
}

/// The source output once bound: it owns a copy of the bound destination.
pub open spec fn bound_output(g: Map<NodeId, NodeArchetype>, from: NodeId, fs: int, to: NodeId, ts: int) -> OutputFlowSocket {
    OutputFlowSocket {
        name: g[from].output_flow_sockets@[fs].name,
        input_flow_socket: Some(Box::new(bound_input(g, from, fs, to, ts))),
    }
}

impl NodeArchetypes {
    /// Connects flow output `from_socket` of node `from_node` to flow input
    /// `to_socket` of node `to_node`: the input records the output, and the
    /// output takes its own copy of the destination's descriptor.
    pub fn connect_flow(&mut self, from_node: NodeId, from_socket: usize, to_node: NodeId, to_socket: usize) -> (r: Result<(), EngineError>)
        ensures
            match flow_edge_error(old(self)@, from_node, from_socket as int, to_node, to_socket as int) {
                Some(e) => r == Err::<(), EngineError>(e) && final(self)@ == old(self)@,
                None => {
                    let g = old(self)@;
                    let h = final(self)@;
                    &&& r is Ok
                    &&& h.dom() == g.dom()
                    &&& forall|k: NodeId| k != from_node && k != to_node && #[trigger] g.contains_key(k) ==> h[k] == g[k]
                    &&& h[to_node].input_flow_sockets@ == g[to_node].input_flow_sockets@.update(
                        to_socket as int,
                        bound_input(g, from_node, from_socket as int, to_node, to_socket as int),
                    )
                    &&& h[from_node].output_flow_sockets@ == g[from_node].output_flow_sockets@.update(
                        from_socket as int,
                        bound_output(g, from_node, from_socket as int, to_node, to_socket as int),
                    )
                    &&& h[to_node].node_id == g[to_node].node_id
                    &&& h[to_node].name == g[to_node].name
                    &&& h[to_node].input_value_sockets == g[to_node].input_value_sockets
                    &&& h[to_node].output_value_sockets == g[to_node].output_value_sockets
                    &&& h[from_node].node_id == g[from_node].node_id
                    &&& h[from_node].name == g[from_node].name
                    &&& h[from_node].input_value_sockets == g[from_node].input_value_sockets
                    &&& h[from_node].output_value_sockets == g[from_node].output_value_sockets
                    &&& from_node != to_node ==> h[to_node].output_flow_sockets == g[to_node].output_flow_sockets
                    &&& from_node != to_node ==> h[from_node].input_flow_sockets == g[from_node].input_flow_sockets
                },
            },
    {
        if !self.0.contains_key(&to_node) {
            return Err(EngineError::UnknownNode { node_id: to_node });
        }
        let source = match self.0.get(&from_node) {
            Some(a) => a,
            None => return Err(EngineError::UnknownNode { node_id: from_node }),
        };
        if from_socket >= source.output_flow_sockets.len() {
            return Err(EngineError::Unsupported { node_id: from_node });
        }
        let source_output = source.output_flow_sockets[from_socket].duplicate();
        let mut dest = match self.0.remove(&to_node) {
            Some(a) => a,
            None => return Err(EngineError::UnknownNode { node_id: to_node }),
        };
        if to_socket >= dest.input_flow_sockets.len() {
            self.0.insert(to_node, dest);
            assert(self@ =~= old(self)@);
            return Err(EngineError::Unsupported { node_id: to_node });
        }
        let name = dest.input_flow_sockets[to_socket].name.clone();
        let bound = InputFlowSocket {
            name,
            node_id: dest.input_flow_sockets[to_socket].node_id,
            output_flow_socket: Some(source_output),
        };
        let copy = bound.duplicate();
        dest.input_flow_sockets.set(to_socket, bound);
        self.0.insert(to_node, dest);
        let ghost mid = self@;
        let mut src = match self.0.remove(&from_node) {
            Some(a) => a,
            None => return Err(EngineError::UnknownNode { node_id: from_node }),
        };
        let out_name = src.output_flow_sockets[from_socket].name.clone();
        src.output_flow_sockets.set(from_socket, OutputFlowSocket { name: out_name, input_flow_socket: Some(Box::new(copy)) });
        self.0.insert(from_node, src);
        assert(self@.dom() =~= old(self)@.dom());
        Ok(())
    }
}

impl NodeArchetype {
    /// The producers of this node's input value sockets, in socket order.
    pub fn dependencies(&self) -> (r: Result<Vec<NodeId>, EngineError>)
        ensures
            match r {
                Ok(v) => dependencies(*self) == Ok::<Seq<NodeId>, EngineError>(v@),
                Err(e) => dependencies(*self) == Err::<Seq<NodeId>, EngineError>(e),
            },
    {
        let ghost socks = self.input_value_sockets@;
        let mut out: Vec<NodeId> = Vec::new();
        let mut i: usize = 0;
        while i < self.input_value_sockets.len()
            invariant
                socks == self.input_value_sockets@,
                i <= socks.len(),
                forall|j: int| 0 <= j < i ==> (#[trigger] socks[j]).output_value_socket is Some,
                out@ == producers(socks.take(i as int)),
            decreases socks.len() - i,
        {
            match &self.input_value_sockets[i] {
                InputValueSocket { output_value_socket: Some(o), .. } => {
                    out.push(o.node_id);
                    assert(producers(socks.take(i + 1)) =~= producers(socks.take(i as int)).push(o.node_id));
                },
                InputValueSocket { output_value_socket: None, .. } => {
                    assert(is_first_unbound(socks, i as int));
                    let ghost k = choose|k: int| is_first_unbound(socks, k);
                    proof {
                        lemma_first_unbound_unique(socks, i as int, k);
                    }
                    return Err(EngineError::UnboundSocket { node_id: self.node_id, socket: i });
                },
            }
            i = i + 1;
        }
        assert(socks.take(i as int) =~= socks);
        Ok(out)
    }
}

} // verus!

use vstd::prelude::*;
use std::collections::HashMap;
use crate::archetype::{all_bound, dependencies, producers, NodeArchetype, NodeArchetypes, OutputFlowSocket, OutputValueSocket};
use crate::cache::{lookup, CacheView, ExistingValues};
use crate::nodes::{
    add_operands, add_shape, deterministic, float_sum, flow_slot, inputs_resolved, pi_shape, print_shape, print_step,
    sequence_shape, slot, Behavior, Effect, SequenceNode,
};
use crate::value::{EngineError, NodeId, Value, PI_BITS};

verus! {

/// The live behaviors of a graph, keyed by node. During an activation the
/// active node's behavior is taken out and put back when it returns.
#[derive(Debug)]
pub struct NodeBehaviors(pub HashMap<NodeId, Behavior>);

impl View for NodeBehaviors {
    type V = Map<NodeId, Behavior>;

    open spec fn view(&self) -> Map<NodeId, Behavior> {
        self.0@
    }
}

/// Each behavior is stored under its own node id.
pub open spec fn keyed_by_id(m: Map<NodeId, Behavior>) -> bool {
    forall|k: NodeId| #[trigger] m.contains_key(k) ==> m[k].id() == k
}

impl NodeBehaviors {
    pub open spec fn wf(&self) -> bool {
        keyed_by_id(self@)
    }

    pub fn new() -> (r: Self)
        ensures
            r@ == Map::<NodeId, Behavior>::empty(),
            r.wf(),
    {
        NodeBehaviors(HashMap::new())
    }

    /// Stores `node` under its own id, replacing any earlier behavior there.
    pub fn add(&mut self, node: Behavior)
        requires
            old(self).wf(),
        ensures
            final(self).wf(),
            final(self)@ == old(self)@.insert(node.id(), node),
    {
        let id = node.node_id();
        self.0.insert(id, node);
    }
}

impl Behavior {
    pub open spec fn id(&self) -> NodeId {
        match self {
            Behavior::Pi(n) => n.node_id,
            Behavior::Add(n) => n.node_id,
            Behavior::Print(n) => n.node_id,
            Behavior::Sequence(n) => n.node_id,
        }
    }

    pub fn node_id(&self) -> (r: NodeId)
        ensures
            r == self.id(),
    {
        match self {
            Behavior::Pi(n) => n.node_id,
            Behavior::Add(n) => n.node_id,
            Behavior::Print(n) => n.node_id,
            Behavior::Sequence(n) => n.node_id,
        }
    }

    /// Materializes this node's archetype, bound to the given producers.
    pub fn create_node_archetype(&self, input_value_nodes: &[OutputValueSocket], input_flow_nodes: &[OutputFlowSocket]) -> (r: NodeArchetype)
        ensures
            creates(*self, input_value_nodes@, input_flow_nodes@, r),
    {
        match self {
            Behavior::Pi(n) => n.create_node_archetype(input_value_nodes, input_flow_nodes),
            Behavior::Add(n) => n.create_node_archetype(input_value_nodes, input_flow_nodes),
            Behavior::Print(n) => n.create_node_archetype(input_value_nodes, input_flow_nodes),
            Behavior::Sequence(n) => n.create_node_archetype(input_value_nodes, input_flow_nodes),
        }
    }

    /// The producers this node's value depends on, in socket order.
    pub fn request(&self, node_archetypes: &NodeArchetypes) -> (r: Result<Vec<NodeId>, EngineError>)
        ensures
            !node_archetypes@.contains_key(self.id()) ==> r == Err::<Vec<NodeId>, EngineError>(EngineError::UnknownNode { node_id: self.id() }),
            node_archetypes@.contains_key(self.id()) ==> match r {
                Ok(v) => dependencies(node_archetypes@[self.id()]) == Ok::<Seq<NodeId>, EngineError>(v@),
                Err(e) => dependencies(node_archetypes@[self.id()]) == Err::<Seq<NodeId>, EngineError>(e),
            },
    {
        let id = self.node_id();
        match node_archetypes.0.get(&id) {
            Some(a) => a.dependencies(),
            None => Err(EngineError::UnknownNode { node_id: id }),
        }
    }

    /// Computes this node's outputs into the cache from already resolved
    /// inputs.
    pub fn value<F: Fn(u32, u32) -> u32>(&self, node_archetypes: &NodeArchetypes, existing_values: &mut ExistingValues, add_float: &F) -> (r: Result<(), EngineError>)
        requires
            forall|x: u32, y: u32| add_float.requires((x, y)),
            deterministic(*add_float),
        ensures
            (r, final(existing_values)@) == compute_step(*self, node_archetypes@, old(existing_values)@, *add_float),
    {
        match self {
            Behavior::Pi(n) => {
                n.value(existing_values);
                Ok(())
            },
            Behavior::Add(n) => {
                n.value(node_archetypes, existing_values, add_float)
            },
            Behavior::Print(_) => Ok(()),
            Behavior::Sequence(n) => Err(EngineError::Unsupported { node_id: n.node_id }),
        }
    }
}

/// `r` is the archetype that `b` materializes, bound to the given
/// producers.
pub open spec fn creates(b: Behavior, ivn: Seq<OutputValueSocket>, ifn: Seq<OutputFlowSocket>, r: NodeArchetype) -> bool {
    match b {
        Behavior::Pi(n) => pi_shape(r, n.node_id),
        Behavior::Add(n) => add_shape(r, n.node_id, slot(ivn, 0), slot(ivn, 1)),
        Behavior::Print(n) => print_shape(r, n.node_id, slot(ivn, 0), flow_slot(ifn, 0)),
        Behavior::Sequence(n) => sequence_shape(r, n.node_id, flow_slot(ifn, 0), ifn),
    }
}

/// What computing the value of `b` does to cache `c`.
pub open spec fn compute_step<F: Fn(u32, u32) -> u32>(b: Behavior, g: Map<NodeId, NodeArchetype>, c: CacheView, f: F) -> (Result<(), EngineError>, CacheView) {
    match b {
        Behavior::Pi(n) => (Ok(()), c.push((n.node_id, "value"@, Value::Float(PI_BITS)))),
        Behavior::Add(n) => match add_operands(g, c, n.node_id) {
            Ok((x, y)) => (Ok(()), c.push((n.node_id, "value"@, Value::Float(float_sum(f, x, y))))),
            Err(e) => (Err(e), c),
        },
        Behavior::Print(_) => (Ok(()), c),
        Behavior::Sequence(n) => (Err(EngineError::Unsupported { node_id: n.node_id }), c),
    }
}

impl NodeArchetypes {
    pub fn new() -> (r: Self)
        ensures
            r@ == Map::<NodeId, NodeArchetype>::empty(),
    {
        NodeArchetypes(HashMap::new())
    }

    /// Asks `node` for its archetype bound to the given producers and stores
    /// it under the node's id, replacing any earlier one.
    pub fn add_archetype(&mut self, input_value_nodes: &[OutputValueSocket], input_flow_nodes: &[OutputFlowSocket], node: &Behavior)
        ensures
            final(self)@ == old(self)@.insert(node.id(), final(self)@[node.id()]),
            creates(*node, input_value_nodes@, input_flow_nodes@, final(self)@[node.id()]),
    {
        let archetype = node.create_node_archetype(input_value_nodes, input_flow_nodes);
        self.0.insert(node.node_id(), archetype);
    }
}

/// The error for a node that has no behavior to take. If the graph has an
/// archetype for it, its value cannot be had now: the node is being resolved
/// or activated further up (a cycle), or was never given a behavior; both
/// are reported as an unresolved dependency. Otherwise the node is unknown.
pub open spec fn missing_behavior(g: Map<NodeId, NodeArchetype>, id: NodeId) -> EngineError {
    if g.contains_key(id) {
        EngineError::UnresolvedDependency { node_id: id }
    } else {
        EngineError::UnknownNode { node_id: id }
    }
}

fn missing(node_archetypes: &NodeArchetypes, id: NodeId) -> (r: EngineError)
    ensures
        r == missing_behavior(node_archetypes@, id),
{
    if node_archetypes.0.contains_key(&id) {
        EngineError::UnresolvedDependency { node_id: id }
    } else {
        EngineError::UnknownNode { node_id: id }
    }
}

/// Resolving node `id` against behaviors `b`, from cache `c`: its
/// dependencies first, in socket order, with the node's own behavior taken
/// out of `b` meanwhile, then its own value.
pub open spec fn resolve_spec<F: Fn(u32, u32) -> u32>(
    g: Map<NodeId, NodeArchetype>,
    b: Map<NodeId, Behavior>,
    c: CacheView,
    id: NodeId,
    f: F,
) -> (Result<(), EngineError>, CacheView)
    decreases b.len(), 0nat,
    when b.dom().finite()
{
    if !b.contains_key(id) {
        (Err(missing_behavior(g, id)), c)
    } else if !g.contains_key(id) {
        (Err(EngineError::UnknownNode { node_id: id }), c)
    } else {
        match dependencies(g[id]) {
            Err(e) => (Err(e), c),
            Ok(deps) => {
                let (r, c1) = resolve_all(g, b.remove(id), c, deps, f);
                if r is Err {
                    (r, c1)
                } else {
                    compute_step(b[id], g, c1, f)
                }
            },
        }
    }
}

/// Resolving each of `ids` in order, stopping at the first failure.
pub open spec fn resolve_all<F: Fn(u32, u32) -> u32>(
    g: Map<NodeId, NodeArchetype>,
    b: Map<NodeId, Behavior>,
    c: CacheView,
    ids: Seq<NodeId>,
    f: F,
) -> (Result<(), EngineError>, CacheView)
    decreases b.len(), ids.len() + 1,
    when b.dom().finite()
{
    if ids.len() == 0 {
        (Ok(()), c)
    } else {
        let (r, c1) = resolve_all(g, b, c, ids.drop_last(), f);
        if r is Err {
            (r, c1)
        } else {
            resolve_spec(g, b, c1, ids.last(), f)
        }
    }
}

/// Activating node `id`: its value inputs are resolved (with `b` whole),
/// they must then all be in the cache, and the node's own activation runs
/// with its behavior taken out of `b`. Yields the result, the cache and the
/// effect log.
pub open spec fn flow_spec<F: Fn(u32, u32) -> u32>(
    g: Map<NodeId, NodeArchetype>,
    b: Map<NodeId, Behavior>,
    c: CacheView,
    log: Seq<Effect>,
    id: NodeId,
    f: F,
) -> (Result<(), EngineError>, CacheView, Seq<Effect>)
    decreases b.len(), 0nat,
    when b.dom().finite()
{
    if !b.contains_key(id) {
        (Err(missing_behavior(g, id)), c, log)
    } else if !g.contains_key(id) {
        (Err(EngineError::UnknownNode { node_id: id }), c, log)
    } else {
        match dependencies(g[id]) {
            Err(e) => (Err(e), c, log),
            Ok(deps) => {
                let (r1, c1) = resolve_all(g, b, c, deps, f);
                if r1 is Err {
                    (r1, c1, log)
                } else if !inputs_resolved(g, c1, id) {
                    (Err(EngineError::UnresolvedDependency { node_id: id }), c1, log)
                } else {
                    match b[id] {
                        Behavior::Print(_) => {
                            let (r, l) = print_step(g, c1, id, log);
                            (r, c1, l)
                        },
                        Behavior::Sequence(_) => sequence_spec(g, b.remove(id), c1, log, g[id].output_flow_sockets@, f),
                        _ => (Err(EngineError::Unsupported { node_id: id }), c1, log),
                    }
                }
            },
        }
    }
}

/// Activating the targets of flow outputs `outs` in declaration order,
/// each to completion before the next; unbound outputs are skipped and the
/// first failure stops the walk.
pub open spec fn sequence_spec<F: Fn(u32, u32) -> u32>(
    g: Map<NodeId, NodeArchetype>,
    b: Map<NodeId, Behavior>,
    c: CacheView,
    log: Seq<Effect>,
    outs: Seq<OutputFlowSocket>,
    f: F,
) -> (Result<(), EngineError>, CacheView, Seq<Effect>)
    decreases b.len(), outs.len() + 1,
    when b.dom().finite()
{
    if outs.len() == 0 {
        (Ok(()), c, log)
    } else {
        let (r, c1, l1) = sequence_spec(g, b, c, log, outs.drop_last(), f);
        if r is Err {
            (r, c1, l1)
        } else {
            match outs.last().target() {
                None => (Ok(()), c1, l1),
                Some(t) => flow_spec(g, b, c1, l1, t, f),
            }
        }
    }
}

proof fn lemma_resolve_all_stops<F: Fn(u32, u32) -> u32>(
    g: Map<NodeId, NodeArchetype>,
    b: Map<NodeId, Behavior>,
    c: CacheView,
    ids: Seq<NodeId>,
    k: int,
    f: F,
)
    requires
        b.dom().finite(),
        0 <= k <= ids.len(),
        resolve_all(g, b, c, ids.take(k), f).0 is Err,
    ensures
        resolve_all(g, b, c, ids, f) == resolve_all(g, b, c, ids.take(k), f),
    decreases ids.len(),
{
    if k == ids.len() {
        assert(ids.take(k) =~= ids);
    } else {
        assert(ids.drop_last().take(k) =~= ids.take(k));
        lemma_resolve_all_stops(g, b, c, ids.drop_last(), k, f);
    }
}

proof fn lemma_sequence_stops<F: Fn(u32, u32) -> u32>(
    g: Map<NodeId, NodeArchetype>,
    b: Map<NodeId, Behavior>,
    c: CacheView,
    log: Seq<Effect>,
    outs: Seq<OutputFlowSocket>,
    k: int,
    f: F,
)
    requires
        b.dom().finite(),
        0 <= k <= outs.len(),
        sequence_spec(g, b, c, log, outs.take(k), f).0 is Err,
    ensures
        sequence_spec(g, b, c, log, outs, f) == sequence_spec(g, b, c, log, outs.take(k), f),
    decreases outs.len(),
{
    if k == outs.len() {
        assert(outs.take(k) =~= outs);
    } else {
        assert(outs.drop_last().take(k) =~= outs.take(k));
        lemma_sequence_stops(g, b, c, log, outs.drop_last(), k, f);
    }
}

/// Resolving a node with an unbound input value socket fails with that
/// socket, the first unbound one, and leaves the cache as it was.
pub proof fn lemma_unbound_input_fails_cleanly<F: Fn(u32, u32) -> u32>(
    g: Map<NodeId, NodeArchetype>,
    b: Map<NodeId, Behavior>,
    c: CacheView,
    id: NodeId,
    k: usize,
    f: F,
)
    requires
        b.dom().finite(),
        b.contains_key(id),
        g.contains_key(id),
        crate::archetype::is_first_unbound(g[id].input_value_sockets@, k as int),
    ensures
        resolve_spec(g, b, c, id, f) == (Err::<(), EngineError>(EngineError::UnboundSocket { node_id: g[id].node_id, socket: k }), c),
        resolve_all(g, b, c, seq![id], f) == resolve_spec(g, b, c, id, f),
{
    let socks = g[id].input_value_sockets@;
    assert(!all_bound(socks));
    let j = choose|j: int| crate::archetype::is_first_unbound(socks, j);
    crate::archetype::lemma_first_unbound_unique(socks, j, k as int);
    assert(seq![id].drop_last() =~= Seq::<NodeId>::empty());
    assert(resolve_all(g, b, c, Seq::<NodeId>::empty(), f) == (Ok::<(), EngineError>(()), c));
}

/// Constant folding: an add node whose two inputs are both bound to a pi
/// node's `value` output resolves to the host's sum of pi and pi, after pi
/// was computed once per input.
pub proof fn lemma_constant_folding<F: Fn(u32, u32) -> u32>(
    g: Map<NodeId, NodeArchetype>,
    b: Map<NodeId, Behavior>,
    c: CacheView,
    add: NodeId,
    pi: NodeId,
    f: F,
)
    requires
        b.dom().finite(),
        add != pi,
        b.contains_key(add),
        b[add] == Behavior::Add(crate::nodes::MathAdd { node_id: add }),
        b.contains_key(pi),
        b[pi] == Behavior::Pi(crate::nodes::MathPi { node_id: pi }),
        g.contains_key(add),
        g.contains_key(pi),
        g[pi].input_value_sockets@.len() == 0,
        g[add].input_value_sockets@.len() == 2,
        g[add].input_value_sockets@[0].output_value_socket == g[add].input_value_sockets@[1].output_value_socket,
        g[add].input_value_sockets@[0].output_value_socket is Some,
        g[add].input_value_sockets@[0].output_value_socket->Some_0.node_id == pi,
        g[add].input_value_sockets@[0].output_value_socket->Some_0.name@ == "value"@,
    ensures
        ({
            let c1 = c.push((pi, "value"@, Value::Float(PI_BITS)));
            let c2 = c1.push((pi, "value"@, Value::Float(PI_BITS)));
            resolve_spec(g, b, c, add, f) == (Ok::<(), EngineError>(()), c2.push(
                (add, "value"@, Value::Float(float_sum(f, PI_BITS, PI_BITS))),
            ))
        }),
{
    let socks = g[add].input_value_sockets@;
    let deps = seq![pi, pi];
    assert(producers(socks) =~= deps);
    assert(producers(g[pi].input_value_sockets@) =~= Seq::<NodeId>::empty());
    let b1 = b.remove(add);
    assert(b1.contains_key(pi) && b1[pi] == b[pi]);
    let c1 = c.push((pi, "value"@, Value::Float(PI_BITS)));
    let c2 = c1.push((pi, "value"@, Value::Float(PI_BITS)));
    assert(resolve_all(g, b1.remove(pi), c, Seq::<NodeId>::empty(), f) == (Ok::<(), EngineError>(()), c));
    assert(resolve_spec(g, b1, c, pi, f) == (Ok::<(), EngineError>(()), c1));
    assert(resolve_all(g, b1.remove(pi), c1, Seq::<NodeId>::empty(), f) == (Ok::<(), EngineError>(()), c1));
    assert(resolve_spec(g, b1, c1, pi, f) == (Ok::<(), EngineError>(()), c2));
    assert(deps.drop_last() =~= seq![pi]);
    assert(seq![pi].drop_last() =~= Seq::<NodeId>::empty());
    assert(resolve_all(g, b1, c, Seq::<NodeId>::empty(), f) == (Ok::<(), EngineError>(()), c));
    assert(resolve_all(g, b1, c, seq![pi], f) == (Ok::<(), EngineError>(()), c1));
    assert(resolve_all(g, b1, c, deps, f) == (Ok::<(), EngineError>(()), c2));
    assert(lookup(c2, pi, "value"@) == Some(Value::Float(PI_BITS)));
    assert(add_operands(g, c2, add) == Ok::<(u32, u32), EngineError>((PI_BITS, PI_BITS)));
}

/// An activation of a print node that succeeds appends exactly one effect,
/// its own, and the node's inputs were all in the cache when it ran.
pub proof fn lemma_print_activation<F: Fn(u32, u32) -> u32>(
    g: Map<NodeId, NodeArchetype>,
    b: Map<NodeId, Behavior>,
    c: CacheView,
    log: Seq<Effect>,
    p: NodeId,
    f: F,
)
    requires
        b.dom().finite(),
        b.contains_key(p),
        b[p] is Print,
        flow_spec(g, b, c, log, p, f).0 is Ok,
    ensures
        flow_spec(g, b, c, log, p, f).2.len() == log.len() + 1,
        flow_spec(g, b, c, log, p, f).2.drop_last() == log,
        flow_spec(g, b, c, log, p, f).2.last().node_id == p,
        inputs_resolved(g, flow_spec(g, b, c, log, p, f).1, p),
{
}

/// Flow ordering: a sequence whose two outputs lead to two print nodes, if
/// its activation succeeds, records the first one's effect and then the
/// second one's, and nothing else.
pub proof fn lemma_flow_ordering<F: Fn(u32, u32) -> u32>(
    g: Map<NodeId, NodeArchetype>,
    b: Map<NodeId, Behavior>,
    c: CacheView,
    log: Seq<Effect>,
    outs: Seq<OutputFlowSocket>,
    p1: NodeId,
    p2: NodeId,
    f: F,
)
    requires
        b.dom().finite(),
        outs.len() == 2,
        outs[0].target() == Some(p1),
        outs[1].target() == Some(p2),
        b.contains_key(p1),
        b[p1] is Print,
        b.contains_key(p2),
        b[p2] is Print,
        sequence_spec(g, b, c, log, outs, f).0 is Ok,
    ensures
        ({
            let l = sequence_spec(g, b, c, log, outs, f).2;
            &&& l.len() == log.len() + 2
            &&& l.take(log.len() as int) == log
            &&& l[log.len() as int].node_id == p1
            &&& l[log.len() as int + 1].node_id == p2
        }),
{
    let o1 = outs.drop_last();
    assert(o1.drop_last() =~= Seq::<OutputFlowSocket>::empty());
    assert(o1.last() == outs[0]);
    let s0 = sequence_spec(g, b, c, log, o1.drop_last(), f);
    assert(s0 == (Ok::<(), EngineError>(()), c, log));
    let s1 = sequence_spec(g, b, c, log, o1, f);
    assert(s1 == flow_spec(g, b, c, log, p1, f));
    assert(s1.0 is Ok);
    lemma_print_activation(g, b, c, log, p1, f);
    let s2 = sequence_spec(g, b, c, log, outs, f);
    assert(s2 == flow_spec(g, b, s1.1, s1.2, p2, f));
    lemma_print_activation(g, b, s1.1, s1.2, p2, f);
    assert(s2.2.take(log.len() as int) =~= log);
}

impl ExistingValues {
    /// Whether every input value socket of node `node_id` is bound and its
    /// producer's value is in the cache.
    pub fn inputs_ready(&self, node_archetypes: &NodeArchetypes, node_id: NodeId) -> (r: bool)
        ensures
            r == inputs_resolved(node_archetypes@, self@, node_id),
    {
        let a = match node_archetypes.0.get(&node_id) {
            Some(a) => a,
            None => return false,
        };
        let mut i: usize = 0;
        while i < a.input_value_sockets.len()
            invariant
                node_archetypes@.contains_key(node_id),
                *a == node_archetypes@[node_id],
                i <= a.input_value_sockets@.len(),
                forall|j: int| 0 <= j < i ==> {
                    let s = #[trigger] a.input_value_sockets@[j];
                    s.output_value_socket is Some && lookup(
                        self@,
                        s.output_value_socket->Some_0.node_id,
                        s.output_value_socket->Some_0.name@,
                    ) is Some
                },
            decreases a.input_value_sockets@.len() - i,
        {
            match &a.input_value_sockets[i].output_value_socket {
                Some(src) => {
                    if self.get_value(src.node_id, &src.name).is_none() {
                        return false;
                    }
                },
                None => return false,
            }
            i = i + 1;
        }
        true
    }

    /// Resolves one node: its dependencies first, depth first and in
    /// socket order, then its own value. The node's behavior is taken out
    /// while its dependencies resolve, so a cycle fails instead of looping.
    pub fn resolve<F: Fn(u32, u32) -> u32>(&mut self, node_id: NodeId, node_archetypes: &NodeArchetypes, node_behaviors: &mut NodeBehaviors, add_float: &F) -> (r: Result<(), EngineError>)
        requires
            forall|x: u32, y: u32| add_float.requires((x, y)),
            deterministic(*add_float),
            old(node_behaviors).wf(),
        ensures
            final(node_behaviors)@ == old(node_behaviors)@,
            (r, final(self)@) == resolve_spec(node_archetypes@, old(node_behaviors)@, old(self)@, node_id, *add_float),
        decreases old(node_behaviors)@.len(),
    {
        let behavior = match node_behaviors.0.remove(&node_id) {
            Some(b) => b,
            None => return Err(missing(node_archetypes, node_id)),
        };
        let ghost detached = node_behaviors@;
        let deps = match behavior.request(node_archetypes) {
            Ok(d) => d,
            Err(e) => {
                node_behaviors.0.insert(node_id, behavior);
                assert(node_behaviors@ =~= old(node_behaviors)@);
                return Err(e);
            },
        };
        assert(deps@.take(0) =~= Seq::<NodeId>::empty());
        let mut i: usize = 0;
        while i < deps.len()
            invariant
                forall|x: u32, y: u32| add_float.requires((x, y)),
                deterministic(*add_float),
                node_behaviors@ == detached,
                keyed_by_id(old(node_behaviors)@),
                detached == old(node_behaviors)@.remove(node_id),
                old(node_behaviors)@.contains_key(node_id),
                old(node_behaviors)@[node_id] == behavior,
                node_archetypes@.contains_key(node_id),
                dependencies(node_archetypes@[node_id]) == Ok::<Seq<NodeId>, EngineError>(deps@),
                i <= deps@.len(),
                detached.dom().finite(),
                (Ok::<(), EngineError>(()), self@) == resolve_all(node_archetypes@, detached, old(self)@, deps@.take(i as int), *add_float),
            decreases deps@.len() - i,
        {
            let ghost before = self@;
            let r = self.resolve(deps[i], node_archetypes, node_behaviors, add_float);
            assert(deps@.take(i + 1).drop_last() =~= deps@.take(i as int));
            if r.is_err() {
                node_behaviors.0.insert(node_id, behavior);
                assert(node_behaviors@ =~= old(node_behaviors)@);
                proof {
                    lemma_resolve_all_stops(node_archetypes@, detached, old(self)@, deps@, i + 1, *add_float);
                }
                return r;
            }
            i = i + 1;
        }
        assert(deps@.take(i as int) =~= deps@);
        let r = behavior.value(node_archetypes, self, add_float);
        node_behaviors.0.insert(node_id, behavior);
        assert(node_behaviors@ =~= old(node_behaviors)@);
        r
    }

    /// Resolves each requested node in order, stopping at the first failure.
    pub fn run<F: Fn(u32, u32) -> u32>(&mut self, request: &Vec<NodeId>, node_archetypes: &NodeArchetypes, node_behaviors: &mut NodeBehaviors, add_float: &F) -> (r: Result<(), EngineError>)
        requires
            forall|x: u32, y: u32| add_float.requires((x, y)),
            deterministic(*add_float),
            old(node_behaviors).wf(),
        ensures
            final(node_behaviors)@ == old(node_behaviors)@,
            (r, final(self)@) == resolve_all(node_archetypes@, old(node_behaviors)@, old(self)@, request@, *add_float),
    {
        assert(request@.take(0) =~= Seq::<NodeId>::empty());
        let mut i: usize = 0;
        while i < request.len()
            invariant
                forall|x: u32, y: u32| add_float.requires((x, y)),
                deterministic(*add_float),
                node_behaviors@ == old(node_behaviors)@,
                keyed_by_id(old(node_behaviors)@),
                old(node_behaviors)@.dom().finite(),
                i <= request@.len(),
                (Ok::<(), EngineError>(()), self@) == resolve_all(node_archetypes@, old(node_behaviors)@, old(self)@, request@.take(i as int), *add_float),
            decreases request@.len() - i,
        {
            let r = self.resolve(request[i], node_archetypes, node_behaviors, add_float);
            assert(request@.take(i + 1).drop_last() =~= request@.take(i as int));
            if r.is_err() {
                proof {
                    lemma_resolve_all_stops(node_archetypes@, old(node_behaviors)@, old(self)@, request@, i + 1, *add_float);
                }
                return r;
            }
            i = i + 1;
        }
        assert(request@.take(i as int) =~= request@);
        Ok(())
    }

    /// Activates node `request`: first resolves the producers of its value
    /// inputs, then takes its behavior out of `node_behaviors`, runs its
    /// activation with the rest of the collection still usable for its
    /// flow successors, and puts the behavior back.
    pub fn flow<F: Fn(u32, u32) -> u32>(
        &mut self,
        request: NodeId,
        node_archetypes: &NodeArchetypes,
        node_behaviors: &mut NodeBehaviors,
        effects: &mut Vec<Effect>,
        add_float: &F,
    ) -> (r: Result<(), EngineError>)
        requires
            forall|x: u32, y: u32| add_float.requires((x, y)),
            deterministic(*add_float),
            old(node_behaviors).wf(),
        ensures
            final(node_behaviors)@ == old(node_behaviors)@,
            (r, final(self)@, final(effects)@) == flow_spec(
                node_archetypes@,
                old(node_behaviors)@,
                old(self)@,
                old(effects)@,
                request,
                *add_float,
            ),
        decreases old(node_behaviors)@.len(), 0nat,
    {
        let deps = match node_behaviors.0.get(&request) {
            Some(b) => b.request(node_archetypes),
            None => return Err(missing(node_archetypes, request)),
        };
        let deps = match deps {
            Ok(d) => d,
            Err(e) => return Err(e),
        };
        assert(deps@.take(0) =~= Seq::<NodeId>::empty());
        let mut i: usize = 0;
        while i < deps.len()
            invariant
                forall|x: u32, y: u32| add_float.requires((x, y)),
                deterministic(*add_float),
                node_behaviors@ == old(node_behaviors)@,
                keyed_by_id(old(node_behaviors)@),
                old(node_behaviors)@.dom().finite(),
                old(node_behaviors)@.contains_key(request),
                node_archetypes@.contains_key(request),
                dependencies(node_archetypes@[request]) == Ok::<Seq<NodeId>, EngineError>(deps@),
                i <= deps@.len(),
                effects@ == old(effects)@,
                (Ok::<(), EngineError>(()), self@) == resolve_all(node_archetypes@, old(node_behaviors)@, old(self)@, deps@.take(i as int), *add_float),
            decreases deps@.len() - i,
        {
            let r = self.resolve(deps[i], node_archetypes, node_behaviors, add_float);
            assert(deps@.take(i + 1).drop_last() =~= deps@.take(i as int));
            if r.is_err() {
                proof {
                    lemma_resolve_all_stops(node_archetypes@, old(node_behaviors)@, old(self)@, deps@, i + 1, *add_float);
                }
                return r;
            }
            i = i + 1;
        }
        assert(deps@.take(i as int) =~= deps@);
        if !self.inputs_ready(node_archetypes, request) {
            return Err(EngineError::UnresolvedDependency { node_id: request });
        }
        let behavior = match node_behaviors.0.remove(&request) {
            Some(b) => b,
            None => return Err(missing(node_archetypes, request)),
        };
        let r = match behavior {
            Behavior::Print(n) => n.activate_input_node(node_archetypes, self, effects),
            Behavior::Sequence(n) => n.activate_input_node(node_archetypes, self, node_behaviors, effects, add_float),
            _ => Err(EngineError::Unsupported { node_id: request }),
        };
        node_behaviors.0.insert(request, behavior);
        assert(node_behaviors@ =~= old(node_behaviors)@);
        r
    }
}

impl SequenceNode {
    /// Activates the target of each connected flow output, in declaration
    /// order, each to completion before the next.
    pub fn activate_input_node<F: Fn(u32, u32) -> u32>(
        &self,
        node_archetypes: &NodeArchetypes,
        existing_values: &mut ExistingValues,
        node_behaviors: &mut NodeBehaviors,
        effects: &mut Vec<Effect>,
        add_float: &F,
    ) -> (r: Result<(), EngineError>)
        requires
            forall|x: u32, y: u32| add_float.requires((x, y)),
            deterministic(*add_float),
            old(node_behaviors).wf(),
        ensures
            final(node_behaviors)@ == old(node_behaviors)@,
            !node_archetypes@.contains_key(self.node_id) ==> r == Err::<(), EngineError>(EngineError::UnknownNode { node_id: self.node_id })
                && final(existing_values)@ == old(existing_values)@ && final(effects)@ == old(effects)@,
            node_archetypes@.contains_key(self.node_id) ==> (r, final(existing_values)@, final(effects)@) == sequence_spec(
                node_archetypes@,
                old(node_behaviors)@,
                old(existing_values)@,
                old(effects)@,
                node_archetypes@[self.node_id].output_flow_sockets@,
                *add_float,
            ),
        decreases old(node_behaviors)@.len(), 1nat,
    {
        let archetype = match node_archetypes.0.get(&self.node_id) {
            Some(a) => a,
            None => return Err(EngineError::UnknownNode { node_id: self.node_id }),
        };
        let ghost outs = archetype.output_flow_sockets@;
        let ghost b = old(node_behaviors)@;
        assert(outs.take(0) =~= Seq::<OutputFlowSocket>::empty());
        let mut i: usize = 0;
        while i < archetype.output_flow_sockets.len()
            invariant
                forall|x: u32, y: u32| add_float.requires((x, y)),
                deterministic(*add_float),
                node_behaviors@ == b,
                b == old(node_behaviors)@,
                b.dom().finite(),
                keyed_by_id(b),
                node_archetypes@.contains_key(self.node_id),
                *archetype == node_archetypes@[self.node_id],
                outs == archetype.output_flow_sockets@,
                i <= outs.len(),
                (Ok::<(), EngineError>(()), existing_values@, effects@) == sequence_spec(
                    node_archetypes@,
                    b,
                    old(existing_values)@,
                    old(effects)@,
                    outs.take(i as int),
                    *add_float,
                ),
            decreases outs.len() - i,
        {
            assert(outs.take(i + 1).drop_last() =~= outs.take(i as int));
            assert(outs.take(i + 1).last() == outs[i as int]);
            let ghost c0 = existing_values@;
            let ghost l0 = effects@;
            match &archetype.output_flow_sockets[i].input_flow_socket {
                Some(target) => {
                    let r = existing_values.flow(target.node_id, node_archetypes, node_behaviors, effects, add_float);
                    if r.is_err() {
                        proof {
                            lemma_sequence_stops(node_archetypes@, b, old(existing_values)@, old(effects)@, outs, i + 1, *add_float);
                        }
                        return r;
                    }
                    assert(r->Ok_0 == ());
                },
                None => {
                    assert(sequence_spec(node_archetypes@, b, old(existing_values)@, old(effects)@, outs.take(i + 1), *add_float)
                        == (Ok::<(), EngineError>(()), c0, l0));
                },
            }
            i = i + 1;
        }
        assert(outs.take(i as int) =~= outs);
        Ok(())
    }
}

} // verus!

use vstd::prelude::*;

verus! {

/// Identity of a node instance inside one graph.
pub type NodeId = u32;

/// Bit pattern of the 32-bit float closest to pi.
pub const PI_BITS: u32 = 0x4049_0fdb;

/// A scalar carried on a value socket. A float is held as its IEEE-754
/// bit pattern; arithmetic on it is supplied by the host.
#[derive(Clone, Copy, Debug, PartialEq, Eq, Structural)]
pub enum Value {
    Float(u32),
    Bool(bool),
    Int(i32),
}

/// The tag of a [`Value`].
#[derive(Clone, Copy, Debug, PartialEq, Eq, Structural)]
pub enum ValueType {
    Float,
    Bool,
    Int,
}

pub open spec fn type_of(v: Value) -> ValueType {
    match v {
        Value::Float(_) => ValueType::Float,
        Value::Bool(_) => ValueType::Bool,
        Value::Int(_) => ValueType::Int,
    }
}

impl Value {
    pub fn value_type(&self) -> (r: ValueType)
        ensures
            r == type_of(*self),
    {
        match self {
            Value::Float(_) => ValueType::Float,
            Value::Bool(_) => ValueType::Bool,
            Value::Int(_) => ValueType::Int,
        }
    }
}

/// Why a resolution or an activation stopped. Each variant names the node
/// at fault.
#[derive(Clone, Copy, Debug, PartialEq, Eq, Structural)]
pub enum EngineError {
    /// An input value socket (by position) has no producer bound to it.
    UnboundSocket { node_id: NodeId, socket: usize },
    /// A value was needed before it was computed, or a node was requested
    /// while it is itself being resolved or activated (a cycle).
    UnresolvedDependency { node_id: NodeId },
    /// A computation met a value of another tag than it works on.
    TypeMismatch { node_id: NodeId },
    /// The node has no archetype or no behavior in the current graph.
    UnknownNode { node_id: NodeId },
    /// The node's type cannot do what was asked of it.
    Unsupported { node_id: NodeId },
}

} // verus!

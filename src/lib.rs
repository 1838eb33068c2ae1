//! A small dataflow engine for node-based visual scripts: value sockets are
//! pulled lazily through a per-run cache, flow sockets push activation in
//! declaration order.
pub mod value;
pub mod cache;
pub mod archetype;
pub mod nodes;
pub mod engine;
pub mod registry;

pub use archetype::{
    InputFlowSocket, InputValueSocket, NodeArchetype, NodeArchetypes, OutputFlowSocket,
    OutputValueSocket,
};
pub use cache::{CacheEntry, ExistingValues};
pub use engine::NodeBehaviors;
pub use nodes::{Behavior, Effect, MathAdd, MathPi, PrintNode, SequenceNode};
pub use registry::{builtin_registry, NodeKind, NodeRegistry, RegisterNode};
pub use value::{EngineError, NodeId, Value, ValueType, PI_BITS};

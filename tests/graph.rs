use interactivity::{
    builtin_registry, Behavior, Effect, EngineError, ExistingValues, InputFlowSocket, MathAdd, MathPi,
    NodeArchetypes, NodeBehaviors, NodeKind, NodeRegistry, OutputFlowSocket, OutputValueSocket, PrintNode,
    RegisterNode, SequenceNode, Value, ValueType,
};

fn add_f32(a: u32, b: u32) -> u32 {
    (f32::from_bits(a) + f32::from_bits(b)).to_bits()
}

fn as_f32(v: Value) -> f32 {
    match v {
        Value::Float(bits) => f32::from_bits(bits),
        other => panic!("not a float: {:?}", other),
    }
}

fn output(name: &str, node_id: u32) -> OutputValueSocket {
    OutputValueSocket { name: name.to_string(), node_id }
}

fn flow_to(name: &str, node_id: u32) -> OutputFlowSocket {
    OutputFlowSocket {
        name: name.to_string(),
        input_flow_socket: Some(Box::new(InputFlowSocket {
            name: "print_input".to_string(),
            node_id,
            output_flow_socket: None,
        })),
    }
}

/// pi (0) -> add (1) <- pi, add -> print (2).
fn pi_add_print() -> (NodeArchetypes, NodeBehaviors) {
    let mut archetypes = NodeArchetypes::new();
    let mut node_behaviors = NodeBehaviors::new();
    let pi = Behavior::Pi(MathPi::new(0));
    let add = Behavior::Add(MathAdd::new(1));
    let print = Behavior::Print(PrintNode::new(2));
    archetypes.add_archetype(&[], &[], &pi);
    archetypes.add_archetype(&[output("value", 0), output("value", 0)], &[], &add);
    archetypes.add_archetype(&[output("value", 1)], &[], &print);
    node_behaviors.add(pi);
    node_behaviors.add(add);
    node_behaviors.add(print);
    (archetypes, node_behaviors)
}

#[test]
fn test() {
    let mut existing_values = ExistingValues::new();
    let (archetypes, mut node_behaviors) = pi_add_print();
    let r = existing_values.run(&vec![1], &archetypes, &mut node_behaviors, &add_f32);
    assert_eq!(r, Ok(()));
    let v = existing_values.get_value(1, &"value".to_string()).unwrap();
    assert!((as_f32(v) - 2.0 * std::f32::consts::PI).abs() < 1e-6);
    assert_eq!(v.value_type(), ValueType::Float);
}

#[test]
fn test2() {
    let mut existing_values = ExistingValues::new();
    let (archetypes, mut node_behaviors) = pi_add_print();
    let mut effects: Vec<Effect> = Vec::new();
    let r = existing_values.flow(2, &archetypes, &mut node_behaviors, &mut effects, &add_f32);
    assert_eq!(r, Ok(()));
    assert_eq!(effects.len(), 1);
    assert_eq!(effects[0].node_id, 2);
    assert!((as_f32(effects[0].value) - 2.0 * std::f32::consts::PI).abs() < 1e-6);
}

fn sequence_graph(first: u32, second: u32) -> (NodeArchetypes, NodeBehaviors) {
    let (mut archetypes, mut node_behaviors) = pi_add_print();
    let print2 = Behavior::Print(PrintNode::new(3));
    let seq = Behavior::Sequence(SequenceNode::new(4));
    archetypes.add_archetype(&[output("value", 0)], &[], &print2);
    archetypes.add_archetype(&[], &[flow_to("first", first), flow_to("second", second)], &seq);
    node_behaviors.add(print2);
    node_behaviors.add(seq);
    (archetypes, node_behaviors)
}

#[test]
fn test3() {
    let mut existing_values = ExistingValues::new();
    let (archetypes, mut node_behaviors) = sequence_graph(2, 3);
    let mut effects: Vec<Effect> = Vec::new();
    let r = existing_values.flow(4, &archetypes, &mut node_behaviors, &mut effects, &add_f32);
    assert_eq!(r, Ok(()));
    assert_eq!(effects.len(), 2);
    assert_eq!(effects[0].node_id, 2);
    assert!((as_f32(effects[0].value) - 2.0 * std::f32::consts::PI).abs() < 1e-6);
    assert_eq!(effects[1].node_id, 3);
    assert_eq!(effects[1].value, Value::Float(std::f32::consts::PI.to_bits()));
}

#[test]
fn sequence_order_follows_outputs() {
    let mut existing_values = ExistingValues::new();
    let (archetypes, mut node_behaviors) = sequence_graph(3, 2);
    let mut effects: Vec<Effect> = Vec::new();
    let r = existing_values.flow(4, &archetypes, &mut node_behaviors, &mut effects, &add_f32);
    assert_eq!(r, Ok(()));
    let order: Vec<u32> = effects.iter().map(|e| e.node_id).collect();
    assert_eq!(order, vec![3, 2]);
}

#[test]
fn pi_bits_are_pi() {
    assert_eq!(f32::from_bits(interactivity::PI_BITS), std::f32::consts::PI);
}

#[test]
fn dependencies_are_stable() {
    let (archetypes, _) = pi_add_print();
    let add = Behavior::Add(MathAdd::new(1));
    let first = add.request(&archetypes);
    let second = add.request(&archetypes);
    assert_eq!(first, Ok(vec![0, 0]));
    assert_eq!(first, second);
    let pi = Behavior::Pi(MathPi::new(0));
    assert_eq!(pi.request(&archetypes), Ok(vec![]));
}

#[test]
fn unknown_node_request() {
    let (archetypes, _) = pi_add_print();
    let other = Behavior::Pi(MathPi::new(9));
    assert_eq!(other.request(&archetypes), Err(EngineError::UnknownNode { node_id: 9 }));
}

#[test]
fn unbound_input_fails_cleanly() {
    let mut archetypes = NodeArchetypes::new();
    let mut node_behaviors = NodeBehaviors::new();
    let pi = Behavior::Pi(MathPi::new(0));
    let add = Behavior::Add(MathAdd::new(1));
    archetypes.add_archetype(&[], &[], &pi);
    archetypes.add_archetype(&[output("value", 0)], &[], &add);
    node_behaviors.add(pi);
    node_behaviors.add(add);
    let mut existing_values = ExistingValues::new();
    existing_values.set_value(7, "value".to_string(), Value::Int(3));
    let r = existing_values.run(&vec![1], &archetypes, &mut node_behaviors, &add_f32);
    assert_eq!(r, Err(EngineError::UnboundSocket { node_id: 1, socket: 1 }));
    assert_eq!(existing_values.entries.len(), 1);
    assert_eq!(existing_values.get_value(7, &"value".to_string()), Some(Value::Int(3)));
    assert_eq!(existing_values.get_value(0, &"value".to_string()), None);
    assert_eq!(node_behaviors.0.len(), 2);
}

#[test]
fn activation_twice_gives_same_result() {
    let mut existing_values = ExistingValues::new();
    let (archetypes, mut node_behaviors) = sequence_graph(2, 3);
    let mut effects: Vec<Effect> = Vec::new();
    assert_eq!(existing_values.flow(4, &archetypes, &mut node_behaviors, &mut effects, &add_f32), Ok(()));
    assert_eq!(node_behaviors.0.len(), 5);
    assert_eq!(node_behaviors.0.get(&4), Some(&Behavior::Sequence(SequenceNode::new(4))));
    let mut again: Vec<Effect> = Vec::new();
    assert_eq!(existing_values.flow(4, &archetypes, &mut node_behaviors, &mut again, &add_f32), Ok(()));
    assert_eq!(effects, again);
}

#[test]
fn value_cycle_is_reported() {
    let mut archetypes = NodeArchetypes::new();
    let mut node_behaviors = NodeBehaviors::new();
    let a = Behavior::Add(MathAdd::new(1));
    let b = Behavior::Add(MathAdd::new(2));
    archetypes.add_archetype(&[output("value", 2), output("value", 2)], &[], &a);
    archetypes.add_archetype(&[output("value", 1), output("value", 1)], &[], &b);
    node_behaviors.add(a);
    node_behaviors.add(b);
    let mut existing_values = ExistingValues::new();
    let r = existing_values.run(&vec![1], &archetypes, &mut node_behaviors, &add_f32);
    assert_eq!(r, Err(EngineError::UnresolvedDependency { node_id: 1 }));
    assert_eq!(node_behaviors.0.len(), 2);
}

#[test]
fn flow_cycle_is_reported() {
    let mut archetypes = NodeArchetypes::new();
    let mut node_behaviors = NodeBehaviors::new();
    let seq = Behavior::Sequence(SequenceNode::new(4));
    archetypes.add_archetype(&[], &[flow_to("loop", 4)], &seq);
    node_behaviors.add(seq);
    let mut existing_values = ExistingValues::new();
    let mut effects: Vec<Effect> = Vec::new();
    let r = existing_values.flow(4, &archetypes, &mut node_behaviors, &mut effects, &add_f32);
    assert_eq!(r, Err(EngineError::UnresolvedDependency { node_id: 4 }));
    assert_eq!(node_behaviors.0.len(), 1);
}

#[test]
fn unknown_node_flow() {
    let (archetypes, mut node_behaviors) = pi_add_print();
    let mut existing_values = ExistingValues::new();
    let mut effects: Vec<Effect> = Vec::new();
    let r = existing_values.flow(8, &archetypes, &mut node_behaviors, &mut effects, &add_f32);
    assert_eq!(r, Err(EngineError::UnknownNode { node_id: 8 }));
}

#[test]
fn value_node_cannot_be_activated() {
    let (archetypes, mut node_behaviors) = pi_add_print();
    let mut existing_values = ExistingValues::new();
    let mut effects: Vec<Effect> = Vec::new();
    let r = existing_values.flow(0, &archetypes, &mut node_behaviors, &mut effects, &add_f32);
    assert_eq!(r, Err(EngineError::Unsupported { node_id: 0 }));
    assert!(effects.is_empty());
}

#[test]
fn sequence_has_no_value() {
    let (mut archetypes, mut node_behaviors) = pi_add_print();
    let seq = Behavior::Sequence(SequenceNode::new(4));
    archetypes.add_archetype(&[], &[], &seq);
    node_behaviors.add(seq);
    let mut existing_values = ExistingValues::new();
    let r = existing_values.run(&vec![4], &archetypes, &mut node_behaviors, &add_f32);
    assert_eq!(r, Err(EngineError::Unsupported { node_id: 4 }));
}

#[test]
fn add_rejects_non_float() {
    let mut archetypes = NodeArchetypes::new();
    let add = MathAdd::new(1);
    archetypes.add_archetype(&[output("value", 5), output("value", 6)], &[], &Behavior::Add(add));
    let mut existing_values = ExistingValues::new();
    existing_values.set_value(5, "value".to_string(), Value::Int(1));
    existing_values.set_value(6, "value".to_string(), Value::Float(0));
    assert_eq!(
        add.value(&archetypes, &mut existing_values, &add_f32),
        Err(EngineError::TypeMismatch { node_id: 1 })
    );
    assert_eq!(existing_values.entries.len(), 2);
}

#[test]
fn add_needs_resolved_inputs() {
    let mut archetypes = NodeArchetypes::new();
    let add = MathAdd::new(1);
    archetypes.add_archetype(&[output("value", 5), output("value", 6)], &[], &Behavior::Add(add));
    let mut existing_values = ExistingValues::new();
    existing_values.set_value(5, "value".to_string(), Value::Float(0));
    assert_eq!(
        add.value(&archetypes, &mut existing_values, &add_f32),
        Err(EngineError::UnresolvedDependency { node_id: 1 })
    );
    existing_values.set_value(6, "value".to_string(), Value::Float(1.5f32.to_bits()));
    assert_eq!(add.value(&archetypes, &mut existing_values, &add_f32), Ok(()));
    assert_eq!(existing_values.get_value(1, &"value".to_string()), Some(Value::Float(1.5f32.to_bits())));
}

#[test]
fn later_write_shadows_earlier() {
    let mut existing_values = ExistingValues::new();
    existing_values.set_value(1, "value".to_string(), Value::Bool(false));
    existing_values.set_value(1, "other".to_string(), Value::Int(-4));
    existing_values.set_value(1, "value".to_string(), Value::Bool(true));
    assert_eq!(existing_values.get_value(1, &"value".to_string()), Some(Value::Bool(true)));
    assert_eq!(existing_values.get_value(1, &"other".to_string()), Some(Value::Int(-4)));
    assert_eq!(existing_values.get_value(2, &"value".to_string()), None);
    assert_eq!(Value::Int(-4).value_type(), ValueType::Int);
    assert_eq!(Value::Bool(true).value_type(), ValueType::Bool);
}

#[test]
fn archetype_shapes() {
    let (archetypes, _) = pi_add_print();
    let add = archetypes.0.get(&1).unwrap();
    assert_eq!(add.name, "math/add");
    assert_eq!(add.input_value_sockets.len(), 2);
    assert_eq!(add.input_value_sockets[1].name, "b");
    assert_eq!(add.input_value_sockets[1].output_value_socket.as_ref().unwrap().node_id, 0);
    assert_eq!(add.output_value_sockets[0].name, "value");
    let print = archetypes.0.get(&2).unwrap();
    assert_eq!(print.name, "custom/print");
    assert_eq!(print.input_flow_sockets[0].name, "print_input");
    assert!(print.input_flow_sockets[0].output_flow_socket.is_none());
    assert_eq!(MathPi::name(), "math/pi");
    assert_eq!(SequenceNode::name(), "flow/sequence");
    let seq = SequenceNode::new(4).create_node_archetype(&[], &[flow_to("a", 2), flow_to("b", 3)]);
    assert_eq!(seq.output_flow_sockets.len(), 2);
    assert_eq!(seq.output_flow_sockets[1].name, "b");
    assert_eq!(seq.input_flow_sockets[0].name, "in");
}

#[test]
fn missing_producers_stay_unbound() {
    let add = MathAdd::new(1).create_node_archetype(&[output("value", 0)], &[]);
    assert!(add.input_value_sockets[0].output_value_socket.is_some());
    assert!(add.input_value_sockets[1].output_value_socket.is_none());
    assert_eq!(add.dependencies(), Err(EngineError::UnboundSocket { node_id: 1, socket: 1 }));
}

#[test]
fn connect_value_binds_and_validates() {
    let mut archetypes = NodeArchetypes::new();
    archetypes.add_archetype(&[], &[], &MathPi::new_node(0));
    archetypes.add_archetype(&[], &[], &MathAdd::new_node(1));
    assert_eq!(
        archetypes.connect_value(&output("value", 0), 9, 0),
        Err(EngineError::UnknownNode { node_id: 9 })
    );
    assert_eq!(
        archetypes.connect_value(&output("value", 7), 1, 0),
        Err(EngineError::UnknownNode { node_id: 7 })
    );
    assert_eq!(
        archetypes.connect_value(&output("nothing", 0), 1, 0),
        Err(EngineError::Unsupported { node_id: 0 })
    );
    assert_eq!(
        archetypes.connect_value(&output("value", 0), 1, 2),
        Err(EngineError::Unsupported { node_id: 1 })
    );
    assert_eq!(archetypes.connect_value(&output("value", 0), 1, 0), Ok(()));
    assert_eq!(archetypes.connect_value(&output("value", 0), 1, 1), Ok(()));
    let add = archetypes.0.get(&1).unwrap();
    assert_eq!(add.input_value_sockets[1].name, "b");
    assert_eq!(add.dependencies(), Ok(vec![0, 0]));
    let mut node_behaviors = NodeBehaviors::new();
    node_behaviors.add(MathPi::new_node(0));
    node_behaviors.add(MathAdd::new_node(1));
    let mut existing_values = ExistingValues::new();
    assert_eq!(existing_values.run(&vec![1], &archetypes, &mut node_behaviors, &add_f32), Ok(()));
    let v = existing_values.get_value(1, &"value".to_string()).unwrap();
    assert!((as_f32(v) - 2.0 * std::f32::consts::PI).abs() < 1e-6);
}

#[test]
fn connect_flow_copies_destination() {
    let mut archetypes = NodeArchetypes::new();
    archetypes.add_archetype(&[], &[flow_to("first", 2)], &SequenceNode::new_node(4));
    archetypes.add_archetype(&[], &[], &PrintNode::new_node(3));
    assert_eq!(archetypes.connect_flow(4, 1, 3, 0), Err(EngineError::Unsupported { node_id: 4 }));
    assert_eq!(archetypes.connect_flow(4, 0, 3, 1), Err(EngineError::Unsupported { node_id: 3 }));
    assert_eq!(archetypes.connect_flow(5, 0, 3, 0), Err(EngineError::UnknownNode { node_id: 5 }));
    assert_eq!(archetypes.connect_flow(4, 0, 3, 0), Ok(()));
    let seq = archetypes.0.get(&4).unwrap();
    let target = seq.output_flow_sockets[0].input_flow_socket.as_ref().unwrap();
    assert_eq!(target.node_id, 3);
    assert_eq!(target.name, "print_input");
    let bound = target.output_flow_socket.as_ref().unwrap();
    assert_eq!(bound.name, "first");
    let print = archetypes.0.get(&3).unwrap();
    assert_eq!(print.input_flow_sockets[0].output_flow_socket.as_ref().unwrap().name, "first");
}

#[test]
fn registry_builds_registered_types() {
    let registry = builtin_registry();
    assert_eq!(registry.lookup(&"math/add".to_string()), Some(NodeKind::Add));
    assert_eq!(registry.lookup(&"flow/sequence".to_string()), Some(NodeKind::Sequence));
    assert_eq!(registry.lookup(&"math/sub".to_string()), None);
    assert_eq!(
        registry.new_node(&"custom/print".to_string(), 6),
        Some(Behavior::Print(PrintNode::new(6)))
    );
    let template = registry.build(&"math/add".to_string(), 6).unwrap();
    assert_eq!(template.node_id, 6);
    assert_eq!(template.input_value_sockets.len(), 2);
    assert!(template.input_value_sockets[0].output_value_socket.is_none());
    assert!(registry.build(&"nothing".to_string(), 6).is_none());
    let mut empty = NodeRegistry::new();
    assert_eq!(empty.lookup(&"math/pi".to_string()), None);
    MathPi::register(&mut empty);
    assert_eq!(empty.lookup(&"math/pi".to_string()), Some(NodeKind::Pi));
    empty.register("math/pi".to_string(), NodeKind::Add);
    assert_eq!(empty.lookup(&"math/pi".to_string()), Some(NodeKind::Add));
}

#[test]
fn templates_are_unbound() {
    let print = PrintNode::build(2);
    assert_eq!(print.name, "custom/print");
    assert!(print.input_value_sockets[0].output_value_socket.is_none());
    assert!(print.input_flow_sockets[0].output_flow_socket.is_none());
    let seq = SequenceNode::build(4);
    assert_eq!(seq.output_flow_sockets.len(), 1);
    assert_eq!(seq.output_flow_sockets[0].name, "out");
    assert!(seq.output_flow_sockets[0].input_flow_socket.is_none());
    assert_eq!(seq.input_flow_sockets[0].name, "in");
    let pi = MathPi::build(0);
    assert_eq!(pi.output_value_sockets[0].node_id, 0);
    assert_eq!(MathAdd::build(1).dependencies(), Err(EngineError::UnboundSocket { node_id: 1, socket: 0 }));
}

#[test]
fn built_sequence_can_be_connected() {
    let registry = builtin_registry();
    let mut archetypes = NodeArchetypes::new();
    let mut node_behaviors = NodeBehaviors::new();
    for (name, id) in [("math/pi", 0u32), ("custom/print", 3), ("flow/sequence", 4)] {
        let template = registry.build(&name.to_string(), id).unwrap();
        archetypes.0.insert(id, template);
        node_behaviors.add(registry.new_node(&name.to_string(), id).unwrap());
    }
    assert_eq!(archetypes.connect_value(&output("value", 0), 3, 0), Ok(()));
    assert_eq!(archetypes.connect_flow(4, 0, 3, 0), Ok(()));
    let mut existing_values = ExistingValues::new();
    let mut effects: Vec<Effect> = Vec::new();
    assert_eq!(existing_values.flow(4, &archetypes, &mut node_behaviors, &mut effects, &add_f32), Ok(()));
    assert_eq!(effects, vec![Effect { node_id: 3, value: Value::Float(std::f32::consts::PI.to_bits()) }]);
}

#[test]
fn print_without_resolved_input_fails() {
    let archetypes = NodeArchetypes::new();
    let existing_values = ExistingValues::new();
    let mut effects: Vec<Effect> = Vec::new();
    assert_eq!(
        PrintNode::new(2).activate_input_node(&archetypes, &existing_values, &mut effects),
        Err(EngineError::UnknownNode { node_id: 2 })
    );
    let (archetypes, _) = pi_add_print();
    assert_eq!(
        PrintNode::new(2).activate_input_node(&archetypes, &existing_values, &mut effects),
        Err(EngineError::UnresolvedDependency { node_id: 2 })
    );
    assert!(effects.is_empty());
}

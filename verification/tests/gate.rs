//! The port type resolver and the connection gate.

use flowvm::graph::{BreakdownNode, BreakdownType, Graph, NodeKind, PortIndex};
use flowvm::resolve::{
    all_data_inputs_satisfied, can_connect, resolve_input, resolve_output, resolve_port, PortType,
};
use flowvm::types::{AccessMode, FunctionDef, FunctionRegistry, Literal, StructDef, Ty, TypeRegistry};

#[test]
fn the_gate_admits_exactly_the_four_legal_shapes() {
    let t = Ty::I32;
    // Both flow.
    assert!(can_connect(PortType::FlowPort, PortType::FlowPort));
    // Typed producer into blank consumer.
    assert!(can_connect(PortType::Typed(t, AccessMode::Owned), PortType::Blank));
    // Identical typed pair.
    assert!(can_connect(
        PortType::Typed(t, AccessMode::SharedRef),
        PortType::Typed(t, AccessMode::SharedRef)
    ));
    // Typed producer into a mode-only consumer of the same mode.
    assert!(can_connect(
        PortType::Typed(t, AccessMode::Owned),
        PortType::ModeOnly(AccessMode::Owned)
    ));
    // Everything else is refused.
    assert!(!can_connect(PortType::Blank, PortType::Blank));
    assert!(!can_connect(PortType::FlowPort, PortType::Blank));
    assert!(!can_connect(PortType::Blank, PortType::Typed(t, AccessMode::Owned)));
    assert!(!can_connect(
        PortType::Typed(t, AccessMode::Owned),
        PortType::Typed(Ty::Text, AccessMode::Owned)
    ));
    assert!(!can_connect(
        PortType::Typed(t, AccessMode::Owned),
        PortType::Typed(t, AccessMode::SharedRef)
    ));
    assert!(!can_connect(
        PortType::ModeOnly(AccessMode::Owned),
        PortType::ModeOnly(AccessMode::Owned)
    ));
}

#[test]
fn an_owned_producer_never_feeds_an_exclusive_consumer() {
    for t in [Ty::I32, Ty::Text, Ty::StructTy(0), Ty::ListTy, Ty::QueryTy] {
        assert!(!can_connect(
            PortType::Typed(t, AccessMode::Owned),
            PortType::Typed(t, AccessMode::ExclusiveRef)
        ));
        assert!(!can_connect(
            PortType::Typed(t, AccessMode::Owned),
            PortType::ModeOnly(AccessMode::ExclusiveRef)
        ));
    }
}

#[test]
fn the_editor_refuses_the_owned_into_exclusive_edge() {
    let types = TypeRegistry::new();
    let mut funcs = FunctionRegistry::new();
    let f = funcs.register(FunctionDef {
        params: vec![(Ty::I32, AccessMode::ExclusiveRef)],
        ret: None,
    });
    let mut g = Graph::new();
    let prim = g.add_node(NodeKind::Primitive(Literal::I32(1)));
    let call = g.add_node(NodeKind::Function(f));
    let before = g.edges.len();
    assert!(!g.connect((prim, 0), (call, 1), &types, &funcs));
    assert_eq!(g.edges.len(), before);
}

#[test]
fn an_ownership_adapter_relabels_its_upstream_type() {
    let types = TypeRegistry::new();
    let funcs = FunctionRegistry::new();
    let mut g = Graph::new();
    let prim = g.add_node(NodeKind::Primitive(Literal::I32(1)));
    let own = g.add_node(NodeKind::Ownership(AccessMode::SharedRef));
    g.add_edge((prim, 0), (own, 1));
    assert_eq!(
        resolve_output(&g, &types, &funcs, own, 1, 8),
        PortType::Typed(Ty::I32, AccessMode::SharedRef)
    );
}

#[test]
fn an_unconnected_ownership_adapter_degrades_to_mode_only() {
    let types = TypeRegistry::new();
    let funcs = FunctionRegistry::new();
    let mut g = Graph::new();
    let own = g.add_node(NodeKind::Ownership(AccessMode::ExclusiveRef));
    assert_eq!(
        resolve_output(&g, &types, &funcs, own, 1, 8),
        PortType::ModeOnly(AccessMode::ExclusiveRef)
    );
}

#[test]
fn a_breakdown_output_takes_its_field_type_and_configured_mode() {
    let mut types = TypeRegistry::new();
    let sid = types
        .register_struct(StructDef { fields: vec![Ty::I32, Ty::Text] })
        .unwrap();
    let funcs = FunctionRegistry::new();
    let mut g = Graph::new();
    let buildup = g.add_node(NodeKind::Buildup(sid));
    let breakdown = g.add_node(NodeKind::Breakdown(BreakdownNode {
        breakdown_type: BreakdownType::MutReference,
        num_fields: 2,
    }));
    g.add_edge((buildup, 0), (breakdown, 0));
    assert_eq!(
        resolve_output(&g, &types, &funcs, breakdown, 1, 8),
        PortType::Typed(Ty::Text, AccessMode::ExclusiveRef)
    );
    assert_eq!(resolve_output(&g, &types, &funcs, breakdown, 2, 8), PortType::Blank);
}

#[test]
fn a_data_edge_cycle_resolves_to_blank_instead_of_spinning() {
    let types = TypeRegistry::new();
    let funcs = FunctionRegistry::new();
    let mut g = Graph::new();
    let a = g.add_node(NodeKind::Ownership(AccessMode::Owned));
    let b = g.add_node(NodeKind::Ownership(AccessMode::Owned));
    g.add_edge((a, 1), (b, 1));
    g.add_edge((b, 1), (a, 1));
    assert_eq!(
        resolve_output(&g, &types, &funcs, a, 1, g.nodes.len() + 1),
        PortType::ModeOnly(AccessMode::Owned)
    );
}

#[test]
fn flow_edges_wait_for_every_data_input() {
    let types = TypeRegistry::new();
    let mut funcs = FunctionRegistry::new();
    let f = funcs.register(FunctionDef {
        params: vec![(Ty::I32, AccessMode::Owned)],
        ret: None,
    });
    let mut g = Graph::new();
    let start = g.add_node(NodeKind::Start);
    let prim = g.add_node(NodeKind::Primitive(Literal::I32(1)));
    let call = g.add_node(NodeKind::Function(f));
    // The parameter is still blank, so the flow edge is refused.
    assert!(!g.connect((start, 0), (call, 0), &types, &funcs));
    assert!(!all_data_inputs_satisfied(&g, &types, &funcs, call, 8));
    // Once the parameter is fed, the same flow edge is admitted.
    assert!(g.connect((prim, 0), (call, 1), &types, &funcs));
    assert!(all_data_inputs_satisfied(&g, &types, &funcs, call, 8));
    assert!(g.connect((start, 0), (call, 0), &types, &funcs));
}

#[test]
fn ports_are_addressed_by_index_and_direction() {
    let types = TypeRegistry::new();
    let funcs = FunctionRegistry::new();
    let mut g = Graph::new();
    let prim = g.add_node(NodeKind::Primitive(Literal::Text(String::from("hi"))));
    assert_eq!(
        resolve_port(&g, &types, &funcs, prim, PortIndex::Out(0), 8),
        PortType::Typed(Ty::Text, AccessMode::Owned)
    );
    assert_eq!(
        resolve_port(&g, &types, &funcs, prim, PortIndex::In(0), 8),
        PortType::Blank
    );
}

#[test]
fn port_listings_split_flow_from_data() {
    let types = TypeRegistry::new();
    let mut funcs = FunctionRegistry::new();
    let f = funcs.register(FunctionDef {
        params: vec![(Ty::I32, AccessMode::Owned), (Ty::Text, AccessMode::SharedRef)],
        ret: Some((Ty::I32, AccessMode::Owned)),
    });
    let mut g = Graph::new();
    let call = g.add_node(NodeKind::Function(f));
    let ins = g.input_ports(&types, &funcs, call);
    assert_eq!(ins.flow_ports, vec![0]);
    assert_eq!(ins.data_ports, vec![1, 2]);
    let outs = g.output_ports(&types, &funcs, call);
    assert_eq!(outs.flow_ports.len(), 1);
    assert_eq!(outs.flow_ports[0].0, 0);
    assert_eq!(outs.data_ports, vec![1]);

    let for_node = g.add_node(NodeKind::For(Ty::I32));
    let outs = g.output_ports(&types, &funcs, for_node);
    let flow_idx: Vec<usize> = outs.flow_ports.iter().map(|p| p.0).collect();
    assert_eq!(flow_idx, vec![0, 2]);
    assert_eq!(outs.data_ports, vec![1]);
}

#[test]
fn function_ports_follow_the_declared_signature() {
    let types = TypeRegistry::new();
    let mut funcs = FunctionRegistry::new();
    let f = funcs.register(FunctionDef {
        params: vec![(Ty::Text, AccessMode::SharedRef)],
        ret: Some((Ty::I32, AccessMode::Owned)),
    });
    let mut g = Graph::new();
    let call = g.add_node(NodeKind::Function(f));
    assert_eq!(
        resolve_input(&g, &types, &funcs, call, 1, 8),
        PortType::Typed(Ty::Text, AccessMode::SharedRef)
    );
    assert_eq!(
        resolve_output(&g, &types, &funcs, call, 1, 8),
        PortType::Typed(Ty::I32, AccessMode::Owned)
    );
    assert_eq!(resolve_input(&g, &types, &funcs, call, 0, 8), PortType::FlowPort);
}

#[test]
fn the_apply_node_adopts_its_receivers_type() {
    let types = TypeRegistry::new();
    let funcs = FunctionRegistry::new();
    let mut g = Graph::new();
    let number = g.add_node(NodeKind::Primitive(Literal::I32(1)));
    let text = g.add_node(NodeKind::Primitive(Literal::Text(String::from("x"))));
    let borrow = g.add_node(NodeKind::Ownership(AccessMode::ExclusiveRef));
    let apply = g.add_node(NodeKind::Apply);
    assert!(g.connect((number, 0), (borrow, 1), &types, &funcs));
    assert!(g.connect((borrow, 1), (apply, 1), &types, &funcs));
    // With the receiver resolved, both apply inputs carry its type.
    assert_eq!(
        resolve_input(&g, &types, &funcs, apply, 1, 8),
        PortType::Typed(Ty::I32, AccessMode::ExclusiveRef)
    );
    assert_eq!(
        resolve_input(&g, &types, &funcs, apply, 2, 8),
        PortType::Typed(Ty::I32, AccessMode::Owned)
    );
    // A mismatched applier is refused; a matching one is admitted.
    assert!(!g.connect((text, 0), (apply, 2), &types, &funcs));
    assert!(g.connect((number, 0), (apply, 2), &types, &funcs));
}

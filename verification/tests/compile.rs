//! End-to-end scenarios: graphs built through the connection gate, compiled,
//! and run against a recording host.

use flowvm::bytecode::Bytecode;
use flowvm::compiler::{compile, compile_for_loop, resolve_data_dependency, CompileError};
use flowvm::state::CompileState;
use flowvm::graph::{BreakdownNode, BreakdownType, Graph, NodeKind, TupleBreakdownNode};
use flowvm::types::{AccessMode, FunctionDef, FunctionRegistry, Literal, StructDef, Ty, TypeRegistry};
use flowvm::value::{Fields, Value};
use flowvm::vm::{CallOutcome, Host, Vm};

/// A host that records every invocation and answers like an identity
/// function: each argument is handed back unchanged and the first argument,
/// if any, is the return value when one is expected.
struct RecordingHost {
    calls: Vec<(usize, Vec<Value>)>,
    return_first: bool,
    query_records: Vec<Value>,
}

impl RecordingHost {
    fn new() -> RecordingHost {
        RecordingHost { calls: Vec::new(), return_first: false, query_records: Vec::new() }
    }
}

impl Host for RecordingHost {
    fn invoke(&mut self, handle: usize, args: Vec<Value>) -> CallOutcome {
        let mut copy: Vec<Value> = Vec::new();
        for a in &args {
            copy.push(a.duplicate());
        }
        self.calls.push((handle, copy));
        let args_after: Vec<Value> = args.iter().map(|a| a.duplicate()).collect();
        let ret = if self.return_first {
            args.first().map(|a| a.duplicate())
        } else {
            None
        };
        CallOutcome { args_after, ret }
    }

    fn run_query(&mut self, _accesses: &Vec<flowvm::types::QueryDataType>) -> Vec<Value> {
        self.query_records.iter().map(|v| v.duplicate()).collect()
    }
}

#[test]
fn literal_through_identity_call_round_trips() {
    let types = TypeRegistry::new();
    let mut funcs = FunctionRegistry::new();
    let identity = funcs.register(FunctionDef {
        params: vec![(Ty::I32, AccessMode::Owned)],
        ret: Some((Ty::I32, AccessMode::Owned)),
    });

    let mut g = Graph::new();
    let start = g.add_node(NodeKind::Start);
    let prim = g.add_node(NodeKind::Primitive(Literal::I32(42)));
    let call = g.add_node(NodeKind::Function(identity));
    assert!(g.connect((prim, 0), (call, 1), &types, &funcs));
    assert!(g.connect((start, 0), (call, 0), &types, &funcs));

    let code = compile(&g, &types, &funcs).unwrap();
    assert_eq!(
        code,
        vec![
            Bytecode::PushLiteral(Value::I32(42)),
            Bytecode::Duplicate(0),
            Bytecode::Call(identity),
        ]
    );

    let mut host = RecordingHost::new();
    host.return_first = true;
    let mut vm = Vm::new();
    vm.run(&code, &funcs, &mut host, 1000).unwrap();
    assert_eq!(vm.top_value().unwrap(), Value::I32(42));
    assert_eq!(host.calls.len(), 1);
    assert_eq!(host.calls[0].1, vec![Value::I32(42)]);
}

#[test]
fn shared_output_port_is_materialized_once() {
    let types = TypeRegistry::new();
    let mut funcs = FunctionRegistry::new();
    let sink = funcs.register(FunctionDef {
        params: vec![(Ty::I32, AccessMode::Owned)],
        ret: None,
    });

    let mut g = Graph::new();
    let start = g.add_node(NodeKind::Start);
    let prim = g.add_node(NodeKind::Primitive(Literal::I32(7)));
    let c1 = g.add_node(NodeKind::Function(sink));
    let c2 = g.add_node(NodeKind::Function(sink));
    assert!(g.connect((prim, 0), (c1, 1), &types, &funcs));
    assert!(g.connect((prim, 0), (c2, 1), &types, &funcs));
    assert!(g.connect((start, 0), (c1, 0), &types, &funcs));
    assert!(g.connect((c1, 0), (c2, 0), &types, &funcs));

    let code = compile(&g, &types, &funcs).unwrap();
    let pushes = code
        .iter()
        .filter(|i| matches!(i, Bytecode::PushLiteral(_)))
        .count();
    assert_eq!(pushes, 1);
}

#[test]
fn resolving_the_same_port_twice_gives_the_same_slot_and_no_new_code() {
    let types = TypeRegistry::new();
    let funcs = FunctionRegistry::new();
    let mut g = Graph::new();
    let prim = g.add_node(NodeKind::Primitive(Literal::I32(3)));

    let mut st = CompileState::new();
    let first = resolve_data_dependency(&mut st, &g, &types, &funcs, prim, 0, 64).unwrap();
    let emitted = st.bytecode.len();
    let second = resolve_data_dependency(&mut st, &g, &types, &funcs, prim, 0, 64).unwrap();
    assert_eq!(first, second);
    assert_eq!(st.bytecode.len(), emitted);
}

#[test]
fn loop_compilation_is_stack_neutral() {
    let types = TypeRegistry::new();
    let funcs = FunctionRegistry::new();
    let mut g = Graph::new();
    let for_node = g.add_node(NodeKind::For(Ty::I32));

    let mut st = CompileState::new();
    st.stack_ptr = 5;
    let before = st.stack_ptr;
    compile_for_loop(&mut st, &g, &types, &funcs, for_node, 0, 64).unwrap();
    assert_eq!(st.stack_ptr, before);
}

#[test]
fn for_loop_runs_its_body_once_per_record_and_exits_once() {
    let types = TypeRegistry::new();
    let mut funcs = FunctionRegistry::new();
    let body_fn = funcs.register(FunctionDef {
        params: vec![(Ty::I32, AccessMode::ExclusiveRef)],
        ret: None,
    });
    let exit_fn = funcs.register(FunctionDef { params: vec![], ret: None });

    let mut g = Graph::new();
    let start = g.add_node(NodeKind::Start);
    let query = g.add_node(NodeKind::Query(vec![]));
    let for_node = g.add_node(NodeKind::For(Ty::I32));
    let body = g.add_node(NodeKind::Function(body_fn));
    let after = g.add_node(NodeKind::Function(exit_fn));

    assert!(g.connect((start, 0), (query, 0), &types, &funcs));
    assert!(g.connect((query, 1), (for_node, 1), &types, &funcs));
    assert!(g.connect((for_node, 1), (body, 1), &types, &funcs));
    assert!(g.connect((query, 0), (for_node, 0), &types, &funcs));
    assert!(g.connect((for_node, 0), (body, 0), &types, &funcs));
    assert!(g.connect((for_node, 2), (after, 0), &types, &funcs));

    let code = compile(&g, &types, &funcs).unwrap();

    let mut host = RecordingHost::new();
    host.query_records = vec![Value::I32(10), Value::I32(11), Value::I32(12)];
    let mut vm = Vm::new();
    vm.run(&code, &funcs, &mut host, 10_000).unwrap();

    let body_calls: Vec<&(usize, Vec<Value>)> =
        host.calls.iter().filter(|c| c.0 == body_fn).collect();
    let exit_calls = host.calls.iter().filter(|c| c.0 == exit_fn).count();
    assert_eq!(body_calls.len(), 3);
    assert_eq!(body_calls[0].1, vec![Value::I32(10)]);
    assert_eq!(body_calls[1].1, vec![Value::I32(11)]);
    assert_eq!(body_calls[2].1, vec![Value::I32(12)]);
    assert_eq!(exit_calls, 1);
    // The loop is stack-neutral at run time too: only the bound query value
    // survives it.
    assert_eq!(vm.stack.len(), 1);
}

#[test]
fn buildup_then_breakdown_returns_each_literal() {
    let mut types = TypeRegistry::new();
    let sid = types
        .register_struct(StructDef { fields: vec![Ty::I32, Ty::I32] })
        .unwrap();
    let mut funcs = FunctionRegistry::new();
    let sink = funcs.register(FunctionDef {
        params: vec![(Ty::I32, AccessMode::Owned)],
        ret: None,
    });

    let mut g = Graph::new();
    let start = g.add_node(NodeKind::Start);
    let p_a = g.add_node(NodeKind::Primitive(Literal::I32(10)));
    let p_b = g.add_node(NodeKind::Primitive(Literal::I32(20)));
    let buildup = g.add_node(NodeKind::Buildup(sid));
    let breakdown = g.add_node(NodeKind::Breakdown(BreakdownNode {
        breakdown_type: BreakdownType::Owned,
        num_fields: 2,
    }));
    let c_a = g.add_node(NodeKind::Function(sink));
    let c_b = g.add_node(NodeKind::Function(sink));

    assert!(g.connect((p_a, 0), (buildup, 0), &types, &funcs));
    assert!(g.connect((p_b, 0), (buildup, 1), &types, &funcs));
    assert!(g.connect((buildup, 0), (breakdown, 0), &types, &funcs));
    assert!(g.connect((breakdown, 0), (c_a, 1), &types, &funcs));
    assert!(g.connect((breakdown, 1), (c_b, 1), &types, &funcs));
    assert!(g.connect((start, 0), (c_a, 0), &types, &funcs));
    assert!(g.connect((c_a, 0), (c_b, 0), &types, &funcs));

    let code = compile(&g, &types, &funcs).unwrap();
    let mut host = RecordingHost::new();
    let mut vm = Vm::new();
    vm.run(&code, &funcs, &mut host, 10_000).unwrap();

    assert_eq!(host.calls.len(), 2);
    assert_eq!(host.calls[0].1, vec![Value::I32(10)]);
    assert_eq!(host.calls[1].1, vec![Value::I32(20)]);
}

#[test]
fn tuple_breakdown_splits_a_list_result() {
    let types = TypeRegistry::new();
    let mut funcs = FunctionRegistry::new();
    let make_list = funcs.register(FunctionDef {
        params: vec![],
        ret: Some((Ty::ListTy, AccessMode::Owned)),
    });
    let sink = funcs.register(FunctionDef {
        params: vec![(Ty::I32, AccessMode::Owned)],
        ret: None,
    });

    let mut g = Graph::new();
    let start = g.add_node(NodeKind::Start);
    let lister = g.add_node(NodeKind::Function(make_list));
    let tuple = g.add_node(NodeKind::TupleBreakdown(TupleBreakdownNode { length: 2 }));
    let consume = g.add_node(NodeKind::Function(sink));

    assert!(g.connect((start, 0), (lister, 0), &types, &funcs));
    assert!(g.connect((lister, 1), (tuple, 0), &types, &funcs));
    // Tuple element ports resolve to no type of their own, so the connection
    // gate has nothing to admit; the edge is wired directly as an editor that trusts
    // its own bookkeeping would.
    g.add_edge((tuple, 1), (consume, 1));
    g.add_edge((lister, 0), (consume, 0));

    let code = compile(&g, &types, &funcs).unwrap();

    struct ListHost {
        calls: Vec<(usize, Vec<Value>)>,
    }
    impl Host for ListHost {
        fn invoke(&mut self, handle: usize, args: Vec<Value>) -> CallOutcome {
            let copied: Vec<Value> = args.iter().map(|a| a.duplicate()).collect();
            self.calls.push((handle, copied));
            let args_after: Vec<Value> = args.iter().map(|a| a.duplicate()).collect();
            let ret = if handle == 0 {
                Some(Value::ListVal(Box::new(Fields::from_vec(&vec![
                    Value::I32(5),
                    Value::I32(6),
                ]))))
            } else {
                None
            };
            CallOutcome { args_after, ret }
        }
        fn run_query(&mut self, _a: &Vec<flowvm::types::QueryDataType>) -> Vec<Value> {
            Vec::new()
        }
    }

    let mut host = ListHost { calls: Vec::new() };
    let mut vm = Vm::new();
    vm.run(&code, &funcs, &mut host, 10_000).unwrap();
    assert_eq!(host.calls.len(), 2);
    assert_eq!(host.calls[1].1, vec![Value::I32(6)]);
}

#[test]
fn graph_without_a_start_is_refused() {
    let types = TypeRegistry::new();
    let funcs = FunctionRegistry::new();
    let g = Graph::new();
    assert_eq!(compile(&g, &types, &funcs), Err(CompileError::NoStart));
}

#[test]
fn graph_with_two_starts_is_refused() {
    let types = TypeRegistry::new();
    let funcs = FunctionRegistry::new();
    let mut g = Graph::new();
    g.add_node(NodeKind::Start);
    g.add_node(NodeKind::Start);
    assert_eq!(compile(&g, &types, &funcs), Err(CompileError::MultipleStarts));
}

#[test]
fn flow_into_a_data_only_node_is_a_flow_type_violation() {
    let types = TypeRegistry::new();
    let funcs = FunctionRegistry::new();
    let mut g = Graph::new();
    let start = g.add_node(NodeKind::Start);
    let prim = g.add_node(NodeKind::Primitive(Literal::I32(1)));
    g.add_edge((start, 0), (prim, 0));
    assert_eq!(
        compile(&g, &types, &funcs),
        Err(CompileError::FlowTypeViolation { node: prim })
    );
}

#[test]
fn flow_into_the_branching_node_is_a_flow_type_violation() {
    let types = TypeRegistry::new();
    let funcs = FunctionRegistry::new();
    let mut g = Graph::new();
    let start = g.add_node(NodeKind::Start);
    let ifelse = g.add_node(NodeKind::IfElse(flowvm::graph::IfElseNode {}));
    g.add_edge((start, 0), (ifelse, 0));
    assert_eq!(
        compile(&g, &types, &funcs),
        Err(CompileError::FlowTypeViolation { node: ifelse })
    );
}

#[test]
fn unconnected_parameter_is_reported() {
    let types = TypeRegistry::new();
    let mut funcs = FunctionRegistry::new();
    let sink = funcs.register(FunctionDef {
        params: vec![(Ty::I32, AccessMode::Owned)],
        ret: None,
    });
    let mut g = Graph::new();
    let start = g.add_node(NodeKind::Start);
    let call = g.add_node(NodeKind::Function(sink));
    g.add_edge((start, 0), (call, 0));
    assert_eq!(
        compile(&g, &types, &funcs),
        Err(CompileError::UnconnectedInput { node: call, port: 1 })
    );
}

#[test]
fn an_ownership_adapter_with_a_blank_input_is_reported_unconnected() {
    let types = TypeRegistry::new();
    let mut funcs = FunctionRegistry::new();
    let sink = funcs.register(FunctionDef {
        params: vec![(Ty::I32, AccessMode::Owned)],
        ret: None,
    });
    let mut g = Graph::new();
    let start = g.add_node(NodeKind::Start);
    let own = g.add_node(NodeKind::Ownership(AccessMode::SharedRef));
    let call = g.add_node(NodeKind::Function(sink));
    g.add_edge((own, 1), (call, 1));
    g.add_edge((start, 0), (call, 0));
    assert_eq!(
        compile(&g, &types, &funcs),
        Err(CompileError::UnconnectedInput { node: own, port: 1 })
    );
}

#[test]
fn an_ownership_adapter_relabels_a_value_for_a_borrowing_callee() {
    let types = TypeRegistry::new();
    let mut funcs = FunctionRegistry::new();
    let sink = funcs.register(FunctionDef {
        params: vec![(Ty::I32, AccessMode::SharedRef)],
        ret: None,
    });
    let mut g = Graph::new();
    let start = g.add_node(NodeKind::Start);
    let prim = g.add_node(NodeKind::Primitive(Literal::I32(8)));
    let own = g.add_node(NodeKind::Ownership(AccessMode::SharedRef));
    let call = g.add_node(NodeKind::Function(sink));
    assert!(g.connect((prim, 0), (own, 1), &types, &funcs));
    assert!(g.connect((own, 1), (call, 1), &types, &funcs));
    assert!(g.connect((start, 0), (call, 0), &types, &funcs));

    let code = compile(&g, &types, &funcs).unwrap();
    assert!(code.contains(&Bytecode::SlotRef(0)));
    let mut host = RecordingHost::new();
    let mut vm = Vm::new();
    vm.run(&code, &funcs, &mut host, 10_000).unwrap();
    assert_eq!(host.calls[0].1, vec![Value::I32(8)]);
}

#[test]
fn an_apply_node_writes_into_its_exclusively_borrowed_receiver() {
    let mut types = TypeRegistry::new();
    let sid = types.register_struct(StructDef { fields: vec![Ty::I32] }).unwrap();
    let mut funcs = FunctionRegistry::new();
    let sink = funcs.register(FunctionDef {
        params: vec![(Ty::I32, AccessMode::Owned)],
        ret: None,
    });
    let mut g = Graph::new();
    let start = g.add_node(NodeKind::Start);
    let p_old = g.add_node(NodeKind::Primitive(Literal::I32(1)));
    let p_new = g.add_node(NodeKind::Primitive(Literal::I32(9)));
    let build = g.add_node(NodeKind::Buildup(sid));
    let borrow = g.add_node(NodeKind::Ownership(AccessMode::ExclusiveRef));
    let replace = g.add_node(NodeKind::Buildup(sid));
    let apply = g.add_node(NodeKind::Apply);
    let take = g.add_node(NodeKind::Breakdown(BreakdownNode {
        breakdown_type: BreakdownType::Owned,
        num_fields: 1,
    }));
    let observe = g.add_node(NodeKind::Function(sink));

    assert!(g.connect((p_old, 0), (build, 0), &types, &funcs));
    assert!(g.connect((p_new, 0), (replace, 0), &types, &funcs));
    assert!(g.connect((build, 0), (borrow, 1), &types, &funcs));
    assert!(g.connect((borrow, 1), (apply, 1), &types, &funcs));
    assert!(g.connect((replace, 0), (apply, 2), &types, &funcs));
    assert!(g.connect((build, 0), (take, 0), &types, &funcs));
    assert!(g.connect((take, 0), (observe, 1), &types, &funcs));
    assert!(g.connect((start, 0), (apply, 0), &types, &funcs));
    assert!(g.connect((apply, 0), (observe, 0), &types, &funcs));

    let code = compile(&g, &types, &funcs).unwrap();
    assert!(code.contains(&Bytecode::Apply));
    let mut host = RecordingHost::new();
    let mut vm = Vm::new();
    vm.run(&code, &funcs, &mut host, 10_000).unwrap();
    // The write went through the exclusive borrow into the built structure,
    // so breaking it down afterwards observes the replacement.
    assert_eq!(host.calls[0].1, vec![Value::I32(9)]);
}

#[test]
fn unknown_function_handle_is_reported() {
    let types = TypeRegistry::new();
    let funcs = FunctionRegistry::new();
    let mut g = Graph::new();
    let start = g.add_node(NodeKind::Start);
    let call = g.add_node(NodeKind::Function(99));
    g.add_edge((start, 0), (call, 0));
    assert_eq!(
        compile(&g, &types, &funcs),
        Err(CompileError::UnknownFunction { handle: 99 })
    );
}

#[test]
fn unknown_structure_in_a_buildup_is_reported() {
    let types = TypeRegistry::new();
    let mut funcs = FunctionRegistry::new();
    let sink = funcs.register(FunctionDef {
        params: vec![(Ty::StructTy(5), AccessMode::Owned)],
        ret: None,
    });
    let mut g = Graph::new();
    let start = g.add_node(NodeKind::Start);
    let buildup = g.add_node(NodeKind::Buildup(5));
    let call = g.add_node(NodeKind::Function(sink));
    g.add_edge((buildup, 0), (call, 1));
    g.add_edge((start, 0), (call, 0));
    assert_eq!(
        compile(&g, &types, &funcs),
        Err(CompileError::UnknownStruct { sid: 5 })
    );
}

#[test]
fn a_flow_cycle_exhausts_the_walk_budget_instead_of_hanging() {
    let types = TypeRegistry::new();
    let mut funcs = FunctionRegistry::new();
    let nop = funcs.register(FunctionDef { params: vec![], ret: None });
    let mut g = Graph::new();
    let start = g.add_node(NodeKind::Start);
    let a = g.add_node(NodeKind::Function(nop));
    g.add_edge((start, 0), (a, 0));
    g.add_edge((a, 0), (a, 0));
    assert_eq!(compile(&g, &types, &funcs), Err(CompileError::LimitExceeded));
}

#[test]
fn references_reach_through_nested_structures() {
    let mut types = TypeRegistry::new();
    let inner = types.register_struct(StructDef { fields: vec![Ty::I32] }).unwrap();
    let outer = types
        .register_struct(StructDef { fields: vec![Ty::StructTy(inner)] })
        .unwrap();
    let mut funcs = FunctionRegistry::new();
    let sink = funcs.register(FunctionDef {
        params: vec![(Ty::I32, AccessMode::SharedRef)],
        ret: None,
    });

    let mut g = Graph::new();
    let start = g.add_node(NodeKind::Start);
    let prim = g.add_node(NodeKind::Primitive(Literal::I32(5)));
    let build_inner = g.add_node(NodeKind::Buildup(inner));
    let build_outer = g.add_node(NodeKind::Buildup(outer));
    let take_inner = g.add_node(NodeKind::Breakdown(BreakdownNode {
        breakdown_type: BreakdownType::Reference,
        num_fields: 1,
    }));
    let take_field = g.add_node(NodeKind::Breakdown(BreakdownNode {
        breakdown_type: BreakdownType::Reference,
        num_fields: 1,
    }));
    let call = g.add_node(NodeKind::Function(sink));

    assert!(g.connect((prim, 0), (build_inner, 0), &types, &funcs));
    assert!(g.connect((build_inner, 0), (build_outer, 0), &types, &funcs));
    assert!(g.connect((build_outer, 0), (take_inner, 0), &types, &funcs));
    assert!(g.connect((take_inner, 0), (take_field, 0), &types, &funcs));
    assert!(g.connect((take_field, 0), (call, 1), &types, &funcs));
    assert!(g.connect((start, 0), (call, 0), &types, &funcs));

    let code = compile(&g, &types, &funcs).unwrap();
    let mut host = RecordingHost::new();
    let mut vm = Vm::new();
    vm.run(&code, &funcs, &mut host, 10_000).unwrap();
    assert_eq!(host.calls.len(), 1);
    assert_eq!(host.calls[0].1, vec![Value::I32(5)]);
}

#[test]
fn a_two_stage_pipeline_threads_one_call_result_into_the_next() {
    struct DoublingHost {
        printed: Vec<Value>,
    }
    impl Host for DoublingHost {
        fn invoke(&mut self, handle: usize, args: Vec<Value>) -> CallOutcome {
            let args_after: Vec<Value> = args.iter().map(|a| a.duplicate()).collect();
            let ret = match handle {
                0 => match args.first() {
                    Some(Value::I32(x)) => Some(Value::I32(x * 2)),
                    _ => Some(Value::I32(0)),
                },
                _ => {
                    for a in &args {
                        self.printed.push(a.duplicate());
                    }
                    None
                },
            };
            CallOutcome { args_after, ret }
        }
        fn run_query(&mut self, _a: &Vec<flowvm::types::QueryDataType>) -> Vec<Value> {
            Vec::new()
        }
    }

    let types = TypeRegistry::new();
    let mut funcs = FunctionRegistry::new();
    let double = funcs.register(FunctionDef {
        params: vec![(Ty::I32, AccessMode::Owned)],
        ret: Some((Ty::I32, AccessMode::Owned)),
    });
    let print = funcs.register(FunctionDef {
        params: vec![(Ty::I32, AccessMode::Owned)],
        ret: None,
    });

    let mut g = Graph::new();
    let start = g.add_node(NodeKind::Start);
    let prim = g.add_node(NodeKind::Primitive(Literal::I32(21)));
    let doubler = g.add_node(NodeKind::Function(double));
    let printer = g.add_node(NodeKind::Function(print));
    assert!(g.connect((prim, 0), (doubler, 1), &types, &funcs));
    assert!(g.connect((start, 0), (doubler, 0), &types, &funcs));
    assert!(g.connect((doubler, 1), (printer, 1), &types, &funcs));
    assert!(g.connect((doubler, 0), (printer, 0), &types, &funcs));

    let code = compile(&g, &types, &funcs).unwrap();
    let mut host = DoublingHost { printed: Vec::new() };
    let mut vm = Vm::new();
    vm.run(&code, &funcs, &mut host, 10_000).unwrap();
    assert_eq!(host.printed, vec![Value::I32(42)]);
}

#[test]
fn a_single_terminal_query_compiles_to_its_binding_alone() {
    let types = TypeRegistry::new();
    let funcs = FunctionRegistry::new();
    let mut g = Graph::new();
    let start = g.add_node(NodeKind::Start);
    let query = g.add_node(NodeKind::Query(vec![]));
    assert!(g.connect((start, 0), (query, 0), &types, &funcs));
    let code = compile(&g, &types, &funcs).unwrap();
    assert_eq!(code, vec![Bytecode::BindQuery(vec![])]);
}

#[test]
fn a_lone_start_compiles_to_the_empty_program() {
    let types = TypeRegistry::new();
    let funcs = FunctionRegistry::new();
    let mut g = Graph::new();
    g.add_node(NodeKind::Start);
    let code = compile(&g, &types, &funcs).unwrap();
    assert!(code.is_empty());
}

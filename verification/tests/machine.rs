//! The stack machine exercised instruction by instruction, including every
//! fatal condition the run can abort with.

use flowvm::bytecode::Bytecode;
use flowvm::types::{AccessMode, FunctionDef, FunctionRegistry, QueryDataType, Ty};
use flowvm::value::{Fields, Value};
use flowvm::vm::{CallOutcome, Host, RunError, Slot, Vm};

/// A host for instruction-level tests: hands arguments back unchanged and
/// returns the first argument when asked for a value.
struct EchoHost;

impl Host for EchoHost {
    fn invoke(&mut self, _handle: usize, args: Vec<Value>) -> CallOutcome {
        let ret = args.first().map(|a| a.duplicate());
        let args_after: Vec<Value> = args.iter().map(|a| a.duplicate()).collect();
        CallOutcome { args_after, ret }
    }

    fn run_query(&mut self, _accesses: &Vec<QueryDataType>) -> Vec<Value> {
        vec![Value::I32(1), Value::I32(2)]
    }
}

fn struct_of(values: Vec<Value>) -> Value {
    Value::StructVal(Box::new(Fields::from_vec(&values)))
}

fn list_of(values: Vec<Value>) -> Value {
    Value::ListVal(Box::new(Fields::from_vec(&values)))
}

#[test]
fn pop_on_an_empty_stack_underflows() {
    let mut vm = Vm::new();
    assert_eq!(vm.exec_pop(), Err(RunError::StackUnderflow));
}

#[test]
fn push_then_pop_leaves_the_stack_as_it_was() {
    let mut vm = Vm::new();
    vm.exec_push_literal(Value::I32(9)).unwrap();
    assert_eq!(vm.stack.len(), 1);
    vm.exec_pop().unwrap();
    assert_eq!(vm.stack.len(), 0);
}

#[test]
fn duplicate_copies_the_value_and_keeps_the_original() {
    let mut vm = Vm::new();
    vm.exec_push_literal(Value::I32(4)).unwrap();
    vm.exec_duplicate(0).unwrap();
    assert_eq!(vm.slot_value(0).unwrap(), Value::I32(4));
    assert_eq!(vm.slot_value(1).unwrap(), Value::I32(4));
    assert_eq!(vm.exec_duplicate(7), Err(RunError::BadSlot { slot: 7 }));
}

#[test]
fn field_clone_projects_an_owned_copy() {
    let mut vm = Vm::new();
    vm.exec_push_literal(struct_of(vec![Value::I32(1), Value::Text(String::from("x"))]))
        .unwrap();
    vm.exec_field_clone(0, 1).unwrap();
    assert_eq!(vm.slot_value(1).unwrap(), Value::Text(String::from("x")));
    assert_eq!(vm.exec_field_clone(0, 5), Err(RunError::BadPath));
    vm.exec_push_literal(Value::I32(3)).unwrap();
    assert_eq!(vm.exec_field_clone(2, 0), Err(RunError::NotAStruct));
}

#[test]
fn field_references_read_through_to_the_owner() {
    let mut vm = Vm::new();
    vm.exec_push_literal(struct_of(vec![Value::I32(1), Value::I32(2)])).unwrap();
    vm.exec_field_ref(0, 0).unwrap();
    vm.exec_field_mut_ref(0, 1).unwrap();
    assert_eq!(vm.slot_value(1).unwrap(), Value::I32(1));
    assert_eq!(vm.slot_value(2).unwrap(), Value::I32(2));
}

#[test]
fn mutable_access_through_a_shared_reference_is_fatal() {
    let mut vm = Vm::new();
    vm.exec_push_literal(struct_of(vec![struct_of(vec![Value::I32(1)])])).unwrap();
    vm.exec_field_ref(0, 0).unwrap();
    assert_eq!(vm.exec_field_mut_ref(1, 0), Err(RunError::MutateSharedValue));
}

#[test]
fn assemble_apply_writes_into_an_owned_receiver() {
    let mut vm = Vm::new();
    vm.exec_push_literal(struct_of(vec![Value::I32(0), Value::I32(0)])).unwrap();
    vm.exec_push_literal(Value::I32(42)).unwrap();
    vm.exec_assemble_apply(1).unwrap();
    assert_eq!(vm.stack.len(), 1);
    assert_eq!(
        vm.top_value().unwrap(),
        struct_of(vec![Value::I32(0), Value::I32(42)])
    );
}

#[test]
fn assemble_apply_writes_back_through_an_exclusive_reference() {
    let mut vm = Vm::new();
    vm.exec_push_literal(struct_of(vec![struct_of(vec![Value::I32(0)])])).unwrap();
    vm.exec_field_mut_ref(0, 0).unwrap();
    vm.exec_push_literal(Value::I32(5)).unwrap();
    vm.exec_assemble_apply(0).unwrap();
    assert_eq!(
        vm.slot_value(0).unwrap(),
        struct_of(vec![struct_of(vec![Value::I32(5)])])
    );
}

#[test]
fn assemble_apply_against_a_shared_receiver_is_fatal() {
    let mut vm = Vm::new();
    vm.exec_push_literal(struct_of(vec![Value::I32(0)])).unwrap();
    vm.exec_field_ref(0, 0).unwrap();
    vm.exec_push_literal(Value::I32(5)).unwrap();
    assert_eq!(vm.exec_assemble_apply(0), Err(RunError::MutateSharedValue));
}

#[test]
fn explode_splits_a_list_of_the_declared_length() {
    let mut vm = Vm::new();
    vm.exec_push_literal(list_of(vec![Value::I32(1), Value::I32(2)])).unwrap();
    vm.exec_explode(2).unwrap();
    assert_eq!(vm.stack.len(), 2);
    assert_eq!(vm.slot_value(0).unwrap(), Value::I32(1));
    assert_eq!(vm.slot_value(1).unwrap(), Value::I32(2));
}

#[test]
fn explode_refuses_wrong_lengths_and_non_lists() {
    let mut vm = Vm::new();
    vm.exec_push_literal(list_of(vec![Value::I32(1)])).unwrap();
    assert_eq!(vm.exec_explode(3), Err(RunError::ListLengthMismatch));
    let mut vm2 = Vm::new();
    vm2.exec_push_literal(Value::I32(1)).unwrap();
    assert_eq!(vm2.exec_explode(1), Err(RunError::NotAList));
}

#[test]
fn advance_iterator_yields_each_item_then_falls_through() {
    let mut vm = Vm::new();
    vm.exec_push_literal(Value::IterVal(
        Box::new(Fields::from_vec(&vec![Value::I32(7)])),
        0,
    ))
    .unwrap();
    assert_eq!(vm.exec_advance_iterator(), Ok(true));
    assert_eq!(vm.top_value().unwrap(), Value::I32(7));
    vm.exec_pop().unwrap();
    assert_eq!(vm.exec_advance_iterator(), Ok(false));
}

#[test]
fn advance_iterator_on_a_scalar_is_fatal() {
    let mut vm = Vm::new();
    vm.exec_push_literal(Value::I32(7)).unwrap();
    assert_eq!(vm.exec_advance_iterator(), Err(RunError::NotIterable));
}

#[test]
fn a_stale_handle_is_caught_instead_of_reading_a_reused_slot() {
    let mut vm = Vm::new();
    vm.exec_push_literal(struct_of(vec![Value::I32(1)])).unwrap();
    vm.exec_field_ref(0, 0).unwrap();
    // Drop the owner, then let something else take its slot.
    let handle_cell = vm.stack.pop().unwrap();
    vm.exec_pop().unwrap();
    vm.exec_push_literal(struct_of(vec![Value::I32(99)])).unwrap();
    vm.stack.push(handle_cell);
    assert_eq!(vm.top_value(), Err(RunError::StaleHandle));
}

#[test]
fn call_routes_arguments_by_declared_mode() {
    let mut funcs = FunctionRegistry::new();
    let f = funcs.register(FunctionDef {
        params: vec![(Ty::I32, AccessMode::Owned)],
        ret: Some((Ty::I32, AccessMode::Owned)),
    });
    let mut vm = Vm::new();
    let mut host = EchoHost;
    vm.exec_push_literal(Value::I32(6)).unwrap();
    vm.exec_call(f, &funcs, &mut host).unwrap();
    assert_eq!(vm.stack.len(), 1);
    assert_eq!(vm.top_value().unwrap(), Value::I32(6));
}

#[test]
fn call_refuses_a_shared_argument_for_an_owned_parameter() {
    let mut funcs = FunctionRegistry::new();
    let f = funcs.register(FunctionDef {
        params: vec![(Ty::I32, AccessMode::Owned)],
        ret: None,
    });
    let mut vm = Vm::new();
    let mut host = EchoHost;
    vm.exec_push_literal(struct_of(vec![Value::I32(1)])).unwrap();
    vm.exec_field_ref(0, 0).unwrap();
    assert_eq!(
        vm.exec_call(f, &funcs, &mut host),
        Err(RunError::ArgumentModeMismatch)
    );
}

#[test]
fn call_writes_exclusive_borrows_back() {
    struct SetterHost;
    impl Host for SetterHost {
        fn invoke(&mut self, _handle: usize, args: Vec<Value>) -> CallOutcome {
            let mut args_after: Vec<Value> = Vec::new();
            for _a in &args {
                args_after.push(Value::I32(77));
            }
            CallOutcome { args_after, ret: None }
        }
        fn run_query(&mut self, _a: &Vec<QueryDataType>) -> Vec<Value> {
            Vec::new()
        }
    }
    let mut funcs = FunctionRegistry::new();
    let f = funcs.register(FunctionDef {
        params: vec![(Ty::I32, AccessMode::ExclusiveRef)],
        ret: None,
    });
    let mut vm = Vm::new();
    let mut host = SetterHost;
    vm.exec_push_literal(struct_of(vec![Value::I32(1)])).unwrap();
    vm.exec_field_mut_ref(0, 0).unwrap();
    vm.exec_call(f, &funcs, &mut host).unwrap();
    assert_eq!(vm.slot_value(0).unwrap(), struct_of(vec![Value::I32(77)]));
}

#[test]
fn call_checks_the_host_against_the_declared_signature() {
    struct WrongArityHost;
    impl Host for WrongArityHost {
        fn invoke(&mut self, _handle: usize, _args: Vec<Value>) -> CallOutcome {
            CallOutcome { args_after: Vec::new(), ret: None }
        }
        fn run_query(&mut self, _a: &Vec<QueryDataType>) -> Vec<Value> {
            Vec::new()
        }
    }
    let mut funcs = FunctionRegistry::new();
    let f = funcs.register(FunctionDef {
        params: vec![(Ty::I32, AccessMode::Owned)],
        ret: None,
    });
    let mut vm = Vm::new();
    let mut host = WrongArityHost;
    vm.exec_push_literal(Value::I32(1)).unwrap();
    assert_eq!(
        vm.exec_call(f, &funcs, &mut host),
        Err(RunError::CallOutcomeMismatch)
    );
}

#[test]
fn call_with_an_unknown_handle_is_fatal() {
    let funcs = FunctionRegistry::new();
    let mut vm = Vm::new();
    let mut host = EchoHost;
    assert_eq!(
        vm.exec_call(3, &funcs, &mut host),
        Err(RunError::UnknownFunction { handle: 3 })
    );
}

#[test]
fn a_missing_return_value_is_fatal() {
    struct SilentHost;
    impl Host for SilentHost {
        fn invoke(&mut self, _handle: usize, args: Vec<Value>) -> CallOutcome {
            let args_after: Vec<Value> = args.iter().map(|a| a.duplicate()).collect();
            CallOutcome { args_after, ret: None }
        }
        fn run_query(&mut self, _a: &Vec<QueryDataType>) -> Vec<Value> {
            Vec::new()
        }
    }
    let mut funcs = FunctionRegistry::new();
    let f = funcs.register(FunctionDef {
        params: vec![],
        ret: Some((Ty::I32, AccessMode::Owned)),
    });
    let mut vm = Vm::new();
    let mut host = SilentHost;
    assert_eq!(
        vm.exec_call(f, &funcs, &mut host),
        Err(RunError::CallOutcomeMismatch)
    );
}

#[test]
fn bind_query_pushes_a_fresh_iterator() {
    let mut vm = Vm::new();
    let mut host = EchoHost;
    vm.exec_bind_query(&vec![QueryDataType::Entity], &mut host).unwrap();
    assert_eq!(vm.exec_advance_iterator(), Ok(true));
    assert_eq!(vm.top_value().unwrap(), Value::I32(1));
}

#[test]
fn a_jump_beyond_the_program_is_fatal() {
    let funcs = FunctionRegistry::new();
    let code = vec![Bytecode::Jump(5)];
    let mut vm = Vm::new();
    let mut host = EchoHost;
    assert_eq!(
        vm.run(&code, &funcs, &mut host, 100),
        Err(RunError::BadJumpTarget { target: 5 })
    );
}

#[test]
fn a_jump_to_the_end_halts() {
    let funcs = FunctionRegistry::new();
    let code = vec![Bytecode::Jump(1)];
    let mut vm = Vm::new();
    let mut host = EchoHost;
    assert_eq!(vm.run(&code, &funcs, &mut host, 100), Ok(()));
}

#[test]
fn an_endless_jump_loop_exhausts_the_step_budget() {
    let funcs = FunctionRegistry::new();
    let code = vec![Bytecode::Jump(0)];
    let mut vm = Vm::new();
    let mut host = EchoHost;
    assert_eq!(
        vm.run(&code, &funcs, &mut host, 100),
        Err(RunError::LimitExceeded)
    );
}

#[test]
fn a_duplicated_handle_aliases_its_original() {
    let mut vm = Vm::new();
    vm.exec_push_literal(struct_of(vec![Value::I32(3)])).unwrap();
    vm.exec_field_ref(0, 0).unwrap();
    vm.exec_duplicate(1).unwrap();
    assert_eq!(vm.slot_value(2).unwrap(), Value::I32(3));
    assert!(matches!(vm.stack[2].slot, Slot::Shared(_)));
}

#[test]
fn whole_value_handles_cover_their_slot() {
    let mut vm = Vm::new();
    vm.exec_push_literal(Value::I32(3)).unwrap();
    vm.exec_slot_clone(0).unwrap();
    vm.exec_slot_ref(0).unwrap();
    vm.exec_slot_mut_ref(0).unwrap();
    assert_eq!(vm.slot_value(1).unwrap(), Value::I32(3));
    assert_eq!(vm.slot_value(2).unwrap(), Value::I32(3));
    assert_eq!(vm.slot_value(3).unwrap(), Value::I32(3));
    assert!(matches!(vm.stack[2].slot, Slot::Shared(_)));
    assert!(matches!(vm.stack[3].slot, Slot::Excl(_)));
}

#[test]
fn a_whole_exclusive_handle_is_never_issued_over_a_shared_one() {
    let mut vm = Vm::new();
    vm.exec_push_literal(struct_of(vec![Value::I32(1)])).unwrap();
    vm.exec_field_ref(0, 0).unwrap();
    assert_eq!(vm.exec_slot_mut_ref(1), Err(RunError::MutateSharedValue));
}

#[test]
fn apply_replaces_the_borrowed_value_wholesale() {
    let mut vm = Vm::new();
    vm.exec_push_literal(Value::I32(1)).unwrap();
    vm.exec_slot_mut_ref(0).unwrap();
    vm.exec_push_literal(Value::I32(9)).unwrap();
    vm.exec_apply().unwrap();
    assert_eq!(vm.stack.len(), 1);
    assert_eq!(vm.slot_value(0).unwrap(), Value::I32(9));
}

#[test]
fn apply_refuses_receivers_it_cannot_write_through() {
    let mut vm = Vm::new();
    vm.exec_push_literal(Value::I32(1)).unwrap();
    vm.exec_push_literal(Value::I32(9)).unwrap();
    assert_eq!(vm.exec_apply(), Err(RunError::NotExclusive));
    let mut vm2 = Vm::new();
    vm2.exec_push_literal(struct_of(vec![Value::I32(1)])).unwrap();
    vm2.exec_field_ref(0, 0).unwrap();
    vm2.exec_push_literal(Value::I32(9)).unwrap();
    assert_eq!(vm2.exec_apply(), Err(RunError::MutateSharedValue));
}

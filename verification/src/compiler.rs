//! The graph-to-bytecode compiler.
//!
//! One compile pass walks the control-flow edges from the unique start node,
//! emitting a straight-line instruction sequence.  Data dependencies are
//! materialized on demand and memoized in the scope map: every output port
//! is materialized at most once per pass, and the map is append-only.  Loop
//! bodies are compiled into the same buffer with back-patched jump targets
//! and leave the stack pointer exactly where they found it.

use crate::bytecode::{Bytecode, spec_targets_in_bounds};
use crate::graph::{BreakdownType, Graph, NodeKind, lemma_single_start_is_unique, spec_count_starts, spec_first_edge_from, spec_first_edge_into};
use crate::state::{CompileState, spec_state_evolves, lemma_evolves_refl, lemma_evolves_trans};
use crate::types::{AccessMode, FunctionRegistry, QueryDataType, Ty, TypeRegistry};
use crate::value::{Value, default_value, spec_is_default};
use vstd::prelude::*;

verus! {

broadcast use lemma_evolves_trans;

/// Why a compile pass aborted.
#[derive(Clone, Copy, Debug, PartialEq, Eq, Structural)]
pub enum CompileError {
    /// The graph has no start node.
    NoStart,
    /// The graph has more than one start node.
    MultipleStarts,
    /// A flow edge leads into a node that flow cannot pass through.
    FlowTypeViolation { node: usize },
    /// A data edge leads out of a node that produces no value there; the
    /// editor's gate should have made this impossible.
    ResolverContractViolation { node: usize },
    /// A data input consumed at compile time is not connected.
    UnconnectedInput { node: usize, port: usize },
    /// A call node is bound to a handle the function table does not know.
    UnknownFunction { handle: usize },
    /// A buildup node names a structure the type table does not know.
    UnknownStruct { sid: usize },
    /// A resource guard of this implementation was hit: the walk or the
    /// stack-slot counter outgrew its budget.
    LimitExceeded,
}

/// A node kind the flow walk can pass through.
pub open spec fn spec_flow_capable(kind: NodeKind) -> bool {
    ||| kind is Function
    ||| kind is For
    ||| kind is Query
    ||| kind is Ownership
    ||| kind is Apply
}

/// Every field input of the buildup node is connected to a port the scope
/// map already holds, so assembling it needs no further upstream work.
pub open spec fn spec_buildup_ready(
    g: Graph,
    types: TypeRegistry,
    map: Map<(usize, usize), usize>,
    node: usize,
    sid: usize,
) -> bool {
    &&& sid < types.structs@.len()
    &&& (forall|k: int|
        0 <= k < types.structs@[sid as int].fields@.len()
            ==> (#[trigger] spec_first_edge_into(g.edges@, node, k as usize) matches Some(up)
            && map.contains_key(up)))
}

/// Ensures a value for the output port `(node, port)` exists on the
/// evaluation stack and returns its slot.  Materialization happens at most
/// once per port and pass: a port already in the scope map is answered from
/// it with no new instructions and no state change at all.
#[verifier::rlimit(80)]
pub fn resolve_data_dependency(
    st: &mut CompileState,
    g: &Graph,
    types: &TypeRegistry,
    funcs: &FunctionRegistry,
    node: usize,
    port: usize,
    fuel: usize,
) -> (r: Result<usize, CompileError>)
    requires
        old(st).wf(),
        types.wf(),
        spec_targets_in_bounds(old(st).bytecode@, old(st).bytecode@.len() as int),
    ensures
        spec_state_evolves(*old(st), *final(st)),
        spec_targets_in_bounds(final(st).bytecode@, final(st).bytecode@.len() as int),
        old(st).scope_map@.contains_key((node, port)) ==> *final(st) == *old(st) && r == Ok::<
            usize,
            CompileError,
        >(old(st).scope_map@[(node, port)]),
        r matches Ok(slot) ==> final(st).scope_map@.contains_key((node, port))
            && final(st).scope_map@[(node, port)] == slot,
        // A freshly assigned slot always lies below the stack pointer.  (A
        // memoized answer from an unwound loop body may not: the private
        // working region's slots are stale by design once the loop exits.)
        r matches Ok(slot) ==> (!old(st).scope_map@.contains_key((node, port)) ==> slot < final(st).stack_ptr),
        // A primitive not yet materialized clones its literal into the
        // instruction stream and takes the next free slot.
        r matches Ok(slot) ==> (!old(st).scope_map@.contains_key((node, port)) && node
            < g.nodes@.len() ==> (g.nodes@[node as int] matches NodeKind::Primitive(lit) ==> {
            &&& final(st).bytecode@ == old(st).bytecode@.push(
                Bytecode::PushLiteral(lit.spec_value()),
            )
            &&& slot == old(st).stack_ptr
            &&& final(st).stack_ptr == old(st).stack_ptr + 1
        })),
        // Query and for nodes are booked, never emitted, here: their values
        // appear where the flow compiler reaches them.
        r matches Ok(slot) ==> (!old(st).scope_map@.contains_key((node, port)) && node
            < g.nodes@.len() && (g.nodes@[node as int] is Query || g.nodes@[node as int] is For)
            ==> {
            &&& final(st).bytecode@ == old(st).bytecode@
            &&& slot == old(st).stack_ptr
            &&& final(st).stack_ptr == old(st).stack_ptr + 1
        }),
        // A breakdown ends in exactly the projection instruction its
        // configured mode selects, aimed at its upstream's slot; the
        // projected value takes the next free slot.
        r matches Ok(slot) ==> (!old(st).scope_map@.contains_key((node, port)) && node
            < g.nodes@.len() ==> (g.nodes@[node as int] matches NodeKind::Breakdown(b) ==> {
            &&& final(st).bytecode@.len() > old(st).bytecode@.len()
            &&& (spec_first_edge_into(g.edges@, node, 0) matches Some((un, up))
                && final(st).scope_map@.contains_key((un, up)) && final(st).bytecode@.last() == (
            match b.breakdown_type {
                BreakdownType::Owned => Bytecode::FieldClone(
                    final(st).scope_map@[(un, up)],
                    port,
                ),
                BreakdownType::Reference => Bytecode::FieldRef(final(st).scope_map@[(un, up)], port),
                BreakdownType::MutReference => Bytecode::FieldMutRef(
                    final(st).scope_map@[(un, up)],
                    port,
                ),
            }))
            &&& slot + 1 == final(st).stack_ptr
        })),
        // An ownership adapter re-labels its upstream value: the whole value
        // is cloned or handed out as a shared or exclusive handle, by the
        // adapter's configured mode.
        r matches Ok(slot) ==> (!old(st).scope_map@.contains_key((node, port)) && node
            < g.nodes@.len() ==> (g.nodes@[node as int] matches NodeKind::Ownership(m) ==> {
            &&& final(st).bytecode@.len() > old(st).bytecode@.len()
            &&& (spec_first_edge_into(g.edges@, node, 1) matches Some(up)
                && final(st).scope_map@.contains_key(up) && final(st).bytecode@.last() == (
            match m {
                AccessMode::Owned => Bytecode::SlotClone(final(st).scope_map@[up]),
                AccessMode::SharedRef => Bytecode::SlotRef(final(st).scope_map@[up]),
                AccessMode::ExclusiveRef => Bytecode::SlotMutRef(final(st).scope_map@[up]),
            }))
            &&& slot + 1 == final(st).stack_ptr
        })),
        // A buildup materializes every field first, then pushes a default
        // instance of the target structure followed by one duplicate/apply
        // pair per field, in field order.
        r matches Ok(slot) ==> (!old(st).scope_map@.contains_key((node, port)) && node
            < g.nodes@.len() ==> (g.nodes@[node as int] matches NodeKind::Buildup(sid) ==> {
            let n = types.structs@[sid as int].fields@.len() as int;
            let end = final(st).bytecode@.len() as int;
            let base = end - 2 * n - 1;
            &&& sid < types.structs@.len()
            &&& base >= old(st).bytecode@.len()
            &&& (final(st).bytecode@[base] matches Bytecode::PushLiteral(dv) && spec_is_default(
                *types,
                Ty::StructTy(sid),
                dv,
            ))
            &&& (forall|i: int|
                0 <= i < n ==> (#[trigger] spec_first_edge_into(
                    g.edges@,
                    node,
                    i as usize,
                ) matches Some(up) && final(st).scope_map@.contains_key(up)
                    && final(st).bytecode@[base + 1 + 2 * i] == Bytecode::Duplicate(
                    final(st).scope_map@[up],
                )
                    && final(st).bytecode@[base + 2 + 2 * i] == Bytecode::AssembleApply(
                    i as usize,
                )))
            &&& slot + 1 == final(st).stack_ptr
        })),
        // A tuple breakdown duplicates its list and explodes it, reserving
        // one consecutive slot per element port.
        r matches Ok(slot) ==> (!old(st).scope_map@.contains_key((node, port)) && node
            < g.nodes@.len() ==> (g.nodes@[node as int] matches NodeKind::TupleBreakdown(t) ==> {
            let end = final(st).bytecode@.len() as int;
            &&& end >= old(st).bytecode@.len() + 2
            &&& (spec_first_edge_into(g.edges@, node, 0) matches Some(up)
                && final(st).scope_map@.contains_key(up) && final(st).bytecode@[end - 2]
                == Bytecode::Duplicate(final(st).scope_map@[up]))
            &&& final(st).bytecode@[end - 1] == Bytecode::ExplodeList(t.length)
            &&& (forall|j: int|
                0 <= j < t.length ==> #[trigger] final(st).scope_map@.contains_key(
                    (node, j as usize),
                ))
            &&& final(st).stack_ptr >= old(st).stack_ptr + t.length
        })),
        // Success is owed outright on kinds that need no upstream work, and
        // on the projection and assembly kinds once their upstream ports
        // are already in the scope map.
        ({
            &&& !old(st).scope_map@.contains_key((node, port))
            &&& node < g.nodes@.len()
            &&& (g.nodes@[node as int] is Primitive || g.nodes@[node as int] is Query
                || g.nodes@[node as int] is For)
            &&& fuel >= 1
            &&& old(st).stack_ptr < usize::MAX
        }) ==> r is Ok,
        ({
            &&& !old(st).scope_map@.contains_key((node, port))
            &&& node < g.nodes@.len()
            &&& g.nodes@[node as int] is Breakdown
            &&& (spec_first_edge_into(g.edges@, node, 0) matches Some(up)
                && old(st).scope_map@.contains_key(up))
            &&& fuel >= 1
            &&& old(st).stack_ptr < usize::MAX
        }) ==> (r == Ok::<usize, CompileError>(old(st).stack_ptr) && final(st).stack_ptr == old(st).stack_ptr + 1 && final(st).bytecode@.len() == old(st).bytecode@.len() + 1),
        ({
            &&& !old(st).scope_map@.contains_key((node, port))
            &&& node < g.nodes@.len()
            &&& g.nodes@[node as int] is Ownership
            &&& (spec_first_edge_into(g.edges@, node, 1) matches Some(up)
                && old(st).scope_map@.contains_key(up))
            &&& fuel >= 1
            &&& old(st).stack_ptr < usize::MAX
        }) ==> (r == Ok::<usize, CompileError>(old(st).stack_ptr) && final(st).stack_ptr == old(st).stack_ptr + 1 && final(st).bytecode@.len() == old(st).bytecode@.len() + 1),
        ({
            &&& !old(st).scope_map@.contains_key((node, port))
            &&& node < g.nodes@.len()
            &&& (g.nodes@[node as int] matches NodeKind::Buildup(sid) && spec_buildup_ready(
                *g,
                *types,
                old(st).scope_map@,
                node,
                sid,
            ))
            &&& fuel >= 1
            &&& old(st).stack_ptr < usize::MAX
        }) ==> r is Ok,
        // With the list source memoized and every element port fresh, the
        // explosion is owed and reserves exactly the next `length`
        // consecutive slots, one per element port in order.
        ({
            &&& node < g.nodes@.len()
            &&& (g.nodes@[node as int] matches NodeKind::TupleBreakdown(t) && port < t.length
                && old(st).stack_ptr + t.length <= usize::MAX && (forall|j: int|
                0 <= j < t.length ==> !(#[trigger] old(st).scope_map@.contains_key(
                    (node, j as usize),
                ))))
            &&& (spec_first_edge_into(g.edges@, node, 0) matches Some(up)
                && old(st).scope_map@.contains_key(up))
            &&& fuel >= 1
        }) ==> (r is Ok && (g.nodes@[node as int] matches NodeKind::TupleBreakdown(t) ==> {
            &&& final(st).stack_ptr == old(st).stack_ptr + t.length
            &&& final(st).bytecode@.len() == old(st).bytecode@.len() + 2
            &&& (forall|j: int|
                0 <= j < t.length ==> (#[trigger] final(st).scope_map@.contains_key(
                    (node, j as usize),
                )) && final(st).scope_map@[(node, j as usize)] == old(st).stack_ptr + j)
        })),
        // Resolving a port of a node that produces no value there fails:
        // these are the flow-only kinds of the graph-shape taxonomy.
        (!old(st).scope_map@.contains_key((node, port)) && (node >= g.nodes@.len() || g.nodes@[node as int] is Start || g.nodes@[node as int] is Function || g.nodes@[node as int]
            is Apply || g.nodes@[node as int] is IfElse)) ==> r is Err,
        r matches Err(e) ==> !(e is NoStart) && !(e is MultipleStarts) && !(e
            is FlowTypeViolation),
    decreases fuel,
{
    proof {
        lemma_evolves_refl(*old(st));
    }
    if let Some(slot) = st.scope_map.get(node, port) {
        proof {
            let pp = port as int;
            assert(old(st).scope_map@.contains_key((node, pp as usize)));
        }
        return Ok(slot);
    }
    if fuel == 0 {
        return Err(CompileError::LimitExceeded);
    }
    let kind = match g.node(node) {
        Some(k) => k,
        None => {
            return Err(CompileError::ResolverContractViolation { node });
        },
    };
    match kind {
        NodeKind::Primitive(lit) => {
            st.emit(Bytecode::PushLiteral(Value::of_literal(lit)));
            let slot = st.stack_ptr;
            st.book(node, port, slot);
            st.bump()?;
            Ok(slot)
        },
        NodeKind::Breakdown(b) => {
            let upstream = match g.edge_into(node, 0) {
                Some(u) => u,
                None => {
                    return Err(CompileError::UnconnectedInput { node, port: 0 });
                },
            };
            let up_slot = resolve_data_dependency(st, g, types, funcs, upstream.0, upstream.1, fuel - 1)?;
            if st.scope_map.get(node, port).is_some() {
                // The upstream materialization led back to this very port:
                // the data edges form a cycle, which no edit sequence under
                // the connection gate produces.
                return Err(CompileError::ResolverContractViolation { node });
            }
            let instr = match b.breakdown_type {
                BreakdownType::Owned => Bytecode::FieldClone(up_slot, port),
                BreakdownType::Reference => Bytecode::FieldRef(up_slot, port),
                BreakdownType::MutReference => Bytecode::FieldMutRef(up_slot, port),
            };
            st.emit(instr);
            let slot = st.stack_ptr;
            st.book(node, port, slot);
            st.bump()?;
            Ok(slot)
        },
        NodeKind::Buildup(sid) => {
            let sid = *sid;
            let ghost ready = spec_buildup_ready(*g, *types, old(st).scope_map@, node, sid);
            let nfields = match types.field_count(sid) {
                Some(n) => n,
                None => {
                    return Err(CompileError::UnknownStruct { sid });
                },
            };
            // Materialize every field input first, so that the apply
            // sequence below needs no lookups beyond the scope map.
            let mut k: usize = 0;
            while k < nfields
                invariant
                    st.wf(),
                    types.wf(),
                    fuel >= 1,
                    node < g.nodes@.len(),
                    g.nodes@[node as int] == NodeKind::Buildup(sid),
                    ready == spec_buildup_ready(*g, *types, old(st).scope_map@, node, sid),
                    sid < types.structs@.len(),
                    nfields == types.structs@[sid as int].fields@.len(),
                    !old(st).scope_map@.contains_key((node, port)),
                    spec_targets_in_bounds(st.bytecode@, st.bytecode@.len() as int),
                    spec_state_evolves(*old(st), *st),
                    ready ==> *st == *old(st),
                    k <= nfields,
                decreases nfields - k,
            {
                proof {
                    if ready {
                        let kk = k as int;
                        assert(spec_first_edge_into(g.edges@, node, kk as usize) matches Some(up2)
                            && old(st).scope_map@.contains_key(up2));
                        assert(kk as usize == k);
                    }
                }
                let up = match g.edge_into(node, k) {
                    Some(u) => u,
                    None => {
                        return Err(CompileError::UnconnectedInput { node, port: k });
                    },
                };
                resolve_data_dependency(st, g, types, funcs, up.0, up.1, fuel - 1)?;
                k += 1;
            }
            if st.scope_map.get(node, port).is_some() {
                // A field dependency led back to this very output: the data
                // edges form a cycle.
                return Err(CompileError::ResolverContractViolation { node });
            }
            // A fresh default instance of the target type, then one
            // duplicate-and-apply pair per field.
            st.emit(Bytecode::PushLiteral(default_value(types, Ty::StructTy(sid))));
            let slot = st.stack_ptr;
            st.book(node, port, slot);
            st.bump()?;
            let ghost after_push = *st;
            let mut k: usize = 0;
            while k < nfields
                invariant
                    st.wf(),
                    node < g.nodes@.len(),
                    g.nodes@[node as int] == NodeKind::Buildup(sid),
                    ready == spec_buildup_ready(*g, *types, old(st).scope_map@, node, sid),
                    sid < types.structs@.len(),
                    nfields == types.structs@[sid as int].fields@.len(),
                    !old(st).scope_map@.contains_key((node, port)),
                    spec_targets_in_bounds(st.bytecode@, st.bytecode@.len() as int),
                    spec_state_evolves(*old(st), *st),
                    spec_state_evolves(after_push, *st),
                    st.scope_map@ == after_push.scope_map@,
                    st.stack_ptr == after_push.stack_ptr,
                    st.scope_map@.contains_key((node, port)),
                    st.scope_map@[(node, port)] == slot,
                    slot + 1 == after_push.stack_ptr,
                    after_push.bytecode@.len() >= 1,
                    after_push.bytecode@.len() > old(st).bytecode@.len(),
                    (after_push.bytecode@.last() matches Bytecode::PushLiteral(dv)
                        && spec_is_default(*types, Ty::StructTy(sid), dv)),
                    ready ==> after_push.scope_map@ == old(st).scope_map@.insert(
                        (node, port),
                        slot,
                    ),
                    st.bytecode@.len() == after_push.bytecode@.len() + 2 * k,
                    forall|i: int|
                        0 <= i < k ==> (#[trigger] spec_first_edge_into(
                            g.edges@,
                            node,
                            i as usize,
                        ) matches Some(up2) && st.scope_map@.contains_key(up2)
                            && st.bytecode@[after_push.bytecode@.len() + 2 * i]
                            == Bytecode::Duplicate(st.scope_map@[up2])
                            && st.bytecode@[after_push.bytecode@.len() + 2 * i + 1]
                            == Bytecode::AssembleApply(i as usize)),
                    k <= nfields,
                decreases nfields - k,
            {
                proof {
                    if ready {
                        let kk = k as int;
                        assert(spec_first_edge_into(g.edges@, node, kk as usize) matches Some(up2)
                            && old(st).scope_map@.contains_key(up2));
                        assert(kk as usize == k);
                    }
                }
                let up = match g.edge_into(node, k) {
                    Some(u) => u,
                    None => {
                        return Err(CompileError::UnconnectedInput { node, port: k });
                    },
                };
                let fslot = match st.scope_map.get(up.0, up.1) {
                    Some(s) => s,
                    None => {
                        return Err(CompileError::ResolverContractViolation { node: up.0 });
                    },
                };
                let ghost before = *st;
                st.emit(Bytecode::Duplicate(fslot));
                st.emit(Bytecode::AssembleApply(k));
                proof {
                    assert forall|i: int| 0 <= i < k + 1 implies (#[trigger] spec_first_edge_into(
                        g.edges@,
                        node,
                        i as usize,
                    ) matches Some(up2) && st.scope_map@.contains_key(up2)
                        && st.bytecode@[after_push.bytecode@.len() + 2 * i]
                        == Bytecode::Duplicate(st.scope_map@[up2])
                        && st.bytecode@[after_push.bytecode@.len() + 2 * i + 1]
                        == Bytecode::AssembleApply(i as usize)) by {
                        if i < k {
                            assert(st.bytecode@[after_push.bytecode@.len() + 2 * i]
                                == before.bytecode@[after_push.bytecode@.len() + 2 * i]);
                            assert(st.bytecode@[after_push.bytecode@.len() + 2 * i + 1]
                                == before.bytecode@[after_push.bytecode@.len() + 2 * i + 1]);
                        }
                    }
                }
                k += 1;
            }
            proof {
                let base = st.bytecode@.len() - 2 * (nfields as int) - 1;
                assert(st.bytecode@[base] == st.bytecode@.subrange(
                    0,
                    after_push.bytecode@.len() as int,
                )[after_push.bytecode@.len() - 1]);
            }
            Ok(slot)
        },
        NodeKind::Query(_) => {
            // The surrounding flow compiler emits the binding instruction;
            // only the slot is booked here.
            let slot = st.stack_ptr;
            st.book(node, port, slot);
            st.bump()?;
            Ok(slot)
        },
        NodeKind::For(_) => {
            // The loop compiler reserves the item's slot; only bookkeeping
            // happens here.
            let slot = st.stack_ptr;
            st.book(node, port, slot);
            st.bump()?;
            Ok(slot)
        },
        NodeKind::TupleBreakdown(t) => {
            let upstream = match g.edge_into(node, 0) {
                Some(u) => u,
                None => {
                    return Err(CompileError::UnconnectedInput { node, port: 0 });
                },
            };
            let up_slot = resolve_data_dependency(st, g, types, funcs, upstream.0, upstream.1, fuel - 1)?;
            if st.scope_map.get(node, port).is_some() {
                // The list dependency led back to this very element port:
                // the data edges form a cycle.
                return Err(CompileError::ResolverContractViolation { node });
            }
            let ghost up_pair = spec_first_edge_into(g.edges@, node, 0)->0;
            let ghost tready = old(st).scope_map@.contains_key(up_pair) && !old(st).scope_map@.contains_key((node, port)) && old(st).stack_ptr + t.length <= usize::MAX;
            let ghost texact = tready && (forall|j: int|
                0 <= j < t.length ==> !(#[trigger] old(st).scope_map@.contains_key(
                    (node, j as usize),
                )));
            proof {
                assert(st.scope_map@.contains_key(up_pair) && st.scope_map@[up_pair] == up_slot);
            }
            st.emit(Bytecode::Duplicate(up_slot));
            st.emit(Bytecode::ExplodeList(t.length));
            let ghost after_emit = *st;
            proof {
                lemma_evolves_refl(*st);
            }
            // The exploded elements occupy the next `length` consecutive
            // slots, one per element port.
            let len = t.length;
            let mut j: usize = 0;
            while j < len
                invariant
                    st.wf(),
                    node < g.nodes@.len(),
                    g.nodes@[node as int] matches NodeKind::TupleBreakdown(t2) && t2.length == len,
                    !old(st).scope_map@.contains_key((node, port)),
                    spec_targets_in_bounds(st.bytecode@, st.bytecode@.len() as int),
                    spec_state_evolves(*old(st), *st),
                    spec_state_evolves(after_emit, *st),
                    st.bytecode@ == after_emit.bytecode@,
                    after_emit.bytecode@.len() >= old(st).bytecode@.len() + 2,
                    after_emit.bytecode@[after_emit.bytecode@.len() - 2] == Bytecode::Duplicate(
                        up_slot,
                    ),
                    after_emit.bytecode@[after_emit.bytecode@.len() - 1] == Bytecode::ExplodeList(
                        len,
                    ),
                    st.scope_map@.contains_key(up_pair),
                    st.scope_map@[up_pair] == up_slot,
                    st.stack_ptr == after_emit.stack_ptr + j,
                    after_emit.stack_ptr >= old(st).stack_ptr,
                    tready == (old(st).scope_map@.contains_key(up_pair) && !old(st).scope_map@.contains_key((node, port)) && old(st).stack_ptr + len
                        <= usize::MAX),
                    tready ==> after_emit.stack_ptr == old(st).stack_ptr,
                    spec_first_edge_into(g.edges@, node, 0) == Some(up_pair),
                    st.scope_map@.contains_key((node, port))
                        ==> st.scope_map@[(node, port)] < st.stack_ptr,
                    forall|x: int|
                        0 <= x < j ==> #[trigger] st.scope_map@.contains_key((node, x as usize)),
                    texact == (tready && (forall|x: int|
                        0 <= x < len ==> !(#[trigger] old(st).scope_map@.contains_key(
                            (node, x as usize),
                        )))),
                    texact ==> (forall|x: int|
                        0 <= x < j ==> (#[trigger] st.scope_map@.contains_key((node, x as usize)))
                            && st.scope_map@[(node, x as usize)] == old(st).stack_ptr + x),
                    texact ==> (forall|x: int|
                        j <= x < len ==> !(#[trigger] st.scope_map@.contains_key(
                            (node, x as usize),
                        ))),
                    j <= len,
                decreases len - j,
            {
                let ghost pre_map = st.scope_map@;
                let ghost pre_ptr = st.stack_ptr;
                if st.scope_map.get(node, j).is_none() {
                    let p = st.stack_ptr;
                    st.book(node, j, p);
                }
                proof {
                    if texact {
                        let jj = j as int;
                        assert(!(#[trigger] pre_map.contains_key((node, jj as usize))));
                        assert(st.scope_map@ == pre_map.insert((node, j), pre_ptr));
                        assert forall|x: int|
                            0 <= x < jj + 1 implies (#[trigger] st.scope_map@.contains_key(
                            (node, x as usize),
                        )) && st.scope_map@[(node, x as usize)] == old(st).stack_ptr + x by {
                            if x < jj {
                                assert(pre_map.contains_key((node, x as usize)));
                                assert((node, x as usize) != (node, j));
                            } else {
                                assert(x as usize == j);
                            }
                        }
                        assert forall|x: int|
                            jj + 1 <= x < len implies !(#[trigger] st.scope_map@.contains_key(
                            (node, x as usize),
                        )) by {
                            assert(!pre_map.contains_key((node, x as usize)));
                            assert(x as usize != j);
                        }
                    }
                }
                st.bump()?;
                j += 1;
            }
            proof {
                let pp = port as int;
                if 0 <= pp < len {
                    assert(st.scope_map@.contains_key((node, pp as usize)));
                    assert(pp as usize == port);
                }
            }
            match st.scope_map.get(node, port) {
                Some(slot) => Ok(slot),
                None => Err(CompileError::ResolverContractViolation { node }),
            }
        },
        NodeKind::Ownership(m) => {
            let m = *m;
            let upstream = match g.edge_into(node, 1) {
                Some(u) => u,
                None => {
                    return Err(CompileError::UnconnectedInput { node, port: 1 });
                },
            };
            let up_slot = resolve_data_dependency(st, g, types, funcs, upstream.0, upstream.1, fuel - 1)?;
            if st.scope_map.get(node, port).is_some() {
                // The upstream materialization led back to this very port:
                // the data edges form a cycle.
                return Err(CompileError::ResolverContractViolation { node });
            }
            let instr = match m {
                AccessMode::Owned => Bytecode::SlotClone(up_slot),
                AccessMode::SharedRef => Bytecode::SlotRef(up_slot),
                AccessMode::ExclusiveRef => Bytecode::SlotMutRef(up_slot),
            };
            st.emit(instr);
            let slot = st.stack_ptr;
            st.book(node, port, slot);
            st.bump()?;
            Ok(slot)
        },
        NodeKind::Start => Err(CompileError::ResolverContractViolation { node }),
        NodeKind::Function(_) => Err(CompileError::ResolverContractViolation { node }),
        NodeKind::Apply => Err(CompileError::ResolverContractViolation { node }),
        NodeKind::IfElse(_) => Err(CompileError::ResolverContractViolation { node }),
    }
}

/// Compiles one function-call node: every parameter's dependency is
/// materialized first, then each is duplicated onto the top of the stack,
/// then the call itself is emitted.  The call's return value, if the callee
/// declares one, occupies the next free slot.
pub fn compile_function_call(
    st: &mut CompileState,
    g: &Graph,
    types: &TypeRegistry,
    funcs: &FunctionRegistry,
    node: usize,
    handle: usize,
    fuel: usize,
) -> (r: Result<(), CompileError>)
    requires
        old(st).wf(),
        types.wf(),
        spec_targets_in_bounds(old(st).bytecode@, old(st).bytecode@.len() as int),
    ensures
        spec_state_evolves(*old(st), *final(st)),
        spec_targets_in_bounds(final(st).bytecode@, final(st).bytecode@.len() as int),
        r is Ok ==> final(st).bytecode@.len() > old(st).bytecode@.len(),
        // Every parameter's dependency is materialized and then duplicated,
        // in parameter order, directly below the call itself; the return
        // value, if declared, takes the next free slot.
        r is Ok ==> (handle < funcs.functions@.len() && {
            let nparams = funcs.functions@[handle as int].params@.len() as int;
            let has_ret = funcs.functions@[handle as int].ret is Some;
            let end = final(st).bytecode@.len() as int;
            &&& end >= old(st).bytecode@.len() + nparams + 1
            &&& final(st).bytecode@[end - 1] == Bytecode::Call(handle)
            &&& (forall|k: int|
                0 <= k < nparams ==> (#[trigger] spec_first_edge_into(
                    g.edges@,
                    node,
                    (k + 1) as usize,
                ) matches Some(up) && final(st).scope_map@.contains_key(up)
                    && final(st).bytecode@[end - 1 - nparams + k] == Bytecode::Duplicate(
                    final(st).scope_map@[up],
                )))
            &&& (has_ret ==> final(st).scope_map@.contains_key((node, 1)))
            &&& (has_ret ==> final(st).stack_ptr > old(st).stack_ptr)
        }),
        // Success is owed once every parameter's source port is already in
        // the scope map and, if a result is declared, a slot is free; then
        // exactly the duplicates and the call are emitted, and the stack
        // pointer advances exactly by the return slot.
        ({
            &&& handle < funcs.functions@.len()
            &&& (forall|k: int|
                0 <= k < funcs.functions@[handle as int].params@.len()
                    ==> (#[trigger] spec_first_edge_into(
                    g.edges@,
                    node,
                    (k + 1) as usize,
                ) matches Some(up) && old(st).scope_map@.contains_key(up)))
            &&& (funcs.functions@[handle as int].ret is Some ==> old(st).stack_ptr < usize::MAX)
        }) ==> (r is Ok && final(st).bytecode@.len() == old(st).bytecode@.len()
            + funcs.functions@[handle as int].params@.len() + 1 && final(st).stack_ptr == old(st).stack_ptr + (
        if funcs.functions@[handle as int].ret is Some {
            1int
        } else {
            0int
        })),
        // A call whose single parameter is fed by a fresh literal compiles
        // to exactly that literal's push, one duplicate of its slot, and the
        // call.
        ({
            &&& handle < funcs.functions@.len()
            &&& funcs.functions@[handle as int].params@.len() == 1
            &&& (spec_first_edge_into(g.edges@, node, 1) matches Some(up) && up.0 < g.nodes@.len()
                && g.nodes@[up.0 as int] is Primitive && !old(st).scope_map@.contains_key(up))
            &&& old(st).stack_ptr + 2 <= usize::MAX
            &&& fuel >= 1
        }) ==> (r is Ok && ({
            let up = spec_first_edge_into(g.edges@, node, 1)->0;
            &&& final(st).bytecode@.len() == old(st).bytecode@.len() + 3
            &&& (g.nodes@[up.0 as int] matches NodeKind::Primitive(lit) ==> final(st).bytecode@[old(st).bytecode@.len() as int] == Bytecode::PushLiteral(lit.spec_value()))
            &&& final(st).bytecode@[old(st).bytecode@.len() as int + 1] == Bytecode::Duplicate(
                old(st).stack_ptr,
            )
            &&& final(st).bytecode@[old(st).bytecode@.len() as int + 2] == Bytecode::Call(handle)
            &&& final(st).stack_ptr == old(st).stack_ptr + 1 + (
            if funcs.functions@[handle as int].ret is Some {
                1int
            } else {
                0int
            })
        })),
        r matches Err(e) ==> !(e is NoStart) && !(e is MultipleStarts) && !(e
            is FlowTypeViolation),
{
    let ghost prim_case = handle < funcs.functions@.len() && funcs.functions@[handle as int].params@.len() == 1 && (spec_first_edge_into(g.edges@, node, 1) matches Some(up) && up.0
        < g.nodes@.len() && g.nodes@[up.0 as int] is Primitive && !old(st).scope_map@.contains_key(
        up,
    )) && old(st).stack_ptr + 2 <= usize::MAX && fuel >= 1;
    let ghost call_ready = handle < funcs.functions@.len() && (forall|k: int|
        0 <= k < funcs.functions@[handle as int].params@.len()
            ==> (#[trigger] spec_first_edge_into(g.edges@, node, (k + 1) as usize) matches Some(up)
            && old(st).scope_map@.contains_key(up)));
    proof {
        lemma_evolves_refl(*old(st));
    }
    let def = match funcs.get(handle) {
        Some(d) => d,
        None => {
            return Err(CompileError::UnknownFunction { handle });
        },
    };
    let nparams = def.params.len();
    // Materialize every parameter first (depth-first, left to right), so
    // the duplicates below land consecutively on top of the stack.
    let mut slots: Vec<usize> = Vec::new();
    let mut k: usize = 0;
    while k < nparams
        invariant
            st.wf(),
            types.wf(),
            handle < funcs.functions@.len(),
            *def == funcs.functions@[handle as int],
            nparams == def.params@.len(),
            call_ready == (handle < funcs.functions@.len() && (forall|k2: int|
                0 <= k2 < funcs.functions@[handle as int].params@.len()
                    ==> (#[trigger] spec_first_edge_into(
                    g.edges@,
                    node,
                    (k2 + 1) as usize,
                ) matches Some(up) && old(st).scope_map@.contains_key(up)))),
            spec_targets_in_bounds(st.bytecode@, st.bytecode@.len() as int),
            spec_state_evolves(*old(st), *st),
            call_ready ==> *st == *old(st),
            prim_case == (handle < funcs.functions@.len() && funcs.functions@[handle as int].params@.len() == 1 && (spec_first_edge_into(g.edges@, node, 1) matches Some(up) && up.0
                < g.nodes@.len() && g.nodes@[up.0 as int] is Primitive && !old(st).scope_map@.contains_key(up)) && old(st).stack_ptr + 2 <= usize::MAX && fuel >= 1),
            prim_case && k == 0 ==> *st == *old(st),
            prim_case && k == 1 ==> ({
                let up = spec_first_edge_into(g.edges@, node, 1)->0;
                &&& (g.nodes@[up.0 as int] matches NodeKind::Primitive(lit) ==> st.bytecode@ == old(st).bytecode@.push(Bytecode::PushLiteral(lit.spec_value())))
                &&& slots@[0] == old(st).stack_ptr
                &&& st.stack_ptr == old(st).stack_ptr + 1
            }),
            k <= nparams,
            slots@.len() == k,
            forall|k2: int|
                0 <= k2 < k ==> (#[trigger] spec_first_edge_into(
                    g.edges@,
                    node,
                    (k2 + 1) as usize,
                ) matches Some(up) && st.scope_map@.contains_key(up) && st.scope_map@[up]
                    == slots@[k2]),
        decreases nparams - k,
    {
        proof {
            if call_ready {
                let kk = k as int;
                assert(spec_first_edge_into(g.edges@, node, (kk + 1) as usize) matches Some(up)
                    && old(st).scope_map@.contains_key(up));
                assert((kk + 1) as usize == k + 1);
            }
        }
        let up = match g.edge_into(node, k + 1) {
            Some(u) => u,
            None => {
                return Err(CompileError::UnconnectedInput { node, port: k + 1 });
            },
        };
        let s = resolve_data_dependency(st, g, types, funcs, up.0, up.1, fuel)?;
        slots.push(s);
        proof {
            let kk = k as int;
            assert((kk + 1) as usize == k + 1);
            assert forall|k2: int|
                0 <= k2 < k + 1 implies (#[trigger] spec_first_edge_into(
                g.edges@,
                node,
                (k2 + 1) as usize,
            ) matches Some(up2) && st.scope_map@.contains_key(up2) && st.scope_map@[up2]
                == slots@[k2]) by {
                if k2 < k {
                    assert(spec_first_edge_into(g.edges@, node, (k2 + 1) as usize) matches Some(
                        up2,
                    ) && st.scope_map@.contains_key(up2));
                }
            }
        }
        k += 1;
    }
    let ghost mid = *st;
    proof {
        lemma_evolves_refl(*st);
    }
    let mut k: usize = 0;
    while k < slots.len()
        invariant
            st.wf(),
            nparams == slots@.len(),
            spec_targets_in_bounds(st.bytecode@, st.bytecode@.len() as int),
            spec_state_evolves(*old(st), *st),
            spec_state_evolves(mid, *st),
            st.scope_map@ == mid.scope_map@,
            st.stack_ptr == mid.stack_ptr,
            call_ready ==> (mid.stack_ptr == old(st).stack_ptr && mid.bytecode@ == old(st).bytecode@ && mid.scope_map@ == old(st).scope_map@),
            prim_case == (handle < funcs.functions@.len() && funcs.functions@[handle as int].params@.len() == 1 && (spec_first_edge_into(g.edges@, node, 1) matches Some(up) && up.0
                < g.nodes@.len() && g.nodes@[up.0 as int] is Primitive && !old(st).scope_map@.contains_key(up)) && old(st).stack_ptr + 2 <= usize::MAX && fuel >= 1),
            prim_case ==> ({
                let up = spec_first_edge_into(g.edges@, node, 1)->0;
                &&& nparams == 1
                &&& (g.nodes@[up.0 as int] matches NodeKind::Primitive(lit) ==> mid.bytecode@
                    == old(st).bytecode@.push(Bytecode::PushLiteral(lit.spec_value())))
                &&& slots@[0] == old(st).stack_ptr
                &&& mid.stack_ptr == old(st).stack_ptr + 1
            }),
            st.bytecode@.len() == mid.bytecode@.len() + k,
            forall|i: int|
                0 <= i < k ==> st.bytecode@[mid.bytecode@.len() + i] == Bytecode::Duplicate(
                    #[trigger] slots@[i],
                ),
            forall|k2: int|
                0 <= k2 < nparams ==> (#[trigger] spec_first_edge_into(
                    g.edges@,
                    node,
                    (k2 + 1) as usize,
                ) matches Some(up) && st.scope_map@.contains_key(up) && st.scope_map@[up]
                    == slots@[k2]),
            k <= slots@.len(),
        decreases slots@.len() - k,
    {
        let ghost before = *st;
        st.emit(Bytecode::Duplicate(slots[k]));
        proof {
            assert forall|i: int| 0 <= i < k + 1 implies st.bytecode@[mid.bytecode@.len() + i]
                == Bytecode::Duplicate(#[trigger] slots@[i]) by {
                if i < k {
                    assert(st.bytecode@[mid.bytecode@.len() + i] == before.bytecode@[mid.bytecode@.len()
                        + i]);
                }
            }
        }
        k += 1;
    }
    let ghost before_call = *st;
    st.emit(Bytecode::Call(handle));
    proof {
        assert forall|i: int| 0 <= i < nparams implies st.bytecode@[mid.bytecode@.len() + i]
            == Bytecode::Duplicate(#[trigger] slots@[i]) by {
            assert(st.bytecode@[mid.bytecode@.len() + i] == before_call.bytecode@[mid.bytecode@.len()
                + i]);
        }
    }
    if def.ret.is_some() {
        if st.scope_map.get(node, 1).is_none() {
            let p = st.stack_ptr;
            st.book(node, 1, p);
        }
        st.bump()?;
    }
    Ok(())
}

/// Compiles one apply node reached by the flow walk: the receiver and the
/// value to apply are materialized, the receiver is borrowed exclusively,
/// the applier is duplicated, and the write itself is emitted.
pub fn compile_apply(
    st: &mut CompileState,
    g: &Graph,
    types: &TypeRegistry,
    funcs: &FunctionRegistry,
    node: usize,
    fuel: usize,
) -> (r: Result<(), CompileError>)
    requires
        old(st).wf(),
        types.wf(),
        spec_targets_in_bounds(old(st).bytecode@, old(st).bytecode@.len() as int),
    ensures
        spec_state_evolves(*old(st), *final(st)),
        spec_targets_in_bounds(final(st).bytecode@, final(st).bytecode@.len() as int),
        r is Ok ==> ({
            let end = final(st).bytecode@.len() as int;
            &&& end >= old(st).bytecode@.len() + 3
            &&& (spec_first_edge_into(g.edges@, node, 1) matches Some(up1)
                && final(st).scope_map@.contains_key(up1) && final(st).bytecode@[end - 3]
                == Bytecode::SlotMutRef(final(st).scope_map@[up1]))
            &&& (spec_first_edge_into(g.edges@, node, 2) matches Some(up2)
                && final(st).scope_map@.contains_key(up2) && final(st).bytecode@[end - 2]
                == Bytecode::Duplicate(final(st).scope_map@[up2]))
            &&& final(st).bytecode@[end - 1] == Bytecode::Apply
        }),
        // Success is owed once both dependencies are already in the scope
        // map; then exactly the borrow, the duplicate and the write are
        // appended and the stack pointer is untouched.
        ({
            &&& (spec_first_edge_into(g.edges@, node, 1) matches Some(up1)
                && old(st).scope_map@.contains_key(up1))
            &&& (spec_first_edge_into(g.edges@, node, 2) matches Some(up2)
                && old(st).scope_map@.contains_key(up2))
        }) ==> (r is Ok && final(st).bytecode@.len() == old(st).bytecode@.len() + 3 && final(st).stack_ptr == old(st).stack_ptr),
        r matches Err(e) ==> !(e is NoStart) && !(e is MultipleStarts) && !(e
            is FlowTypeViolation),
{
    proof {
        lemma_evolves_refl(*old(st));
    }
    let recv = match g.edge_into(node, 1) {
        Some(u) => u,
        None => {
            return Err(CompileError::UnconnectedInput { node, port: 1 });
        },
    };
    let applier = match g.edge_into(node, 2) {
        Some(u) => u,
        None => {
            return Err(CompileError::UnconnectedInput { node, port: 2 });
        },
    };
    let a_slot = resolve_data_dependency(st, g, types, funcs, recv.0, recv.1, fuel)?;
    let ghost m1 = *st;
    let b_slot = resolve_data_dependency(st, g, types, funcs, applier.0, applier.1, fuel)?;
    proof {
        assert(m1.scope_map@.contains_key((recv.0, recv.1)));
        assert(m1.scope_map@[(recv.0, recv.1)] == a_slot);
        assert(m1.scope_map@.submap_of(st.scope_map@));
        assert(m1.scope_map@.dom().contains((recv.0, recv.1)));
        assert(st.scope_map@.contains_key((recv.0, recv.1)));
        assert(st.scope_map@[(recv.0, recv.1)] == a_slot);
    }
    st.emit(Bytecode::SlotMutRef(a_slot));
    st.emit(Bytecode::Duplicate(b_slot));
    st.emit(Bytecode::Apply);
    Ok(())
}

/// Compiles one query node reached by the flow walk: exactly one binding
/// instruction capturing the declared component accesses is appended, and
/// the bound query's output port is reserved the slot its value will occupy.
pub fn compile_query(
    st: &mut CompileState,
    g: &Graph,
    node: usize,
    accesses: &Vec<QueryDataType>,
) -> (r: Result<(), CompileError>)
    requires
        old(st).wf(),
        spec_targets_in_bounds(old(st).bytecode@, old(st).bytecode@.len() as int),
    ensures
        spec_state_evolves(*old(st), *final(st)),
        spec_targets_in_bounds(final(st).bytecode@, final(st).bytecode@.len() as int),
        r is Ok <==> old(st).stack_ptr < usize::MAX,
        r matches Err(e) ==> e == CompileError::LimitExceeded,
        r is Ok ==> {
            &&& final(st).bytecode@.len() == old(st).bytecode@.len() + 1
            &&& (final(st).bytecode@.last() matches Bytecode::BindQuery(a) && a@ == accesses@)
            &&& final(st).scope_map@.contains_key((node, 1))
            &&& final(st).stack_ptr == old(st).stack_ptr + 1
            &&& (!old(st).scope_map@.contains_key((node, 1)) ==> final(st).scope_map@[(node, 1)]
                == old(st).stack_ptr)
        },
{
    proof {
        lemma_evolves_refl(*old(st));
    }
    if st.stack_ptr == usize::MAX {
        return Err(CompileError::LimitExceeded);
    }
    let mut copy: Vec<QueryDataType> = Vec::new();
    let mut i: usize = 0;
    while i < accesses.len()
        invariant
            i <= accesses@.len(),
            copy@ == accesses@.take(i as int),
        decreases accesses@.len() - i,
    {
        copy.push(accesses[i]);
        proof {
            assert(copy@ =~= accesses@.take(i as int + 1));
        }
        i += 1;
    }
    proof {
        assert(copy@ =~= accesses@);
    }
    st.emit(Bytecode::BindQuery(copy));
    if st.scope_map.get(node, 1).is_none() {
        let p = st.stack_ptr;
        st.book(node, 1, p);
    }
    st.bump()?;
    Ok(())
}

/// Compiles one for-node's loop, from a private working copy of the iterable
/// to the back-patched exit.  The loop as a whole is stack-neutral: the
/// stack pointer immediately after it equals the stack pointer immediately
/// before it.
pub fn compile_for_loop(
    st: &mut CompileState,
    g: &Graph,
    types: &TypeRegistry,
    funcs: &FunctionRegistry,
    node: usize,
    iter_slot: usize,
    fuel: usize,
) -> (r: Result<(), CompileError>)
    requires
        old(st).wf(),
        types.wf(),
        spec_targets_in_bounds(old(st).bytecode@, old(st).bytecode@.len() as int),
    ensures
        spec_state_evolves(*old(st), *final(st)),
        spec_targets_in_bounds(final(st).bytecode@, final(st).bytecode@.len() as int),
        r is Ok ==> final(st).stack_ptr == old(st).stack_ptr,
        r is Ok ==> final(st).bytecode@.len() > old(st).bytecode@.len(),
        // The emitted region has the loop's fixed shape: a working copy of
        // the iterable, the iterator advance, the exit branch patched to the
        // instruction after the backward jump, and the final unwinding pop.
        r is Ok ==> ({
            let begin = old(st).bytecode@.len() as int;
            let end = final(st).bytecode@.len() as int;
            &&& end >= begin + 5
            &&& final(st).bytecode@[begin] == Bytecode::Duplicate(iter_slot)
            &&& final(st).bytecode@[begin + 1] == Bytecode::AdvanceIterator
            &&& final(st).bytecode@[begin + 2] == Bytecode::Jump((end - 1) as usize)
            &&& final(st).bytecode@[end - 2] == Bytecode::Jump((begin + 1) as usize)
            &&& final(st).bytecode@[end - 1] == Bytecode::Pop
            &&& final(st).scope_map@.contains_key((node, 1))
        }),
        // Between the body's last instruction and the backward jump stands a
        // run of pops: the body's private working region is unwound on
        // every back edge.
        r is Ok ==> (exists|b: int|
            (#[trigger] final(st).bytecode@[b]) is Pop && old(st).bytecode@.len() + 3 <= b < final(st).bytecode@.len() - 2 && (forall|i: int|
                b <= i < final(st).bytecode@.len() - 2 ==> (#[trigger] final(st).bytecode@[i])
                    is Pop)),
        // An empty-bodied loop is owed compilation: with one step of walk
        // budget and room for the working copy and the item, nothing can
        // fail.
        ({
            &&& fuel >= 1
            &&& old(st).stack_ptr + 2 <= usize::MAX
            &&& spec_first_edge_from(g.edges@, node, 0) is None
        }) ==> r is Ok,
        r matches Err(e) ==> (e matches CompileError::FlowTypeViolation { node: n } ==> (n
            >= g.nodes@.len() || !spec_flow_capable(g.nodes@[n as int]))),
        r matches Err(e) ==> !(e is NoStart) && !(e is MultipleStarts),
    decreases fuel, 1int,
{
    proof {
        lemma_evolves_refl(*old(st));
    }
    let pre = st.stack_ptr;
    // A private working copy of the iterable at the top of the stack; the
    // loop advances this copy, leaving the memoized original untouched.
    st.emit(Bytecode::Duplicate(iter_slot));
    st.bump()?;
    let adv_pos = st.bytecode.len();
    st.emit(Bytecode::AdvanceIterator);
    // The yielded item occupies the next slot on every iteration.
    if st.scope_map.get(node, 1).is_none() {
        let p = st.stack_ptr;
        st.book(node, 1, p);
    }
    st.bump()?;
    // Placeholder for the loop-exit branch; its target is patched once the
    // end of the loop is known.
    let exit_pos = st.bytecode.len();
    st.emit(Bytecode::Jump(0));
    if fuel == 0 {
        return Err(CompileError::LimitExceeded);
    }
    // The body, into the same buffer, scope map and stack pointer.
    let ghost pre_body = *st;
    resolve_forward_pass_flow_until_finished(st, g, types, funcs, node, 0, fuel - 1)?;
    proof {
        // The loop's own prologue sits below everything the body emitted.
        let begin = old(st).bytecode@.len() as int;
        assert(st.bytecode@[begin] == st.bytecode@.subrange(
            0,
            pre_body.bytecode@.len() as int,
        )[begin]);
        assert(st.bytecode@[begin + 1] == st.bytecode@.subrange(
            0,
            pre_body.bytecode@.len() as int,
        )[begin + 1]);
        assert(pre_body.scope_map@.dom().contains((node, 1usize)));
        assert(st.scope_map@.contains_key((node, 1)));
    }
    // Unwind the body's private working region: everything above the
    // working copy, the yielded item included, is popped on the back edge.
    let ghost pre_pops = st.bytecode@.len();
    let ghost k0 = st.stack_ptr as int;
    let mut k: usize = st.stack_ptr;
    while k > pre + 1
        invariant
            st.wf(),
            pre < usize::MAX,
            pre + 1 <= k,
            spec_targets_in_bounds(st.bytecode@, st.bytecode@.len() as int),
            spec_state_evolves(*old(st), *st),
            old(st).bytecode@.len() <= exit_pos < st.bytecode@.len(),
            adv_pos <= st.bytecode@.len(),
            adv_pos == old(st).bytecode@.len() + 1,
            exit_pos == old(st).bytecode@.len() + 2,
            st.bytecode@[old(st).bytecode@.len() as int] == Bytecode::Duplicate(iter_slot),
            st.bytecode@[adv_pos as int] == Bytecode::AdvanceIterator,
            st.scope_map@.contains_key((node, 1)),
            old(st).bytecode@.len() + 3 <= pre_pops <= st.bytecode@.len(),
            pre + 2 <= k0,
            k <= k0,
            st.bytecode@.len() == pre_pops + (k0 - k),
            forall|i: int|
                pre_pops <= i < st.bytecode@.len() ==> (#[trigger] st.bytecode@[i]) is Pop,
        decreases k,
    {
        let ghost before = *st;
        st.emit(Bytecode::Pop);
        proof {
            assert forall|i: int|
                pre_pops <= i < st.bytecode@.len() implies (#[trigger] st.bytecode@[i]) is Pop by {
                if i < before.bytecode@.len() {
                    assert(st.bytecode@[i] == before.bytecode@[i]);
                }
            }
        }
        k -= 1;
    }
    // Jump back to the iterator advance, then patch the exit branch to the
    // instruction immediately following this backward jump.
    st.emit(Bytecode::Jump(adv_pos));
    let ghost before_patch = *st;
    let exit_target = st.bytecode.len();
    st.bytecode[exit_pos] = Bytecode::Jump(exit_target);
    proof {
        // The patch rewrites an instruction emitted during this call, so
        // everything older is untouched and every target stays in bounds.
        assert(st.bytecode@ == before_patch.bytecode@.update(
            exit_pos as int,
            Bytecode::Jump(exit_target),
        ));
        assert forall|i: int| 0 <= i < old(st).bytecode@.len() implies st.bytecode@.subrange(
            0,
            old(st).bytecode@.len() as int,
        )[i] == old(st).bytecode@[i] by {
            assert(before_patch.bytecode@[i] == before_patch.bytecode@.subrange(
                0,
                old(st).bytecode@.len() as int,
            )[i]);
        }
        assert(st.bytecode@.subrange(0, old(st).bytecode@.len() as int) =~= old(st).bytecode@);
        assert forall|i: int|
            0 <= i < st.bytecode@.len() implies ((#[trigger] st.bytecode@[i]) matches Bytecode::Jump(
            t,
        ) ==> t <= st.bytecode@.len() as int) by {
            if i != exit_pos {
                assert(st.bytecode@[i] == before_patch.bytecode@[i]);
            }
        }
        assert(spec_state_evolves(*old(st), *st));
    }
    // On exit the working copy itself is dropped, restoring the stack to
    // its pre-loop shape.
    st.emit(Bytecode::Pop);
    let ghost before_reset = *st;
    st.stack_ptr = pre;
    proof {
        assert(st.bytecode@ == before_reset.bytecode@);
        assert(st.bytecode@.subrange(0, old(st).bytecode@.len() as int) =~= old(st).bytecode@);
        assert(spec_state_evolves(*old(st), *st));
        assert(st.bytecode@[pre_pops as int] is Pop && old(st).bytecode@.len() + 3 <= pre_pops
            < st.bytecode@.len() - 2 && (forall|i: int|
            pre_pops <= i < st.bytecode@.len() - 2 ==> (#[trigger] st.bytecode@[i]) is Pop));
    }
    Ok(())
}

/// Walks the flow edges from output `port` of `node`, compiling each node
/// the flow reaches, until a flow output with no successor ends the walk.
pub fn resolve_forward_pass_flow_until_finished(
    st: &mut CompileState,
    g: &Graph,
    types: &TypeRegistry,
    funcs: &FunctionRegistry,
    node: usize,
    port: usize,
    fuel: usize,
) -> (r: Result<(), CompileError>)
    requires
        old(st).wf(),
        types.wf(),
        spec_targets_in_bounds(old(st).bytecode@, old(st).bytecode@.len() as int),
    ensures
        spec_state_evolves(*old(st), *final(st)),
        spec_targets_in_bounds(final(st).bytecode@, final(st).bytecode@.len() as int),
        (r is Ok && spec_first_edge_from(g.edges@, node, port) is Some && old(st).scope_map@
            == Map::<(usize, usize), usize>::empty()) ==> final(st).bytecode@.len() > old(st).bytecode@.len(),
        // A flow output with no successor ends the walk at once.
        spec_first_edge_from(g.edges@, node, port) is None ==> r is Ok && *final(st) == *old(st),
        // A walk of exactly one query binding is owed completion: the flow
        // reaches the query, its binding instruction with the declared
        // accesses lands, and the walk ends.
        ({
            &&& (spec_first_edge_from(g.edges@, node, port) matches Some((tn, tp)) && tn
                < g.nodes@.len() && g.nodes@[tn as int] is Query && spec_first_edge_from(
                g.edges@,
                tn,
                0,
            ) is None)
            &&& old(st).stack_ptr < usize::MAX
            &&& fuel >= 1
        }) ==> (r is Ok && final(st).bytecode@.len() == old(st).bytecode@.len() + 1 && ({
            let t = spec_first_edge_from(g.edges@, node, port)->0;
            g.nodes@[t.0 as int] matches NodeKind::Query(q) ==> (final(st).bytecode@.last()
                matches Bytecode::BindQuery(a) && a@ == q@)
        })),
        // A walk of exactly one call on one fresh literal is owed
        // completion, to exactly the literal's push, its duplicate and the
        // call.
        ({
            &&& (spec_first_edge_from(g.edges@, node, port) matches Some((tn, tp)) && tn
                < g.nodes@.len() && (g.nodes@[tn as int] matches NodeKind::Function(h) && h
                < funcs.functions@.len() && funcs.functions@[h as int].params@.len() == 1 && (
            spec_first_edge_into(g.edges@, tn, 1) matches Some(up) && up.0 < g.nodes@.len()
                && g.nodes@[up.0 as int] is Primitive && !old(st).scope_map@.contains_key(up))
                && spec_first_edge_from(g.edges@, tn, 0) is None))
            &&& old(st).stack_ptr + 2 <= usize::MAX
            &&& fuel >= 2
        }) ==> (r is Ok && ({
            let t = spec_first_edge_from(g.edges@, node, port)->0;
            let up = spec_first_edge_into(g.edges@, t.0, 1)->0;
            &&& final(st).bytecode@.len() == old(st).bytecode@.len() + 3
            &&& (g.nodes@[up.0 as int] matches NodeKind::Primitive(lit) ==> final(st).bytecode@[old(st).bytecode@.len() as int] == Bytecode::PushLiteral(lit.spec_value()))
            &&& final(st).bytecode@[old(st).bytecode@.len() as int + 1] == Bytecode::Duplicate(
                old(st).stack_ptr,
            )
            &&& (g.nodes@[t.0 as int] matches NodeKind::Function(h2) ==> final(st).bytecode@[old(st).bytecode@.len() as int + 2] == Bytecode::Call(h2))
        })),
        // A flow edge into a node the flow cannot pass through never
        // compiles: the walk's first step already fails on it.
        (spec_first_edge_from(g.edges@, node, port) matches Some((tn, tp)) && (tn
            >= g.nodes@.len() || !spec_flow_capable(g.nodes@[tn as int]))) ==> r is Err,
        // The walk's first step lands at a fixed position, so a call node
        // reached first leaves its duplicates and its call exactly where the
        // call compiler puts them, whatever the walk does afterwards.
        r is Ok ==> (spec_first_edge_from(g.edges@, node, port) matches Some((tn, tp)) ==> (tn
            < g.nodes@.len() ==> (g.nodes@[tn as int] matches NodeKind::Function(h) ==> ((h
            < funcs.functions@.len() && (forall|k: int|
            0 <= k < funcs.functions@[h as int].params@.len() ==> (#[trigger] spec_first_edge_into(
                g.edges@,
                tn,
                (k + 1) as usize,
            ) matches Some(up) && old(st).scope_map@.contains_key(up)))) ==> ({
            let nparams = funcs.functions@[h as int].params@.len() as int;
            &&& final(st).bytecode@.len() >= old(st).bytecode@.len() + nparams + 1
            &&& final(st).bytecode@[old(st).bytecode@.len() + nparams] == Bytecode::Call(h)
            &&& (forall|k: int|
                0 <= k < nparams ==> (#[trigger] spec_first_edge_into(
                    g.edges@,
                    tn,
                    (k + 1) as usize,
                ) matches Some(up) && final(st).bytecode@[old(st).bytecode@.len() + k]
                    == Bytecode::Duplicate(old(st).scope_map@[up])))
        }))))),
        // Likewise a query node reached first leaves its binding instruction
        // at the walk's first position.
        r is Ok ==> (spec_first_edge_from(g.edges@, node, port) matches Some((tn, tp)) ==> (tn
            < g.nodes@.len() ==> (g.nodes@[tn as int] matches NodeKind::Query(q) ==> {
            &&& final(st).bytecode@.len() >= old(st).bytecode@.len() + 1
            &&& (final(st).bytecode@[old(st).bytecode@.len() as int] matches Bytecode::BindQuery(a)
                && a@ == q@)
        }))),
        // A flow-type violation is only ever reported against a node the
        // flow cannot pass through.
        r matches Err(e) ==> (e matches CompileError::FlowTypeViolation { node: n } ==> (n
            >= g.nodes@.len() || !spec_flow_capable(g.nodes@[n as int]))),
        r matches Err(e) ==> !(e is NoStart) && !(e is MultipleStarts),
    decreases fuel, 0int,
{
    proof {
        lemma_evolves_refl(*old(st));
    }
    let mut cur_node = node;
    let mut cur_port = port;
    let mut remaining = fuel;
    loop
        invariant
            st.wf(),
            types.wf(),
            remaining <= fuel,
            spec_targets_in_bounds(st.bytecode@, st.bytecode@.len() as int),
            spec_state_evolves(*old(st), *st),
            (old(st).scope_map@ == Map::<(usize, usize), usize>::empty() && st.bytecode@.len()
                == old(st).bytecode@.len()) ==> (cur_node == node && cur_port == port && *st
                == *old(st)),
            spec_first_edge_from(g.edges@, node, port) is None ==> (cur_node == node && cur_port
                == port && *st == *old(st)),
            ({
                &&& (spec_first_edge_from(g.edges@, node, port) matches Some((tn, tp)) && tn
                    < g.nodes@.len() && g.nodes@[tn as int] is Query && spec_first_edge_from(
                    g.edges@,
                    tn,
                    0,
                ) is None)
                &&& old(st).stack_ptr < usize::MAX
                &&& fuel >= 1
            }) ==> ({
                let t = spec_first_edge_from(g.edges@, node, port)->0;
                ||| (cur_node == node && cur_port == port && *st == *old(st) && remaining == fuel)
                ||| (cur_node == t.0 && cur_port == 0 && st.bytecode@.len() == old(st).bytecode@.len() + 1 && (g.nodes@[t.0 as int] matches NodeKind::Query(q) ==> (
                    st.bytecode@.last() matches Bytecode::BindQuery(a) && a@ == q@)))
            }),
            (spec_first_edge_from(g.edges@, node, port) matches Some((tn, tp)) && (tn
                >= g.nodes@.len() || !spec_flow_capable(g.nodes@[tn as int]))) ==> (cur_node == node
                && cur_port == port),
            ({
                &&& (spec_first_edge_from(g.edges@, node, port) matches Some((tn, tp)) && tn
                    < g.nodes@.len() && (g.nodes@[tn as int] matches NodeKind::Function(h) && h
                    < funcs.functions@.len() && funcs.functions@[h as int].params@.len() == 1 && (
                spec_first_edge_into(g.edges@, tn, 1) matches Some(up) && up.0 < g.nodes@.len()
                    && g.nodes@[up.0 as int] is Primitive && !old(st).scope_map@.contains_key(up))
                    && spec_first_edge_from(g.edges@, tn, 0) is None))
                &&& old(st).stack_ptr + 2 <= usize::MAX
                &&& fuel >= 2
            }) ==> ({
                let t = spec_first_edge_from(g.edges@, node, port)->0;
                let up = spec_first_edge_into(g.edges@, t.0, 1)->0;
                ||| (cur_node == node && cur_port == port && *st == *old(st) && remaining == fuel)
                ||| ({
                    &&& cur_node == t.0
                    &&& cur_port == 0
                    &&& st.bytecode@.len() == old(st).bytecode@.len() + 3
                    &&& (g.nodes@[up.0 as int] matches NodeKind::Primitive(lit) ==> st.bytecode@[old(st).bytecode@.len() as int] == Bytecode::PushLiteral(lit.spec_value()))
                    &&& st.bytecode@[old(st).bytecode@.len() as int + 1] == Bytecode::Duplicate(
                        old(st).stack_ptr,
                    )
                    &&& (g.nodes@[t.0 as int] matches NodeKind::Function(h2) ==> st.bytecode@[old(st).bytecode@.len() as int + 2] == Bytecode::Call(h2))
                })
            }),
            spec_first_edge_from(g.edges@, node, port) matches Some((tn, tp)) ==> (tn
                < g.nodes@.len() ==> (g.nodes@[tn as int] matches NodeKind::Function(h) ==> ((h
                < funcs.functions@.len() && (forall|k: int|
                0 <= k < funcs.functions@[h as int].params@.len() ==> (
                #[trigger] spec_first_edge_into(g.edges@, tn, (k + 1) as usize) matches Some(up)
                    && old(st).scope_map@.contains_key(up)))) ==> ({
                let nparams = funcs.functions@[h as int].params@.len() as int;
                ||| (cur_node == node && cur_port == port && *st == *old(st) && remaining == fuel)
                ||| ({
                    &&& st.bytecode@.len() >= old(st).bytecode@.len() + nparams + 1
                    &&& st.bytecode@[old(st).bytecode@.len() + nparams] == Bytecode::Call(h)
                    &&& (forall|k: int|
                        0 <= k < nparams ==> (#[trigger] spec_first_edge_into(
                            g.edges@,
                            tn,
                            (k + 1) as usize,
                        ) matches Some(up) && st.bytecode@[old(st).bytecode@.len() + k]
                            == Bytecode::Duplicate(old(st).scope_map@[up])))
                })
            })))),
            spec_first_edge_from(g.edges@, node, port) matches Some((tn, tp)) ==> (tn
                < g.nodes@.len() ==> (g.nodes@[tn as int] matches NodeKind::Query(q) ==> ({
                ||| (cur_node == node && cur_port == port && *st == *old(st) && remaining == fuel)
                ||| (st.bytecode@.len() >= old(st).bytecode@.len() + 1 && (st.bytecode@[old(st).bytecode@.len() as int] matches Bytecode::BindQuery(a) && a@ == q@))
            }))),
        ensures
            st.wf(),
            spec_targets_in_bounds(st.bytecode@, st.bytecode@.len() as int),
            spec_state_evolves(*old(st), *st),
            spec_first_edge_from(g.edges@, cur_node, cur_port) is None,
            (old(st).scope_map@ == Map::<(usize, usize), usize>::empty() && st.bytecode@.len()
                == old(st).bytecode@.len()) ==> (cur_node == node && cur_port == port && *st
                == *old(st)),
            spec_first_edge_from(g.edges@, node, port) is None ==> (cur_node == node && cur_port
                == port && *st == *old(st)),
            ({
                &&& (spec_first_edge_from(g.edges@, node, port) matches Some((tn, tp)) && tn
                    < g.nodes@.len() && g.nodes@[tn as int] is Query && spec_first_edge_from(
                    g.edges@,
                    tn,
                    0,
                ) is None)
                &&& old(st).stack_ptr < usize::MAX
                &&& fuel >= 1
            }) ==> ({
                let t = spec_first_edge_from(g.edges@, node, port)->0;
                ||| (cur_node == node && cur_port == port && *st == *old(st) && remaining == fuel)
                ||| (cur_node == t.0 && cur_port == 0 && st.bytecode@.len() == old(st).bytecode@.len() + 1 && (g.nodes@[t.0 as int] matches NodeKind::Query(q) ==> (
                    st.bytecode@.last() matches Bytecode::BindQuery(a) && a@ == q@)))
            }),
            (spec_first_edge_from(g.edges@, node, port) matches Some((tn, tp)) && (tn
                >= g.nodes@.len() || !spec_flow_capable(g.nodes@[tn as int]))) ==> (cur_node == node
                && cur_port == port),
            ({
                &&& (spec_first_edge_from(g.edges@, node, port) matches Some((tn, tp)) && tn
                    < g.nodes@.len() && (g.nodes@[tn as int] matches NodeKind::Function(h) && h
                    < funcs.functions@.len() && funcs.functions@[h as int].params@.len() == 1 && (
                spec_first_edge_into(g.edges@, tn, 1) matches Some(up) && up.0 < g.nodes@.len()
                    && g.nodes@[up.0 as int] is Primitive && !old(st).scope_map@.contains_key(up))
                    && spec_first_edge_from(g.edges@, tn, 0) is None))
                &&& old(st).stack_ptr + 2 <= usize::MAX
                &&& fuel >= 2
            }) ==> ({
                let t = spec_first_edge_from(g.edges@, node, port)->0;
                let up = spec_first_edge_into(g.edges@, t.0, 1)->0;
                ||| (cur_node == node && cur_port == port && *st == *old(st) && remaining == fuel)
                ||| ({
                    &&& cur_node == t.0
                    &&& cur_port == 0
                    &&& st.bytecode@.len() == old(st).bytecode@.len() + 3
                    &&& (g.nodes@[up.0 as int] matches NodeKind::Primitive(lit) ==> st.bytecode@[old(st).bytecode@.len() as int] == Bytecode::PushLiteral(lit.spec_value()))
                    &&& st.bytecode@[old(st).bytecode@.len() as int + 1] == Bytecode::Duplicate(
                        old(st).stack_ptr,
                    )
                    &&& (g.nodes@[t.0 as int] matches NodeKind::Function(h2) ==> st.bytecode@[old(st).bytecode@.len() as int + 2] == Bytecode::Call(h2))
                })
            }),
            spec_first_edge_from(g.edges@, node, port) matches Some((tn, tp)) ==> (tn
                < g.nodes@.len() ==> (g.nodes@[tn as int] matches NodeKind::Function(h) ==> ((h
                < funcs.functions@.len() && (forall|k: int|
                0 <= k < funcs.functions@[h as int].params@.len() ==> (
                #[trigger] spec_first_edge_into(g.edges@, tn, (k + 1) as usize) matches Some(up)
                    && old(st).scope_map@.contains_key(up)))) ==> ({
                let nparams = funcs.functions@[h as int].params@.len() as int;
                ||| (cur_node == node && cur_port == port && *st == *old(st) && remaining == fuel)
                ||| ({
                    &&& st.bytecode@.len() >= old(st).bytecode@.len() + nparams + 1
                    &&& st.bytecode@[old(st).bytecode@.len() + nparams] == Bytecode::Call(h)
                    &&& (forall|k: int|
                        0 <= k < nparams ==> (#[trigger] spec_first_edge_into(
                            g.edges@,
                            tn,
                            (k + 1) as usize,
                        ) matches Some(up) && st.bytecode@[old(st).bytecode@.len() + k]
                            == Bytecode::Duplicate(old(st).scope_map@[up])))
                })
            })))),
            spec_first_edge_from(g.edges@, node, port) matches Some((tn, tp)) ==> (tn
                < g.nodes@.len() ==> (g.nodes@[tn as int] matches NodeKind::Query(q) ==> ({
                ||| (cur_node == node && cur_port == port && *st == *old(st) && remaining == fuel)
                ||| (st.bytecode@.len() >= old(st).bytecode@.len() + 1 && (st.bytecode@[old(st).bytecode@.len() as int] matches Bytecode::BindQuery(a) && a@ == q@))
            }))),
        decreases remaining,
    {
        let next = match g.edge_from(cur_node, cur_port) {
            Some(n) => n,
            None => {
                break ;
            },
        };
        if remaining == 0 {
            return Err(CompileError::LimitExceeded);
        }
        remaining = remaining - 1;
        let this_node = next.0;
        let kind = match g.node(this_node) {
            Some(k) => k,
            None => {
                return Err(CompileError::FlowTypeViolation { node: this_node });
            },
        };
        match kind {
            NodeKind::Function(f) => {
                let handle = *f;
                compile_function_call(st, g, types, funcs, this_node, handle, remaining)?;
                cur_node = this_node;
                cur_port = 0;
            },
            NodeKind::For(_) => {
                let dep = match g.edge_into(this_node, 1) {
                    Some(u) => u,
                    None => {
                        return Err(CompileError::UnconnectedInput { node: this_node, port: 1 });
                    },
                };
                let iter_slot = resolve_data_dependency(st, g, types, funcs, dep.0, dep.1, remaining)?;
                compile_for_loop(st, g, types, funcs, this_node, iter_slot, remaining)?;
                // Compilation continues from the loop's exit flow output.
                cur_node = this_node;
                cur_port = 2;
            },
            NodeKind::Query(q) => {
                compile_query(st, g, this_node, q)?;
                cur_node = this_node;
                cur_port = 0;
            },
            NodeKind::Ownership(_) => {
                // A flow-bearing adapter materializes its re-labeled value
                // as the flow passes it, so downstream consumers find it on
                // the stack.
                resolve_data_dependency(st, g, types, funcs, this_node, 1, remaining)?;
                cur_node = this_node;
                cur_port = 0;
            },
            NodeKind::Apply => {
                compile_apply(st, g, types, funcs, this_node, remaining)?;
                cur_node = this_node;
                cur_port = 0;
            },
            _ => {
                return Err(CompileError::FlowTypeViolation { node: this_node });
            },
        }
    }
    Ok(())
}

/// How large a walk one compile pass will attempt before giving up.
pub const FLOW_BUDGET: usize = 1048576;

/// Compiles the graph into a linear instruction sequence.  The walk begins
/// at the unique start node's flow output; a graph without exactly one start
/// node is refused.
pub fn compile(g: &Graph, types: &TypeRegistry, funcs: &FunctionRegistry) -> (r: Result<
    Vec<Bytecode>,
    CompileError,
>)
    requires
        types.wf(),
    ensures
        r == Err::<Vec<Bytecode>, CompileError>(CompileError::NoStart) <==> spec_count_starts(
            g.nodes@,
        ) == 0,
        r == Err::<Vec<Bytecode>, CompileError>(CompileError::MultipleStarts) <==> spec_count_starts(
            g.nodes@,
        ) >= 2,
        r matches Ok(code) ==> spec_targets_in_bounds(code@, code@.len() as int),
        r matches Ok(code) ==> forall|s: usize|
            s < g.nodes@.len() && g.nodes@[s as int] is Start && (#[trigger] spec_first_edge_from(
                g.edges@,
                s,
                0,
            )) is Some ==> code@.len() > 0,
        // A flow-type violation is only ever reported against a node the
        // flow cannot pass through.
        r matches Err(e) ==> (e matches CompileError::FlowTypeViolation { node: n } ==> (n
            >= g.nodes@.len() || !spec_flow_capable(g.nodes@[n as int]))),
        // A graph of exactly one start node whose flow output feeds a single
        // terminal query compiles to exactly its binding instruction,
        // carrying that query's declared accesses.
        (spec_count_starts(g.nodes@) == 1 && (forall|s: usize|
            s < g.nodes@.len() && g.nodes@[s as int] is Start ==> ((#[trigger] spec_first_edge_from(
                g.edges@,
                s,
                0,
            )) matches Some((tn, tp)) && tn < g.nodes@.len() && g.nodes@[tn as int] is Query
                && spec_first_edge_from(g.edges@, tn, 0) is None))) ==> (r matches Ok(code)
            && code@.len() == 1 && (forall|s: usize|
            s < g.nodes@.len() && g.nodes@[s as int] is Start ==> ({
                let t = (#[trigger] spec_first_edge_from(g.edges@, s, 0))->0;
                g.nodes@[t.0 as int] matches NodeKind::Query(q) ==> (code@.last()
                    matches Bytecode::BindQuery(a) && a@ == q@)
            }))),
        // A graph of one start feeding a single call on one fresh literal,
        // with the call's flow output unconnected, compiles to exactly the
        // literal's push, its duplicate from slot zero, and the call.
        (spec_count_starts(g.nodes@) == 1 && (forall|s: usize|
            s < g.nodes@.len() && g.nodes@[s as int] is Start ==> ((#[trigger] spec_first_edge_from(
                g.edges@,
                s,
                0,
            )) matches Some((tn, tp)) && tn < g.nodes@.len() && (g.nodes@[tn as int]
                matches NodeKind::Function(h) && h < funcs.functions@.len()
                && funcs.functions@[h as int].params@.len() == 1 && (spec_first_edge_into(
                g.edges@,
                tn,
                1,
            ) matches Some(up) && up.0 < g.nodes@.len() && g.nodes@[up.0 as int] is Primitive)
                && spec_first_edge_from(g.edges@, tn, 0) is None)))) ==> (r matches Ok(code)
            && code@.len() == 3 && (forall|s: usize|
            s < g.nodes@.len() && g.nodes@[s as int] is Start ==> ({
                let t = (#[trigger] spec_first_edge_from(g.edges@, s, 0))->0;
                let up = spec_first_edge_into(g.edges@, t.0, 1)->0;
                &&& (g.nodes@[up.0 as int] matches NodeKind::Primitive(lit) ==> code@[0]
                    == Bytecode::PushLiteral(lit.spec_value()))
                &&& code@[1] == Bytecode::Duplicate(0)
                &&& (g.nodes@[t.0 as int] matches NodeKind::Function(h2) ==> code@[2]
                    == Bytecode::Call(h2))
            }))),
        // A flow edge from the start into a node the flow cannot pass
        // through never compiles.
        (spec_count_starts(g.nodes@) == 1 && (forall|s: usize|
            s < g.nodes@.len() && g.nodes@[s as int] is Start ==> ((#[trigger] spec_first_edge_from(
                g.edges@,
                s,
                0,
            )) matches Some((tn, tp)) && (tn >= g.nodes@.len() || !spec_flow_capable(
                g.nodes@[tn as int],
            ))))) ==> r is Err,
        // A graph of exactly one start node whose flow output leads nowhere
        // compiles, to the empty program.
        (spec_count_starts(g.nodes@) == 1 && (forall|s: usize|
            s < g.nodes@.len() && g.nodes@[s as int] is Start ==> (#[trigger] spec_first_edge_from(
                g.edges@,
                s,
                0,
            )) is None)) ==> (r matches Ok(code) && code@.len() == 0),
{
    let count = g.count_starts();
    if count == 0 {
        return Err(CompileError::NoStart);
    }
    if count > 1 {
        return Err(CompileError::MultipleStarts);
    }
    let start = match g.first_start() {
        Some(s) => s,
        None => {
            return Err(CompileError::NoStart);
        },
    };
    let mut st = CompileState::new();
    match resolve_forward_pass_flow_until_finished(&mut st, g, types, funcs, start, 0, FLOW_BUDGET) {
        Ok(()) => {
            proof {
                assert forall|s: usize|
                    s < g.nodes@.len() && g.nodes@[s as int] is Start && (
                    #[trigger] spec_first_edge_from(g.edges@, s, 0)) is Some implies st.bytecode@.len()
                    > 0 by {
                    lemma_single_start_is_unique(g.nodes@, start as int, s as int);
                }
                assert forall|s: usize|
                    s < g.nodes@.len() && g.nodes@[s as int] is Start implies ({
                    let t = (#[trigger] spec_first_edge_from(g.edges@, s, 0))->0;
                    (spec_first_edge_from(g.edges@, s, 0) matches Some((tn, tp)) && tn
                        < g.nodes@.len() && g.nodes@[tn as int] is Query && spec_first_edge_from(
                        g.edges@,
                        tn,
                        0,
                    ) is None) ==> (g.nodes@[t.0 as int] matches NodeKind::Query(q) ==> (
                    st.bytecode@.last() matches Bytecode::BindQuery(a) && a@ == q@
                        && st.bytecode@.len() == 1))
                }) by {
                    lemma_single_start_is_unique(g.nodes@, start as int, s as int);
                }
                assert forall|s: usize|
                    s < g.nodes@.len() && g.nodes@[s as int] is Start implies ({
                    let t = (#[trigger] spec_first_edge_from(g.edges@, s, 0))->0;
                    let up = spec_first_edge_into(g.edges@, t.0, 1)->0;
                    (spec_first_edge_from(g.edges@, s, 0) matches Some((tn, tp)) && tn
                        < g.nodes@.len() && (g.nodes@[tn as int] matches NodeKind::Function(h) && h
                        < funcs.functions@.len() && funcs.functions@[h as int].params@.len() == 1
                        && (spec_first_edge_into(g.edges@, tn, 1) matches Some(up2) && up2.0
                        < g.nodes@.len() && g.nodes@[up2.0 as int] is Primitive)
                        && spec_first_edge_from(g.edges@, tn, 0) is None)) ==> ({
                        &&& st.bytecode@.len() == 3
                        &&& (g.nodes@[up.0 as int] matches NodeKind::Primitive(lit)
                            ==> st.bytecode@[0] == Bytecode::PushLiteral(lit.spec_value()))
                        &&& st.bytecode@[1] == Bytecode::Duplicate(0)
                        &&& (g.nodes@[t.0 as int] matches NodeKind::Function(h2)
                            ==> st.bytecode@[2] == Bytecode::Call(h2))
                    })
                }) by {
                    lemma_single_start_is_unique(g.nodes@, start as int, s as int);
                }
            }
            Ok(st.bytecode)
        },
        Err(e) => Err(e),
    }
}

} // verus!

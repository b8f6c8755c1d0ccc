//! The port type resolver and the connection gate.
//!
//! For any port the resolver computes its semantic type and access mode,
//! possibly recursively through upstream ports.  The editor uses it to decide
//! whether two ports may legally be connected; that gate is the sole
//! protection the compiler has against ill-typed graphs.

use crate::graph::{Flow, Graph, InputPorts, NodeKind, OutputPorts, PortIndex, spec_first_edge_into};
use crate::types::{AccessMode, FunctionRegistry, Ty, TypeRegistry};
use vstd::prelude::*;

verus! {

/// What a port resolves to: nothing yet, a concrete type with an access
/// mode, an access mode whose type is not yet known, or the distinct marker
/// of a control-flow port.
#[derive(Clone, Copy, Debug, PartialEq, Eq, Structural)]
pub enum PortType {
    Blank,
    Typed(Ty, AccessMode),
    ModeOnly(AccessMode),
    FlowPort,
}

/// How many input ports a node exposes.
pub open spec fn spec_input_count(kind: NodeKind, types: TypeRegistry, funcs: FunctionRegistry) -> nat {
    match kind {
        NodeKind::Start => 0,
        NodeKind::Primitive(_) => 0,
        NodeKind::Function(f) => if f < funcs.functions@.len() {
            funcs.functions@[f as int].params@.len() + 1
        } else {
            1
        },
        NodeKind::Ownership(_) => 2,
        NodeKind::Breakdown(_) => 1,
        NodeKind::Buildup(sid) => if sid < types.structs@.len() {
            types.structs@[sid as int].fields@.len()
        } else {
            0
        },
        NodeKind::For(_) => 2,
        NodeKind::Query(_) => 1,
        NodeKind::TupleBreakdown(_) => 1,
        NodeKind::Apply => 3,
        NodeKind::IfElse(_) => 2,
    }
}

/// Whether input `idx` of a node of this kind is a flow port.
pub open spec fn spec_is_flow_input(kind: NodeKind, idx: usize) -> bool {
    idx == 0 && match kind {
        NodeKind::Function(_) => true,
        NodeKind::Ownership(_) => true,
        NodeKind::For(_) => true,
        NodeKind::Query(_) => true,
        NodeKind::Apply => true,
        NodeKind::IfElse(_) => true,
        _ => false,
    }
}

/// How many output ports a node exposes.
pub open spec fn spec_output_count(kind: NodeKind, types: TypeRegistry, funcs: FunctionRegistry) -> nat {
    match kind {
        NodeKind::Start => 1,
        NodeKind::Primitive(_) => 1,
        NodeKind::Function(f) => if f < funcs.functions@.len()
            && funcs.functions@[f as int].ret is Some {
            2
        } else {
            1
        },
        NodeKind::Ownership(_) => 2,
        NodeKind::Breakdown(b) => b.num_fields as nat,
        NodeKind::Buildup(_) => 1,
        NodeKind::For(_) => 3,
        NodeKind::Query(_) => 2,
        NodeKind::TupleBreakdown(t) => t.length as nat,
        NodeKind::Apply => 1,
        NodeKind::IfElse(_) => 2,
    }
}

/// Whether output `idx` of a node of this kind is a flow port.
pub open spec fn spec_is_flow_output(kind: NodeKind, idx: usize) -> bool {
    match kind {
        NodeKind::Start => idx == 0,
        NodeKind::Function(_) => idx == 0,
        NodeKind::Ownership(_) => idx == 0,
        NodeKind::For(_) => idx == 0 || idx == 2,
        NodeKind::Query(_) => idx == 0,
        NodeKind::Apply => idx == 0,
        NodeKind::IfElse(_) => idx == 0 || idx == 1,
        _ => false,
    }
}

/// What output `port` of node `node` resolves to, recursing upstream at most
/// `fuel` times.
pub open spec fn spec_resolve_output(
    g: Graph,
    types: TypeRegistry,
    funcs: FunctionRegistry,
    node: usize,
    port: usize,
    fuel: nat,
) -> PortType
    decreases fuel,
{
    if fuel == 0 || node >= g.nodes@.len() {
        PortType::Blank
    } else {
        match g.nodes@[node as int] {
            NodeKind::Start => if port == 0 {
                PortType::FlowPort
            } else {
                PortType::Blank
            },
            NodeKind::Primitive(lit) => if port == 0 {
                PortType::Typed(lit.spec_ty(), AccessMode::Owned)
            } else {
                PortType::Blank
            },
            NodeKind::Function(f) => if port == 0 {
                PortType::FlowPort
            } else if port == 1 && f < funcs.functions@.len() && funcs.functions@[f as int].ret
                is Some {
                let (t, m) = funcs.functions@[f as int].ret->0;
                PortType::Typed(t, m)
            } else {
                PortType::Blank
            },
            NodeKind::Ownership(m) => if port == 0 {
                PortType::FlowPort
            } else if port == 1 {
                match spec_first_edge_into(g.edges@, node, 1) {
                    Some((un, up)) => match spec_resolve_output(
                        g,
                        types,
                        funcs,
                        un,
                        up,
                        (fuel - 1) as nat,
                    ) {
                        PortType::Typed(t, _) => PortType::Typed(t, m),
                        _ => PortType::ModeOnly(m),
                    },
                    None => PortType::ModeOnly(m),
                }
            } else {
                PortType::Blank
            },
            NodeKind::Breakdown(b) => if port < b.num_fields {
                match spec_first_edge_into(g.edges@, node, 0) {
                    Some((un, up)) => match spec_resolve_output(
                        g,
                        types,
                        funcs,
                        un,
                        up,
                        (fuel - 1) as nat,
                    ) {
                        PortType::Typed(Ty::StructTy(sid), _) => if sid < types.structs@.len()
                            && port < types.structs@[sid as int].fields@.len() {
                            PortType::Typed(
                                types.structs@[sid as int].fields@[port as int],
                                b.breakdown_type.spec_mode(),
                            )
                        } else {
                            PortType::Blank
                        },
                        _ => PortType::Blank,
                    },
                    None => PortType::Blank,
                }
            } else {
                PortType::Blank
            },
            NodeKind::Buildup(sid) => if port == 0 && sid < types.structs@.len() {
                PortType::Typed(Ty::StructTy(sid), AccessMode::Owned)
            } else {
                PortType::Blank
            },
            NodeKind::For(item_ty) => if port == 0 || port == 2 {
                PortType::FlowPort
            } else if port == 1 {
                PortType::Typed(item_ty, AccessMode::ExclusiveRef)
            } else {
                PortType::Blank
            },
            NodeKind::Query(_) => if port == 0 {
                PortType::FlowPort
            } else if port == 1 {
                PortType::Typed(Ty::QueryTy, AccessMode::Owned)
            } else {
                PortType::Blank
            },
            NodeKind::TupleBreakdown(_) => PortType::Blank,
            NodeKind::Apply => if port == 0 {
                PortType::FlowPort
            } else {
                PortType::Blank
            },
            NodeKind::IfElse(_) => if port == 0 || port == 1 {
                PortType::FlowPort
            } else {
                PortType::Blank
            },
        }
    }
}

/// What input `port` of node `node` expects of its producer.
pub open spec fn spec_resolve_input(
    g: Graph,
    types: TypeRegistry,
    funcs: FunctionRegistry,
    node: usize,
    port: usize,
    fuel: nat,
) -> PortType {
    if node >= g.nodes@.len() {
        PortType::Blank
    } else {
        match g.nodes@[node as int] {
            NodeKind::Start => PortType::Blank,
            NodeKind::Primitive(_) => PortType::Blank,
            NodeKind::Function(f) => if port == 0 {
                PortType::FlowPort
            } else if f < funcs.functions@.len() && 1 <= port && port
                <= funcs.functions@[f as int].params@.len() {
                let (t, m) = funcs.functions@[f as int].params@[port - 1];
                PortType::Typed(t, m)
            } else {
                PortType::Blank
            },
            NodeKind::Ownership(_) => if port == 0 {
                PortType::FlowPort
            } else {
                PortType::Blank
            },
            NodeKind::Breakdown(_) => PortType::Blank,
            NodeKind::Buildup(sid) => if sid < types.structs@.len() && port
                < types.structs@[sid as int].fields@.len() {
                PortType::Typed(types.structs@[sid as int].fields@[port as int], AccessMode::Owned)
            } else {
                PortType::Blank
            },
            NodeKind::For(_) => if port == 0 {
                PortType::FlowPort
            } else if port == 1 {
                PortType::ModeOnly(AccessMode::Owned)
            } else {
                PortType::Blank
            },
            NodeKind::Query(_) => if port == 0 {
                PortType::FlowPort
            } else {
                PortType::Blank
            },
            NodeKind::TupleBreakdown(_) => PortType::Blank,
            // The apply node adopts the receiver's resolved type: once the
            // receiver's upstream produces an exclusive reference to some
            // type, the applier input demands an owned value of that very
            // type, so the connection gate refuses a mismatched applier.
            NodeKind::Apply => if port == 0 {
                PortType::FlowPort
            } else if port == 1 {
                match spec_first_edge_into(g.edges@, node, 1) {
                    Some((un, up)) => match spec_resolve_output(g, types, funcs, un, up, fuel) {
                        PortType::Typed(t, AccessMode::ExclusiveRef) => PortType::Typed(
                            t,
                            AccessMode::ExclusiveRef,
                        ),
                        _ => PortType::ModeOnly(AccessMode::ExclusiveRef),
                    },
                    None => PortType::ModeOnly(AccessMode::ExclusiveRef),
                }
            } else if port == 2 {
                match spec_first_edge_into(g.edges@, node, 1) {
                    Some((un, up)) => match spec_resolve_output(g, types, funcs, un, up, fuel) {
                        PortType::Typed(t, AccessMode::ExclusiveRef) => PortType::Typed(
                            t,
                            AccessMode::Owned,
                        ),
                        _ => PortType::ModeOnly(AccessMode::Owned),
                    },
                    None => PortType::ModeOnly(AccessMode::Owned),
                }
            } else {
                PortType::Blank
            },
            NodeKind::IfElse(_) => if port == 0 {
                PortType::FlowPort
            } else {
                PortType::Blank
            },
        }
    }
}

/// The connection gate: a producer port may feed a consumer port iff both
/// are flow ports, or the producer is typed and the consumer blank, or both
/// are typed identically, or the producer is typed and the consumer asks
/// only for that same access mode.
pub open spec fn spec_can_connect(producer: PortType, consumer: PortType) -> bool {
    ||| (producer is FlowPort && consumer is FlowPort)
    ||| (producer is Typed && consumer is Blank)
    ||| (producer matches PortType::Typed(t, m) && consumer matches PortType::Typed(t2, m2) && t
        == t2 && m == m2)
    ||| (producer matches PortType::Typed(t, m) && consumer matches PortType::ModeOnly(m2) && m
        == m2)
}

/// Whether the connection gate admits an edge from `producer` to `consumer`.
pub fn can_connect(producer: PortType, consumer: PortType) -> (r: bool)
    ensures
        r == spec_can_connect(producer, consumer),
{
    match (producer, consumer) {
        (PortType::FlowPort, PortType::FlowPort) => true,
        (PortType::Typed(_, _), PortType::Blank) => true,
        (PortType::Typed(t, m), PortType::Typed(t2, m2)) => t == t2 && m == m2,
        (PortType::Typed(_, m), PortType::ModeOnly(m2)) => m == m2,
        _ => false,
    }
}

/// An owned producer never feeds an exclusive-reference consumer: the
/// connection gate refuses the edge for every type, so such a connection never reaches the
/// compiler.
pub proof fn lemma_gate_rejects_owned_into_exclusive(t: Ty)
    ensures
        !spec_can_connect(
            PortType::Typed(t, AccessMode::Owned),
            PortType::Typed(t, AccessMode::ExclusiveRef),
        ),
        !spec_can_connect(
            PortType::Typed(t, AccessMode::Owned),
            PortType::ModeOnly(AccessMode::ExclusiveRef),
        ),
{
}

/// What output `port` of `node` resolves to.  `fuel` bounds the upstream
/// recursion; one more than the number of nodes suffices for any graph whose
/// data edges form no cycle.
pub fn resolve_output(
    g: &Graph,
    types: &TypeRegistry,
    funcs: &FunctionRegistry,
    node: usize,
    port: usize,
    fuel: usize,
) -> (r: PortType)
    ensures
        r == spec_resolve_output(*g, *types, *funcs, node, port, fuel as nat),
    decreases fuel,
{
    if fuel == 0 || node >= g.nodes.len() {
        return PortType::Blank;
    }
    match &g.nodes[node] {
        NodeKind::Start => if port == 0 {
            PortType::FlowPort
        } else {
            PortType::Blank
        },
        NodeKind::Primitive(lit) => if port == 0 {
            PortType::Typed(lit.ty(), AccessMode::Owned)
        } else {
            PortType::Blank
        },
        NodeKind::Function(f) => {
            if port == 0 {
                PortType::FlowPort
            } else if port == 1 {
                match funcs.get(*f) {
                    Some(def) => match &def.ret {
                        Some((t, m)) => PortType::Typed(*t, *m),
                        None => PortType::Blank,
                    },
                    None => PortType::Blank,
                }
            } else {
                PortType::Blank
            }
        },
        NodeKind::Ownership(m) => {
            if port == 0 {
                PortType::FlowPort
            } else if port == 1 {
                match g.edge_into(node, 1) {
                    Some((un, up)) => match resolve_output(g, types, funcs, un, up, fuel - 1) {
                        PortType::Typed(t, _) => PortType::Typed(t, *m),
                        _ => PortType::ModeOnly(*m),
                    },
                    None => PortType::ModeOnly(*m),
                }
            } else {
                PortType::Blank
            }
        },
        NodeKind::Breakdown(b) => {
            if port < b.num_fields {
                match g.edge_into(node, 0) {
                    Some((un, up)) => match resolve_output(g, types, funcs, un, up, fuel - 1) {
                        PortType::Typed(Ty::StructTy(sid), _) => match types.field_ty(sid, port) {
                            Some(t) => PortType::Typed(t, b.breakdown_type.mode()),
                            None => PortType::Blank,
                        },
                        _ => PortType::Blank,
                    },
                    None => PortType::Blank,
                }
            } else {
                PortType::Blank
            }
        },
        NodeKind::Buildup(sid) => {
            if port == 0 && *sid < types.structs.len() {
                PortType::Typed(Ty::StructTy(*sid), AccessMode::Owned)
            } else {
                PortType::Blank
            }
        },
        NodeKind::For(item_ty) => {
            if port == 0 || port == 2 {
                PortType::FlowPort
            } else if port == 1 {
                PortType::Typed(*item_ty, AccessMode::ExclusiveRef)
            } else {
                PortType::Blank
            }
        },
        NodeKind::Query(_) => {
            if port == 0 {
                PortType::FlowPort
            } else if port == 1 {
                PortType::Typed(Ty::QueryTy, AccessMode::Owned)
            } else {
                PortType::Blank
            }
        },
        NodeKind::TupleBreakdown(_) => PortType::Blank,
        NodeKind::Apply => {
            if port == 0 {
                PortType::FlowPort
            } else {
                PortType::Blank
            }
        },
        NodeKind::IfElse(_) => {
            if port == 0 || port == 1 {
                PortType::FlowPort
            } else {
                PortType::Blank
            }
        },
    }
}

/// What input `port` of `node` expects of its producer.
pub fn resolve_input(
    g: &Graph,
    types: &TypeRegistry,
    funcs: &FunctionRegistry,
    node: usize,
    port: usize,
    fuel: usize,
) -> (r: PortType)
    ensures
        r == spec_resolve_input(*g, *types, *funcs, node, port, fuel as nat),
{
    if node >= g.nodes.len() {
        return PortType::Blank;
    }
    match &g.nodes[node] {
        NodeKind::Start => PortType::Blank,
        NodeKind::Primitive(_) => PortType::Blank,
        NodeKind::Function(f) => {
            if port == 0 {
                PortType::FlowPort
            } else {
                match funcs.get(*f) {
                    Some(def) => {
                        if 1 <= port && port <= def.params.len() {
                            let (t, m) = def.params[port - 1];
                            PortType::Typed(t, m)
                        } else {
                            PortType::Blank
                        }
                    },
                    None => PortType::Blank,
                }
            }
        },
        NodeKind::Ownership(_) => if port == 0 {
            PortType::FlowPort
        } else {
            PortType::Blank
        },
        NodeKind::Breakdown(_) => PortType::Blank,
        NodeKind::Buildup(sid) => {
            match types.field_ty(*sid, port) {
                Some(t) => PortType::Typed(t, AccessMode::Owned),
                None => PortType::Blank,
            }
        },
        NodeKind::For(_) => {
            if port == 0 {
                PortType::FlowPort
            } else if port == 1 {
                PortType::ModeOnly(AccessMode::Owned)
            } else {
                PortType::Blank
            }
        },
        NodeKind::Query(_) => if port == 0 {
            PortType::FlowPort
        } else {
            PortType::Blank
        },
        NodeKind::TupleBreakdown(_) => PortType::Blank,
        NodeKind::Apply => {
            if port == 0 {
                PortType::FlowPort
            } else if port == 1 {
                match g.edge_into(node, 1) {
                    Some((un, up)) => match resolve_output(g, types, funcs, un, up, fuel) {
                        PortType::Typed(t, AccessMode::ExclusiveRef) => PortType::Typed(
                            t,
                            AccessMode::ExclusiveRef,
                        ),
                        _ => PortType::ModeOnly(AccessMode::ExclusiveRef),
                    },
                    None => PortType::ModeOnly(AccessMode::ExclusiveRef),
                }
            } else if port == 2 {
                match g.edge_into(node, 1) {
                    Some((un, up)) => match resolve_output(g, types, funcs, un, up, fuel) {
                        PortType::Typed(t, AccessMode::ExclusiveRef) => PortType::Typed(
                            t,
                            AccessMode::Owned,
                        ),
                        _ => PortType::ModeOnly(AccessMode::Owned),
                    },
                    None => PortType::ModeOnly(AccessMode::Owned),
                }
            } else {
                PortType::Blank
            }
        },
        NodeKind::IfElse(_) => if port == 0 {
            PortType::FlowPort
        } else {
            PortType::Blank
        },
    }
}

/// Every data input of `node` is connected and resolves to a concrete typed
/// value.  The editor colors the node's flow pins by this predicate and
/// refuses flow connections while it is false.
pub open spec fn spec_all_data_inputs_satisfied(
    g: Graph,
    types: TypeRegistry,
    funcs: FunctionRegistry,
    node: usize,
    fuel: nat,
) -> bool {
    forall|i: usize|
        {
            &&& i < spec_input_count(g.nodes@[node as int], types, funcs)
            &&& !spec_is_flow_input(g.nodes@[node as int], i)
        } ==> match #[trigger] spec_first_edge_into(g.edges@, node, i) {
            Some((un, up)) => spec_resolve_output(g, types, funcs, un, up, fuel) is Typed,
            None => false,
        }
}

/// Whether every data input of `node` is connected and resolves to a
/// concrete typed value.
pub fn all_data_inputs_satisfied(
    g: &Graph,
    types: &TypeRegistry,
    funcs: &FunctionRegistry,
    node: usize,
    fuel: usize,
) -> (r: bool)
    requires
        node < g.nodes@.len(),
        funcs.wf(),
    ensures
        r == spec_all_data_inputs_satisfied(*g, *types, *funcs, node, fuel as nat),
{
    let kind = &g.nodes[node];
    let count = input_count(g, types, funcs, node);
    let mut i: usize = 0;
    while i < count
        invariant
            node < g.nodes@.len(),
            count == spec_input_count(g.nodes@[node as int], *types, *funcs),
            i <= count,
            forall|k: usize|
                {
                    &&& k < i
                    &&& !spec_is_flow_input(g.nodes@[node as int], k)
                } ==> match #[trigger] spec_first_edge_into(g.edges@, node, k) {
                    Some((un, up)) => spec_resolve_output(*g, *types, *funcs, un, up, fuel as nat)
                        is Typed,
                    None => false,
                },
        decreases count - i,
    {
        if !is_flow_input(g, node, i) {
            match g.edge_into(node, i) {
                Some((un, up)) => {
                    let t = resolve_output(g, types, funcs, un, up, fuel);
                    match t {
                        PortType::Typed(_, _) => {},
                        _ => {
                            return false;
                        },
                    }
                },
                None => {
                    return false;
                },
            }
        }
        i += 1;
    }
    true
}

/// How many input ports `node` exposes.
pub fn input_count(g: &Graph, types: &TypeRegistry, funcs: &FunctionRegistry, node: usize) -> (r:
    usize)
    requires
        node < g.nodes@.len(),
        funcs.wf(),
    ensures
        r == spec_input_count(g.nodes@[node as int], *types, *funcs),
{
    match &g.nodes[node] {
        NodeKind::Start => 0,
        NodeKind::Primitive(_) => 0,
        NodeKind::Function(f) => match funcs.get(*f) {
            Some(def) => def.params.len() + 1,
            None => 1,
        },
        NodeKind::Ownership(_) => 2,
        NodeKind::Breakdown(_) => 1,
        NodeKind::Buildup(sid) => match types.field_count(*sid) {
            Some(n) => n,
            None => 0,
        },
        NodeKind::For(_) => 2,
        NodeKind::Query(_) => 1,
        NodeKind::TupleBreakdown(_) => 1,
        NodeKind::Apply => 3,
        NodeKind::IfElse(_) => 2,
    }
}

/// How many output ports `node` exposes.
pub fn output_count(g: &Graph, types: &TypeRegistry, funcs: &FunctionRegistry, node: usize) -> (r:
    usize)
    requires
        node < g.nodes@.len(),
    ensures
        r == spec_output_count(g.nodes@[node as int], *types, *funcs),
{
    match &g.nodes[node] {
        NodeKind::Start => 1,
        NodeKind::Primitive(_) => 1,
        NodeKind::Function(f) => match funcs.get(*f) {
            Some(def) => if def.ret.is_some() {
                2
            } else {
                1
            },
            None => 1,
        },
        NodeKind::Ownership(_) => 2,
        NodeKind::Breakdown(b) => b.num_fields,
        NodeKind::Buildup(_) => 1,
        NodeKind::For(_) => 3,
        NodeKind::Query(_) => 2,
        NodeKind::TupleBreakdown(t) => t.length,
        NodeKind::Apply => 1,
        NodeKind::IfElse(_) => 2,
    }
}

/// Whether input `idx` of `node` is a flow port.
pub fn is_flow_input(g: &Graph, node: usize, idx: usize) -> (r: bool)
    requires
        node < g.nodes@.len(),
    ensures
        r == spec_is_flow_input(g.nodes@[node as int], idx),
{
    if idx != 0 {
        return false;
    }
    match &g.nodes[node] {
        NodeKind::Function(_) => true,
        NodeKind::Ownership(_) => true,
        NodeKind::For(_) => true,
        NodeKind::Query(_) => true,
        NodeKind::Apply => true,
        NodeKind::IfElse(_) => true,
        _ => false,
    }
}

/// Whether output `idx` of `node` is a flow port.
pub fn is_flow_output(g: &Graph, node: usize, idx: usize) -> (r: bool)
    requires
        node < g.nodes@.len(),
    ensures
        r == spec_is_flow_output(g.nodes@[node as int], idx),
{
    match &g.nodes[node] {
        NodeKind::Start => idx == 0,
        NodeKind::Function(_) => idx == 0,
        NodeKind::Ownership(_) => idx == 0,
        NodeKind::For(_) => idx == 0 || idx == 2,
        NodeKind::Query(_) => idx == 0,
        NodeKind::Apply => idx == 0,
        NodeKind::IfElse(_) => idx == 0 || idx == 1,
        _ => false,
    }
}

/// What the port addressed by `port` resolves to.
pub fn resolve_port(
    g: &Graph,
    types: &TypeRegistry,
    funcs: &FunctionRegistry,
    node: usize,
    port: PortIndex,
    fuel: usize,
) -> (r: PortType)
    ensures
        port matches PortIndex::Out(p) ==> r == spec_resolve_output(
            *g,
            *types,
            *funcs,
            node,
            p,
            fuel as nat,
        ),
        port matches PortIndex::In(p) ==> r == spec_resolve_input(
            *g,
            *types,
            *funcs,
            node,
            p,
            fuel as nat,
        ),
{
    match port {
        PortIndex::Out(p) => resolve_output(g, types, funcs, node, p, fuel),
        PortIndex::In(p) => resolve_input(g, types, funcs, node, p, fuel),
    }
}

impl Graph {
    /// The input ports of `node`: its data input indices and flow input
    /// indices, each ascending.
    pub fn input_ports(&self, types: &TypeRegistry, funcs: &FunctionRegistry, node: usize) -> (r:
        InputPorts)
        requires
            node < self.nodes@.len(),
            funcs.wf(),
        ensures
            forall|k: int|
                0 <= k < r.data_ports@.len() ==> !spec_is_flow_input(
                    self.nodes@[node as int],
                    #[trigger] r.data_ports@[k],
                ) && r.data_ports@[k] < spec_input_count(self.nodes@[node as int], *types, *funcs),
            forall|k: int|
                0 <= k < r.flow_ports@.len() ==> spec_is_flow_input(
                    self.nodes@[node as int],
                    #[trigger] r.flow_ports@[k],
                ) && r.flow_ports@[k] < spec_input_count(self.nodes@[node as int], *types, *funcs),
            forall|i: usize|
                i < spec_input_count(self.nodes@[node as int], *types, *funcs)
                    ==> (#[trigger] r.data_ports@.contains(i) || r.flow_ports@.contains(i)),
    {
        let count = input_count(self, types, funcs, node);
        let mut data_ports: Vec<usize> = Vec::new();
        let mut flow_ports: Vec<usize> = Vec::new();
        let mut i: usize = 0;
        while i < count
            invariant
                node < self.nodes@.len(),
                count == spec_input_count(self.nodes@[node as int], *types, *funcs),
                i <= count,
                forall|k: int|
                    0 <= k < data_ports@.len() ==> !spec_is_flow_input(
                        self.nodes@[node as int],
                        #[trigger] data_ports@[k],
                    ) && data_ports@[k] < count,
                forall|k: int|
                    0 <= k < flow_ports@.len() ==> spec_is_flow_input(
                        self.nodes@[node as int],
                        #[trigger] flow_ports@[k],
                    ) && flow_ports@[k] < count,
                forall|j: usize|
                    j < i ==> (#[trigger] data_ports@.contains(j) || flow_ports@.contains(j)),
            decreases count - i,
        {
            let ghost pre_data = data_ports@;
            let ghost pre_flow = flow_ports@;
            if is_flow_input(self, node, i) {
                flow_ports.push(i);
            } else {
                data_ports.push(i);
            }
            proof {
                assert forall|j: usize| j < i + 1 implies (#[trigger] data_ports@.contains(j)
                    || flow_ports@.contains(j)) by {
                    if j < i {
                        if pre_data.contains(j) {
                            let k = choose|k: int| 0 <= k < pre_data.len() && pre_data[k] == j;
                            assert(data_ports@[k] == j);
                        } else {
                            let k = choose|k: int| 0 <= k < pre_flow.len() && pre_flow[k] == j;
                            assert(flow_ports@[k] == j);
                        }
                    } else {
                        if spec_is_flow_input(self.nodes@[node as int], i) {
                            assert(flow_ports@[flow_ports@.len() - 1] == i);
                        } else {
                            assert(data_ports@[data_ports@.len() - 1] == i);
                        }
                    }
                }
            }
            i += 1;
        }
        InputPorts { data_ports, flow_ports }
    }

    /// The output ports of `node`: its data output indices and flow output
    /// indices, each ascending, flow ports tagged with the flow marker.
    pub fn output_ports(&self, types: &TypeRegistry, funcs: &FunctionRegistry, node: usize) -> (r:
        OutputPorts)
        requires
            node < self.nodes@.len(),
        ensures
            forall|k: int|
                0 <= k < r.data_ports@.len() ==> !spec_is_flow_output(
                    self.nodes@[node as int],
                    #[trigger] r.data_ports@[k],
                ) && r.data_ports@[k] < spec_output_count(self.nodes@[node as int], *types, *funcs),
            forall|k: int|
                0 <= k < r.flow_ports@.len() ==> spec_is_flow_output(
                    self.nodes@[node as int],
                    (#[trigger] r.flow_ports@[k]).0,
                ) && r.flow_ports@[k].0 < spec_output_count(self.nodes@[node as int], *types, *funcs),
            forall|i: usize|
                i < spec_output_count(self.nodes@[node as int], *types, *funcs)
                    ==> (#[trigger] r.data_ports@.contains(i) || exists|k: int|
                    0 <= k < r.flow_ports@.len() && (#[trigger] r.flow_ports@[k]).0 == i),
    {
        let count = output_count(self, types, funcs, node);
        let mut data_ports: Vec<usize> = Vec::new();
        let mut flow_ports: Vec<(usize, Flow)> = Vec::new();
        let mut i: usize = 0;
        while i < count
            invariant
                node < self.nodes@.len(),
                count == spec_output_count(self.nodes@[node as int], *types, *funcs),
                i <= count,
                forall|k: int|
                    0 <= k < data_ports@.len() ==> !spec_is_flow_output(
                        self.nodes@[node as int],
                        #[trigger] data_ports@[k],
                    ) && data_ports@[k] < count,
                forall|k: int|
                    0 <= k < flow_ports@.len() ==> spec_is_flow_output(
                        self.nodes@[node as int],
                        (#[trigger] flow_ports@[k]).0,
                    ) && flow_ports@[k].0 < count,
                forall|j: usize|
                    j < i ==> (#[trigger] data_ports@.contains(j) || exists|k: int|
                        0 <= k < flow_ports@.len() && (#[trigger] flow_ports@[k]).0 == j),
            decreases count - i,
        {
            let ghost pre_data = data_ports@;
            let ghost pre_flow = flow_ports@;
            if is_flow_output(self, node, i) {
                flow_ports.push((i, Flow));
            } else {
                data_ports.push(i);
            }
            proof {
                assert forall|j: usize| j < i + 1 implies (#[trigger] data_ports@.contains(j)
                    || exists|k: int|
                    0 <= k < flow_ports@.len() && (#[trigger] flow_ports@[k]).0 == j) by {
                    if j < i {
                        if pre_data.contains(j) {
                            let k = choose|k: int| 0 <= k < pre_data.len() && pre_data[k] == j;
                            assert(data_ports@[k] == j);
                        } else {
                            let k = choose|k: int| 0 <= k < pre_flow.len() && (pre_flow[k]).0 == j;
                            assert((flow_ports@[k]).0 == j);
                        }
                    } else {
                        if spec_is_flow_output(self.nodes@[node as int], i) {
                            assert((flow_ports@[flow_ports@.len() - 1]).0 == i);
                        } else {
                            assert(data_ports@[data_ports@.len() - 1] == i);
                        }
                    }
                }
            }
            i += 1;
        }
        OutputPorts { data_ports, flow_ports }
    }

    /// The editor's connection attempt.  The edge is added exactly when the
    /// gate admits it; a flow edge additionally requires every data input of
    /// the consumer's node to be satisfied.
    pub fn connect(
        &mut self,
        from: (usize, usize),
        to: (usize, usize),
        types: &TypeRegistry,
        funcs: &FunctionRegistry,
    ) -> (r: bool)
        requires
            old(self).nodes@.len() < usize::MAX,
            funcs.wf(),
        ensures
            final(self).nodes@ == old(self).nodes@,
            ({
                let fuel = (old(self).nodes@.len() + 1) as nat;
                let p = spec_resolve_output(*old(self), *types, *funcs, from.0, from.1, fuel);
                let c = spec_resolve_input(*old(self), *types, *funcs, to.0, to.1, fuel);
                let admitted = {
                    &&& to.0 < old(self).nodes@.len()
                    &&& spec_can_connect(p, c)
                    &&& (c is FlowPort ==> spec_all_data_inputs_satisfied(
                        *old(self),
                        *types,
                        *funcs,
                        to.0,
                        fuel,
                    ))
                };
                &&& r == admitted
                &&& (admitted ==> final(self).edges@ == old(self).edges@.push(
                    crate::graph::Edge {
                        from_node: from.0,
                        from_port: from.1,
                        to_node: to.0,
                        to_port: to.1,
                    },
                ))
                &&& (!admitted ==> final(self).edges@ == old(self).edges@)
            }),
    {
        let fuel = self.nodes.len() + 1;
        if to.0 >= self.nodes.len() {
            return false;
        }
        let p = resolve_output(self, types, funcs, from.0, from.1, fuel);
        let c = resolve_input(self, types, funcs, to.0, to.1, fuel);
        if !can_connect(p, c) {
            return false;
        }
        let is_flow = match c {
            PortType::FlowPort => true,
            _ => false,
        };
        if is_flow {
            if !all_data_inputs_satisfied(self, types, funcs, to.0, fuel) {
                return false;
            }
        }
        self.add_edge(from, to);
        true
    }
}

} // verus!

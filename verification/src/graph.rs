//! The graph model: nodes, ports and edges.
//!
//! The graph is assembled by an editor and read, never written, by the
//! compiler.  A port is addressed by its node, its index and its direction;
//! whether a given index is a flow port or a data port is fixed by the node's
//! kind.

use crate::types::{AccessMode, FunctionRegistry, Literal, QueryDataType, Ty, TypeRegistry};
use vstd::prelude::*;
use vstd::string::StringExecFns;

verus! {

/// The access mode a breakdown node projects its fields with.
#[derive(Clone, Copy, Debug, PartialEq, Eq, Structural)]
pub enum BreakdownType {
    Owned,
    Reference,
    MutReference,
}

impl BreakdownType {
    /// The access mode this breakdown projects with.
    pub fn mode(&self) -> (m: AccessMode)
        ensures
            m == self.spec_mode(),
    {
        match self {
            BreakdownType::Owned => AccessMode::Owned,
            BreakdownType::Reference => AccessMode::SharedRef,
            BreakdownType::MutReference => AccessMode::ExclusiveRef,
        }
    }

    pub open spec fn spec_mode(&self) -> AccessMode {
        match self {
            BreakdownType::Owned => AccessMode::Owned,
            BreakdownType::Reference => AccessMode::SharedRef,
            BreakdownType::MutReference => AccessMode::ExclusiveRef,
        }
    }

    /// A label `s` prefixed with this breakdown's reference sigil.
    pub fn format(&self, s: &str) -> (r: String)
        ensures
            r@ == self.spec_format(s@),
    {
        match self {
            BreakdownType::Owned => String::from_str(s),
            BreakdownType::Reference => String::from_str("&").concat(s),
            BreakdownType::MutReference => String::from_str("&mut ").concat(s),
        }
    }

    pub open spec fn spec_format(&self, s: Seq<char>) -> Seq<char> {
        match self {
            BreakdownType::Owned => s,
            BreakdownType::Reference => "&"@ + s,
            BreakdownType::MutReference => "&mut "@ + s,
        }
    }
}

/// A node that splits a structure into its fields, each projected as an
/// owned copy, a shared reference or an exclusive reference.  `num_fields`
/// is the number of field outputs the node exposes.
#[derive(Clone, Copy, Debug, PartialEq, Eq, Structural)]
pub struct BreakdownNode {
    pub breakdown_type: BreakdownType,
    pub num_fields: usize,
}

/// A node that splits a fixed-length list into `length` element outputs.
#[derive(Clone, Copy, Debug, PartialEq, Eq, Structural)]
pub struct TupleBreakdownNode {
    pub length: usize,
}

/// A two-way branching node.  It takes part in graph editing but is not part
/// of the executed core: reaching it on the flow walk is a compile error.
#[derive(Clone, Copy, Debug, PartialEq, Eq, Structural)]
pub struct IfElseNode {}

/// One node of the graph.
#[derive(Debug)]
pub enum NodeKind {
    /// The entry point; exactly one per compiled graph.
    Start,
    /// A literal value chosen by the user.
    Primitive(Literal),
    /// A call of the function table entry with the given handle.
    Function(usize),
    /// Re-labels the access mode of the incoming value.
    Ownership(AccessMode),
    /// Splits a structure into its fields.
    Breakdown(BreakdownNode),
    /// Assembles a fresh instance of the structure with the given identifier
    /// from one input per field.
    Buildup(usize),
    /// Iterates an iterable source, yielding each item to its body; the
    /// payload is the declared item type.
    For(Ty),
    /// Binds the declared component accesses to the host's records.
    Query(Vec<QueryDataType>),
    /// Splits a fixed-length list into its elements.
    TupleBreakdown(TupleBreakdownNode),
    /// Writes a value into an exclusively borrowed receiver when the flow
    /// passes it: one exclusive-borrow input and one owned value input.
    Apply,
    /// Branching; not part of the executed core.
    IfElse(IfElseNode),
}

/// A port addressed by index and direction within one node.
#[derive(Clone, Copy, Debug, PartialEq, Eq, Structural)]
pub enum PortIndex {
    Out(usize),
    In(usize),
}

/// Marker tagging a flow port in a port listing.
#[derive(Clone, Copy, Debug, PartialEq, Eq, Structural)]
pub struct Flow;

/// The input ports a node exposes: the indices of its data inputs and of its
/// flow inputs.
#[derive(Debug)]
pub struct InputPorts {
    pub data_ports: Vec<usize>,
    pub flow_ports: Vec<usize>,
}

/// The output ports a node exposes: the indices of its data outputs and of
/// its flow outputs, each flow port tagged with the flow marker.
#[derive(Debug)]
pub struct OutputPorts {
    pub data_ports: Vec<usize>,
    pub flow_ports: Vec<(usize, Flow)>,
}

/// A directed connection from an output port to an input port.
#[derive(Clone, Copy, Debug, PartialEq, Eq, Structural)]
pub struct Edge {
    pub from_node: usize,
    pub from_port: usize,
    pub to_node: usize,
    pub to_port: usize,
}

/// The node/port/edge structure the compiler reads.
#[derive(Debug)]
pub struct Graph {
    pub nodes: Vec<NodeKind>,
    pub edges: Vec<Edge>,
}

/// The first edge of `edges` that ends at input `port` of `node`, as the
/// output port it comes from.
pub open spec fn spec_first_edge_into(edges: Seq<Edge>, node: usize, port: usize) -> Option<
    (usize, usize),
>
    decreases edges.len(),
{
    if edges.len() == 0 {
        None
    } else if edges[0].to_node == node && edges[0].to_port == port {
        Some((edges[0].from_node, edges[0].from_port))
    } else {
        spec_first_edge_into(edges.drop_first(), node, port)
    }
}

/// The first edge of `edges` that starts at output `port` of `node`, as the
/// input port it goes to.
pub open spec fn spec_first_edge_from(edges: Seq<Edge>, node: usize, port: usize) -> Option<
    (usize, usize),
>
    decreases edges.len(),
{
    if edges.len() == 0 {
        None
    } else if edges[0].from_node == node && edges[0].from_port == port {
        Some((edges[0].to_node, edges[0].to_port))
    } else {
        spec_first_edge_from(edges.drop_first(), node, port)
    }
}

/// How many nodes of `nodes` are start nodes.
pub open spec fn spec_count_starts(nodes: Seq<NodeKind>) -> nat
    decreases nodes.len(),
{
    if nodes.len() == 0 {
        0
    } else {
        (if nodes[0] is Start {
            1nat
        } else {
            0nat
        }) + spec_count_starts(nodes.drop_first())
    }
}

impl Graph {
    pub fn new() -> (r: Graph)
        ensures
            r.nodes@.len() == 0,
            r.edges@.len() == 0,
    {
        Graph { nodes: Vec::new(), edges: Vec::new() }
    }

    /// Inserts a node and returns its identifier.
    pub fn add_node(&mut self, kind: NodeKind) -> (r: usize)
        ensures
            r == old(self).nodes@.len(),
            final(self).nodes@ == old(self).nodes@.push(kind),
            final(self).edges@ == old(self).edges@,
    {
        let n = self.nodes.len();
        self.nodes.push(kind);
        n
    }

    pub fn node(&self, id: usize) -> (r: Option<&NodeKind>)
        ensures
            r matches Some(k) ==> id < self.nodes@.len() && *k == self.nodes@[id as int],
            r is None <==> id >= self.nodes@.len(),
    {
        if id < self.nodes.len() {
            Some(&self.nodes[id])
        } else {
            None
        }
    }

    /// Inserts an edge without consulting the connection gate.  The editor's
    /// gate ([`Graph::connect`]) is the sole protection the compiler relies
    /// on; an edge added here models a graph whose producer bypassed it.
    pub fn add_edge(&mut self, from: (usize, usize), to: (usize, usize))
        ensures
            final(self).nodes@ == old(self).nodes@,
            final(self).edges@ == old(self).edges@.push(
                Edge { from_node: from.0, from_port: from.1, to_node: to.0, to_port: to.1 },
            ),
    {
        self.edges.push(Edge { from_node: from.0, from_port: from.1, to_node: to.0, to_port: to.1 });
    }

    /// The producer connected into input `port` of `node`, if any.
    pub fn edge_into(&self, node: usize, port: usize) -> (r: Option<(usize, usize)>)
        ensures
            r == spec_first_edge_into(self.edges@, node, port),
    {
        let mut i: usize = 0;
        proof {
            assert(self.edges@.skip(0) =~= self.edges@);
        }
        while i < self.edges.len()
            invariant
                i <= self.edges@.len(),
                spec_first_edge_into(self.edges@.skip(i as int), node, port)
                    == spec_first_edge_into(self.edges@, node, port),
            decreases self.edges@.len() - i,
        {
            let e = self.edges[i];
            proof {
                assert(self.edges@.skip(i as int)[0] == e);
                assert(self.edges@.skip(i as int).drop_first() =~= self.edges@.skip(i as int + 1));
            }
            if e.to_node == node && e.to_port == port {
                return Some((e.from_node, e.from_port));
            }
            i += 1;
        }
        proof {
            assert(self.edges@.skip(i as int) =~= Seq::<Edge>::empty());
        }
        None
    }

    /// The consumer connected from output `port` of `node`, if any.  A flow
    /// output has at most one active successor; this is it.
    pub fn edge_from(&self, node: usize, port: usize) -> (r: Option<(usize, usize)>)
        ensures
            r == spec_first_edge_from(self.edges@, node, port),
    {
        let mut i: usize = 0;
        proof {
            assert(self.edges@.skip(0) =~= self.edges@);
        }
        while i < self.edges.len()
            invariant
                i <= self.edges@.len(),
                spec_first_edge_from(self.edges@.skip(i as int), node, port)
                    == spec_first_edge_from(self.edges@, node, port),
            decreases self.edges@.len() - i,
        {
            let e = self.edges[i];
            proof {
                assert(self.edges@.skip(i as int)[0] == e);
                assert(self.edges@.skip(i as int).drop_first() =~= self.edges@.skip(i as int + 1));
            }
            if e.from_node == node && e.from_port == port {
                return Some((e.to_node, e.to_port));
            }
            i += 1;
        }
        proof {
            assert(self.edges@.skip(i as int) =~= Seq::<Edge>::empty());
        }
        None
    }

    /// How many start nodes the graph holds.
    pub fn count_starts(&self) -> (n: usize)
        ensures
            n == spec_count_starts(self.nodes@),
    {
        proof {
            lemma_count_starts_le_len(self.nodes@);
        }
        let mut i: usize = 0;
        let mut n: usize = 0;
        while i < self.nodes.len()
            invariant
                i <= self.nodes@.len(),
                n == spec_count_starts(self.nodes@.take(i as int)),
                n <= i,
            decreases self.nodes@.len() - i,
        {
            proof {
                lemma_count_starts_take_step(self.nodes@, i as int);
            }
            if matches!(&self.nodes[i], NodeKind::Start) {
                n += 1;
            }
            i += 1;
        }
        proof {
            assert(self.nodes@.take(i as int) =~= self.nodes@);
        }
        n
    }

    /// The first start node, if the graph holds any.
    pub fn first_start(&self) -> (r: Option<usize>)
        ensures
            r matches Some(id) ==> id < self.nodes@.len() && self.nodes@[id as int] is Start,
            r is None <==> spec_count_starts(self.nodes@) == 0,
    {
        let mut i: usize = 0;
        while i < self.nodes.len()
            invariant
                i <= self.nodes@.len(),
                spec_count_starts(self.nodes@.take(i as int)) == 0,
            decreases self.nodes@.len() - i,
        {
            proof {
                lemma_count_starts_take_step(self.nodes@, i as int);
            }
            if matches!(&self.nodes[i], NodeKind::Start) {
                proof {
                    lemma_count_starts_monotone(self.nodes@, i as int + 1);
                }
                return Some(i);
            }
            i += 1;
        }
        proof {
            assert(self.nodes@.take(i as int) =~= self.nodes@);
        }
        None
    }
}

/// In a graph with exactly one start node, any two start indices coincide.
pub proof fn lemma_single_start_is_unique(nodes: Seq<NodeKind>, i: int, j: int)
    requires
        spec_count_starts(nodes) == 1,
        0 <= i < nodes.len(),
        0 <= j < nodes.len(),
        nodes[i] is Start,
        nodes[j] is Start,
    ensures
        i == j,
{
    if i != j {
        let a = if i < j {
            i
        } else {
            j
        };
        let b = if i < j {
            j
        } else {
            i
        };
        lemma_count_starts_two(nodes, a, b);
    }
}

/// Two distinct start indices put the start count at two or more.
proof fn lemma_count_starts_two(nodes: Seq<NodeKind>, a: int, b: int)
    requires
        0 <= a < b < nodes.len(),
        nodes[a] is Start,
        nodes[b] is Start,
    ensures
        spec_count_starts(nodes) >= 2,
    decreases nodes.len(),
{
    if a == 0 {
        lemma_count_starts_at(nodes.drop_first(), b - 1);
    } else {
        lemma_count_starts_two(nodes.drop_first(), a - 1, b - 1);
    }
}

/// A start node anywhere puts the start count at one or more.
proof fn lemma_count_starts_at(nodes: Seq<NodeKind>, i: int)
    requires
        0 <= i < nodes.len(),
        nodes[i] is Start,
    ensures
        spec_count_starts(nodes) >= 1,
    decreases nodes.len(),
{
    if i > 0 {
        lemma_count_starts_at(nodes.drop_first(), i - 1);
    }
}

/// No prefix counts more starts than it has nodes.
proof fn lemma_count_starts_le_len(nodes: Seq<NodeKind>)
    ensures
        spec_count_starts(nodes) <= nodes.len(),
    decreases nodes.len(),
{
    if nodes.len() > 0 {
        lemma_count_starts_le_len(nodes.drop_first());
    }
}

/// Counting starts over one more node adds one exactly when that node is a
/// start node.
proof fn lemma_count_starts_take_step(nodes: Seq<NodeKind>, i: int)
    requires
        0 <= i < nodes.len(),
    ensures
        spec_count_starts(nodes.take(i + 1)) == spec_count_starts(nodes.take(i)) + (
        if nodes[i] is Start {
            1nat
        } else {
            0nat
        }),
    decreases i,
{
    let a = nodes.take(i + 1);
    let b = nodes.take(i);
    if i == 0 {
        assert(a.drop_first() =~= Seq::<NodeKind>::empty());
        assert(b =~= Seq::<NodeKind>::empty());
    } else {
        assert(a.drop_first() =~= nodes.drop_first().take(i));
        assert(b.drop_first() =~= nodes.drop_first().take(i - 1));
        lemma_count_starts_take_step(nodes.drop_first(), i - 1);
    }
}

/// A prefix never holds more start nodes than the whole.
proof fn lemma_count_starts_monotone(nodes: Seq<NodeKind>, i: int)
    requires
        0 <= i <= nodes.len(),
    ensures
        spec_count_starts(nodes) >= spec_count_starts(nodes.take(i)),
    decreases nodes.len() - i,
{
    if i == nodes.len() {
        assert(nodes.take(i) =~= nodes);
    } else {
        lemma_count_starts_take_step(nodes, i);
        lemma_count_starts_monotone(nodes, i + 1);
    }
}

} // verus!

//! The dataflow graph: operators as nodes, streams between them as edges.
//! The graph is a `petgraph` directed graph, reached through the trusted
//! wrappers of this module.

use crate::plan::OperatorKind;
use crate::schema::ArroyoSchema;
use crate::schema::ArroyoSchemaView;
use petgraph::graph::Graph;
use petgraph::graph::NodeIndex;
use petgraph::Directed;
use vstd::prelude::*;

verus! {

/// An operator of the dataflow.
#[derive(Debug, PartialEq, Eq)]
pub struct LogicalNode {
    /// The position at which the operator entered the graph.
    pub operator_id: usize,
    pub operator_kind: OperatorKind,
    /// The configuration of the operator.
    pub config: Vec<u8>,
    pub output_schema: ArroyoSchema,
}

pub struct LogicalNodeView {
    pub operator_id: nat,
    pub operator_kind: OperatorKind,
    pub config: Seq<u8>,
    pub output_schema: ArroyoSchemaView,
}

impl View for LogicalNode {
    type V = LogicalNodeView;

    open spec fn view(&self) -> LogicalNodeView {
        LogicalNodeView {
            operator_id: self.operator_id as nat,
            operator_kind: self.operator_kind,
            config: self.config@,
            output_schema: self.output_schema@,
        }
    }
}

/// How the rows of a stream reach the next operator.
#[derive(Debug, PartialEq, Eq)]
pub enum ShuffleKind {
    /// Each row goes to the instance that follows its producer.
    Forward,
    /// Each row goes to the instance that owns its key, which the columns
    /// at the given positions make up.
    Shuffle(Vec<usize>),
    /// Each row goes to every instance.
    Broadcast,
}

pub enum ShuffleKindView {
    Forward,
    Shuffle(Seq<usize>),
    Broadcast,
}

impl View for ShuffleKind {
    type V = ShuffleKindView;

    open spec fn view(&self) -> ShuffleKindView {
        match self {
            ShuffleKind::Forward => ShuffleKindView::Forward,
            ShuffleKind::Shuffle(keys) => ShuffleKindView::Shuffle(keys@),
            ShuffleKind::Broadcast => ShuffleKindView::Broadcast,
        }
    }
}

/// A stream between two operators.
#[derive(Debug, PartialEq, Eq)]
pub struct LogicalEdge {
    pub shuffle_kind: ShuffleKind,
    /// The schema of the rows on the stream.
    pub schema: ArroyoSchema,
}

pub struct LogicalEdgeView {
    pub shuffle_kind: ShuffleKindView,
    pub schema: ArroyoSchemaView,
}

impl View for LogicalEdge {
    type V = LogicalEdgeView;

    open spec fn view(&self) -> LogicalEdgeView {
        LogicalEdgeView { shuffle_kind: self.shuffle_kind@, schema: self.schema@ }
    }
}

/// `petgraph::graph::Graph`: a graph that holds its nodes and its edges in
/// the order in which they were added.
#[verifier::external_type_specification]
#[verifier::external_body]
#[verifier::reject_recursive_types(N)]
#[verifier::reject_recursive_types(E)]
#[verifier::reject_recursive_types(Ty)]
#[verifier::reject_recursive_types(Ix)]
pub struct ExGraph<N, E, Ty, Ix>(Graph<N, E, Ty, Ix>);

/// `petgraph::Directed`: the marker of a graph whose edges have a direction.
#[verifier::external_type_specification]
#[verifier::external_body]
pub struct ExDirected(Directed);

/// The graph of operators.
pub type LogicalGraph = Graph<LogicalNode, LogicalEdge, Directed, u32>;

/// The nodes of a graph, in the order in which they were added; the index
/// of a node is its position.
pub uninterp spec fn graph_nodes(graph: Graph<LogicalNode, LogicalEdge, Directed, u32>) -> Seq<
    LogicalNode,
>;

/// The edges of a graph, in the order in which they were added, each with
/// the index of the node it leaves and of the node it enters.
pub uninterp spec fn graph_edges(graph: Graph<LogicalNode, LogicalEdge, Directed, u32>) -> Seq<
    (usize, usize, LogicalEdge),
>;

/// `Graph::new`: a directed graph without nodes or edges.
#[verifier::external_body]
pub(crate) fn graph_new() -> (graph: Graph<LogicalNode, LogicalEdge, Directed, u32>)
    ensures
        graph_nodes(graph).len() == 0,
        graph_edges(graph).len() == 0,
{
    Graph::new()
}

/// `Graph::node_count`: the number of nodes.
#[verifier::external_body]
pub(crate) fn graph_node_count(graph: &Graph<LogicalNode, LogicalEdge, Directed, u32>) -> (n:
    usize)
    ensures
        n == graph_nodes(*graph).len(),
{
    graph.node_count()
}

/// `Graph::edge_count`: the number of edges.
#[verifier::external_body]
pub(crate) fn graph_edge_count(graph: &Graph<LogicalNode, LogicalEdge, Directed, u32>) -> (n:
    usize)
    ensures
        n == graph_edges(*graph).len(),
{
    graph.edge_count()
}

/// `Graph::add_node`: appends a node and returns its index, which is the
/// number of nodes before. The call panics when the graph holds as many
/// nodes as a 32-bit index can name, which `requires` leaves out. The
/// edges stay.
#[verifier::external_body]
pub(crate) fn graph_add_node(
    graph: &mut Graph<LogicalNode, LogicalEdge, Directed, u32>,
    node: LogicalNode,
) -> (index: usize)
    requires
        graph_nodes(*old(graph)).len() < u32::MAX,
    ensures
        index == graph_nodes(*old(graph)).len(),
        graph_nodes(*final(graph)) == graph_nodes(*old(graph)).push(node),
        graph_edges(*final(graph)) == graph_edges(*old(graph)),
{
    graph.add_node(node).index()
}

/// `Graph::add_edge`: appends an edge from the node `source` to the node
/// `target`. The call panics when a node does not exist or when the graph
/// holds as many edges as a 32-bit index can name, which `requires` leaves
/// out. The nodes stay.
#[verifier::external_body]
pub(crate) fn graph_add_edge(
    graph: &mut Graph<LogicalNode, LogicalEdge, Directed, u32>,
    source: usize,
    target: usize,
    edge: LogicalEdge,
)
    requires
        source < graph_nodes(*old(graph)).len(),
        target < graph_nodes(*old(graph)).len(),
        graph_edges(*old(graph)).len() < u32::MAX,
    ensures
        graph_nodes(*final(graph)) == graph_nodes(*old(graph)),
        graph_edges(*final(graph)) == graph_edges(*old(graph)).push((source, target, edge)),
{
    graph.add_edge(NodeIndex::new(source), NodeIndex::new(target), edge);
}

} // verus!

//! From a rewritten logical plan to the dataflow graph: a walk over the plan
//! that turns every streaming extension into one node of the graph, with an
//! edge from each extension below it. Extensions with the same stable name
//! share one node.

use crate::error::ErrorKind;
use crate::error::PlanError;
use crate::graph::graph_add_edge;
use crate::graph::graph_add_node;
use crate::graph::graph_edge_count;
use crate::graph::graph_edges;
use crate::graph::graph_new;
use crate::graph::graph_node_count;
use crate::graph::graph_nodes;
use crate::graph::LogicalEdge;
use crate::graph::LogicalEdgeView;
use crate::graph::LogicalGraph;
use crate::graph::LogicalNode;
use crate::graph::LogicalNodeView;
use crate::graph::ShuffleKind;
use crate::graph::ShuffleKindView;
use crate::join::Failure;
use crate::physical::Planner;
use crate::plan::lemma_input_decreases;
use crate::plan::Extension;
use crate::plan::LogicalPlan;
use crate::plan::OperatorKind;
use crate::schema::ArroyoSchema;
use crate::schema::ArroyoSchemaView;
use vstd::prelude::*;
use vstd::string::*;

verus! {

/// The kind of a stable name.
#[derive(Clone, Copy, Debug, PartialEq, Eq, Structural)]
pub enum NameKind {
    Source,
    Watermark,
    RemoteTable,
}

/// The stable name of an extension: extensions of one plan that have the
/// same stable name are one operator.
#[derive(Debug, PartialEq, Eq)]
pub enum NamedNode {
    Source(String),
    Watermark(String),
    RemoteTable(String),
}

impl View for NamedNode {
    type V = (NameKind, Seq<char>);

    open spec fn view(&self) -> (NameKind, Seq<char>) {
        match self {
            NamedNode::Source(table) => (NameKind::Source, table@),
            NamedNode::Watermark(table) => (NameKind::Watermark, table@),
            NamedNode::RemoteTable(table) => (NameKind::RemoteTable, table@),
        }
    }
}

impl NamedNode {
    fn same_as(&self, other: &NamedNode) -> (r: bool)
        ensures
            r == (self@ == other@),
    {
        match (self, other) {
            (NamedNode::Source(a), NamedNode::Source(b)) => *a == *b,
            (NamedNode::Watermark(a), NamedNode::Watermark(b)) => *a == *b,
            (NamedNode::RemoteTable(a), NamedNode::RemoteTable(b)) => *a == *b,
            _ => false,
        }
    }
}

/// What a walk does after it has entered a node.
#[derive(Clone, Copy, Debug, PartialEq, Eq, Structural)]
pub enum VisitRecursion {
    /// Goes on to the inputs of the node.
    Continue,
    /// Leaves the node and everything below it.
    Skip,
    /// Ends the walk.
    Stop,
}

/// A node of the graph with the edges that enter it, one for each input.
#[derive(Debug, PartialEq, Eq)]
pub struct NodeWithIncomingEdges {
    pub node: LogicalNode,
    pub edges: Vec<LogicalEdge>,
}

/// The views of a list of schemas.
pub open spec fn schemas_view(schemas: Seq<ArroyoSchema>) -> Seq<ArroyoSchemaView> {
    Seq::new(schemas.len(), |i: int| schemas[i]@)
}

/// The views of a list of edges.
pub open spec fn edges_view(edges: Seq<LogicalEdge>) -> Seq<LogicalEdgeView> {
    Seq::new(edges.len(), |i: int| edges[i]@)
}

pub const CONVERSION_FAILED: &'static str =
    "error converting extension: not a streaming extension";

pub const WRONG_INPUT_COUNT: &'static str = "error planning extension: wrong number of inputs";

pub const ALREADY_PLANNED: &'static str = "extension already planned";

pub const MISSING_INPUT_NODE: &'static str = "missing input node";

pub const GRAPH_FULL: &'static str = "the graph cannot hold more nodes or edges";

/// Whether an operator of the kind can read from `count` extensions: a
/// source reads from none, a join from its two sides, any other operator
/// from at least one, and an extension of another system cannot be planned.
pub open spec fn accepts_inputs(kind: OperatorKind, count: nat) -> bool {
    match kind {
        OperatorKind::Source => count == 0,
        OperatorKind::Join { .. } => count == 2,
        OperatorKind::Foreign => false,
        _ => count >= 1,
    }
}

/// How the rows of an input reach an operator of the kind: by key into an
/// aggregate or a join, forward into anything else.
pub open spec fn incoming_shuffle(kind: OperatorKind, input: ArroyoSchemaView) -> ShuffleKindView {
    if kind is Aggregate || kind is Join {
        ShuffleKindView::Shuffle(
            match input.key_indices {
                Some(keys) => keys,
                None => Seq::empty(),
            },
        )
    } else {
        ShuffleKindView::Forward
    }
}

/// The edge from an input with the given schema into an operator of the
/// kind.
pub open spec fn incoming_edge(kind: OperatorKind, input: ArroyoSchemaView) -> LogicalEdgeView {
    LogicalEdgeView { shuffle_kind: incoming_shuffle(kind, input), schema: input }
}

impl Extension {
    /// The stable name: that of the table of a source, a watermark or a
    /// remote table.
    pub open spec fn stable_name(&self) -> Option<(NameKind, Seq<char>)> {
        match (self.kind, self.name) {
            (OperatorKind::Source, Some(table)) => Some((NameKind::Source, table@)),
            (OperatorKind::Watermark, Some(table)) => Some((NameKind::Watermark, table@)),
            (OperatorKind::RemoteTable, Some(table)) => Some((NameKind::RemoteTable, table@)),
            _ => None,
        }
    }

    /// The node and the incoming edges of the operator, where it enters the
    /// graph at position `index` and reads streams of the given schemas.
    pub open spec fn planned(&self, index: nat, inputs: Seq<ArroyoSchemaView>) -> Result<
        (LogicalNodeView, Seq<LogicalEdgeView>),
        Failure,
    > {
        if !accepts_inputs(self.kind, inputs.len()) {
            Err((ErrorKind::Plan, WRONG_INPUT_COUNT@))
        } else {
            Ok(
                (
                    LogicalNodeView {
                        operator_id: index,
                        operator_kind: self.kind,
                        config: self.config@,
                        output_schema: self.schema@,
                    },
                    Seq::new(inputs.len(), |i: int| incoming_edge(self.kind, inputs[i])),
                ),
            )
        }
    }

    pub fn node_name(&self) -> (r: Option<NamedNode>)
        ensures
            match self.stable_name() {
                Some(name) => r matches Some(found) && found@ == name,
                None => r is None,
            },
    {
        match (&self.kind, &self.name) {
            (OperatorKind::Source, Some(table)) => Some(NamedNode::Source(table.clone())),
            (OperatorKind::Watermark, Some(table)) => Some(NamedNode::Watermark(table.clone())),
            (OperatorKind::RemoteTable, Some(table)) => Some(
                NamedNode::RemoteTable(table.clone()),
            ),
            _ => None,
        }
    }

    pub fn output_schema(&self) -> (r: ArroyoSchema)
        ensures
            r@ == self.schema@,
    {
        self.schema.clone()
    }

    /// Plans the operator; see [`Extension::planned`].
    pub fn plan_node(&self, planner: &Planner, index: usize, input_schemas: Vec<ArroyoSchema>) -> (r:
        Result<NodeWithIncomingEdges, PlanError>)
        ensures
            match self.planned(index as nat, schemas_view(input_schemas@)) {
                Ok((node, edges)) => r matches Ok(found) && found.node@ == node && edges_view(
                    found.edges@,
                ) == edges,
                Err(failure) => r matches Err(e) && e@ == failure,
            },
    {
        let accepted = match self.kind {
            OperatorKind::Source => input_schemas.len() == 0,
            OperatorKind::Join { .. } => input_schemas.len() == 2,
            OperatorKind::Foreign => false,
            _ => input_schemas.len() >= 1,
        };
        if !accepted {
            return Err(PlanError::plan(WRONG_INPUT_COUNT));
        }
        let by_key = match self.kind {
            OperatorKind::Aggregate => true,
            OperatorKind::Join { .. } => true,
            _ => false,
        };
        let ghost inputs = schemas_view(input_schemas@);
        let mut edges: Vec<LogicalEdge> = Vec::new();
        let mut i: usize = 0;
        while i < input_schemas.len()
            invariant
                i <= input_schemas.len(),
                inputs == schemas_view(input_schemas@),
                by_key == (self.kind is Aggregate || self.kind is Join),
                edges.len() == i,
                forall|j: int| 0 <= j < i ==> #[trigger] edges[j]@ == incoming_edge(self.kind, inputs[j]),
            decreases input_schemas.len() - i,
        {
            let schema = input_schemas[i].clone();
            let shuffle_kind = if by_key {
                match &schema.key_indices {
                    Some(keys) => ShuffleKind::Shuffle(keys.clone()),
                    None => ShuffleKind::Shuffle(Vec::new()),
                }
            } else {
                ShuffleKind::Forward
            };
            edges.push(LogicalEdge { shuffle_kind, schema });
            i += 1;
        }
        let node = LogicalNode {
            operator_id: index,
            operator_kind: self.kind,
            config: self.config.clone(),
            output_schema: self.schema.clone(),
        };
        assert(edges_view(edges@) =~= self.planned(index as nat, inputs)->Ok_0.1);
        Ok(NodeWithIncomingEdges { node, edges })
    }
}

// ---------------------------------------------------------------------------
// The state of the walk
// ---------------------------------------------------------------------------

/// The state of the walk in mathematical terms.
pub struct VisitorView {
    /// The nodes of the graph; the index of a node is its position.
    pub nodes: Seq<LogicalNodeView>,
    /// The edges of the graph in the order in which they were added: the
    /// node an edge leaves, the node it enters, and its label.
    pub edges: Seq<(usize, usize, LogicalEdgeView)>,
    /// The schema that each node puts out.
    pub output_schemas: Seq<ArroyoSchemaView>,
    /// The stable names that were planned, each with its node.
    pub named_nodes: Seq<((NameKind, Seq<char>), usize)>,
    /// For each extension that was entered and not yet left, the nodes of
    /// the extensions below it that were planned so far.
    pub traversal: Seq<Seq<usize>>,
}

/// The node that a stable name was planned as: that of the first entry
/// with the name.
pub open spec fn lookup_name(
    named_nodes: Seq<((NameKind, Seq<char>), usize)>,
    name: (NameKind, Seq<char>),
) -> Option<usize>
    decreases named_nodes.len(),
{
    if named_nodes.len() == 0 {
        None
    } else if named_nodes[0].0 == name {
        Some(named_nodes[0].1)
    } else {
        lookup_name(named_nodes.drop_first(), name)
    }
}

/// The node that the stable name of an extension was planned as, if the
/// extension has a stable name and that name was planned.
pub open spec fn planned_as(
    named_nodes: Seq<((NameKind, Seq<char>), usize)>,
    extension: Extension,
) -> Option<usize> {
    match extension.stable_name() {
        Some(name) => lookup_name(named_nodes, name),
        None => None,
    }
}

/// The stack of frames with `index` added to the innermost frame, if there
/// is one.
pub open spec fn add_to_last_frame(traversal: Seq<Seq<usize>>, index: usize) -> Seq<Seq<usize>> {
    if traversal.len() == 0 {
        traversal
    } else {
        traversal.update(traversal.len() - 1, traversal.last().push(index))
    }
}

/// The schemas that the given nodes put out, if all of them exist.
pub open spec fn input_schemas_of(state: VisitorView, input_nodes: Seq<usize>) -> Option<
    Seq<ArroyoSchemaView>,
> {
    if forall|i: int| 0 <= i < input_nodes.len() ==> input_nodes[i] < state.output_schemas.len() {
        Some(Seq::new(input_nodes.len(), |i: int| state.output_schemas[input_nodes[i] as int]))
    } else {
        None
    }
}

impl VisitorView {
    /// The state before the walk.
    pub open spec fn empty() -> VisitorView {
        VisitorView {
            nodes: Seq::empty(),
            edges: Seq::empty(),
            output_schemas: Seq::empty(),
            named_nodes: Seq::empty(),
            traversal: Seq::empty(),
        }
    }

    /// The invariant of the walk.
    ///
    /// Every node has its schema, which is a streaming schema with exactly
    /// one event-time column. Every edge leaves a node that was planned
    /// before the node it enters, so the graph has no cycle. No stable name
    /// was planned twice, and no node was planned under two names. Frames
    /// hold nodes of the graph.
    pub open spec fn wf(self) -> bool {
        &&& self.output_schemas.len() == self.nodes.len()
        &&& forall|i: int|
            0 <= i < self.nodes.len() ==> (#[trigger] self.nodes[i]).output_schema
                == self.output_schemas[i] && self.output_schemas[i].wf()
        &&& forall|i: int|
            0 <= i < self.edges.len() ==> (#[trigger] self.edges[i]).0 < self.edges[i].1
                < self.nodes.len()
        &&& forall|i: int|
            0 <= i < self.named_nodes.len() ==> (#[trigger] self.named_nodes[i]).1
                < self.nodes.len()
        &&& forall|i: int, j: int|
            0 <= i < j < self.named_nodes.len() ==> (#[trigger] self.named_nodes[i]).0 != (
            #[trigger] self.named_nodes[j]).0 && self.named_nodes[i].1 != self.named_nodes[j].1
        &&& forall|i: int, j: int|
            0 <= i < self.traversal.len() && 0 <= j < self.traversal[i].len() ==> (
            #[trigger] self.traversal[i][j]) < self.nodes.len()
    }

    /// The state with another stack of frames.
    pub open spec fn with_traversal(self, traversal: Seq<Seq<usize>>) -> VisitorView {
        VisitorView { traversal, ..self }
    }

    /// The state after the extension was planned over the given nodes.
    ///
    /// The extension must not have a stable name that was planned, its
    /// inputs must be nodes of the graph, and it must be plannable over
    /// their schemas. It becomes the next node of the graph, with one edge
    /// from each input in the order of the inputs; its schema and its
    /// stable name are recorded, and its node is added to the innermost
    /// frame.
    pub open spec fn built(self, input_nodes: Seq<usize>, extension: Extension) -> Result<
        VisitorView,
        Failure,
    > {
        let index = self.nodes.len();
        if planned_as(self.named_nodes, extension) is Some {
            Err((ErrorKind::Plan, ALREADY_PLANNED@))
        } else {
            match input_schemas_of(self, input_nodes) {
                None => Err((ErrorKind::Plan, MISSING_INPUT_NODE@)),
                Some(schemas) => match extension.planned(index, schemas) {
                    Err(failure) => Err(failure),
                    Ok((node, edges)) => if index >= u32::MAX || self.edges.len() + edges.len()
                        > u32::MAX {
                        Err((ErrorKind::Internal, GRAPH_FULL@))
                    } else {
                        Ok(
                            VisitorView {
                                nodes: self.nodes.push(node),
                                edges: self.edges + Seq::new(
                                    edges.len(),
                                    |i: int| (input_nodes[i], index as usize, edges[i]),
                                ),
                                output_schemas: self.output_schemas.push(extension.schema@),
                                named_nodes: match extension.stable_name() {
                                    Some(name) => self.named_nodes.push((name, index as usize)),
                                    None => self.named_nodes,
                                },
                                traversal: add_to_last_frame(self.traversal, index as usize),
                            },
                        )
                    },
                },
            }
        }
    }

    /// The state after the walk has entered `plan`, and how the walk goes
    /// on.
    ///
    /// An extension whose stable name was planned adds the node of that
    /// name to the innermost frame, and the walk skips it. Any other
    /// extension that has inputs opens a frame. A node that is no
    /// extension changes nothing.
    pub open spec fn pre_visited(self, plan: LogicalPlan) -> Result<
        (VisitorView, VisitRecursion),
        Failure,
    > {
        match plan {
            LogicalPlan::Extension(extension) => if extension.kind is Foreign {
                Err((ErrorKind::Plan, CONVERSION_FAILED@))
            } else {
                match planned_as(self.named_nodes, extension) {
                    Some(index) => Ok(
                        (
                            self.with_traversal(add_to_last_frame(self.traversal, index)),
                            VisitRecursion::Skip,
                        ),
                    ),
                    None => if extension.inputs@.len() > 0 {
                        Ok(
                            (
                                self.with_traversal(self.traversal.push(Seq::empty())),
                                VisitRecursion::Continue,
                            ),
                        )
                    } else {
                        Ok((self, VisitRecursion::Continue))
                    },
                }
            },
            _ => Ok((self, VisitRecursion::Continue)),
        }
    }

    /// The state after the walk has left `plan`.
    ///
    /// An extension that has inputs closes the innermost frame and is
    /// planned over the nodes in it; one without inputs is planned over no
    /// nodes. A node that is no extension changes nothing.
    pub open spec fn post_visited(self, plan: LogicalPlan) -> Result<VisitorView, Failure> {
        match plan {
            LogicalPlan::Extension(extension) => {
                let framed = extension.inputs@.len() > 0 && self.traversal.len() > 0;
                let input_nodes = if framed {
                    self.traversal.last()
                } else {
                    Seq::empty()
                };
                let state = if framed {
                    self.with_traversal(self.traversal.drop_last())
                } else {
                    self
                };
                if extension.kind is Foreign {
                    Err((ErrorKind::Plan, CONVERSION_FAILED@))
                } else {
                    state.built(input_nodes, extension)
                }
            },
            _ => Ok(self),
        }
    }

    /// The state after the walk over `plan`: the node is entered, then
    /// unless it is skipped its inputs are walked in order and the node is
    /// left. The first failure ends the walk.
    pub open spec fn visited(self, plan: LogicalPlan) -> Result<VisitorView, Failure>
        decreases plan, plan.inputs().len() + 1,
    {
        match self.pre_visited(plan) {
            Err(failure) => Err(failure),
            Ok((state, VisitRecursion::Continue)) => match state.visited_inputs(
                plan,
                plan.inputs().len(),
            ) {
                Err(failure) => Err(failure),
                Ok(below) => below.post_visited(plan),
            },
            Ok((state, _)) => Ok(state),
        }
    }

    /// The state after the walk over the first `upto` inputs of `plan`.
    pub open spec fn visited_inputs(self, plan: LogicalPlan, upto: nat) -> Result<
        VisitorView,
        Failure,
    >
        decreases plan, upto,
    {
        if upto == 0 || upto > plan.inputs().len() {
            Ok(self)
        } else {
            match self.visited_inputs(plan, (upto - 1) as nat) {
                Err(failure) => Err(failure),
                Ok(state) => {
                    proof {
                        lemma_input_decreases(plan, upto - 1);
                    }
                    state.visited(plan.inputs()[upto - 1])
                },
            }
        }
    }
}

/// Whether every extension of a plan has a streaming schema that meets its
/// invariant.
pub open spec fn plan_valid(plan: LogicalPlan) -> bool
    decreases plan, plan.inputs().len() + 1,
{
    &&& plan matches LogicalPlan::Extension(extension) ==> extension.schema@.wf()
    &&& inputs_valid(plan, plan.inputs().len())
}

/// Whether the first `upto` inputs of a plan are valid.
pub open spec fn inputs_valid(plan: LogicalPlan, upto: nat) -> bool
    decreases plan, upto,
{
    if upto == 0 || upto > plan.inputs().len() {
        true
    } else {
        proof {
            lemma_input_decreases(plan, upto - 1);
        }
        inputs_valid(plan, (upto - 1) as nat) && plan_valid(plan.inputs()[upto - 1])
    }
}

// ---------------------------------------------------------------------------
// The walk
// ---------------------------------------------------------------------------

/// The walk over a plan that builds the graph.
pub struct PlanToGraphVisitor {
    graph: LogicalGraph,
    output_schemas: Vec<ArroyoSchema>,
    named_nodes: Vec<(NamedNode, usize)>,
    traversal: Vec<Vec<usize>>,
    planner: Planner,
}

/// The views of the nodes of a graph.
pub open spec fn nodes_view(nodes: Seq<LogicalNode>) -> Seq<LogicalNodeView> {
    Seq::new(nodes.len(), |i: int| nodes[i]@)
}

/// The views of the edges of a graph.
pub open spec fn graph_edges_view(edges: Seq<(usize, usize, LogicalEdge)>) -> Seq<
    (usize, usize, LogicalEdgeView),
> {
    Seq::new(edges.len(), |i: int| (edges[i].0, edges[i].1, edges[i].2@))
}

/// The views of the planned names.
pub open spec fn names_view(named_nodes: Seq<(NamedNode, usize)>) -> Seq<
    ((NameKind, Seq<char>), usize),
> {
    Seq::new(named_nodes.len(), |i: int| (named_nodes[i].0@, named_nodes[i].1))
}

/// The views of the frames.
pub open spec fn frames_view(traversal: Seq<Vec<usize>>) -> Seq<Seq<usize>> {
    Seq::new(traversal.len(), |i: int| traversal[i]@)
}

/// No entry has a name that `lookup_name` does not find.
pub proof fn lemma_lookup_none(named_nodes: Seq<((NameKind, Seq<char>), usize)>, name: (
    NameKind,
    Seq<char>,
))
    requires
        lookup_name(named_nodes, name) is None,
    ensures
        forall|i: int| 0 <= i < named_nodes.len() ==> (#[trigger] named_nodes[i]).0 != name,
    decreases named_nodes.len(),
{
    if named_nodes.len() > 0 {
        lemma_lookup_none(named_nodes.drop_first(), name);
        assert forall|i: int| 0 <= i < named_nodes.len() implies (#[trigger] named_nodes[i]).0
            != name by {
            if i > 0 {
                assert(named_nodes[i] == named_nodes.drop_first()[i - 1]);
            }
        }
    }
}

/// A name that `lookup_name` finds belongs to a node of the entries.
pub proof fn lemma_lookup_some(named_nodes: Seq<((NameKind, Seq<char>), usize)>, name: (
    NameKind,
    Seq<char>,
))
    requires
        lookup_name(named_nodes, name) is Some,
    ensures
        exists|i: int|
            0 <= i < named_nodes.len() && (#[trigger] named_nodes[i]).0 == name && named_nodes[i].1
                == lookup_name(named_nodes, name)->0,
    decreases named_nodes.len(),
{
    if named_nodes[0].0 == name {
        assert(named_nodes[0].1 == lookup_name(named_nodes, name)->0);
    } else {
        lemma_lookup_some(named_nodes.drop_first(), name);
        let i = choose|i: int|
            0 <= i < named_nodes.drop_first().len() && (#[trigger] named_nodes.drop_first()[i]).0
                == name && named_nodes.drop_first()[i].1 == lookup_name(
                named_nodes.drop_first(),
                name,
            )->0;
        assert(named_nodes[i + 1] == named_nodes.drop_first()[i]);
    }
}

/// Planning an extension keeps the invariant of the walk.
pub proof fn lemma_built_wf(state: VisitorView, input_nodes: Seq<usize>, extension: Extension)
    requires
        state.wf(),
        extension.schema@.wf(),
        state.built(input_nodes, extension) is Ok,
    ensures
        state.built(input_nodes, extension)->Ok_0.wf(),
{
    let after = state.built(input_nodes, extension)->Ok_0;
    let index = state.nodes.len();
    match extension.stable_name() {
        Some(name) => {
            lemma_lookup_none(state.named_nodes, name);
        },
        None => {},
    }
    assert forall|i: int| 0 <= i < after.edges.len() implies (#[trigger] after.edges[i]).0
        < after.edges[i].1 < after.nodes.len() by {
        if i < state.edges.len() {
            assert(after.edges[i] == state.edges[i]);
        }
    }
    assert forall|i: int, j: int|
        0 <= i < after.traversal.len() && 0 <= j < after.traversal[i].len() implies (
    #[trigger] after.traversal[i][j]) < after.nodes.len() by {
        if i == after.traversal.len() - 1 && j == state.traversal[i].len() {
        } else {
            assert(after.traversal[i][j] == state.traversal[i][j]);
        }
    }
}

/// Entering a node keeps the invariant of the walk.
pub proof fn lemma_pre_visited_wf(state: VisitorView, plan: LogicalPlan)
    requires
        state.wf(),
        state.pre_visited(plan) is Ok,
    ensures
        state.pre_visited(plan)->Ok_0.0.wf(),
{
    let after = state.pre_visited(plan)->Ok_0.0;
    match plan {
        LogicalPlan::Extension(extension) => {
            match planned_as(state.named_nodes, extension) {
                Some(index) => {
                    lemma_lookup_some(state.named_nodes, extension.stable_name()->0);
                    assert forall|i: int, j: int|
                        0 <= i < after.traversal.len() && 0 <= j < after.traversal[i].len() implies (
                    #[trigger] after.traversal[i][j]) < after.nodes.len() by {
                        if i == after.traversal.len() - 1 && j == state.traversal[i].len() {
                        } else {
                            assert(after.traversal[i][j] == state.traversal[i][j]);
                        }
                    }
                },
                None => {
                    assert forall|i: int, j: int|
                        0 <= i < after.traversal.len() && 0 <= j < after.traversal[i].len() implies (
                    #[trigger] after.traversal[i][j]) < after.nodes.len() by {
                        if i < state.traversal.len() {
                            assert(after.traversal[i][j] == state.traversal[i][j]);
                        }
                    }
                },
            }
        },
        _ => {},
    }
}

fn push_to_last_frame(traversal: &mut Vec<Vec<usize>>, index: usize)
    ensures
        frames_view(final(traversal)@) == add_to_last_frame(frames_view(old(traversal)@), index),
{
    let ghost before = frames_view(traversal@);
    match traversal.pop() {
        Some(mut last) => {
            last.push(index);
            traversal.push(last);
            assert(frames_view(traversal@) =~= add_to_last_frame(before, index));
        },
        None => {
            assert(frames_view(traversal@) =~= before);
        },
    }
}

impl Default for PlanToGraphVisitor {
    fn default() -> (visitor: Self)
        ensures
            visitor@ == VisitorView::empty(),
            visitor@.wf(),
    {
        let visitor = PlanToGraphVisitor {
            graph: graph_new(),
            output_schemas: Vec::new(),
            named_nodes: Vec::new(),
            traversal: Vec::new(),
            planner: Planner::default(),
        };
        assert(visitor@.nodes =~= Seq::empty());
        assert(visitor@.edges =~= Seq::empty());
        assert(visitor@.output_schemas =~= Seq::empty());
        assert(visitor@.named_nodes =~= Seq::empty());
        assert(visitor@.traversal =~= Seq::empty());
        visitor
    }
}

impl PlanToGraphVisitor {
    /// The state of the walk.
    pub closed spec fn view(&self) -> VisitorView {
        VisitorView {
            nodes: nodes_view(graph_nodes(self.graph)),
            edges: graph_edges_view(graph_edges(self.graph)),
            output_schemas: schemas_view(self.output_schemas@),
            named_nodes: names_view(self.named_nodes@),
            traversal: frames_view(self.traversal@),
        }
    }

    fn find_named(&self, name: &NamedNode) -> (r: Option<usize>)
        ensures
            r == lookup_name(self@.named_nodes, name@),
    {
        let ghost all = names_view(self.named_nodes@);
        let mut i: usize = 0;
        assert(all.skip(0) =~= all);
        while i < self.named_nodes.len()
            invariant
                i <= self.named_nodes.len(),
                all == names_view(self.named_nodes@),
                lookup_name(all, name@) == lookup_name(all.skip(i as int), name@),
            decreases self.named_nodes.len() - i,
        {
            assert(all.skip(i as int)[0] == all[i as int]);
            assert(all.skip(i as int).drop_first() =~= all.skip(i + 1));
            if self.named_nodes[i].0.same_as(name) {
                return Some(self.named_nodes[i].1);
            }
            i += 1;
        }
        assert(all.skip(i as int).len() == 0);
        None
    }

    fn planned_node_of(&self, extension: &Extension) -> (r: Option<usize>)
        ensures
            r == planned_as(self@.named_nodes, *extension),
    {
        match extension.node_name() {
            Some(name) => self.find_named(&name),
            None => None,
        }
    }

    fn add_index_to_traversal(&mut self, index: usize)
        ensures
            final(self)@ == old(self)@.with_traversal(
                add_to_last_frame(old(self)@.traversal, index),
            ),
            final(self).graph == old(self).graph,
            final(self).output_schemas == old(self).output_schemas,
            final(self).named_nodes == old(self).named_nodes,
    {
        push_to_last_frame(&mut self.traversal, index);
    }

    fn input_schemas(&self, input_nodes: &Vec<usize>) -> (r: Option<Vec<ArroyoSchema>>)
        ensures
            match input_schemas_of(self@, input_nodes@) {
                Some(schemas) => r matches Some(found) && schemas_view(found@) == schemas,
                None => r is None,
            },
    {
        let ghost known = schemas_view(self.output_schemas@);
        let mut out: Vec<ArroyoSchema> = Vec::new();
        let mut i: usize = 0;
        while i < input_nodes.len()
            invariant
                i <= input_nodes.len(),
                known == schemas_view(self.output_schemas@),
                known == self@.output_schemas,
                out.len() == i,
                forall|j: int| 0 <= j < i ==> input_nodes[j] < known.len(),
                forall|j: int| 0 <= j < i ==> #[trigger] out[j]@ == known[input_nodes[j] as int],
            decreases input_nodes.len() - i,
        {
            let index = input_nodes[i];
            if index >= self.output_schemas.len() {
                return None;
            }
            out.push(self.output_schemas[index].clone());
            i += 1;
        }
        assert(schemas_view(out@) =~= input_schemas_of(self@, input_nodes@)->0);
        Some(out)
    }

    /// The graph that was built.
    pub fn into_graph(self) -> (graph: LogicalGraph)
        ensures
            nodes_view(graph_nodes(graph)) == self@.nodes,
            graph_edges_view(graph_edges(graph)) == self@.edges,
    {
        self.graph
    }

    /// The number of nodes of the graph so far.
    pub fn node_count(&self) -> (n: usize)
        ensures
            n == self@.nodes.len(),
    {
        graph_node_count(&self.graph)
    }

    /// Plans one extension over the nodes of the extensions below it; see
    /// [`VisitorView::built`]. A failure leaves the walk as it was.
    pub fn build_extension(&mut self, input_nodes: Vec<usize>, extension: &Extension) -> (r: Result<
        (),
        PlanError,
    >)
        requires
            old(self)@.wf(),
            extension.schema@.wf(),
        ensures
            match old(self)@.built(input_nodes@, *extension) {
                Ok(state) => r is Ok && final(self)@ == state,
                Err(failure) => r matches Err(e) && e@ == failure && final(self)@ == old(self)@,
            },
            final(self)@.wf(),
    {
        let ghost before = self@;
        if self.planned_node_of(extension).is_some() {
            return Err(PlanError::plan(ALREADY_PLANNED));
        }
        let input_schemas = match self.input_schemas(&input_nodes) {
            Some(schemas) => schemas,
            None => {
                return Err(PlanError::plan(MISSING_INPUT_NODE));
            },
        };
        let index = graph_node_count(&self.graph);
        let planned = match extension.plan_node(&self.planner, index, input_schemas) {
            Ok(planned) => planned,
            Err(e) => {
                return Err(e);
            },
        };
        let NodeWithIncomingEdges { node, edges } = planned;
        let edge_count = graph_edge_count(&self.graph);
        if index >= 0xffff_ffff || edge_count > 0xffff_ffff || edges.len() > 0xffff_ffff
            - edge_count {
            return Err(PlanError::internal(GRAPH_FULL));
        }
        proof {
            lemma_built_wf(before, input_nodes@, *extension);
        }
        let ghost after = before.built(input_nodes@, *extension)->Ok_0;
        let ghost labels = edges_view(edges@);
        let node_index = graph_add_node(&mut self.graph, node);
        assert(nodes_view(graph_nodes(self.graph)) =~= after.nodes);
        self.add_index_to_traversal(node_index);
        let mut edges = edges;
        let count = edges.len();
        let mut i: usize = 0;
        while i < count
            invariant
                i <= count == input_nodes.len() == labels.len(),
                edges.len() == count - i,
                forall|j: int| 0 <= j < edges.len() ==> #[trigger] edges[j]@ == labels[i + j],
                forall|j: int| 0 <= j < count ==> input_nodes[j] < node_index,
                node_index + 1 == graph_nodes(self.graph).len(),
                before.edges.len() + count <= u32::MAX,
                graph_edges_view(graph_edges(self.graph)) == before.edges + Seq::new(
                    i as nat,
                    |j: int| (input_nodes[j], node_index, labels[j]),
                ),
                nodes_view(graph_nodes(self.graph)) == after.nodes,
                self.output_schemas == old(self).output_schemas,
                self.named_nodes == old(self).named_nodes,
                frames_view(self.traversal@) == after.traversal,
            decreases count - i,
        {
            let edge = edges.remove(0);
            let ghost so_far = graph_edges_view(graph_edges(self.graph));
            assert(so_far.len() == before.edges.len() + i);
            graph_add_edge(&mut self.graph, input_nodes[i], node_index, edge);
            assert(graph_edges_view(graph_edges(self.graph)) =~= so_far.push(
                (input_nodes[i as int], node_index, labels[i as int]),
            ));
            i += 1;
            assert(graph_edges_view(graph_edges(self.graph)) =~= before.edges + Seq::new(
                i as nat,
                |j: int| (input_nodes[j], node_index, labels[j]),
            ));
        }
        self.output_schemas.push(extension.output_schema());
        assert(schemas_view(self.output_schemas@) =~= after.output_schemas);
        match extension.node_name() {
            Some(name) => {
                self.named_nodes.push((name, node_index));
                assert(names_view(self.named_nodes@) =~= after.named_nodes);
            },
            None => {},
        }
        assert(self@.edges =~= after.edges);
        Ok(())
    }
}

impl PlanToGraphVisitor {
    /// Enters a node of the plan; see [`VisitorView::pre_visited`]. A
    /// failure leaves the walk as it was.
    pub fn pre_visit(&mut self, node: &LogicalPlan) -> (r: Result<VisitRecursion, PlanError>)
        requires
            old(self)@.wf(),
        ensures
            match old(self)@.pre_visited(*node) {
                Ok((state, recursion)) => r == Ok::<VisitRecursion, PlanError>(recursion)
                    && final(self)@ == state,
                Err(failure) => r matches Err(e) && e@ == failure && final(self)@ == old(self)@,
            },
            final(self)@.wf(),
    {
        proof {
            if old(self)@.pre_visited(*node) is Ok {
                lemma_pre_visited_wf(old(self)@, *node);
            }
        }
        let extension = match node {
            LogicalPlan::Extension(extension) => extension,
            _ => {
                return Ok(VisitRecursion::Continue);
            },
        };
        match extension.kind {
            OperatorKind::Foreign => {
                return Err(PlanError::plan(CONVERSION_FAILED));
            },
            _ => {},
        }
        match self.planned_node_of(extension) {
            Some(node_index) => {
                self.add_index_to_traversal(node_index);
                return Ok(VisitRecursion::Skip);
            },
            None => {},
        }
        if extension.inputs.len() > 0 {
            let ghost before = frames_view(self.traversal@);
            self.traversal.push(Vec::new());
            assert(frames_view(self.traversal@) =~= before.push(Seq::empty()));
        }
        Ok(VisitRecursion::Continue)
    }

    /// Leaves a node of the plan; see [`VisitorView::post_visited`].
    pub fn post_visit(&mut self, node: &LogicalPlan) -> (r: Result<VisitRecursion, PlanError>)
        requires
            old(self)@.wf(),
            node matches LogicalPlan::Extension(extension) ==> extension.schema@.wf(),
        ensures
            match old(self)@.post_visited(*node) {
                Ok(state) => r == Ok::<VisitRecursion, PlanError>(VisitRecursion::Continue)
                    && final(self)@ == state,
                Err(failure) => r matches Err(e) && e@ == failure,
            },
            final(self)@.wf(),
    {
        let extension = match node {
            LogicalPlan::Extension(extension) => extension,
            _ => {
                return Ok(VisitRecursion::Continue);
            },
        };
        let ghost before = frames_view(self.traversal@);
        let input_nodes: Vec<usize> = if extension.inputs.len() > 0 {
            match self.traversal.pop() {
                Some(frame) => {
                    assert(frames_view(self.traversal@) =~= before.drop_last());
                    assert(frame@ == before.last());
                    frame
                },
                None => {
                    assert(frames_view(self.traversal@) =~= before);
                    Vec::new()
                },
            }
        } else {
            Vec::new()
        };
        assert(self@.wf()) by {
            assert forall|i: int, j: int|
                0 <= i < self@.traversal.len() && 0 <= j < self@.traversal[i].len() implies (
            #[trigger] self@.traversal[i][j]) < self@.nodes.len() by {
                assert(self@.traversal[i][j] == old(self)@.traversal[i][j]);
            }
        }
        match extension.kind {
            OperatorKind::Foreign => {
                return Err(PlanError::plan(CONVERSION_FAILED));
            },
            _ => {},
        }
        match self.build_extension(input_nodes, extension) {
            Ok(()) => Ok(VisitRecursion::Continue),
            Err(e) => Err(e),
        }
    }

    /// Walks a plan; see [`VisitorView::visited`].
    pub fn visit(&mut self, plan: &LogicalPlan) -> (r: Result<(), PlanError>)
        requires
            old(self)@.wf(),
            plan_valid(*plan),
        ensures
            match old(self)@.visited(*plan) {
                Ok(state) => r is Ok && final(self)@ == state,
                Err(failure) => r matches Err(e) && e@ == failure,
            },
            final(self)@.wf(),
        decreases plan,
    {
        match self.pre_visit(plan) {
            Err(e) => {
                return Err(e);
            },
            Ok(VisitRecursion::Continue) => {},
            Ok(_) => {
                return Ok(());
            },
        }
        let ghost entered = self@;
        let count = plan.input_count();
        let mut i: usize = 0;
        while i < count
            invariant
                i <= count == plan.inputs().len(),
                plan_valid(*plan),
                self@.wf(),
                old(self)@.pre_visited(*plan) == Ok::<(VisitorView, VisitRecursion), Failure>(
                    (entered, VisitRecursion::Continue),
                ),
                entered.visited_inputs(*plan, i as nat) == Ok::<VisitorView, Failure>(self@),
            decreases count - i,
        {
            let input = plan.input(i);
            proof {
                lemma_input_valid(*plan, i as nat);
            }
            match self.visit(input) {
                Ok(()) => {},
                Err(e) => {
                    proof {
                        lemma_visited_inputs_fails(
                            entered,
                            *plan,
                            (i + 1) as nat,
                            count as nat,
                        );
                    }
                    return Err(e);
                },
            }
            i += 1;
        }
        match self.post_visit(plan) {
            Ok(_) => Ok(()),
            Err(e) => Err(e),
        }
    }

    /// Walks a plan from outside any extension, and so adds its extensions
    /// to the graph.
    pub fn add_plan(&mut self, plan: LogicalPlan) -> (r: Result<(), PlanError>)
        requires
            old(self)@.wf(),
            plan_valid(plan),
        ensures
            match old(self)@.with_traversal(Seq::empty()).visited(plan) {
                Ok(state) => r is Ok && final(self)@ == state,
                Err(failure) => r matches Err(e) && e@ == failure,
            },
            final(self)@.wf(),
    {
        self.traversal.clear();
        assert(frames_view(self.traversal@) =~= Seq::empty());
        self.visit(&plan)
    }
}

/// Builds the graph of a plan: the graph that the walk over the plan leaves
/// behind. A walk that fails leaves no graph behind.
pub fn plan_to_graph(plan: LogicalPlan) -> (r: Result<LogicalGraph, PlanError>)
    requires
        plan_valid(plan),
    ensures
        match VisitorView::empty().visited(plan) {
            Ok(state) => r matches Ok(graph) && nodes_view(graph_nodes(graph)) == state.nodes
                && graph_edges_view(graph_edges(graph)) == state.edges,
            Err(failure) => r matches Err(e) && e@ == failure,
        },
{
    let mut visitor = PlanToGraphVisitor::default();
    assert(visitor@.with_traversal(Seq::empty()) == VisitorView::empty());
    match visitor.add_plan(plan) {
        Ok(()) => Ok(visitor.into_graph()),
        Err(e) => Err(e),
    }
}

/// Whether every extension of a plan has a streaming schema that meets its
/// invariant.
pub fn plan_is_valid(plan: &LogicalPlan) -> (r: bool)
    ensures
        r == plan_valid(*plan),
    decreases plan,
{
    match plan {
        LogicalPlan::Extension(extension) => {
            if !extension.schema.is_valid() {
                return false;
            }
        },
        _ => {},
    }
    let count = plan.input_count();
    let mut i: usize = 0;
    while i < count
        invariant
            i <= count == plan.inputs().len(),
            inputs_valid(*plan, i as nat),
        decreases count - i,
    {
        if !plan_is_valid(plan.input(i)) {
            proof {
                lemma_inputs_invalid_upto(*plan, count as nat, i as nat);
            }
            return false;
        }
        i += 1;
    }
    true
}

proof fn lemma_inputs_invalid_upto(plan: LogicalPlan, upto: nat, i: nat)
    requires
        i < upto <= plan.inputs().len(),
        !plan_valid(plan.inputs()[i as int]),
    ensures
        !inputs_valid(plan, upto),
    decreases upto,
{
    if i + 1 < upto {
        lemma_inputs_invalid_upto(plan, (upto - 1) as nat, i);
    }
}

/// Every input of a valid plan is valid.
pub proof fn lemma_input_valid(plan: LogicalPlan, i: nat)
    requires
        plan_valid(plan),
        i < plan.inputs().len(),
    ensures
        plan_valid(plan.inputs()[i as int]),
{
    lemma_inputs_valid_upto(plan, plan.inputs().len(), i);
}

proof fn lemma_inputs_valid_upto(plan: LogicalPlan, upto: nat, i: nat)
    requires
        inputs_valid(plan, upto),
        i < upto <= plan.inputs().len(),
    ensures
        plan_valid(plan.inputs()[i as int]),
    decreases upto,
{
    if i + 1 < upto {
        lemma_inputs_valid_upto(plan, (upto - 1) as nat, i);
    }
}

/// A failure among the first inputs is the failure of the walk over every
/// longer part of the inputs.
proof fn lemma_visited_inputs_fails(state: VisitorView, plan: LogicalPlan, at: nat, upto: nat)
    requires
        at <= upto <= plan.inputs().len(),
        state.visited_inputs(plan, at) is Err,
    ensures
        state.visited_inputs(plan, upto) == state.visited_inputs(plan, at),
    decreases upto - at,
{
    if at < upto {
        lemma_visited_inputs_fails(state, plan, at, (upto - 1) as nat);
    }
}

} // verus!

//! What holds of the graph that a walk builds: a stable name has one node,
//! the edges into a node come from the extensions directly below its
//! extension, in their order, and they stay as the walk goes on.

use crate::builder::add_to_last_frame;
use crate::builder::lemma_built_wf;
use crate::builder::lemma_pre_visited_wf;
use crate::builder::lookup_name;
use crate::builder::plan_valid;
use crate::builder::planned_as;
use crate::builder::NameKind;
use crate::builder::VisitorView;
use crate::graph::LogicalEdgeView;
use crate::plan::lemma_input_decreases;
use crate::plan::Extension;
use crate::plan::LogicalPlan;
use vstd::prelude::*;

verus! {

/// The nodes that the edges into `target` leave, in the order of the edges.
pub open spec fn incoming(edges: Seq<(usize, usize, LogicalEdgeView)>, target: usize) -> Seq<usize>
    decreases edges.len(),
{
    if edges.len() == 0 {
        Seq::empty()
    } else {
        let before = incoming(edges.drop_last(), target);
        if edges.last().1 == target {
            before.push(edges.last().0)
        } else {
            before
        }
    }
}

/// The extensions that a walk over `plan` reaches first: the plan itself
/// where it is an extension, else those of its inputs, in order.
pub open spec fn top_extensions(plan: LogicalPlan) -> Seq<LogicalPlan>
    decreases plan, plan.inputs().len() + 1,
{
    if plan is Extension {
        seq![plan]
    } else {
        top_extensions_of_inputs(plan, plan.inputs().len())
    }
}

/// The extensions that a walk over the first `upto` inputs of `plan`
/// reaches first.
pub open spec fn top_extensions_of_inputs(plan: LogicalPlan, upto: nat) -> Seq<LogicalPlan>
    decreases plan, upto,
{
    if upto == 0 || upto > plan.inputs().len() {
        Seq::empty()
    } else {
        proof {
            lemma_input_decreases(plan, upto - 1);
        }
        top_extensions_of_inputs(plan, (upto - 1) as nat) + top_extensions(plan.inputs()[upto - 1])
    }
}

/// The extensions directly below a node of the plan.
pub open spec fn extensions_below(plan: LogicalPlan) -> Seq<LogicalPlan> {
    top_extensions_of_inputs(plan, plan.inputs().len())
}

/// Whether the node at `index` stands for the extension `plan`: it is the
/// node of the stable name of the extension, or, for an extension without
/// one, a node of its kind, configuration and schema.
pub open spec fn is_node_of(state: VisitorView, index: usize, plan: LogicalPlan) -> bool {
    &&& index < state.nodes.len()
    &&& plan matches LogicalPlan::Extension(extension)
    &&& match extension.stable_name() {
        Some(name) => lookup_name(state.named_nodes, name) == Some(index),
        None => {
            &&& state.nodes[index as int].operator_kind == extension.kind
            &&& state.nodes[index as int].config == extension.config@
            &&& state.nodes[index as int].output_schema == extension.schema@
        },
    }
}

/// Whether `later` holds everything that `earlier` holds, in the same
/// places, and names that are new in `later` have nodes that are.
pub open spec fn grows_to(earlier: VisitorView, later: VisitorView) -> bool {
    &&& earlier.nodes.is_prefix_of(later.nodes)
    &&& earlier.edges.is_prefix_of(later.edges)
    &&& earlier.named_nodes.is_prefix_of(later.named_nodes)
    &&& forall|i: int|
        earlier.named_nodes.len() <= i < later.named_nodes.len() ==> (
        #[trigger] later.named_nodes[i]).1 >= earlier.nodes.len()
    &&& forall|target: usize|
        target < earlier.nodes.len() ==> #[trigger] incoming(later.edges, target) == incoming(
            earlier.edges,
            target,
        )
}

// ---------------------------------------------------------------------------
// Names
// ---------------------------------------------------------------------------

/// A stable name has at most one node: two entries of the same name are
/// the same entry.
pub proof fn lemma_one_node_per_name(state: VisitorView, i: int, j: int)
    requires
        state.wf(),
        0 <= i < state.named_nodes.len(),
        0 <= j < state.named_nodes.len(),
        state.named_nodes[i].0 == state.named_nodes[j].0,
    ensures
        i == j,
{
}

/// Extensions of the same stable name stand for the same node.
pub proof fn lemma_same_name_same_node(
    state: VisitorView,
    first: LogicalPlan,
    second: LogicalPlan,
    i: usize,
    j: usize,
)
    requires
        is_node_of(state, i, first),
        is_node_of(state, j, second),
        first->Extension_0.stable_name() is Some,
        first->Extension_0.stable_name() == second->Extension_0.stable_name(),
    ensures
        i == j,
{
}

/// What was found under a name is still found when entries are added.
pub proof fn lemma_lookup_prefix(
    earlier: Seq<((NameKind, Seq<char>), usize)>,
    later: Seq<((NameKind, Seq<char>), usize)>,
    name: (NameKind, Seq<char>),
)
    requires
        earlier.is_prefix_of(later),
        lookup_name(earlier, name) is Some,
    ensures
        lookup_name(later, name) == lookup_name(earlier, name),
    decreases earlier.len(),
{
    assert(later[0] == earlier[0]);
    if earlier[0].0 != name {
        assert(earlier.drop_first().is_prefix_of(later.drop_first()));
        lemma_lookup_prefix(earlier.drop_first(), later.drop_first(), name);
    }
}

/// A name that was not planned is found at the node it is recorded with.
pub proof fn lemma_lookup_push(
    named_nodes: Seq<((NameKind, Seq<char>), usize)>,
    name: (NameKind, Seq<char>),
    index: usize,
)
    requires
        lookup_name(named_nodes, name) is None,
    ensures
        lookup_name(named_nodes.push((name, index)), name) == Some(index),
    decreases named_nodes.len(),
{
    let pushed = named_nodes.push((name, index));
    if named_nodes.len() > 0 {
        assert(pushed.drop_first() =~= named_nodes.drop_first().push((name, index)));
        lemma_lookup_push(named_nodes.drop_first(), name, index);
    } else {
        assert(pushed.drop_first().len() == 0);
    }
}

// ---------------------------------------------------------------------------
// Edges
// ---------------------------------------------------------------------------

/// No edge enters a node that is no target.
proof fn lemma_incoming_none(edges: Seq<(usize, usize, LogicalEdgeView)>, target: usize)
    requires
        forall|i: int| 0 <= i < edges.len() ==> (#[trigger] edges[i]).1 != target,
    ensures
        incoming(edges, target).len() == 0,
    decreases edges.len(),
{
    if edges.len() > 0 {
        lemma_incoming_none(edges.drop_last(), target);
    }
}

/// The sources of edges that are added behind others come behind the
/// sources of those.
proof fn lemma_incoming_add(
    first: Seq<(usize, usize, LogicalEdgeView)>,
    second: Seq<(usize, usize, LogicalEdgeView)>,
    target: usize,
)
    ensures
        incoming(first + second, target) == incoming(first, target) + incoming(second, target),
    decreases second.len(),
{
    if second.len() == 0 {
        assert(first + second =~= first);
        assert(incoming(first, target) + incoming(second, target) =~= incoming(first, target));
    } else {
        assert((first + second).drop_last() =~= first + second.drop_last());
        assert((first + second).last() == second.last());
        lemma_incoming_add(first, second.drop_last(), target);
        if second.last().1 == target {
            assert(incoming(first, target) + incoming(second.drop_last(), target).push(
                second.last().0,
            ) =~= (incoming(first, target) + incoming(second.drop_last(), target)).push(
                second.last().0,
            ));
        }
    }
}

/// The sources of the first `upto` of the edges that enter one node from
/// the given nodes are those nodes.
proof fn lemma_incoming_new(
    input_nodes: Seq<usize>,
    index: usize,
    labels: Seq<LogicalEdgeView>,
    upto: nat,
    target: usize,
)
    requires
        upto <= input_nodes.len(),
    ensures
        incoming(Seq::new(upto, |i: int| (input_nodes[i], index, labels[i])), target) == (if target
            == index {
            input_nodes.take(upto as int)
        } else {
            Seq::empty()
        }),
    decreases upto,
{
    let edges = Seq::new(upto, |i: int| (input_nodes[i], index, labels[i]));
    if upto > 0 {
        assert(edges.drop_last() =~= Seq::new(
            (upto - 1) as nat,
            |i: int| (input_nodes[i], index, labels[i]),
        ));
        lemma_incoming_new(input_nodes, index, labels, (upto - 1) as nat, target);
        if target == index {
            assert(input_nodes.take(upto as int) =~= input_nodes.take(upto - 1).push(
                input_nodes[upto - 1],
            ));
        }
    } else {
        assert(input_nodes.take(0) =~= Seq::empty());
    }
}

/// The edges into a node that was planned leave the nodes it was planned
/// over, in their order, and the edges into every older node stay.
pub proof fn lemma_edge_order(state: VisitorView, input_nodes: Seq<usize>, extension: Extension)
    requires
        state.wf(),
        state.built(input_nodes, extension) is Ok,
    ensures
        incoming(state.built(input_nodes, extension)->Ok_0.edges, state.nodes.len() as usize)
            == input_nodes,
        grows_to(state, state.built(input_nodes, extension)->Ok_0),
{
    let after = state.built(input_nodes, extension)->Ok_0;
    let index = state.nodes.len() as usize;
    let schemas = crate::builder::input_schemas_of(state, input_nodes)->0;
    let labels = extension.planned(state.nodes.len(), schemas)->Ok_0.1;
    let added = Seq::new(labels.len(), |i: int| (input_nodes[i], index, labels[i]));
    assert(after.edges == state.edges + added);
    assert(input_nodes.take(input_nodes.len() as int) =~= input_nodes);
    lemma_incoming_none(state.edges, index);
    lemma_incoming_add(state.edges, added, index);
    lemma_incoming_new(input_nodes, index, labels, labels.len(), index);
    assert(incoming(after.edges, index) =~= input_nodes);
    assert forall|target: usize| target < state.nodes.len() implies #[trigger] incoming(
        after.edges,
        target,
    ) == incoming(state.edges, target) by {
        lemma_incoming_add(state.edges, added, target);
        lemma_incoming_new(input_nodes, index, labels, labels.len(), target);
        assert(incoming(state.edges, target) + Seq::<usize>::empty() =~= incoming(
            state.edges,
            target,
        ));
    }
}

// ---------------------------------------------------------------------------
// The walk
// ---------------------------------------------------------------------------

/// Whether a part of the walk that went from `before` to `after` and
/// reached the extensions `reached` first has handed their nodes up: the
/// graph has only grown, the frames are those of before, and the innermost
/// frame, if there is one, has got the nodes of the extensions, in order.
pub open spec fn handed_up(before: VisitorView, after: VisitorView, reached: Seq<LogicalPlan>) -> bool {
    &&& after.wf()
    &&& grows_to(before, after)
    &&& after.traversal.len() == before.traversal.len()
    &&& before.traversal.len() > 0 ==> {
        &&& after.traversal.drop_last() == before.traversal.drop_last()
        &&& before.traversal.last().is_prefix_of(after.traversal.last())
        &&& after.traversal.last().len() == before.traversal.last().len() + reached.len()
        &&& forall|k: int|
            0 <= k < reached.len() ==> is_node_of(
                after,
                after.traversal.last()[before.traversal.last().len() + k],
                #[trigger] reached[k],
            )
    }
}

/// Whether the edges into the node at `index` come from the nodes of the
/// extensions directly below `plan`, one from each and in their order.
pub open spec fn edges_follow_inputs(state: VisitorView, index: usize, plan: LogicalPlan) -> bool {
    let sources = incoming(state.edges, index);
    &&& sources.len() == extensions_below(plan).len()
    &&& forall|k: int|
        0 <= k < sources.len() ==> is_node_of(state, sources[k], #[trigger] extensions_below(plan)[k])
}

proof fn lemma_grows_to_itself(state: VisitorView, traversal: Seq<Seq<usize>>)
    ensures
        grows_to(state, state.with_traversal(traversal)),
        grows_to(state.with_traversal(traversal), state),
{
}

proof fn lemma_grows_on(first: VisitorView, second: VisitorView, third: VisitorView)
    requires
        grows_to(first, second),
        grows_to(second, third),
    ensures
        grows_to(first, third),
{
    assert forall|target: usize| target < first.nodes.len() implies #[trigger] incoming(
        third.edges,
        target,
    ) == incoming(first.edges, target) by {
        assert(incoming(second.edges, target) == incoming(first.edges, target));
        assert(incoming(third.edges, target) == incoming(second.edges, target));
    }
    assert forall|i: int| first.named_nodes.len() <= i < third.named_nodes.len() implies (
    #[trigger] third.named_nodes[i]).1 >= first.nodes.len() by {
        if i < second.named_nodes.len() {
            assert(third.named_nodes[i] == second.named_nodes[i]);
        }
    }
}

/// A node that stands for an extension goes on to do so as the graph
/// grows.
pub proof fn lemma_node_stays(
    earlier: VisitorView,
    later: VisitorView,
    index: usize,
    plan: LogicalPlan,
)
    requires
        is_node_of(earlier, index, plan),
        grows_to(earlier, later),
    ensures
        is_node_of(later, index, plan),
{
    let extension = plan->Extension_0;
    assert(later.nodes[index as int] == earlier.nodes[index as int]);
    match extension.stable_name() {
        Some(name) => {
            lemma_lookup_prefix(earlier.named_nodes, later.named_nodes, name);
        },
        None => {},
    }
}

/// The node that an extension was planned as stands for the extension.
proof fn lemma_built_node(state: VisitorView, input_nodes: Seq<usize>, extension: Extension)
    requires
        state.wf(),
        state.built(input_nodes, extension) is Ok,
    ensures
        is_node_of(
            state.built(input_nodes, extension)->Ok_0,
            state.nodes.len() as usize,
            LogicalPlan::Extension(extension),
        ),
{
    match extension.stable_name() {
        Some(name) => {
            lemma_lookup_push(state.named_nodes, name, state.nodes.len() as usize);
        },
        None => {},
    }
}

/// Leaving a node keeps the invariant of the walk.
proof fn lemma_post_visited_wf(state: VisitorView, plan: LogicalPlan)
    requires
        state.wf(),
        plan matches LogicalPlan::Extension(extension) ==> extension.schema@.wf(),
        state.post_visited(plan) is Ok,
    ensures
        state.post_visited(plan)->Ok_0.wf(),
{
    match plan {
        LogicalPlan::Extension(extension) => {
            let framed = extension.inputs@.len() > 0 && state.traversal.len() > 0;
            let input_nodes = if framed {
                state.traversal.last()
            } else {
                Seq::empty()
            };
            let inner = if framed {
                state.with_traversal(state.traversal.drop_last())
            } else {
                state
            };
            assert(inner.wf()) by {
                assert forall|i: int, j: int|
                    0 <= i < inner.traversal.len() && 0 <= j < inner.traversal[i].len() implies (
                #[trigger] inner.traversal[i][j]) < inner.nodes.len() by {
                    assert(inner.traversal[i][j] == state.traversal[i][j]);
                }
            }
            lemma_built_wf(inner, input_nodes, extension);
        },
        _ => {},
    }
}

/// A walk over a plan hands up the nodes of the extensions it reaches
/// first, and where the plan is an extension that is planned by the walk,
/// the edges into its node follow the extensions directly below it.
pub proof fn lemma_walk(state: VisitorView, plan: LogicalPlan)
    requires
        state.wf(),
        plan_valid(plan),
        state.visited(plan) is Ok,
    ensures
        handed_up(state, state.visited(plan)->Ok_0, top_extensions(plan)),
        plan matches LogicalPlan::Extension(extension) && planned_as(state.named_nodes, extension)
            is None ==> {
            let after = state.visited(plan)->Ok_0;
            &&& after.nodes.len() == state.visited(plan)->Ok_0.nodes.len()
            &&& after.nodes.len() > state.nodes.len()
            &&& is_node_of(after, (after.nodes.len() - 1) as usize, plan)
            &&& edges_follow_inputs(after, (after.nodes.len() - 1) as usize, plan)
        },
    decreases plan, plan.inputs().len() + 1,
{
    let after = state.visited(plan)->Ok_0;
    let entered = state.pre_visited(plan)->Ok_0.0;
    lemma_pre_visited_wf(state, plan);
    match plan {
        LogicalPlan::Extension(extension) => {
            match planned_as(state.named_nodes, extension) {
                Some(index) => {
                    let name = extension.stable_name()->0;
                    crate::builder::lemma_lookup_some(state.named_nodes, name);
                    lemma_grows_to_itself(state, add_to_last_frame(state.traversal, index));
                    if state.traversal.len() > 0 {
                        assert(after.traversal.drop_last() =~= state.traversal.drop_last());
                        assert(top_extensions(plan)[0] == plan);
                    }
                },
                None => {
                    let count = plan.inputs().len();
                    lemma_walk_inputs(entered, plan, count);
                    let below = entered.visited_inputs(plan, count)->Ok_0;
                    lemma_post_visited_wf(below, plan);
                    let framed = extension.inputs@.len() > 0 && below.traversal.len() > 0;
                    let input_nodes = if framed {
                        below.traversal.last()
                    } else {
                        Seq::empty()
                    };
                    let inner = if framed {
                        below.with_traversal(below.traversal.drop_last())
                    } else {
                        below
                    };
                    let index = inner.nodes.len() as usize;
                    assert(inner.wf()) by {
                        assert forall|i: int, j: int|
                            0 <= i < inner.traversal.len() && 0 <= j
                                < inner.traversal[i].len() implies (
                        #[trigger] inner.traversal[i][j]) < inner.nodes.len() by {
                            assert(inner.traversal[i][j] == below.traversal[i][j]);
                        }
                    }
                    assert(after == inner.built(input_nodes, extension)->Ok_0);
                    lemma_edge_order(inner, input_nodes, extension);
                    lemma_built_node(inner, input_nodes, extension);
                    lemma_grows_to_itself(state, entered.traversal);
                    lemma_grows_to_itself(below, inner.traversal);
                    lemma_grows_on(state, entered, below);
                    lemma_grows_on(state, below, inner);
                    lemma_grows_on(state, inner, after);
                    lemma_grows_on(below, inner, after);
                    // the frames are those of before, with the new node in the innermost
                    if count > 0 {
                        assert(entered.traversal.drop_last() =~= state.traversal);
                        assert(inner.traversal =~= state.traversal);
                        assert(input_nodes.len() == extensions_below(plan).len());
                    } else {
                        assert(inner.traversal =~= state.traversal);
                        assert(extensions_below(plan).len() == 0);
                    }
                    if state.traversal.len() > 0 {
                        assert(after.traversal.drop_last() =~= state.traversal.drop_last());
                        assert(top_extensions(plan)[0] == plan);
                    }
                    // the edges into the new node
                    assert(edges_follow_inputs(after, index, plan)) by {
                        let sources = incoming(after.edges, index);
                        assert(sources == input_nodes);
                        assert forall|k: int| 0 <= k < sources.len() implies is_node_of(
                            after,
                            sources[k],
                            #[trigger] extensions_below(plan)[k],
                        ) by {
                            assert(is_node_of(below, input_nodes[k], extensions_below(plan)[k]));
                            lemma_node_stays(
                                below,
                                after,
                                input_nodes[k],
                                extensions_below(plan)[k],
                            );
                        }
                    }
                },
            }
        },
        _ => {
            let count = plan.inputs().len();
            lemma_walk_inputs(state, plan, count);
        },
    }
}

/// A walk over the first inputs of a plan hands up the nodes of the
/// extensions it reaches first.
pub proof fn lemma_walk_inputs(state: VisitorView, plan: LogicalPlan, upto: nat)
    requires
        state.wf(),
        plan_valid(plan),
        upto <= plan.inputs().len(),
        state.visited_inputs(plan, upto) is Ok,
    ensures
        handed_up(
            state,
            state.visited_inputs(plan, upto)->Ok_0,
            top_extensions_of_inputs(plan, upto),
        ),
    decreases plan, upto,
{
    if upto == 0 {
        lemma_grows_to_itself(state, state.traversal);
        if state.traversal.len() > 0 {
            assert(state.traversal.last().is_prefix_of(state.traversal.last()));
        }
    } else {
        let before = (upto - 1) as nat;
        lemma_walk_inputs(state, plan, before);
        let middle = state.visited_inputs(plan, before)->Ok_0;
        let input = plan.inputs()[upto - 1];
        let after = state.visited_inputs(plan, upto)->Ok_0;
        let first = top_extensions_of_inputs(plan, before);
        lemma_input_decreases(plan, upto - 1);
        {
            crate::builder::lemma_input_valid(plan, before);
            lemma_walk(middle, input);
            let second = top_extensions(input);
            lemma_grows_on(state, middle, after);
            if state.traversal.len() > 0 {
                let start = state.traversal.last().len();
                assert(state.traversal.last().is_prefix_of(after.traversal.last()));
                assert forall|k: int| 0 <= k < (first + second).len() implies is_node_of(
                    after,
                    after.traversal.last()[start + k],
                    #[trigger] (first + second)[k],
                ) by {
                    if k < first.len() {
                        assert(after.traversal.last()[start + k] == middle.traversal.last()[start
                            + k]);
                        assert(is_node_of(middle, middle.traversal.last()[start + k], first[k]));
                        lemma_node_stays(
                            middle,
                            after,
                            middle.traversal.last()[start + k],
                            first[k],
                        );
                    } else {
                        assert(is_node_of(
                            after,
                            after.traversal.last()[middle.traversal.last().len() + (k
                                - first.len())],
                            second[k - first.len()],
                        ));
                    }
                }
            }
        }
    }
}

// ---------------------------------------------------------------------------
// Schemas
// ---------------------------------------------------------------------------

/// Every node of the graph puts out a schema in which exactly one field is
/// named as the event-time column.
pub proof fn lemma_one_event_time(state: VisitorView, node: int)
    requires
        state.wf(),
        0 <= node < state.nodes.len(),
    ensures
        crate::schema::sole_timestamp_at(
            state.nodes[node].output_schema.fields,
            state.nodes[node].output_schema.timestamp_index as int,
        ),
{
    assert(state.nodes[node].output_schema == state.output_schemas[node]);
}

/// The graph has no cycle: every edge leaves a node that is older than the
/// node it enters.
pub proof fn lemma_edges_go_forward(state: VisitorView, edge: int)
    requires
        state.wf(),
        0 <= edge < state.edges.len(),
    ensures
        state.edges[edge].0 < state.edges[edge].1 < state.nodes.len(),
{
}

} // verus!

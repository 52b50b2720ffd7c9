//! How many edges leave the node of a stable name: one for each extension
//! of that name that the walk enters below another extension.

use crate::builder::add_to_last_frame;
use crate::builder::lemma_built_wf;
use crate::builder::lemma_input_valid;
use crate::builder::lemma_lookup_none;
use crate::builder::lemma_lookup_some;
use crate::builder::lemma_pre_visited_wf;
use crate::builder::lookup_name;
use crate::builder::plan_valid;
use crate::builder::planned_as;
use crate::builder::NameKind;
use crate::builder::VisitorView;
use crate::builder_laws::grows_to;
use crate::builder_laws::lemma_edge_order;
use crate::builder_laws::lemma_lookup_prefix;
use crate::builder_laws::lemma_lookup_push;
use crate::builder_laws::lemma_walk;
use crate::builder_laws::lemma_walk_inputs;
use crate::builder_laws::top_extensions;
use crate::builder_laws::top_extensions_of_inputs;
use crate::graph::LogicalEdgeView;
use crate::plan::lemma_input_decreases;
use crate::plan::Extension;
use crate::plan::LogicalPlan;
use vstd::prelude::*;

verus! {

/// A stable name.
pub type Name = (NameKind, Seq<char>);

/// The number of edges that leave `source`.
pub open spec fn fan_out(edges: Seq<(usize, usize, LogicalEdgeView)>, source: usize) -> nat
    decreases edges.len(),
{
    if edges.len() == 0 {
        0
    } else {
        fan_out(edges.drop_last(), source) + if edges.last().0 == source {
            1nat
        } else {
            0nat
        }
    }
}

/// The number of times that `node` stands in a frame.
pub open spec fn count_in(frame: Seq<usize>, node: usize) -> nat
    decreases frame.len(),
{
    if frame.len() == 0 {
        0
    } else {
        count_in(frame.drop_last(), node) + if frame.last() == node {
            1nat
        } else {
            0nat
        }
    }
}

/// The number of times that `node` stands in the frames: the edges from it
/// that are still to come.
pub open spec fn pending(traversal: Seq<Seq<usize>>, node: usize) -> nat
    decreases traversal.len(),
{
    if traversal.len() == 0 {
        0
    } else {
        pending(traversal.drop_last(), node) + count_in(traversal.last(), node)
    }
}

/// Whether a node of the plan is an extension of the stable name.
pub open spec fn is_named(plan: LogicalPlan, name: Name) -> bool {
    plan matches LogicalPlan::Extension(extension) && extension.stable_name() == Some(name)
}

/// One for an extension of the stable name, none for any other node.
pub open spec fn own(plan: LogicalPlan, name: Name) -> nat {
    if is_named(plan, name) {
        1
    } else {
        0
    }
}

/// The number of extensions of the stable name that the walk over `plan`
/// from `state` enters: the node itself, and, unless the walk skips the
/// node, those that it enters below.
pub open spec fn entered(state: VisitorView, plan: LogicalPlan, name: Name) -> nat
    decreases plan, plan.inputs().len() + 1,
{
    if plan matches LogicalPlan::Extension(extension) && planned_as(state.named_nodes, extension)
        is Some {
        own(plan, name)
    } else if state.pre_visited(plan) is Ok {
        own(plan, name) + entered_in_inputs(
            state.pre_visited(plan)->Ok_0.0,
            plan,
            plan.inputs().len(),
            name,
        )
    } else {
        0
    }
}

/// The number of extensions of the stable name that the walk over the
/// first `upto` inputs of `plan` enters.
pub open spec fn entered_in_inputs(state: VisitorView, plan: LogicalPlan, upto: nat, name: Name) -> nat
    decreases plan, upto,
{
    if upto == 0 || upto > plan.inputs().len() {
        0
    } else {
        proof {
            lemma_input_decreases(plan, upto - 1);
        }
        entered_in_inputs(state, plan, (upto - 1) as nat, name) + (match state.visited_inputs(
            plan,
            (upto - 1) as nat,
        ) {
            Ok(before) => entered(before, plan.inputs()[upto - 1], name),
            Err(_) => 0,
        })
    }
}

/// The number of the extensions of the stable name among the given ones.
pub open spec fn named_among(plans: Seq<LogicalPlan>, name: Name) -> nat
    decreases plans.len(),
{
    if plans.len() == 0 {
        0
    } else {
        named_among(plans.drop_last(), name) + own(plans.last(), name)
    }
}

/// Whether `node` is the node of the stable name: the node that the name
/// was planned as, or, while the name is not planned, a node that the
/// graph does not have yet.
pub open spec fn node_of_name(state: VisitorView, name: Name, node: usize) -> bool {
    match lookup_name(state.named_nodes, name) {
        Some(found) => found == node,
        None => node >= state.nodes.len(),
    }
}

/// The edges that leave a node and those that are still to come.
pub open spec fn leaving(state: VisitorView, node: usize) -> nat {
    fan_out(state.edges, node) + pending(state.traversal, node)
}

// ---------------------------------------------------------------------------
// Counting
// ---------------------------------------------------------------------------

proof fn lemma_count_push(frame: Seq<usize>, value: usize, node: usize)
    ensures
        count_in(frame.push(value), node) == count_in(frame, node) + if value == node {
            1nat
        } else {
            0nat
        },
{
    assert(frame.push(value).drop_last() =~= frame);
}

proof fn lemma_count_none(frame: Seq<usize>, node: usize)
    requires
        forall|i: int| 0 <= i < frame.len() ==> frame[i] != node,
    ensures
        count_in(frame, node) == 0,
    decreases frame.len(),
{
    if frame.len() > 0 {
        lemma_count_none(frame.drop_last(), node);
    }
}

proof fn lemma_pending_none(traversal: Seq<Seq<usize>>, node: usize)
    requires
        forall|i: int, j: int|
            0 <= i < traversal.len() && 0 <= j < traversal[i].len() ==> traversal[i][j] != node,
    ensures
        pending(traversal, node) == 0,
    decreases traversal.len(),
{
    if traversal.len() > 0 {
        lemma_pending_none(traversal.drop_last(), node);
        lemma_count_none(traversal.last(), node);
    }
}

proof fn lemma_fan_out_none(edges: Seq<(usize, usize, LogicalEdgeView)>, node: usize)
    requires
        forall|i: int| 0 <= i < edges.len() ==> (#[trigger] edges[i]).0 != node,
    ensures
        fan_out(edges, node) == 0,
    decreases edges.len(),
{
    if edges.len() > 0 {
        lemma_fan_out_none(edges.drop_last(), node);
    }
}

proof fn lemma_fan_out_add(
    first: Seq<(usize, usize, LogicalEdgeView)>,
    second: Seq<(usize, usize, LogicalEdgeView)>,
    node: usize,
)
    ensures
        fan_out(first + second, node) == fan_out(first, node) + fan_out(second, node),
    decreases second.len(),
{
    if second.len() == 0 {
        assert(first + second =~= first);
    } else {
        assert((first + second).drop_last() =~= first + second.drop_last());
        lemma_fan_out_add(first, second.drop_last(), node);
    }
}

/// The edges from the nodes of a frame into one node leave each node as
/// often as it stands in the frame.
proof fn lemma_fan_out_new(
    input_nodes: Seq<usize>,
    index: usize,
    labels: Seq<LogicalEdgeView>,
    upto: nat,
    node: usize,
)
    requires
        upto <= input_nodes.len(),
    ensures
        fan_out(Seq::new(upto, |i: int| (input_nodes[i], index, labels[i])), node) == count_in(
            input_nodes.take(upto as int),
            node,
        ),
    decreases upto,
{
    let edges = Seq::new(upto, |i: int| (input_nodes[i], index, labels[i]));
    if upto > 0 {
        assert(edges.drop_last() =~= Seq::new(
            (upto - 1) as nat,
            |i: int| (input_nodes[i], index, labels[i]),
        ));
        assert(input_nodes.take(upto as int).drop_last() =~= input_nodes.take(upto - 1));
        lemma_fan_out_new(input_nodes, index, labels, (upto - 1) as nat, node);
    }
}

proof fn lemma_pending_push(traversal: Seq<Seq<usize>>, frame: Seq<usize>, node: usize)
    ensures
        pending(traversal.push(frame), node) == pending(traversal, node) + count_in(frame, node),
{
    assert(traversal.push(frame).drop_last() =~= traversal);
}

proof fn lemma_pending_add(traversal: Seq<Seq<usize>>, value: usize, node: usize)
    ensures
        pending(add_to_last_frame(traversal, value), node) == pending(traversal, node) + if traversal.len()
            > 0 && value == node {
            1nat
        } else {
            0nat
        },
{
    if traversal.len() > 0 {
        let added = add_to_last_frame(traversal, value);
        assert(added.drop_last() =~= traversal.drop_last());
        lemma_count_push(traversal.last(), value, node);
    }
}

/// A node that the graph does not have yet has no edges and stands in no
/// frame.
proof fn lemma_nothing_leaves_a_new_node(state: VisitorView, node: usize)
    requires
        state.wf(),
        node >= state.nodes.len(),
    ensures
        leaving(state, node) == 0,
{
    lemma_fan_out_none(state.edges, node);
    lemma_pending_none(state.traversal, node);
}

/// The node of a stable name in a later state is its node in every earlier
/// state.
proof fn lemma_node_of_name_before(
    earlier: VisitorView,
    later: VisitorView,
    name: Name,
    node: usize,
)
    requires
        grows_to(earlier, later),
        node_of_name(later, name, node),
    ensures
        node_of_name(earlier, name, node),
{
    match lookup_name(earlier.named_nodes, name) {
        Some(found) => {
            lemma_lookup_prefix(earlier.named_nodes, later.named_nodes, name);
        },
        None => {
            match lookup_name(later.named_nodes, name) {
                Some(found) => {
                    lemma_lookup_none(earlier.named_nodes, name);
                    lemma_lookup_some(later.named_nodes, name);
                    let i = choose|i: int|
                        0 <= i < later.named_nodes.len() && (#[trigger] later.named_nodes[i]).0
                            == name && later.named_nodes[i].1 == found;
                    if i < earlier.named_nodes.len() {
                        assert(later.named_nodes[i] == earlier.named_nodes[i]);
                    }
                },
                None => {},
            }
        },
    }
}

proof fn lemma_named_among_add(first: Seq<LogicalPlan>, second: Seq<LogicalPlan>, name: Name)
    ensures
        named_among(first + second, name) == named_among(first, name) + named_among(second, name),
    decreases second.len(),
{
    if second.len() == 0 {
        assert(first + second =~= first);
    } else {
        assert((first + second).drop_last() =~= first + second.drop_last());
        lemma_named_among_add(first, second.drop_last(), name);
    }
}

proof fn lemma_named_among_one(plan: LogicalPlan, name: Name)
    ensures
        named_among(seq![plan], name) == own(plan, name),
{
    assert(seq![plan].drop_last().len() == 0);
    assert(seq![plan].last() == plan);
    assert(named_among(seq![plan].drop_last(), name) == 0);
}

/// The extensions of the stable name whose nodes have no frame to go to:
/// those that the walk reaches first while no extension is entered.
pub open spec fn dropped(state: VisitorView, reached: Seq<LogicalPlan>, name: Name) -> nat {
    if state.traversal.len() == 0 {
        named_among(reached, name)
    } else {
        0
    }
}

// ---------------------------------------------------------------------------
// The walk
// ---------------------------------------------------------------------------

/// Over a walk, the edges that leave the node of a stable name, with those
/// that are still to come, grow by one for each extension of that name that
/// the walk enters below an extension.
pub proof fn lemma_leaving(state: VisitorView, plan: LogicalPlan, name: Name, node: usize)
    requires
        state.wf(),
        plan_valid(plan),
        state.visited(plan) is Ok,
        node_of_name(state.visited(plan)->Ok_0, name, node),
    ensures
        leaving(state.visited(plan)->Ok_0, node) + dropped(state, top_extensions(plan), name)
            == leaving(state, node) + entered(state, plan, name),
    decreases plan, plan.inputs().len() + 1,
{
    let after = state.visited(plan)->Ok_0;
    let inside = state.pre_visited(plan)->Ok_0.0;
    lemma_walk(state, plan);
    lemma_pre_visited_wf(state, plan);
    lemma_node_of_name_before(state, after, name, node);
    match plan {
        LogicalPlan::Extension(extension) => {
            lemma_named_among_one(plan, name);
            match planned_as(state.named_nodes, extension) {
                Some(index) => {
                    lemma_pending_add(state.traversal, index, node);
                    if extension.stable_name() != Some(name) {
                        // another name has another node
                        lemma_other_name_other_node(
                            state,
                            extension.stable_name()->0,
                            name,
                            node,
                        );
                    }
                },
                None => {
                    let count = plan.inputs().len();
                    lemma_walk_inputs(inside, plan, count);
                    let below = inside.visited_inputs(plan, count)->Ok_0;
                    let framed = extension.inputs@.len() > 0 && below.traversal.len() > 0;
                    let input_nodes = if framed {
                        below.traversal.last()
                    } else {
                        Seq::empty()
                    };
                    let inner = if framed {
                        below.with_traversal(below.traversal.drop_last())
                    } else {
                        below
                    };
                    let index = inner.nodes.len() as usize;
                    assert(inner.wf()) by {
                        assert forall|i: int, j: int|
                            0 <= i < inner.traversal.len() && 0 <= j
                                < inner.traversal[i].len() implies (
                        #[trigger] inner.traversal[i][j]) < inner.nodes.len() by {
                            assert(inner.traversal[i][j] == below.traversal[i][j]);
                        }
                    }
                    assert(after == inner.built(input_nodes, extension)->Ok_0);
                    lemma_built_wf(inner, input_nodes, extension);
                    lemma_edge_order(inner, input_nodes, extension);
                    // the node of the name, seen from the states on the way
                    lemma_node_of_name_before(inner, after, name, node);
                    assert(node_of_name(below, name, node));
                    lemma_leaving_inputs(inside, plan, count, name, node);
                    // entering opens an empty frame for an extension that has inputs
                    if count > 0 {
                        lemma_pending_push(state.traversal, Seq::empty(), node);
                        assert(inner.traversal =~= state.traversal);
                        assert(below.traversal =~= inner.traversal.push(input_nodes));
                        lemma_pending_push(inner.traversal, input_nodes, node);
                    } else {
                        assert(inner.traversal =~= state.traversal);
                    }
                    // the edges from the nodes of the frame
                    let schemas = crate::builder::input_schemas_of(inner, input_nodes)->0;
                    let labels = extension.planned(inner.nodes.len(), schemas)->Ok_0.1;
                    let added = Seq::new(
                        labels.len(),
                        |i: int| (input_nodes[i], index, labels[i]),
                    );
                    assert(after.edges == inner.edges + added);
                    lemma_fan_out_add(inner.edges, added, node);
                    lemma_fan_out_new(input_nodes, index, labels, labels.len(), node);
                    assert(input_nodes.take(input_nodes.len() as int) =~= input_nodes);
                    // the new node goes to the frame around
                    lemma_pending_add(inner.traversal, index, node);
                    assert(after.traversal == add_to_last_frame(inner.traversal, index));
                    // the new node is the node of the name exactly where the extension has the name
                    assert((index == node) == is_named(plan, name)) by {
                        lemma_new_node_of_name(inner, input_nodes, extension, name, node);
                    }
                },
            }
        },
        _ => {
            let count = plan.inputs().len();
            lemma_leaving_inputs(state, plan, count, name, node);
        },
    }
}

/// Over a walk over the first inputs of a plan, the edges that leave the
/// node of a stable name, with those that are still to come, grow by one
/// for each extension of that name that the walk enters below an
/// extension.
pub proof fn lemma_leaving_inputs(
    state: VisitorView,
    plan: LogicalPlan,
    upto: nat,
    name: Name,
    node: usize,
)
    requires
        state.wf(),
        plan_valid(plan),
        upto <= plan.inputs().len(),
        state.visited_inputs(plan, upto) is Ok,
        node_of_name(state.visited_inputs(plan, upto)->Ok_0, name, node),
    ensures
        leaving(state.visited_inputs(plan, upto)->Ok_0, node) + dropped(
            state,
            top_extensions_of_inputs(plan, upto),
            name,
        ) == leaving(state, node) + entered_in_inputs(state, plan, upto, name),
    decreases plan, upto,
{
    if upto > 0 {
        let before = (upto - 1) as nat;
        let middle = state.visited_inputs(plan, before)->Ok_0;
        let input = plan.inputs()[upto - 1];
        let after = state.visited_inputs(plan, upto)->Ok_0;
        lemma_input_decreases(plan, upto - 1);
        lemma_input_valid(plan, before);
        lemma_walk_inputs(state, plan, before);
        lemma_walk(middle, input);
        lemma_node_of_name_before(middle, after, name, node);
        lemma_leaving_inputs(state, plan, before, name, node);
        lemma_leaving(middle, input, name, node);
        lemma_named_among_add(
            top_extensions_of_inputs(plan, before),
            top_extensions(input),
            name,
        );
    } else {
        assert(top_extensions_of_inputs(plan, 0).len() == 0);
    }
}

/// A stable name that is planned has a node that is not the node of
/// another stable name.
proof fn lemma_other_name_other_node(state: VisitorView, planned: Name, name: Name, node: usize)
    requires
        state.wf(),
        lookup_name(state.named_nodes, planned) is Some,
        planned != name,
        node_of_name(state, name, node),
    ensures
        lookup_name(state.named_nodes, planned)->0 != node,
{
    lemma_lookup_some(state.named_nodes, planned);
    let i = choose|i: int|
        0 <= i < state.named_nodes.len() && (#[trigger] state.named_nodes[i]).0 == planned
            && state.named_nodes[i].1 == lookup_name(state.named_nodes, planned)->0;
    match lookup_name(state.named_nodes, name) {
        Some(found) => {
            lemma_lookup_some(state.named_nodes, name);
            let j = choose|j: int|
                0 <= j < state.named_nodes.len() && (#[trigger] state.named_nodes[j]).0 == name
                    && state.named_nodes[j].1 == found;
            if i < j {
                assert(state.named_nodes[i].1 != state.named_nodes[j].1);
            } else {
                assert(state.named_nodes[j].1 != state.named_nodes[i].1);
            }
        },
        None => {},
    }
}

/// The node that an extension is planned as is the node of a stable name
/// exactly where the extension has that name.
proof fn lemma_new_node_of_name(
    state: VisitorView,
    input_nodes: Seq<usize>,
    extension: Extension,
    name: Name,
    node: usize,
)
    requires
        state.wf(),
        state.built(input_nodes, extension) is Ok,
        node_of_name(state.built(input_nodes, extension)->Ok_0, name, node),
    ensures
        (state.nodes.len() as usize == node) == (extension.stable_name() == Some(name)),
{
    let after = state.built(input_nodes, extension)->Ok_0;
    let index = state.nodes.len() as usize;
    if extension.stable_name() == Some(name) {
        lemma_lookup_push(state.named_nodes, name, index);
    } else {
        match lookup_name(after.named_nodes, name) {
            Some(found) => {
                lemma_lookup_some(after.named_nodes, name);
                let j = choose|j: int|
                    0 <= j < after.named_nodes.len() && (#[trigger] after.named_nodes[j]).0 == name
                        && after.named_nodes[j].1 == found;
                if j < state.named_nodes.len() {
                    assert(after.named_nodes[j] == state.named_nodes[j]);
                }
            },
            None => {},
        }
    }
}

// ---------------------------------------------------------------------------
// The extensions of a plan
// ---------------------------------------------------------------------------

/// The number of extensions of the stable name in a plan.
pub open spec fn occurrences(plan: LogicalPlan, name: Name) -> nat
    decreases plan, plan.inputs().len() + 1,
{
    own(plan, name) + occurrences_in_inputs(plan, plan.inputs().len(), name)
}

/// The number of extensions of the stable name in the first `upto` inputs
/// of a plan.
pub open spec fn occurrences_in_inputs(plan: LogicalPlan, upto: nat, name: Name) -> nat
    decreases plan, upto,
{
    if upto == 0 || upto > plan.inputs().len() {
        0
    } else {
        proof {
            lemma_input_decreases(plan, upto - 1);
        }
        occurrences_in_inputs(plan, (upto - 1) as nat, name) + occurrences(
            plan.inputs()[upto - 1],
            name,
        )
    }
}

/// Whether every extension of a plan that has a stable name has no inputs,
/// as a source has none.
pub open spec fn names_are_leaves(plan: LogicalPlan) -> bool
    decreases plan, plan.inputs().len() + 1,
{
    &&& (plan is Extension && plan->Extension_0.stable_name() is Some) ==> plan.inputs().len()
        == 0
    &&& names_are_leaves_in_inputs(plan, plan.inputs().len())
}

/// Whether the first `upto` inputs of a plan have their names at leaves.
pub open spec fn names_are_leaves_in_inputs(plan: LogicalPlan, upto: nat) -> bool
    decreases plan, upto,
{
    if upto == 0 || upto > plan.inputs().len() {
        true
    } else {
        proof {
            lemma_input_decreases(plan, upto - 1);
        }
        names_are_leaves_in_inputs(plan, (upto - 1) as nat) && names_are_leaves(
            plan.inputs()[upto - 1],
        )
    }
}

proof fn lemma_leaves_of_input(plan: LogicalPlan, upto: nat, i: nat)
    requires
        names_are_leaves_in_inputs(plan, upto),
        i < upto <= plan.inputs().len(),
    ensures
        names_are_leaves(plan.inputs()[i as int]),
    decreases upto,
{
    if i + 1 < upto {
        lemma_leaves_of_input(plan, (upto - 1) as nat, i);
    }
}

/// Where the names of a plan are at leaves, a walk enters every extension
/// of a stable name.
pub proof fn lemma_entered_all(state: VisitorView, plan: LogicalPlan, name: Name)
    requires
        names_are_leaves(plan),
        state.visited(plan) is Ok,
    ensures
        entered(state, plan, name) == occurrences(plan, name),
    decreases plan, plan.inputs().len() + 1,
{
    let count = plan.inputs().len();
    if plan matches LogicalPlan::Extension(extension) && planned_as(state.named_nodes, extension)
        is Some {
        assert(occurrences_in_inputs(plan, 0, name) == 0);
    } else {
        lemma_entered_all_inputs(state.pre_visited(plan)->Ok_0.0, plan, count, name);
    }
}

proof fn lemma_entered_all_inputs(state: VisitorView, plan: LogicalPlan, upto: nat, name: Name)
    requires
        names_are_leaves_in_inputs(plan, plan.inputs().len()),
        upto <= plan.inputs().len(),
        state.visited_inputs(plan, upto) is Ok,
    ensures
        entered_in_inputs(state, plan, upto, name) == occurrences_in_inputs(plan, upto, name),
    decreases plan, upto,
{
    if upto > 0 {
        lemma_input_decreases(plan, upto - 1);
        lemma_leaves_of_input(plan, plan.inputs().len(), (upto - 1) as nat);
        lemma_entered_all_inputs(state, plan, (upto - 1) as nat, name);
        lemma_entered_all(
            state.visited_inputs(plan, (upto - 1) as nat)->Ok_0,
            plan.inputs()[upto - 1],
            name,
        );
    }
}

/// A stable name of which the walk enters an extension is planned after
/// the walk.
pub proof fn lemma_entered_is_planned(state: VisitorView, plan: LogicalPlan, name: Name)
    requires
        state.wf(),
        plan_valid(plan),
        state.visited(plan) is Ok,
        entered(state, plan, name) > 0,
    ensures
        lookup_name(state.visited(plan)->Ok_0.named_nodes, name) is Some,
    decreases plan, plan.inputs().len() + 1,
{
    let after = state.visited(plan)->Ok_0;
    lemma_walk(state, plan);
    lemma_pre_visited_wf(state, plan);
    let inside = state.pre_visited(plan)->Ok_0.0;
    let count = plan.inputs().len();
    match plan {
        LogicalPlan::Extension(extension) => {
            match planned_as(state.named_nodes, extension) {
                Some(index) => {},
                None => {
                    if is_named(plan, name) {
                        let index = (after.nodes.len() - 1) as usize;
                        assert(crate::builder_laws::is_node_of(after, index, plan));
                    } else {
                        lemma_walk_inputs(inside, plan, count);
                        let below = inside.visited_inputs(plan, count)->Ok_0;
                        lemma_entered_is_planned_inputs(inside, plan, count, name);
                        // what is planned below stays planned
                        let framed = extension.inputs@.len() > 0 && below.traversal.len() > 0;
                        let input_nodes = if framed {
                            below.traversal.last()
                        } else {
                            Seq::empty()
                        };
                        let inner = if framed {
                            below.with_traversal(below.traversal.drop_last())
                        } else {
                            below
                        };
                        assert(inner.wf()) by {
                            assert forall|i: int, j: int|
                                0 <= i < inner.traversal.len() && 0 <= j
                                    < inner.traversal[i].len() implies (
                            #[trigger] inner.traversal[i][j]) < inner.nodes.len() by {
                                assert(inner.traversal[i][j] == below.traversal[i][j]);
                            }
                        }
                        lemma_edge_order(inner, input_nodes, extension);
                        lemma_lookup_prefix(inner.named_nodes, after.named_nodes, name);
                    }
                },
            }
        },
        _ => {
            lemma_entered_is_planned_inputs(state, plan, count, name);
        },
    }
}

proof fn lemma_entered_is_planned_inputs(
    state: VisitorView,
    plan: LogicalPlan,
    upto: nat,
    name: Name,
)
    requires
        state.wf(),
        plan_valid(plan),
        upto <= plan.inputs().len(),
        state.visited_inputs(plan, upto) is Ok,
        entered_in_inputs(state, plan, upto, name) > 0,
    ensures
        lookup_name(state.visited_inputs(plan, upto)->Ok_0.named_nodes, name) is Some,
    decreases plan, upto,
{
    if upto > 0 {
        let before = (upto - 1) as nat;
        let middle = state.visited_inputs(plan, before)->Ok_0;
        let input = plan.inputs()[upto - 1];
        let after = state.visited_inputs(plan, upto)->Ok_0;
        lemma_input_decreases(plan, upto - 1);
        lemma_input_valid(plan, before);
        lemma_walk_inputs(state, plan, before);
        lemma_walk(middle, input);
        if entered(middle, input, name) > 0 {
            lemma_entered_is_planned(middle, input, name);
        } else {
            lemma_entered_is_planned_inputs(state, plan, before, name);
            lemma_lookup_prefix(middle.named_nodes, after.named_nodes, name);
        }
    }
}

// ---------------------------------------------------------------------------
// One node for a name, one edge for each extension of the name
// ---------------------------------------------------------------------------

/// When a plan is added, the edges that leave the node of a stable name
/// grow by one for each extension of that name that the walk enters below
/// another extension; an extension that the walk reaches with no extension
/// around it has nothing to hand its node to.
pub proof fn lemma_fan_out_grows(state: VisitorView, plan: LogicalPlan, name: Name, node: usize)
    requires
        state.wf(),
        state.traversal.len() == 0,
        plan_valid(plan),
        state.visited(plan) is Ok,
        node_of_name(state.visited(plan)->Ok_0, name, node),
    ensures
        fan_out(state.visited(plan)->Ok_0.edges, node) + named_among(top_extensions(plan), name)
            == fan_out(state.edges, node) + entered(state, plan, name),
{
    lemma_leaving(state, plan, name, node);
    lemma_walk(state, plan);
    let after = state.visited(plan)->Ok_0;
    assert(after.traversal.len() == 0);
}

/// A plan under one unnamed extension, with its stable names at leaves, in
/// which `count` extensions share one stable name, gives a graph with
/// exactly one node of that name, which `count` edges leave.
pub proof fn lemma_shared_name(plan: LogicalPlan, name: Name)
    requires
        plan_valid(plan),
        names_are_leaves(plan),
        plan matches LogicalPlan::Extension(root) && root.stable_name() is None,
        occurrences(plan, name) > 0,
        VisitorView::empty().visited(plan) is Ok,
    ensures
        ({
            let graph = VisitorView::empty().visited(plan)->Ok_0;
            &&& lookup_name(graph.named_nodes, name) matches Some(node)
            &&& fan_out(graph.edges, node) == occurrences(plan, name)
            &&& forall|i: int, j: int|
                0 <= i < graph.named_nodes.len() && 0 <= j < graph.named_nodes.len()
                    && graph.named_nodes[i].0 == name && graph.named_nodes[j].0 == name ==> i == j
        }),
{
    let state = VisitorView::empty();
    let graph = state.visited(plan)->Ok_0;
    assert(state.wf());
    lemma_entered_all(state, plan, name);
    lemma_entered_is_planned(state, plan, name);
    let node = lookup_name(graph.named_nodes, name)->0;
    lemma_fan_out_grows(state, plan, name, node);
    lemma_named_among_one(plan, name);
    lemma_walk(state, plan);
}

} // verus!

//! The logical plan: relational operators and the streaming extensions that
//! the rewriters put around them.

use crate::error::ErrorKind;
use crate::error::PlanError;
use crate::expr::Expr;
use crate::schema::ArroyoSchema;
use crate::schema::Schema;
use vstd::prelude::*;

verus! {

/// How rows are grouped in event time. Lengths are in nanoseconds.
#[derive(Clone, Copy, Debug, PartialEq, Eq, Hash, Structural)]
pub enum WindowType {
    Tumble { width: u64 },
    Hop { width: u64, slide: u64 },
    Session { gap: u64 },
    Instant,
}

#[derive(Clone, Copy, Debug, PartialEq, Eq, Structural)]
pub enum JoinType {
    Inner,
    Left,
    Right,
    Full,
    LeftSemi,
    RightSemi,
    LeftAnti,
    RightAnti,
}

#[derive(Clone, Copy, Debug, PartialEq, Eq, Structural)]
pub enum JoinConstraint {
    On,
    Using,
}

/// The kind of streaming operator that an extension stands for.
#[derive(Clone, Copy, Debug, PartialEq, Eq, Hash, Structural)]
pub enum OperatorKind {
    Source,
    Watermark,
    RemoteTable,
    KeyCalculation,
    Join { is_instant: bool },
    Aggregate,
    Sink,
    Unnest,
    /// An extension of another system, which cannot be planned.
    Foreign,
}

/// A join of two plans.
#[derive(Debug, PartialEq, Eq)]
pub struct Join {
    pub left: Box<LogicalPlan>,
    pub right: Box<LogicalPlan>,
    /// The pairs of expressions, one of each side, that must be equal.
    pub on: Vec<(Expr, Expr)>,
    pub filter: Option<Expr>,
    pub join_type: JoinType,
    pub join_constraint: JoinConstraint,
    pub schema: Schema,
    pub null_equals_null: bool,
}

/// A streaming extension: a node of the plan that becomes one operator of
/// the dataflow graph.
#[derive(Debug, PartialEq, Eq)]
pub struct Extension {
    pub kind: OperatorKind,
    /// The table of a source, watermark, remote table or sink; the side of
    /// a key calculation.
    pub name: Option<String>,
    /// The window that the operator groups its rows by, if any.
    pub window: Option<WindowType>,
    pub inputs: Vec<LogicalPlan>,
    /// The schema of the stream that the operator puts out.
    pub schema: ArroyoSchema,
    /// The configuration of the operator, opaque to the planner.
    pub config: Vec<u8>,
}

/// A node of a logical plan with the plans it reads from.
#[derive(Debug, PartialEq, Eq)]
pub enum LogicalPlan {
    TableScan { table_name: String, schema: Schema },
    Projection { expr: Vec<Expr>, input: Box<LogicalPlan>, schema: Schema },
    Filter { predicate: Expr, input: Box<LogicalPlan> },
    Aggregate {
        input: Box<LogicalPlan>,
        group_expr: Vec<Expr>,
        aggr_expr: Vec<Expr>,
        /// The window among the grouping expressions, if any.
        window: Option<WindowType>,
        schema: Schema,
    },
    Join(Join),
    Union { inputs: Vec<LogicalPlan>, schema: Schema },
    Extension(Extension),
}

impl LogicalPlan {
    /// The plans that this node reads from, in order.
    pub open spec fn inputs(&self) -> Seq<LogicalPlan> {
        match self {
            LogicalPlan::TableScan { .. } => Seq::empty(),
            LogicalPlan::Projection { input, .. } => seq![**input],
            LogicalPlan::Filter { input, .. } => seq![**input],
            LogicalPlan::Aggregate { input, .. } => seq![**input],
            LogicalPlan::Join(join) => seq![*join.left, *join.right],
            LogicalPlan::Union { inputs, .. } => inputs@,
            LogicalPlan::Extension(extension) => extension.inputs@,
        }
    }

    /// The window that this node itself declares.
    pub open spec fn own_window(&self) -> Option<WindowType> {
        match self {
            LogicalPlan::Aggregate { window, .. } => *window,
            LogicalPlan::Extension(extension) => extension.window,
            _ => None,
        }
    }

    /// The fields that this node puts out.
    pub open spec fn schema(&self) -> Schema
        decreases self,
    {
        match self {
            LogicalPlan::TableScan { schema, .. } => *schema,
            LogicalPlan::Projection { schema, .. } => *schema,
            LogicalPlan::Filter { input, .. } => input.schema(),
            LogicalPlan::Aggregate { schema, .. } => *schema,
            LogicalPlan::Join(join) => join.schema,
            LogicalPlan::Union { schema, .. } => *schema,
            LogicalPlan::Extension(extension) => extension.schema.schema,
        }
    }

    /// The number of inputs.
    pub fn input_count(&self) -> (n: usize)
        ensures
            n == self.inputs().len(),
    {
        match self {
            LogicalPlan::TableScan { .. } => 0,
            LogicalPlan::Projection { .. } => 1,
            LogicalPlan::Filter { .. } => 1,
            LogicalPlan::Aggregate { .. } => 1,
            LogicalPlan::Join(_) => 2,
            LogicalPlan::Union { inputs, .. } => inputs.len(),
            LogicalPlan::Extension(extension) => extension.inputs.len(),
        }
    }

    /// The input at position `i`.
    pub fn input(&self, i: usize) -> (r: &LogicalPlan)
        requires
            i < self.inputs().len(),
        ensures
            *r == self.inputs()[i as int],
            decreases_to!(self => r),
    {
        match self {
            LogicalPlan::TableScan { .. } => {
                proof {
                    assert(false);
                }
                self
            },
            LogicalPlan::Projection { input, .. } => &**input,
            LogicalPlan::Filter { input, .. } => &**input,
            LogicalPlan::Aggregate { input, .. } => &**input,
            LogicalPlan::Join(join) => if i == 0 {
                &*join.left
            } else {
                &*join.right
            },
            LogicalPlan::Union { inputs, .. } => &inputs[i],
            LogicalPlan::Extension(extension) => &extension.inputs[i],
        }
    }

    /// The fields that this node puts out.
    pub fn get_schema(&self) -> (r: &Schema)
        ensures
            *r == self.schema(),
        decreases self,
    {
        match self {
            LogicalPlan::TableScan { schema, .. } => schema,
            LogicalPlan::Projection { schema, .. } => schema,
            LogicalPlan::Filter { input, .. } => input.get_schema(),
            LogicalPlan::Aggregate { schema, .. } => schema,
            LogicalPlan::Join(join) => &join.schema,
            LogicalPlan::Union { schema, .. } => schema,
            LogicalPlan::Extension(extension) => &extension.schema.schema,
        }
    }

    fn get_own_window(&self) -> (r: Option<WindowType>)
        ensures
            r == self.own_window(),
    {
        match self {
            LogicalPlan::Aggregate { window, .. } => *window,
            LogicalPlan::Extension(extension) => extension.window,
            _ => None,
        }
    }
}

/// Every input of a node is smaller than the node, so a walk from a node
/// to its inputs ends.
pub proof fn lemma_input_decreases(plan: LogicalPlan, i: int)
    requires
        0 <= i < plan.inputs().len(),
    ensures
        decreases_to!(plan => plan.inputs()[i]),
{
}

/// The windows found so far in a walk over a plan: none, one, or two that
/// differ.
#[derive(Clone, Copy, Debug, PartialEq, Eq, Structural)]
pub enum Windowing {
    Unwindowed,
    Windowed(WindowType),
    Inconsistent,
}

/// Adds the window that a node declares to what was found before it.
pub open spec fn add_window(found: Windowing, window: Option<WindowType>) -> Windowing {
    match (found, window) {
        (Windowing::Inconsistent, _) => Windowing::Inconsistent,
        (_, None) => found,
        (Windowing::Unwindowed, Some(w)) => Windowing::Windowed(w),
        (Windowing::Windowed(v), Some(w)) => if v == w {
            found
        } else {
            Windowing::Inconsistent
        },
    }
}

/// Walks a plan, parents before inputs and inputs in order, and adds every
/// declared window to `found`.
pub open spec fn windowing_of(plan: LogicalPlan, found: Windowing) -> Windowing
    decreases plan, plan.inputs().len() + 1,
{
    windowing_of_inputs(plan, plan.inputs().len(), add_window(found, plan.own_window()))
}

/// Adds the windows of the first `upto` inputs of `plan` to `found`.
pub open spec fn windowing_of_inputs(plan: LogicalPlan, upto: nat, found: Windowing) -> Windowing
    decreases plan, upto,
{
    if upto == 0 || upto > plan.inputs().len() {
        found
    } else {
        proof {
            lemma_input_decreases(plan, upto - 1);
        }
        windowing_of(plan.inputs()[upto - 1], windowing_of_inputs(plan, (upto - 1) as nat, found))
    }
}

/// The window of a plan: `Ok(None)` where no node declares one,
/// `Ok(Some(w))` where every node that declares one declares `w`, and an
/// error where two nodes declare different windows.
pub open spec fn window_of_plan(plan: LogicalPlan) -> Result<Option<WindowType>, ()> {
    match windowing_of(plan, Windowing::Unwindowed) {
        Windowing::Unwindowed => Ok(None),
        Windowing::Windowed(w) => Ok(Some(w)),
        Windowing::Inconsistent => Err(()),
    }
}

fn merge_window(found: Windowing, window: Option<WindowType>) -> (r: Windowing)
    ensures
        r == add_window(found, window),
{
    match (found, window) {
        (Windowing::Inconsistent, _) => Windowing::Inconsistent,
        (_, None) => found,
        (Windowing::Unwindowed, Some(w)) => Windowing::Windowed(w),
        (Windowing::Windowed(v), Some(w)) => if v == w {
            found
        } else {
            Windowing::Inconsistent
        },
    }
}

fn detect_windowing(plan: &LogicalPlan, found: Windowing) -> (r: Windowing)
    ensures
        r == windowing_of(*plan, found),
    decreases plan,
{
    let mut acc = merge_window(found, plan.get_own_window());
    let ghost start = acc;
    let n = plan.input_count();
    let mut i: usize = 0;
    while i < n
        invariant
            i <= n == plan.inputs().len(),
            acc == windowing_of_inputs(*plan, i as nat, start),
        decreases n - i,
    {
        let input = plan.input(i);
        acc = detect_windowing(input, acc);
        i += 1;
    }
    acc
}

/// The text of the error for a plan whose nodes declare different windows.
pub const MIXED_WINDOWS: &'static str = "can't use different windows within one query";

/// Finds the window of a plan.
pub fn get_window(plan: &LogicalPlan) -> (r: Result<Option<WindowType>, PlanError>)
    ensures
        match window_of_plan(*plan) {
            Ok(window) => r == Ok::<Option<WindowType>, PlanError>(window),
            Err(_) => r matches Err(e) && e@ == (ErrorKind::Plan, MIXED_WINDOWS@),
        },
{
    match detect_windowing(plan, Windowing::Unwindowed) {
        Windowing::Unwindowed => Ok(None),
        Windowing::Windowed(w) => Ok(Some(w)),
        Windowing::Inconsistent => Err(PlanError::plan(MIXED_WINDOWS)),
    }
}

} // verus!

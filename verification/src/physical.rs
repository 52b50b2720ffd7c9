//! The bridge to physical planning: cutting a two-phase aggregate at the
//! boundary between its partial and its final phase, and the expression
//! that assigns an event time to its bin.

use crate::error::ErrorKind;
use crate::error::PlanError;
use crate::expr::typed;
use crate::expr::Column;
use crate::expr::ColumnView;
use crate::expr::Expr;
use crate::expr::ExprView;
use crate::expr::IntervalMonthDayNano;
use crate::expr::ScalarValue;
use crate::expr::ScalarValueView;
use crate::expr::DATE_BIN;
use crate::schema::event_time_field;
use crate::schema::event_time_type;
use crate::schema::ArroyoSchema;
use crate::schema::ArroyoSchemaView;
use crate::schema::DataType;
use crate::schema::Schema;
use crate::schema::TimeUnit;
use crate::schema::TIMESTAMP_FIELD;
use vstd::prelude::*;
use vstd::string::*;

verus! {

/// The phase of an aggregation.
#[derive(Clone, Copy, Debug, PartialEq, Eq, Structural)]
pub enum AggregateMode {
    Partial,
    Final,
    FinalPartitioned,
    Single,
    SinglePartitioned,
}

/// An aggregation of a physical plan.
#[derive(Debug, PartialEq, Eq)]
pub struct AggregateExec {
    pub mode: AggregateMode,
    pub input: Option<Box<PhysicalPlan>>,
    /// The schema of the rows that the aggregation puts out.
    pub schema: Schema,
    /// The grouping and aggregate expressions, opaque to the bridge.
    pub detail: Vec<u8>,
}

/// A node of a physical plan, as far as the bridge looks into it.
#[derive(Debug, PartialEq, Eq)]
pub enum PhysicalPlan {
    Aggregate(AggregateExec),
    /// A placeholder source that stands for the table `table_name`.
    MemExec { table_name: String, schema: Schema },
    /// Any other operator.
    Other { name: String, schema: Schema, inputs: Vec<PhysicalPlan> },
}

impl PhysicalPlan {
    /// The schema of the rows that the node puts out.
    pub open spec fn schema(&self) -> Schema {
        match self {
            PhysicalPlan::Aggregate(aggregate) => aggregate.schema,
            PhysicalPlan::MemExec { schema, .. } => *schema,
            PhysicalPlan::Other { schema, .. } => *schema,
        }
    }

    pub fn get_schema(&self) -> (r: &Schema)
        ensures
            *r == self.schema(),
    {
        match self {
            PhysicalPlan::Aggregate(aggregate) => &aggregate.schema,
            PhysicalPlan::MemExec { schema, .. } => schema,
            PhysicalPlan::Other { schema, .. } => schema,
        }
    }

    /// Whether the node is an aggregation in the given phase.
    pub open spec fn is_aggregate_in(&self, mode: AggregateMode) -> bool {
        self matches PhysicalPlan::Aggregate(aggregate) && aggregate.mode == mode
    }
}

/// The two halves of a split aggregate: the partial aggregation, the schema
/// of what it puts out, and the final aggregation over a placeholder.
#[derive(Debug, PartialEq, Eq)]
pub struct SplitPlanOutput {
    pub partial_aggregation_plan: PhysicalPlan,
    pub partial_schema: ArroyoSchema,
    pub finish_plan: PhysicalPlan,
}

/// The name of the placeholder that the final aggregation reads from.
pub const PARTIAL_TABLE: &'static str = "partial";

pub const UNEXPECTED_PLAN: &'static str = "unexpected physical plan type";

pub const MISSING_INPUT: &'static str = "missing input";

/// Why a physical plan cannot be split: its root is no aggregation in the
/// final phase, the aggregation has no input, or its input is no
/// aggregation in the partial phase.
pub open spec fn split_failure(plan: PhysicalPlan) -> Option<(ErrorKind, Seq<char>)> {
    match plan {
        PhysicalPlan::Aggregate(aggregate) => if aggregate.mode != AggregateMode::Final {
            Some((ErrorKind::Plan, UNEXPECTED_PLAN@))
        } else {
            match aggregate.input {
                None => Some((ErrorKind::Plan, MISSING_INPUT@)),
                Some(input) => if input.is_aggregate_in(AggregateMode::Partial) {
                    None
                } else {
                    Some((ErrorKind::Plan, UNEXPECTED_PLAN@))
                },
            }
        },
        _ => Some((ErrorKind::Plan, UNEXPECTED_PLAN@)),
    }
}

/// Whether `finish` is the final aggregation `plan` with its input replaced
/// by the placeholder of the schema `partial`.
pub open spec fn is_finish_of(finish: PhysicalPlan, plan: PhysicalPlan, partial: Schema) -> bool {
    &&& plan matches PhysicalPlan::Aggregate(whole)
    &&& finish matches PhysicalPlan::Aggregate(aggregate)
    &&& aggregate.mode == whole.mode
    &&& aggregate.schema == whole.schema
    &&& aggregate.detail == whole.detail
    &&& aggregate.input matches Some(leaf)
    &&& *leaf matches PhysicalPlan::MemExec { table_name, schema }
    &&& table_name@ == PARTIAL_TABLE@
    &&& schema@ == partial@
}

/// The final aggregation with the partial aggregation put in the place of
/// its placeholder.
pub open spec fn rebound(finish: PhysicalPlan, partial: PhysicalPlan) -> PhysicalPlan {
    match finish {
        PhysicalPlan::Aggregate(aggregate) => PhysicalPlan::Aggregate(
            AggregateExec {
                mode: aggregate.mode,
                input: Some(Box::new(partial)),
                schema: aggregate.schema,
                detail: aggregate.detail,
            },
        ),
        _ => finish,
    }
}

/// Plans the parts of a query that run inside one operator.
pub struct Planner {}

impl Default for Planner {
    fn default() -> Self {
        Planner {  }
    }
}

impl Planner {
    /// Cuts a two-phase aggregate into its partial and its final phase.
    ///
    /// The partial aggregation is the input of the root, unchanged. Its
    /// schema is keyed by `key_indices` and gets an event-time column at its
    /// end. The final aggregation keeps everything but its input, in whose
    /// place stands a placeholder named `partial` with the schema of the
    /// partial aggregation; putting the partial aggregation back there
    /// gives the plan that was split.
    pub fn split_physical_plan(&self, key_indices: Vec<usize>, physical_plan: PhysicalPlan) -> (r:
        Result<SplitPlanOutput, PlanError>)
        ensures
            match split_failure(physical_plan) {
                Some(failure) => r matches Err(e) && e@ == failure,
                None => r matches Ok(split) && {
                    let partial = split.partial_aggregation_plan;
                    &&& physical_plan matches PhysicalPlan::Aggregate(whole)
                    &&& whole.input == Some(Box::new(partial))
                    &&& is_finish_of(split.finish_plan, physical_plan, partial.schema())
                    &&& rebound(split.finish_plan, partial) == physical_plan
                    &&& split.partial_schema@ == (ArroyoSchemaView {
                        fields: partial.schema()@.push(event_time_field()),
                        timestamp_index: partial.schema()@.len(),
                        key_indices: Some(key_indices@),
                    })
                },
            },
    {
        let aggregate = match physical_plan {
            PhysicalPlan::Aggregate(aggregate) => aggregate,
            _ => {
                return Err(PlanError::plan(UNEXPECTED_PLAN));
            },
        };
        let AggregateExec { mode, input, schema, detail } = aggregate;
        match mode {
            AggregateMode::Final => {},
            _ => {
                return Err(PlanError::plan(UNEXPECTED_PLAN));
            },
        }
        let partial_aggregation_plan = match input {
            Some(input) => *input,
            None => {
                return Err(PlanError::plan(MISSING_INPUT));
            },
        };
        match &partial_aggregation_plan {
            PhysicalPlan::Aggregate(partial) => match partial.mode {
                AggregateMode::Partial => {},
                _ => {
                    return Err(PlanError::plan(UNEXPECTED_PLAN));
                },
            },
            _ => {
                return Err(PlanError::plan(UNEXPECTED_PLAN));
            },
        }
        let partial_schema = partial_aggregation_plan.get_schema();
        let placeholder = PhysicalPlan::MemExec {
            table_name: PARTIAL_TABLE.to_owned(),
            schema: partial_schema.clone(),
        };
        let finish_plan = PhysicalPlan::Aggregate(
            AggregateExec { mode, input: Some(Box::new(placeholder)), schema, detail },
        );
        let keyed = ArroyoSchema::new_keyed(
            partial_schema.add_timestamp_field(),
            partial_schema.len(),
            key_indices,
        );
        Ok(SplitPlanOutput { partial_aggregation_plan, partial_schema: keyed, finish_plan })
    }

    /// The expression that rounds the event time of a row down to a
    /// multiple of `width_nanos` nanoseconds: `date_bin` of an interval of
    /// no months, no days and that many nanoseconds, and of the event-time
    /// column. A width that does not fit 64 bits is cut to its low 64 bits.
    /// The schema must have an event-time column.
    pub fn binning_function_proto(&self, width_nanos: u128, input_schema: &Schema) -> (r: Result<
        Expr,
        PlanError,
    >)
        ensures
            match typed(timestamp_column(), input_schema@) {
                Err(failure) => r matches Err(e) && e@ == failure,
                Ok(_) => r matches Ok(e) && e@ == binning_function(width_nanos as i64),
            },
    {
        let nanoseconds: i64 = #[verifier::truncate]
        (width_nanos as i64);
        let column = Expr::Column(Column { relation: None, name: TIMESTAMP_FIELD.to_owned() });
        match column.data_type_and_nullable(input_schema) {
            Ok(_) => {},
            Err(e) => {
                return Err(e);
            },
        }
        let mut args: Vec<Expr> = Vec::new();
        args.push(
            Expr::Literal(
                ScalarValue::IntervalMonthDayNano(
                    Some(IntervalMonthDayNano { months: 0, days: 0, nanoseconds }),
                ),
            ),
        );
        args.push(column);
        let date_bin = Expr::ScalarFunction {
            name: DATE_BIN.to_owned(),
            args,
            return_type: DataType::Timestamp(TimeUnit::Nanosecond),
        };
        proof {
            crate::expr::lemma_call_view(date_bin);
            assert(crate::expr::exprs_view(date_bin->args@) =~= binning_function(
                width_nanos as i64,
            )->ScalarFunction_args);
        }
        Ok(date_bin)
    }
}

/// A reference to the event-time column.
pub open spec fn timestamp_column() -> ExprView {
    ExprView::Column(ColumnView { relation: None, name: TIMESTAMP_FIELD@ })
}

/// The binning expression for bins of `nanoseconds` nanoseconds.
pub open spec fn binning_function(nanoseconds: i64) -> ExprView {
    ExprView::ScalarFunction {
        name: DATE_BIN@,
        args: seq![
            ExprView::Literal(
                ScalarValueView::IntervalMonthDayNano(
                    Some(IntervalMonthDayNano { months: 0, days: 0, nanoseconds }),
                ),
            ),
            timestamp_column(),
        ],
        return_type: event_time_type(),
    }
}

} // verus!

use arroyo_planner::error::ErrorKind;
use arroyo_planner::expr::Expr;
use arroyo_planner::expr::IntervalMonthDayNano;
use arroyo_planner::expr::ScalarValue;
use arroyo_planner::physical::AggregateExec;
use arroyo_planner::physical::AggregateMode;
use arroyo_planner::physical::PhysicalPlan;
use arroyo_planner::physical::Planner;
use arroyo_planner::schema::DataType;
use arroyo_planner::schema::Field;
use arroyo_planner::schema::Schema;
use arroyo_planner::schema::TimeUnit;

fn partial_schema() -> Schema {
    Schema::new(vec![
        Field::new(
            "window",
            DataType::Struct(vec![
                Field::new("start", DataType::Timestamp(TimeUnit::Nanosecond), false),
                Field::new("end", DataType::Timestamp(TimeUnit::Nanosecond), false),
            ]),
            false,
        ),
        Field::new("count_partial", DataType::Int64, true),
    ])
}

fn final_schema() -> Schema {
    Schema::new(vec![
        Field::new("window", DataType::Int64, false),
        Field::new("count", DataType::Int64, true),
    ])
}

fn scan() -> PhysicalPlan {
    PhysicalPlan::Other {
        name: "scan".to_string(),
        schema: Schema::new(vec![Field::new("id", DataType::Int64, false)]),
        inputs: vec![],
    }
}

fn aggregate(mode: AggregateMode, input: Option<PhysicalPlan>, schema: Schema) -> PhysicalPlan {
    PhysicalPlan::Aggregate(AggregateExec {
        mode,
        input: input.map(Box::new),
        schema,
        detail: vec![1, 2, 3],
    })
}

fn two_phase() -> PhysicalPlan {
    let partial = aggregate(AggregateMode::Partial, Some(scan()), partial_schema());
    aggregate(AggregateMode::Final, Some(partial), final_schema())
}

#[test]
fn a_two_phase_aggregate_is_cut_at_the_partial_phase() {
    let split = Planner::default().split_physical_plan(vec![0], two_phase()).unwrap();
    match &split.partial_aggregation_plan {
        PhysicalPlan::Aggregate(partial) => {
            assert_eq!(partial.mode, AggregateMode::Partial);
            assert_eq!(partial.schema, partial_schema());
            assert!(matches!(partial.input.as_deref(), Some(PhysicalPlan::Other { .. })));
        }
        other => panic!("{:?}", other),
    }
    match &split.finish_plan {
        PhysicalPlan::Aggregate(finish) => {
            assert_eq!(finish.mode, AggregateMode::Final);
            assert_eq!(finish.schema, final_schema());
            assert_eq!(finish.detail, vec![1, 2, 3]);
            match finish.input.as_deref() {
                Some(PhysicalPlan::MemExec { table_name, schema }) => {
                    assert_eq!(table_name, "partial");
                    assert_eq!(*schema, partial_schema());
                }
                other => panic!("{:?}", other),
            }
        }
        other => panic!("{:?}", other),
    }
}

#[test]
fn the_partial_schema_is_keyed_and_ends_with_the_event_time() {
    let split = Planner::default().split_physical_plan(vec![0], two_phase()).unwrap();
    let schema = split.partial_schema;
    assert_eq!(schema.key_indices, Some(vec![0]));
    assert_eq!(schema.timestamp_index, 2);
    let mut expected = partial_schema().fields;
    expected.push(Field::new("_timestamp", DataType::Timestamp(TimeUnit::Nanosecond), false));
    assert_eq!(schema.schema.fields, expected);
}

#[test]
fn a_single_phase_aggregate_cannot_be_split() {
    let plan = aggregate(AggregateMode::Single, Some(scan()), final_schema());
    let error = Planner::default().split_physical_plan(vec![], plan).unwrap_err();
    assert_eq!(error.kind, ErrorKind::Plan);
    assert_eq!(error.message, "unexpected physical plan type");
}

#[test]
fn a_plan_without_an_aggregate_at_its_root_cannot_be_split() {
    let error = Planner::default().split_physical_plan(vec![], scan()).unwrap_err();
    assert_eq!(error.kind, ErrorKind::Plan);
    assert_eq!(error.message, "unexpected physical plan type");
    let partial = aggregate(AggregateMode::Partial, Some(scan()), partial_schema());
    let error = Planner::default().split_physical_plan(vec![], partial).unwrap_err();
    assert_eq!(error.message, "unexpected physical plan type");
}

#[test]
fn a_final_aggregate_without_input_cannot_be_split() {
    let plan = aggregate(AggregateMode::Final, None, final_schema());
    let error = Planner::default().split_physical_plan(vec![], plan).unwrap_err();
    assert_eq!(error.kind, ErrorKind::Plan);
    assert_eq!(error.message, "missing input");
}

#[test]
fn a_final_aggregate_over_something_else_cannot_be_split() {
    let plan = aggregate(AggregateMode::Final, Some(scan()), final_schema());
    let error = Planner::default().split_physical_plan(vec![], plan).unwrap_err();
    assert_eq!(error.kind, ErrorKind::Plan);
    assert_eq!(error.message, "unexpected physical plan type");
    let single = aggregate(AggregateMode::Single, Some(scan()), partial_schema());
    let plan = aggregate(AggregateMode::Final, Some(single), final_schema());
    let error = Planner::default().split_physical_plan(vec![], plan).unwrap_err();
    assert_eq!(error.message, "unexpected physical plan type");
}

fn stream_schema() -> Schema {
    Schema::new(vec![
        Field::new("id", DataType::Int64, false),
        Field::new("_timestamp", DataType::Timestamp(TimeUnit::Nanosecond), false),
    ])
}

#[test]
fn the_binning_function_bins_the_event_time_by_the_width() {
    let expr = Planner::default().binning_function_proto(1_000_000_000, &stream_schema()).unwrap();
    let expected = Expr::ScalarFunction {
        name: "date_bin".to_string(),
        args: vec![
            Expr::Literal(ScalarValue::IntervalMonthDayNano(Some(IntervalMonthDayNano {
                months: 0,
                days: 0,
                nanoseconds: 1_000_000_000,
            }))),
            Expr::column(None, "_timestamp".to_string()),
        ],
        return_type: DataType::Timestamp(TimeUnit::Nanosecond),
    };
    assert_eq!(expr, expected);
}

#[test]
fn a_width_beyond_64_bits_is_cut_to_its_low_bits() {
    let width = (1u128 << 64) + 5;
    match Planner::default().binning_function_proto(width, &stream_schema()).unwrap() {
        Expr::ScalarFunction { args, .. } => match &args[0] {
            Expr::Literal(ScalarValue::IntervalMonthDayNano(Some(interval))) => {
                assert_eq!(interval.nanoseconds, 5);
            }
            other => panic!("{:?}", other),
        },
        other => panic!("{:?}", other),
    }
    let width = (1u128 << 63) + 1;
    match Planner::default().binning_function_proto(width, &stream_schema()).unwrap() {
        Expr::ScalarFunction { args, .. } => match &args[0] {
            Expr::Literal(ScalarValue::IntervalMonthDayNano(Some(interval))) => {
                assert_eq!(interval.nanoseconds, i64::MIN + 1);
            }
            other => panic!("{:?}", other),
        },
        other => panic!("{:?}", other),
    }
}

#[test]
fn binning_needs_an_event_time() {
    let schema = Schema::new(vec![Field::new("id", DataType::Int64, false)]);
    let error = Planner::default().binning_function_proto(1, &schema).unwrap_err();
    assert_eq!(error.kind, ErrorKind::Plan);
    assert_eq!(error.message, "No field named _timestamp");
}

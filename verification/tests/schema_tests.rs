use arroyo_planner::builder::plan_is_valid;
use arroyo_planner::codec::ArroyoMemExec;
use arroyo_planner::codec::DecodedPlan;
use arroyo_planner::codec::LockedSlot;
use arroyo_planner::error::ErrorKind;
use arroyo_planner::error::PlanError;
use arroyo_planner::expr::find_column;
use arroyo_planner::expr::Column;
use arroyo_planner::expr::Expr;
use arroyo_planner::expr::IntervalMonthDayNano;
use arroyo_planner::expr::Operator;
use arroyo_planner::expr::ScalarValue;
use arroyo_planner::plan::Extension;
use arroyo_planner::plan::LogicalPlan;
use arroyo_planner::plan::OperatorKind;
use arroyo_planner::schema::ArroyoSchema;
use arroyo_planner::schema::DataType;
use arroyo_planner::schema::Field;
use arroyo_planner::schema::IntervalUnit;
use arroyo_planner::schema::Schema;
use arroyo_planner::schema::TimeUnit;

fn ts() -> DataType {
    DataType::Timestamp(TimeUnit::Nanosecond)
}

fn fields() -> Vec<Field> {
    vec![
        Field::new_qualified("t", "id", DataType::Int64, false),
        Field::new_qualified("t", "name", DataType::Utf8, true),
        Field::new_qualified("t", "_timestamp", ts(), false),
    ]
}

#[test]
fn types_are_the_same_when_all_their_parts_are() {
    let a = DataType::Struct(vec![
        Field::new("x", DataType::Int32, false),
        Field::new("l", DataType::List(Box::new(Field::new("item", DataType::Utf8, true))), true),
    ]);
    assert!(a.same_as(&a.clone()));
    let other_name = DataType::Struct(vec![
        Field::new("y", DataType::Int32, false),
        Field::new("l", DataType::List(Box::new(Field::new("item", DataType::Utf8, true))), true),
    ]);
    assert!(!a.same_as(&other_name));
    let other_item = DataType::Struct(vec![
        Field::new("x", DataType::Int32, false),
        Field::new("l", DataType::List(Box::new(Field::new("item", DataType::Utf8, false))), true),
    ]);
    assert!(!a.same_as(&other_item));
    let shorter = DataType::Struct(vec![Field::new("x", DataType::Int32, false)]);
    assert!(!a.same_as(&shorter));
    assert!(!shorter.same_as(&a));
    assert!(ts().same_as(&ts()));
    assert!(!ts().same_as(&DataType::Timestamp(TimeUnit::Microsecond)));
    assert!(!DataType::Int32.same_as(&DataType::Int64));
    assert!(DataType::Decimal128(10, 2).same_as(&DataType::Decimal128(10, 2)));
    assert!(!DataType::Decimal128(10, 2).same_as(&DataType::Decimal128(10, 3)));
    assert!(!DataType::Interval(IntervalUnit::DayTime)
        .same_as(&DataType::Interval(IntervalUnit::MonthDayNano)));
}

#[test]
fn a_copy_of_a_type_is_the_type() {
    let a = DataType::Struct(vec![
        Field::new_qualified("q", "x", DataType::Float64, false),
        Field::new("s", DataType::Struct(vec![Field::new("y", ts(), true)]), true),
    ]);
    assert_eq!(a.clone(), a);
    let schema = Schema::new(fields());
    assert_eq!(schema.clone(), schema);
}

#[test]
fn structs_and_lists_are_nested() {
    assert!(DataType::Struct(vec![]).is_nested());
    assert!(DataType::List(Box::new(Field::new("item", DataType::Int8, true))).is_nested());
    assert!(!DataType::Utf8.is_nested());
    assert!(!ts().is_nested());
}

#[test]
fn fields_are_the_same_when_relation_name_type_and_nullability_are() {
    let a = Field::new_qualified("t", "id", DataType::Int64, false);
    assert!(a.same_as(&Field::new_qualified("t", "id", DataType::Int64, false)));
    assert!(!a.same_as(&Field::new_qualified("u", "id", DataType::Int64, false)));
    assert!(!a.same_as(&Field::new("id", DataType::Int64, false)));
    assert!(!a.same_as(&Field::new_qualified("t", "id", DataType::Int64, true)));
    assert!(!a.same_as(&Field::new_qualified("t", "Id", DataType::Int64, false)));
    assert!(!a.same_as(&Field::new_qualified("t", "id", DataType::Int32, false)));
}

#[test]
fn the_event_time_is_appended_without_a_relation() {
    let schema = Schema::new(vec![Field::new_qualified("t", "id", DataType::Int64, false)]);
    let with_time = schema.add_timestamp_field();
    assert_eq!(
        with_time.fields,
        vec![
            Field::new_qualified("t", "id", DataType::Int64, false),
            Field::new("_timestamp", ts(), false),
        ]
    );
    assert_eq!(with_time.len(), 2);
    assert_eq!(schema.len(), 1);
}

#[test]
fn columns_are_looked_for_by_their_bare_name() {
    let schema = Schema::new(fields());
    assert!(schema.has_column_with_unqualified_name("name"));
    assert!(schema.has_column_with_unqualified_name("_timestamp"));
    assert!(!schema.has_column_with_unqualified_name("_is_retract"));
    assert!(!schema.has_column_with_unqualified_name("t.name"));
    assert!(!Schema::new(vec![]).has_column_with_unqualified_name("name"));
}

fn stream(fields: Vec<Field>, timestamp_index: usize, key_indices: Option<Vec<usize>>) -> ArroyoSchema {
    ArroyoSchema { schema: Schema::new(fields), timestamp_index, key_indices }
}

#[test]
fn a_streaming_schema_has_its_one_event_time_where_it_says() {
    assert!(stream(fields(), 2, None).is_valid());
    assert!(stream(fields(), 2, Some(vec![0, 1])).is_valid());
    assert!(stream(fields(), 2, Some(vec![])).is_valid());
    assert!(ArroyoSchema::new_keyed(Schema::new(fields()), 2, vec![1]).is_valid());
    assert!(ArroyoSchema::new_unkeyed(Schema::new(fields()), 2).is_valid());
    // the event time is elsewhere
    assert!(!stream(fields(), 1, None).is_valid());
    assert!(!stream(fields(), 3, None).is_valid());
    // a key that names no field
    assert!(!stream(fields(), 2, Some(vec![0, 3])).is_valid());
    // two event times
    let mut twice = fields();
    twice.push(Field::new("_timestamp", ts(), false));
    assert!(!stream(twice.clone(), 2, None).is_valid());
    assert!(!stream(twice, 3, None).is_valid());
    // no event time
    assert!(!stream(vec![Field::new("id", DataType::Int64, false)], 0, None).is_valid());
    assert!(!stream(vec![], 0, None).is_valid());
    // an event time of another type
    let millis = vec![Field::new("_timestamp", DataType::Timestamp(TimeUnit::Millisecond), false)];
    assert!(!stream(millis, 0, None).is_valid());
}

#[test]
fn a_plan_is_valid_when_all_its_extensions_are() {
    let extension = |schema: ArroyoSchema, inputs: Vec<LogicalPlan>| {
        LogicalPlan::Extension(Extension {
            kind: OperatorKind::Sink,
            name: None,
            window: None,
            inputs,
            schema,
            config: vec![],
        })
    };
    let scan = LogicalPlan::TableScan { table_name: "t".to_string(), schema: Schema::new(vec![]) };
    assert!(plan_is_valid(&scan));
    let good = extension(stream(fields(), 2, None), vec![scan]);
    assert!(plan_is_valid(&good));
    let bad = extension(stream(fields(), 0, None), vec![]);
    assert!(!plan_is_valid(&bad));
    let union = LogicalPlan::Union { inputs: vec![good, bad], schema: Schema::new(vec![]) };
    assert!(!plan_is_valid(&union));
    let above = extension(stream(fields(), 2, None), vec![union]);
    assert!(!plan_is_valid(&above));
}

fn typed(e: Expr) -> Result<(DataType, bool), PlanError> {
    e.data_type_and_nullable(&Schema::new(fields()))
}

fn col(name: &str) -> Expr {
    Expr::column(Some("t".to_string()), name.to_string())
}

#[test]
fn expressions_are_typed_over_a_schema() {
    assert_eq!(typed(col("id")), Ok((DataType::Int64, false)));
    assert_eq!(typed(col("name")), Ok((DataType::Utf8, true)));
    assert_eq!(typed(Expr::lit_bool(true)), Ok((DataType::Boolean, false)));
    assert_eq!(typed(Expr::Literal(ScalarValue::Null)), Ok((DataType::Null, true)));
    assert_eq!(typed(Expr::Literal(ScalarValue::Utf8(None))), Ok((DataType::Utf8, true)));
    assert_eq!(
        typed(Expr::Literal(ScalarValue::TimestampNanosecond(Some(1)))),
        Ok((ts(), false))
    );
    let interval = IntervalMonthDayNano { months: 0, days: 1, nanoseconds: 2 };
    assert_eq!(
        typed(Expr::Literal(ScalarValue::IntervalMonthDayNano(Some(interval)))),
        Ok((DataType::Interval(IntervalUnit::MonthDayNano), false))
    );
    assert_eq!(
        typed(Expr::binary(col("id"), Operator::Plus, col("id"))),
        Ok((DataType::Int64, false))
    );
    assert_eq!(
        typed(Expr::binary(col("id"), Operator::Eq, col("name"))),
        Ok((DataType::Boolean, true))
    );
    assert_eq!(
        typed(col("name").alias_qualified(None, "n".to_string())),
        Ok((DataType::Utf8, true))
    );
    let call = Expr::ScalarFunction {
        name: "lower".to_string(),
        args: vec![col("missing")],
        return_type: DataType::Utf8,
    };
    assert_eq!(typed(call), Ok((DataType::Utf8, true)));
    let case = Expr::Case {
        expr: None,
        when_then_expr: vec![(Expr::lit_bool(true), col("id")), (col("missing"), col("name"))],
        else_expr: None,
    };
    assert_eq!(typed(case), Ok((DataType::Int64, true)));
}

#[test]
fn expressions_that_cannot_be_typed() {
    let error = typed(col("missing")).unwrap_err();
    assert_eq!((error.kind, error.message.as_str()), (ErrorKind::Plan, "No field named missing"));
    let error = typed(Expr::binary(col("id"), Operator::Lt, col("gone"))).unwrap_err();
    assert_eq!(error.message, "No field named gone");
    let error = typed(Expr::binary(col("lost"), Operator::Lt, col("gone"))).unwrap_err();
    assert_eq!(error.message, "No field named lost");
    let empty = Expr::Case { expr: None, when_then_expr: vec![], else_expr: None };
    let error = typed(empty).unwrap_err();
    assert_eq!(
        (error.kind, error.message.as_str()),
        (ErrorKind::Plan, "CASE must have a WHEN branch")
    );
}

#[test]
fn the_first_field_that_fits_a_column_is_found() {
    let schema = Schema::new(vec![
        Field::new_qualified("a", "x", DataType::Int32, false),
        Field::new_qualified("b", "x", DataType::Int64, false),
        Field::new("x", DataType::Utf8, false),
    ]);
    let column = |relation: Option<&str>| Column {
        relation: relation.map(|r| r.to_string()),
        name: "x".to_string(),
    };
    assert_eq!(find_column(&schema, &column(None)), Some(0));
    assert_eq!(find_column(&schema, &column(Some("a"))), Some(0));
    assert_eq!(find_column(&schema, &column(Some("b"))), Some(1));
    assert_eq!(find_column(&schema, &column(Some("c"))), None);
}

#[test]
fn a_copy_of_an_expression_is_the_expression() {
    let e = Expr::Case {
        expr: Some(Box::new(col("id"))),
        when_then_expr: vec![(
            Expr::Literal(ScalarValue::Int64(Some(1))),
            Expr::ScalarFunction {
                name: "f".to_string(),
                args: vec![col("name"), Expr::lit_text("x".to_string())],
                return_type: DataType::Utf8,
            },
        )],
        else_expr: Some(Box::new(col("name").alias_qualified(Some("q".to_string()), "n".to_string()))),
    };
    assert_eq!(e.clone(), e);
}

#[test]
fn planning_errors_carry_their_kind() {
    assert_eq!(PlanError::plan("a").kind, ErrorKind::Plan);
    assert_eq!(PlanError::internal("a").kind, ErrorKind::Internal);
    assert_eq!(PlanError::not_implemented("a").kind, ErrorKind::NotImplemented);
    assert_eq!(PlanError::type_mismatch("a").kind, ErrorKind::TypeMismatch);
    assert_eq!(PlanError::new(ErrorKind::Plan, "text").message, "text");
}

#[test]
fn decoded_nodes_have_one_partition_and_take_no_children() {
    let nodes = vec![
        DecodedPlan::MemExec(ArroyoMemExec { table_name: "t".to_string(), schema: "s".to_string() }),
        DecodedPlan::RwLockRecordBatchReader { schema: "s".to_string(), slot: LockedSlot::Single },
        DecodedPlan::UnboundedRecordBatchReader { schema: "s".to_string() },
        DecodedPlan::RecordBatchVecReader { schema: "s".to_string() },
    ];
    for (index, node) in nodes.iter().enumerate() {
        assert_eq!(node.output_partitioning(), 1);
        assert_eq!(node.children(), 0);
        let error = node.with_new_children(0).unwrap_err();
        assert_eq!(error.kind, ErrorKind::Internal);
        assert_eq!(error.message, if index == 0 { "unimplemented" } else { "not supported" });
    }
    let unnest = DecodedPlan::UnnestExec { schema: "s".to_string(), column: 0 };
    assert_eq!(unnest.children(), 1);
    assert!(unnest.with_new_children(1).is_ok());
    assert!(unnest.with_new_children(2).is_err());
}

use arroyo_planner::error::ErrorKind;
use arroyo_planner::expr::Column;
use arroyo_planner::expr::Expr;
use arroyo_planner::expr::Operator;
use arroyo_planner::expr::ScalarValue;
use arroyo_planner::join::rewrite_struct_eq;
use arroyo_planner::join::JoinRewriter;
use arroyo_planner::join::StructEqRewriter;
use arroyo_planner::plan::get_window;
use arroyo_planner::plan::Extension;
use arroyo_planner::plan::Join;
use arroyo_planner::plan::JoinConstraint;
use arroyo_planner::plan::JoinType;
use arroyo_planner::plan::LogicalPlan;
use arroyo_planner::plan::OperatorKind;
use arroyo_planner::plan::WindowType;
use arroyo_planner::schema::ArroyoSchema;
use arroyo_planner::schema::DataType;
use arroyo_planner::schema::Field;
use arroyo_planner::schema::Schema;
use arroyo_planner::schema::TimeUnit;

fn ts() -> DataType {
    DataType::Timestamp(TimeUnit::Nanosecond)
}

fn table_fields(table: &str) -> Vec<Field> {
    vec![
        Field::new_qualified(table, "k", DataType::Int64, false),
        Field::new_qualified(table, "_timestamp", ts(), false),
    ]
}

fn scan(table: &str) -> LogicalPlan {
    LogicalPlan::TableScan {
        table_name: table.to_string(),
        schema: Schema::new(table_fields(table)),
    }
}

fn windowed(table: &str, window: WindowType) -> LogicalPlan {
    LogicalPlan::Aggregate {
        input: Box::new(scan(table)),
        group_expr: vec![],
        aggr_expr: vec![],
        window: Some(window),
        schema: Schema::new(table_fields(table)),
    }
}

fn col(table: &str, name: &str) -> Expr {
    Expr::column(Some(table.to_string()), name.to_string())
}

fn join_of(left: LogicalPlan, right: LogicalPlan, join_type: JoinType) -> Join {
    let mut fields = table_fields("t");
    fields.extend(table_fields("u"));
    Join {
        left: Box::new(left),
        right: Box::new(right),
        on: vec![(col("t", "k"), col("u", "k"))],
        filter: None,
        join_type,
        join_constraint: JoinConstraint::On,
        schema: Schema::new(fields),
        null_equals_null: false,
    }
}

fn tumble() -> WindowType {
    WindowType::Tumble { width: 1_000_000_000 }
}

fn rewrite(join: Join) -> Result<LogicalPlan, arroyo_planner::error::PlanError> {
    JoinRewriter {}.f_up(LogicalPlan::Join(join)).map(|t| {
        assert!(t.transformed);
        t.data
    })
}

fn refusal(join: Join) -> (ErrorKind, String) {
    let error = rewrite(join).unwrap_err();
    (error.kind, error.message)
}

#[test]
fn windows_are_found_anywhere_in_a_plan() {
    assert_eq!(get_window(&scan("t")).unwrap(), None);
    assert_eq!(get_window(&windowed("t", tumble())).unwrap(), Some(tumble()));
    let filtered = LogicalPlan::Filter {
        predicate: Expr::lit_bool(true),
        input: Box::new(windowed("t", WindowType::Instant)),
    };
    assert_eq!(get_window(&filtered).unwrap(), Some(WindowType::Instant));
    let same = LogicalPlan::Union {
        inputs: vec![windowed("t", tumble()), scan("t"), windowed("u", tumble())],
        schema: Schema::new(table_fields("t")),
    };
    assert_eq!(get_window(&same).unwrap(), Some(tumble()));
}

#[test]
fn different_windows_in_one_plan_are_refused() {
    let mixed = LogicalPlan::Union {
        inputs: vec![windowed("t", tumble()), windowed("u", WindowType::Session { gap: 5 })],
        schema: Schema::new(table_fields("t")),
    };
    let error = get_window(&mixed).unwrap_err();
    assert_eq!(error.kind, ErrorKind::Plan);
    assert_eq!(error.message, "can't use different windows within one query");
    let nested = LogicalPlan::Aggregate {
        input: Box::new(windowed("t", tumble())),
        group_expr: vec![],
        aggr_expr: vec![],
        window: Some(WindowType::Hop { width: 10, slide: 5 }),
        schema: Schema::new(table_fields("t")),
    };
    assert!(get_window(&nested).is_err());
}

#[test]
fn a_windowed_join_is_instant_and_an_unwindowed_inner_join_is_not() {
    let join = join_of(windowed("t", tumble()), windowed("u", tumble()), JoinType::Left);
    assert_eq!(JoinRewriter::check_join_windowing(&join), Ok(true));
    let join = join_of(scan("t"), scan("u"), JoinType::Inner);
    assert_eq!(JoinRewriter::check_join_windowing(&join), Ok(false));
    let join =
        join_of(windowed("t", WindowType::Instant), windowed("u", WindowType::Instant), JoinType::Inner);
    assert_eq!(JoinRewriter::check_join_windowing(&join), Ok(true));
}

#[test]
fn a_join_of_a_windowed_and_an_unwindowed_side_is_refused() {
    assert_eq!(
        refusal(join_of(scan("t"), windowed("u", tumble()), JoinType::Inner)),
        (
            ErrorKind::NotImplemented,
            "can't handle mixed windowing between left (non-windowed) and right (windowed)."
                .to_string()
        )
    );
    assert_eq!(
        refusal(join_of(windowed("t", tumble()), scan("u"), JoinType::Inner)),
        (
            ErrorKind::NotImplemented,
            "can't handle mixed windowing between left (windowed) and right (non-windowed)."
                .to_string()
        )
    );
}

#[test]
fn a_join_of_two_different_windows_is_refused() {
    let other = WindowType::Tumble { width: 2_000_000_000 };
    assert_eq!(
        refusal(join_of(windowed("t", tumble()), windowed("u", other), JoinType::Inner)),
        (
            ErrorKind::NotImplemented,
            "can't handle mixed windowing between left and right".to_string()
        )
    );
}

#[test]
fn a_join_of_session_windows_is_refused() {
    let session = WindowType::Session { gap: 30_000_000_000 };
    assert_eq!(
        refusal(join_of(windowed("t", session), windowed("u", session), JoinType::Inner)),
        (ErrorKind::NotImplemented, "can't handle session windows in joins".to_string())
    );
}

#[test]
fn an_unwindowed_join_that_is_not_inner_is_refused() {
    assert_eq!(
        refusal(join_of(scan("t"), scan("u"), JoinType::Left)),
        (ErrorKind::NotImplemented, "can't handle non-inner joins without windows".to_string())
    );
}

#[test]
fn a_join_with_an_updating_side_is_refused() {
    let updating = |table: &str| {
        let mut fields = table_fields(table);
        fields.push(Field::new_qualified(table, "_is_retract", DataType::Boolean, false));
        LogicalPlan::TableScan { table_name: table.to_string(), schema: Schema::new(fields) }
    };
    assert_eq!(
        refusal(join_of(updating("t"), scan("u"), JoinType::Inner)),
        (ErrorKind::NotImplemented, "can't handle updating left side of join".to_string())
    );
    assert_eq!(
        refusal(join_of(scan("t"), updating("u"), JoinType::Inner)),
        (ErrorKind::NotImplemented, "can't handle updating right side of join".to_string())
    );
    assert!(JoinRewriter::check_updating(&scan("t"), &scan("u")).is_ok());
}

#[test]
fn a_join_that_is_not_constrained_by_on_is_refused() {
    let mut join = join_of(scan("t"), scan("u"), JoinType::Inner);
    join.join_constraint = JoinConstraint::Using;
    assert_eq!(
        refusal(join),
        (ErrorKind::NotImplemented, "can't handle join constraint other than ON".to_string())
    );
    let mut join = join_of(scan("t"), scan("u"), JoinType::Inner);
    join.null_equals_null = true;
    assert_eq!(
        refusal(join),
        (ErrorKind::NotImplemented, "can't handle join constraint other than ON".to_string())
    );
}

#[test]
fn an_unwindowed_join_needs_a_key() {
    let mut join = join_of(scan("t"), scan("u"), JoinType::Inner);
    join.on = vec![];
    assert_eq!(
        refusal(join),
        (
            ErrorKind::NotImplemented,
            "Updating joins must include an equijoin condition".to_string()
        )
    );
    let mut join = join_of(windowed("t", tumble()), windowed("u", tumble()), JoinType::Inner);
    join.on = vec![];
    assert!(rewrite(join).is_ok());
}

#[test]
fn a_join_must_put_out_two_event_times() {
    let mut join = join_of(scan("t"), scan("u"), JoinType::Inner);
    join.schema = Schema::new(table_fields("t"));
    assert_eq!(
        refusal(join),
        (ErrorKind::NotImplemented, "join must have two timestamp fields".to_string())
    );
}

#[test]
fn a_key_over_an_unknown_column_is_refused() {
    let mut join = join_of(scan("t"), scan("u"), JoinType::Inner);
    join.on = vec![(col("t", "missing"), col("u", "k"))];
    assert_eq!(refusal(join), (ErrorKind::Plan, "No field named missing".to_string()));
}

#[test]
fn a_side_without_an_event_time_is_refused() {
    let bare = LogicalPlan::TableScan {
        table_name: "t".to_string(),
        schema: Schema::new(vec![Field::new_qualified("t", "k", DataType::Int64, false)]),
    };
    assert_eq!(
        refusal(join_of(bare, scan("u"), JoinType::Inner)),
        (ErrorKind::Plan, "no _timestamp field in schema".to_string())
    );
}

#[test]
fn any_other_node_stays_as_it_is() {
    let result = JoinRewriter {}.f_up(scan("t")).unwrap();
    assert!(!result.transformed);
    assert_eq!(result.data, scan("t"));
}

fn key_alias(index: usize, e: Expr) -> Expr {
    e.alias_qualified(Some("_arroyo".to_string()), format!("_key_{}", index))
}

fn expected_key_plan(table: &str, side: &str, input: LogicalPlan) -> LogicalPlan {
    let schema = Schema::new(vec![
        Field::new_qualified("_arroyo", "_key_0", DataType::Int64, false),
        Field::new_qualified(table, "k", DataType::Int64, false),
        Field::new_qualified(table, "_timestamp", ts(), false),
    ]);
    LogicalPlan::Extension(Extension {
        kind: OperatorKind::KeyCalculation,
        name: Some(side.to_string()),
        window: None,
        inputs: vec![LogicalPlan::Projection {
            expr: vec![key_alias(0, col(table, "k")), col(table, "k"), col(table, "_timestamp")],
            input: Box::new(input),
            schema: Schema::new(schema.fields.clone()),
        }],
        schema: ArroyoSchema { schema, timestamp_index: 2, key_indices: Some(vec![0]) },
        config: vec![],
    })
}

fn expected_max_timestamp() -> Expr {
    let left = col("t", "_timestamp");
    let right = col("u", "_timestamp");
    Expr::Case {
        expr: Some(Box::new(Expr::binary(
            col("t", "_timestamp"),
            Operator::GtEq,
            col("u", "_timestamp"),
        ))),
        when_then_expr: vec![
            (Expr::lit_bool(true), col("t", "_timestamp")),
            (Expr::lit_bool(false), col("u", "_timestamp")),
        ],
        else_expr: Some(Box::new(Expr::ScalarFunction {
            name: "coalesce".to_string(),
            args: vec![left, right],
            return_type: ts(),
        })),
    }
}

#[test]
fn an_inner_windowed_join_is_rewritten() {
    let input = join_of(windowed("t", tumble()), windowed("u", tumble()), JoinType::Inner);
    let join_schema = Schema::new(input.schema.fields.clone());
    let plan = rewrite(input).unwrap();
    let keyed_join = LogicalPlan::Join(Join {
        left: Box::new(expected_key_plan("t", "left", windowed("t", tumble()))),
        right: Box::new(expected_key_plan("u", "right", windowed("u", tumble()))),
        on: vec![(col("t", "k"), col("u", "k"))],
        filter: None,
        join_type: JoinType::Inner,
        join_constraint: JoinConstraint::On,
        schema: join_schema,
        null_equals_null: false,
    });
    let output = vec![
        Field::new_qualified("t", "k", DataType::Int64, false),
        Field::new_qualified("u", "k", DataType::Int64, false),
        Field::new_qualified("t", "_timestamp", ts(), false),
    ];
    let projection = LogicalPlan::Projection {
        expr: vec![
            col("t", "k"),
            col("u", "k"),
            expected_max_timestamp()
                .alias_qualified(Some("t".to_string()), "_timestamp".to_string()),
        ],
        input: Box::new(keyed_join),
        schema: Schema::new(output.clone()),
    };
    let expected = LogicalPlan::Extension(Extension {
        kind: OperatorKind::Join { is_instant: true },
        name: None,
        window: None,
        inputs: vec![projection],
        schema: ArroyoSchema {
            schema: Schema::new(output),
            timestamp_index: 2,
            key_indices: None,
        },
        config: vec![],
    });
    assert_eq!(plan, expected);
}

#[test]
fn an_unwindowed_inner_join_is_rewritten_to_a_join_that_is_not_instant() {
    match rewrite(join_of(scan("t"), scan("u"), JoinType::Inner)).unwrap() {
        LogicalPlan::Extension(extension) => {
            assert_eq!(extension.kind, OperatorKind::Join { is_instant: false });
        }
        other => panic!("{:?}", other),
    }
}

#[test]
fn each_side_gets_its_keys_in_front_of_its_columns() {
    let keys = vec![
        col("t", "k"),
        Expr::binary(
            col("t", "k"),
            Operator::Plus,
            Expr::Literal(ScalarValue::Int64(Some(1))),
        ),
        Expr::binary(col("t", "k"), Operator::Lt, Expr::Literal(ScalarValue::Int64(None))),
    ];
    let plan = JoinRewriter {}.create_join_key_plan(scan("t"), keys.clone(), "left").unwrap();
    let LogicalPlan::Extension(extension) = plan else { panic!("no extension") };
    assert_eq!(extension.kind, OperatorKind::KeyCalculation);
    assert_eq!(extension.name, Some("left".to_string()));
    assert_eq!(extension.schema.key_indices, Some(vec![0, 1, 2]));
    assert_eq!(extension.schema.timestamp_index, 4);
    let names: Vec<(Option<&str>, &str, bool)> = extension
        .schema
        .schema
        .fields
        .iter()
        .map(|f| (f.qualifier.as_deref(), f.name.as_str(), f.nullable))
        .collect();
    assert_eq!(
        names,
        vec![
            (Some("_arroyo"), "_key_0", false),
            (Some("_arroyo"), "_key_1", false),
            (Some("_arroyo"), "_key_2", true),
            (Some("t"), "k", false),
            (Some("t"), "_timestamp", false),
        ]
    );
    let types: Vec<&DataType> =
        extension.schema.schema.fields.iter().map(|f| &f.data_type).collect();
    assert_eq!(
        types,
        vec![&DataType::Int64, &DataType::Int64, &DataType::Boolean, &DataType::Int64, &ts()]
    );
    let LogicalPlan::Projection { expr, input, schema } = &extension.inputs[0] else {
        panic!("no projection")
    };
    assert_eq!(**input, scan("t"));
    assert_eq!(*schema, extension.schema.schema);
    assert_eq!(expr.len(), 5);
    for (index, key) in keys.into_iter().enumerate() {
        assert_eq!(expr[index], key_alias(index, key));
    }
    assert_eq!(expr[3], col("t", "k"));
    assert_eq!(expr[4], col("t", "_timestamp"));
}

#[test]
fn the_tenth_key_is_named_with_two_digits() {
    let keys: Vec<Expr> = (0..11).map(|_| col("t", "k")).collect();
    let plan = JoinRewriter {}.create_join_key_plan(scan("t"), keys, "right").unwrap();
    let LogicalPlan::Extension(extension) = plan else { panic!("no extension") };
    assert_eq!(extension.schema.schema.fields[10].name, "_key_10");
    assert_eq!(extension.schema.key_indices, Some((0..11).collect::<Vec<usize>>()));
    assert_eq!(extension.schema.timestamp_index, 12);
}

#[test]
fn the_projection_over_a_join_keeps_one_event_time() {
    let join = LogicalPlan::Join(join_of(scan("t"), scan("u"), JoinType::Inner));
    let plan = JoinRewriter {}.post_join_timestamp_projection(join).unwrap();
    let LogicalPlan::Projection { expr, schema, .. } = plan else { panic!("no projection") };
    let names: Vec<&str> = schema.fields.iter().map(|f| f.name.as_str()).collect();
    assert_eq!(names, vec!["k", "k", "_timestamp"]);
    assert_eq!(schema.fields[2].qualifier, Some("t".to_string()));
    assert_eq!(
        expr[2],
        expected_max_timestamp().alias_qualified(Some("t".to_string()), "_timestamp".to_string())
    );
    let error = JoinRewriter {}.post_join_timestamp_projection(scan("t")).unwrap_err();
    assert_eq!(error.kind, ErrorKind::NotImplemented);
    assert_eq!(error.message, "join must have two timestamp fields");
}

fn struct_type() -> DataType {
    DataType::Struct(vec![
        Field::new("x", DataType::Int32, false),
        Field::new("y", DataType::Utf8, true),
    ])
}

fn struct_schema(left: DataType, right: DataType) -> Schema {
    Schema::new(vec![
        Field::new_qualified("a", "s", left, false),
        Field::new_qualified("b", "s", right, false),
        Field::new_qualified("a", "n", DataType::Int64, false),
    ])
}

fn get_field(e: Expr, name: &str, data_type: DataType) -> Expr {
    Expr::ScalarFunction {
        name: "get_field".to_string(),
        args: vec![e, Expr::lit_text(name.to_string())],
        return_type: data_type,
    }
}

fn expanded() -> Expr {
    get_field(col("a", "s"), "x", DataType::Int32)
        .eq(get_field(col("b", "s"), "x", DataType::Int32))
        .and(
            get_field(col("a", "s"), "y", DataType::Utf8)
                .eq(get_field(col("b", "s"), "y", DataType::Utf8)),
        )
}

#[test]
fn an_equality_of_structs_becomes_the_equalities_of_their_fields() {
    let schema = struct_schema(struct_type(), struct_type());
    let filter = col("a", "s").eq(col("b", "s"));
    assert_eq!(rewrite_struct_eq(&filter, &schema).unwrap(), expanded());
}

#[test]
fn a_struct_of_three_fields_is_taken_apart_from_the_left() {
    let three = DataType::Struct(vec![
        Field::new("x", DataType::Int32, false),
        Field::new("y", DataType::Int32, false),
        Field::new("z", DataType::Int32, false),
    ]);
    let schema = struct_schema(three.clone(), three);
    let filter = col("a", "s").eq(col("b", "s"));
    let part = |name: &str| {
        get_field(col("a", "s"), name, DataType::Int32)
            .eq(get_field(col("b", "s"), name, DataType::Int32))
    };
    assert_eq!(
        rewrite_struct_eq(&filter, &schema).unwrap(),
        part("x").and(part("y")).and(part("z"))
    );
}

#[test]
fn equalities_of_structs_are_found_inside_an_expression() {
    let schema = struct_schema(struct_type(), struct_type());
    let other = Expr::binary(
        col("a", "n"),
        Operator::Gt,
        Expr::Literal(ScalarValue::Int64(Some(3))),
    );
    let filter = other.and(col("a", "s").eq(col("b", "s")));
    let other = Expr::binary(
        col("a", "n"),
        Operator::Gt,
        Expr::Literal(ScalarValue::Int64(Some(3))),
    );
    assert_eq!(rewrite_struct_eq(&filter, &schema).unwrap(), other.and(expanded()));
    let case = Expr::Case {
        expr: None,
        when_then_expr: vec![(col("a", "s").eq(col("b", "s")), Expr::lit_bool(true))],
        else_expr: Some(Box::new(Expr::lit_bool(false))),
    };
    let expected = Expr::Case {
        expr: None,
        when_then_expr: vec![(expanded(), Expr::lit_bool(true))],
        else_expr: Some(Box::new(Expr::lit_bool(false))),
    };
    assert_eq!(rewrite_struct_eq(&case, &schema).unwrap(), expected);
}

#[test]
fn an_equality_of_other_values_stays() {
    let schema = struct_schema(struct_type(), struct_type());
    let filter = col("a", "n").eq(Expr::Literal(ScalarValue::Int64(Some(1))));
    let same = col("a", "n").eq(Expr::Literal(ScalarValue::Int64(Some(1))));
    assert_eq!(rewrite_struct_eq(&filter, &schema).unwrap(), same);
    let mut rewriter = StructEqRewriter { schema };
    let result = rewriter.f_up(col("a", "n").eq(col("a", "n"))).unwrap();
    assert!(!result.transformed);
    let result = rewriter.f_up(col("a", "s").eq(col("b", "s"))).unwrap();
    assert!(result.transformed);
    assert_eq!(result.data, expanded());
}

#[test]
fn structs_with_nested_fields_cannot_be_compared() {
    let nested = DataType::Struct(vec![
        Field::new("x", DataType::Int32, false),
        Field::new("inner", struct_type(), false),
    ]);
    let schema = struct_schema(nested.clone(), nested);
    let error = rewrite_struct_eq(&col("a", "s").eq(col("b", "s")), &schema).unwrap_err();
    assert_eq!(error.kind, ErrorKind::Plan);
    assert_eq!(
        error.message,
        "Joins on struct fields are only supported for structs with a single layer of nesting"
    );
    let listed = DataType::Struct(vec![Field::new(
        "items",
        DataType::List(Box::new(Field::new("item", DataType::Int32, true))),
        false,
    )]);
    let schema = struct_schema(listed.clone(), listed);
    assert!(rewrite_struct_eq(&col("a", "s").eq(col("b", "s")), &schema).is_err());
}

#[test]
fn structs_of_different_types_cannot_be_compared() {
    let other = DataType::Struct(vec![
        Field::new("x", DataType::Int32, false),
        Field::new("y", DataType::Utf8, false),
    ]);
    let schema = struct_schema(struct_type(), other);
    let error = rewrite_struct_eq(&col("a", "s").eq(col("b", "s")), &schema).unwrap_err();
    assert_eq!(error.kind, ErrorKind::TypeMismatch);
    assert_eq!(
        error.message,
        "Joins on structs must have the same types on both sides of '='"
    );
    let schema = struct_schema(struct_type(), DataType::Int64);
    let error = rewrite_struct_eq(&col("a", "s").eq(col("b", "s")), &schema).unwrap_err();
    assert_eq!(error.kind, ErrorKind::TypeMismatch);
}

#[test]
fn empty_structs_cannot_be_compared() {
    let schema = struct_schema(DataType::Struct(vec![]), DataType::Struct(vec![]));
    let error = rewrite_struct_eq(&col("a", "s").eq(col("b", "s")), &schema).unwrap_err();
    assert_eq!(error.kind, ErrorKind::Plan);
    assert_eq!(error.message, "Struct types used in join comparison must have at least one field");
}

#[test]
fn the_filter_of_a_join_is_rewritten_over_the_schema_of_the_join() {
    let mut join = join_of(scan("t"), scan("u"), JoinType::Inner);
    let mut fields = table_fields("t");
    fields.extend(table_fields("u"));
    fields.push(Field::new_qualified("a", "s", struct_type(), false));
    fields.push(Field::new_qualified("b", "s", struct_type(), false));
    join.schema = Schema::new(fields);
    join.filter = Some(col("a", "s").eq(col("b", "s")));
    let LogicalPlan::Extension(extension) = rewrite(join).unwrap() else { panic!("no extension") };
    let LogicalPlan::Projection { input, .. } = &extension.inputs[0] else {
        panic!("no projection")
    };
    let LogicalPlan::Join(keyed) = &**input else { panic!("no join") };
    assert_eq!(keyed.filter, Some(expanded()));
}

#[test]
fn a_column_is_found_by_name_and_by_relation() {
    let schema = struct_schema(DataType::Int32, DataType::Utf8);
    let typed = |e: Expr| e.data_type_and_nullable(&schema).map(|(t, _)| t);
    assert_eq!(typed(col("b", "s")), Ok(DataType::Utf8));
    assert_eq!(typed(Expr::column(None, "s".to_string())), Ok(DataType::Int32));
    assert_eq!(
        typed(Expr::Column(Column { relation: Some("c".to_string()), name: "s".to_string() }))
            .unwrap_err()
            .message,
        "No field named s"
    );
}

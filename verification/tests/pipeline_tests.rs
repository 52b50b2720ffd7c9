use arroyo_planner::builder::plan_is_valid;
use arroyo_planner::builder::PlanToGraphVisitor;
use arroyo_planner::expr::Expr;
use arroyo_planner::graph::ShuffleKind;
use arroyo_planner::join::JoinRewriter;
use arroyo_planner::plan::Extension;
use arroyo_planner::plan::Join;
use arroyo_planner::plan::JoinConstraint;
use arroyo_planner::plan::JoinType;
use arroyo_planner::plan::LogicalPlan;
use arroyo_planner::plan::OperatorKind;
use arroyo_planner::plan::WindowType;
use arroyo_planner::schema::ArroyoSchema;
use arroyo_planner::schema::DataType;
use arroyo_planner::schema::Field;
use arroyo_planner::schema::Schema;
use arroyo_planner::schema::TimeUnit;

fn table_fields(table: &str) -> Vec<Field> {
    vec![
        Field::new_qualified(table, "k", DataType::Int64, false),
        Field::new_qualified(table, "v", DataType::Utf8, true),
        Field::new_qualified(table, "_timestamp", DataType::Timestamp(TimeUnit::Nanosecond), false),
    ]
}

fn source(table: &str) -> LogicalPlan {
    LogicalPlan::Extension(Extension {
        kind: OperatorKind::Source,
        name: Some(table.to_string()),
        window: Some(WindowType::Tumble { width: 60_000_000_000 }),
        inputs: vec![],
        schema: ArroyoSchema {
            schema: Schema::new(table_fields(table)),
            timestamp_index: 2,
            key_indices: None,
        },
        config: vec![],
    })
}

fn col(table: &str, name: &str) -> Expr {
    Expr::column(Some(table.to_string()), name.to_string())
}

fn join(left: &str, right: &str) -> LogicalPlan {
    let mut fields = table_fields(left);
    fields.extend(table_fields(right));
    LogicalPlan::Join(Join {
        left: Box::new(source(left)),
        right: Box::new(source(right)),
        on: vec![(col(left, "k"), col(right, "k")), (col(left, "v"), col(right, "v"))],
        filter: None,
        join_type: JoinType::Inner,
        join_constraint: JoinConstraint::On,
        schema: Schema::new(fields),
        null_equals_null: false,
    })
}

#[test]
fn a_rewritten_join_becomes_five_nodes() {
    let rewritten = JoinRewriter {}.f_up(join("t", "u")).unwrap().data;
    assert!(plan_is_valid(&rewritten));
    let mut visitor = PlanToGraphVisitor::default();
    visitor.add_plan(rewritten).unwrap();
    let graph = visitor.into_graph();
    let kinds: Vec<OperatorKind> = graph.node_weights().map(|n| n.operator_kind).collect();
    assert_eq!(
        kinds,
        vec![
            OperatorKind::Source,
            OperatorKind::KeyCalculation,
            OperatorKind::Source,
            OperatorKind::KeyCalculation,
            OperatorKind::Join { is_instant: true },
        ]
    );
    let edges: Vec<(usize, usize, &ShuffleKind)> = graph
        .raw_edges()
        .iter()
        .map(|e| (e.source().index(), e.target().index(), &e.weight.shuffle_kind))
        .collect();
    assert_eq!(
        edges,
        vec![
            (0, 1, &ShuffleKind::Forward),
            (2, 3, &ShuffleKind::Forward),
            (1, 4, &ShuffleKind::Shuffle(vec![0, 1])),
            (3, 4, &ShuffleKind::Shuffle(vec![0, 1])),
        ]
    );
    // the key calculations put their two keys in front of the columns of their side
    let keyed = graph.node_weights().nth(1).unwrap();
    let names: Vec<&str> =
        keyed.output_schema.schema.fields.iter().map(|f| f.name.as_str()).collect();
    assert_eq!(names, vec!["_key_0", "_key_1", "k", "v", "_timestamp"]);
    assert_eq!(keyed.output_schema.timestamp_index, 4);
    // the join puts out the columns of both sides and one event time
    let joined = graph.node_weights().nth(4).unwrap();
    let names: Vec<&str> =
        joined.output_schema.schema.fields.iter().map(|f| f.name.as_str()).collect();
    assert_eq!(names, vec!["k", "v", "k", "v", "_timestamp"]);
    assert_eq!(joined.output_schema.timestamp_index, 4);
    assert_eq!(joined.output_schema.key_indices, None);
}

#[test]
fn a_self_join_reads_its_source_once() {
    let rewritten = JoinRewriter {}.f_up(join("t", "t")).unwrap().data;
    let mut visitor = PlanToGraphVisitor::default();
    visitor.add_plan(rewritten).unwrap();
    let graph = visitor.into_graph();
    assert_eq!(graph.node_count(), 4);
    let edges: Vec<(usize, usize)> =
        graph.raw_edges().iter().map(|e| (e.source().index(), e.target().index())).collect();
    // the one source feeds both key calculations
    assert_eq!(edges, vec![(0, 1), (0, 2), (1, 3), (2, 3)]);
}

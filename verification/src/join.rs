//! Rewriting joins for streaming: each side gets a projection that computes
//! its join key, equalities of structs in the filter are taken apart, and
//! the two event times of the joined rows are folded into one.

use crate::error::ErrorKind;
use crate::error::PlanError;
use crate::expr::binary_view;
use crate::expr::exprs_view;
use crate::expr::lemma_call_view;
use crate::expr::lemma_case_view;
use crate::expr::option_box_view;
use crate::expr::pairs_view;
use crate::expr::typed;
use crate::expr::Column;
use crate::expr::ColumnView;
use crate::expr::Expr;
use crate::expr::ExprView;
use crate::expr::Operator;
use crate::expr::ScalarValueView;
use crate::expr::COALESCE;
use crate::expr::GET_FIELD;
use crate::plan::get_window;
use crate::plan::window_of_plan;
use crate::plan::Extension;
use crate::plan::Join;
use crate::plan::JoinConstraint;
use crate::plan::JoinType;
use crate::plan::LogicalPlan;
use crate::plan::OperatorKind;
use crate::plan::WindowType;
use crate::plan::MIXED_WINDOWS;
use crate::schema::has_field_named;
use crate::schema::ArroyoSchema;
use crate::schema::DataType;
use crate::schema::DataTypeView;
use crate::schema::Field;
use crate::schema::FieldView;
use crate::schema::Schema;
use crate::schema::IS_RETRACT_FIELD;
use crate::schema::TIMESTAMP_FIELD;
use crate::text::clone_text_option;
use crate::text::decimal_text;
use crate::text::same_text;
use crate::text::text_option_view;
use crate::text::usize_to_text;
use vstd::prelude::*;
use vstd::string::*;

verus! {

/// The result of a rewrite step: the node, and whether the step changed it.
#[derive(Debug, PartialEq, Eq)]
pub struct Transformed<T> {
    pub data: T,
    pub transformed: bool,
}

/// Rewrites joins into their streaming form.
pub struct JoinRewriter {}

/// A failure, by kind and message.
pub type Failure = (ErrorKind, Seq<char>);

// ---------------------------------------------------------------------------
// Which joins can run
// ---------------------------------------------------------------------------

/// Decides from the windows of the two sides whether a join is instant,
/// that is, runs within one window of both sides. Sides that are both
/// unwindowed can only be joined by an inner join; a windowed side cannot
/// be joined with an unwindowed one, nor with one of another window, nor
/// can session windows be joined.
pub open spec fn join_windowing(
    left: Option<WindowType>,
    right: Option<WindowType>,
    join_type: JoinType,
) -> Result<bool, Failure> {
    match (left, right) {
        (None, None) => if join_type == JoinType::Inner {
            Ok(false)
        } else {
            Err((ErrorKind::NotImplemented, "can't handle non-inner joins without windows"@))
        },
        (None, Some(_)) => Err(
            (
                ErrorKind::NotImplemented,
                "can't handle mixed windowing between left (non-windowed) and right (windowed)."@,
            ),
        ),
        (Some(_), None) => Err(
            (
                ErrorKind::NotImplemented,
                "can't handle mixed windowing between left (windowed) and right (non-windowed)."@,
            ),
        ),
        (Some(l), Some(r)) => if l != r {
            Err(
                (ErrorKind::NotImplemented, "can't handle mixed windowing between left and right"@),
            )
        } else if l is Session {
            Err((ErrorKind::NotImplemented, "can't handle session windows in joins"@))
        } else {
            Ok(true)
        },
    }
}

/// Whether the join of two plans is instant, or why it cannot run.
pub open spec fn join_windowing_of(left: LogicalPlan, right: LogicalPlan, join_type: JoinType) -> Result<
    bool,
    Failure,
> {
    match window_of_plan(left) {
        Err(_) => Err((ErrorKind::Plan, MIXED_WINDOWS@)),
        Ok(left_window) => match window_of_plan(right) {
            Err(_) => Err((ErrorKind::Plan, MIXED_WINDOWS@)),
            Ok(right_window) => join_windowing(left_window, right_window, join_type),
        },
    }
}

impl JoinRewriter {
    /// Whether the join is instant, or why it cannot run.
    pub fn check_join_windowing(join: &Join) -> (r: Result<bool, PlanError>)
        ensures
            match join_windowing_of(*join.left, *join.right, join.join_type) {
                Ok(is_instant) => r == Ok::<bool, PlanError>(is_instant),
                Err(failure) => r matches Err(e) && e@ == failure,
            },
    {
        let left_window = match get_window(&*join.left) {
            Ok(w) => w,
            Err(e) => {
                return Err(e);
            },
        };
        let right_window = match get_window(&*join.right) {
            Ok(w) => w,
            Err(e) => {
                return Err(e);
            },
        };
        match (left_window, right_window) {
            (None, None) => {
                match join.join_type {
                    JoinType::Inner => Ok(false),
                    _ => Err(PlanError::not_implemented("can't handle non-inner joins without windows")),
                }
            },
            (None, Some(_)) => Err(
                PlanError::not_implemented(
                    "can't handle mixed windowing between left (non-windowed) and right (windowed).",
                ),
            ),
            (Some(_), None) => Err(
                PlanError::not_implemented(
                    "can't handle mixed windowing between left (windowed) and right (non-windowed).",
                ),
            ),
            (Some(left_window), Some(right_window)) => {
                if left_window != right_window {
                    return Err(
                        PlanError::not_implemented(
                            "can't handle mixed windowing between left and right",
                        ),
                    );
                }
                match left_window {
                    WindowType::Session { .. } => Err(
                        PlanError::not_implemented("can't handle session windows in joins"),
                    ),
                    _ => Ok(true),
                }
            },
        }
    }
}

/// Why a join of the two schemas cannot run, where one of them is of an
/// updating stream.
pub open spec fn updating_side(left: Seq<FieldView>, right: Seq<FieldView>) -> Option<Failure> {
    if has_field_named(left, IS_RETRACT_FIELD@) {
        Some((ErrorKind::NotImplemented, "can't handle updating left side of join"@))
    } else if has_field_named(right, IS_RETRACT_FIELD@) {
        Some((ErrorKind::NotImplemented, "can't handle updating right side of join"@))
    } else {
        None
    }
}

impl JoinRewriter {
    /// Refuses a join of which a side is an updating stream.
    pub fn check_updating(left: &LogicalPlan, right: &LogicalPlan) -> (r: Result<(), PlanError>)
        ensures
            match updating_side(left.schema()@, right.schema()@) {
                None => r is Ok,
                Some(failure) => r matches Err(e) && e@ == failure,
            },
    {
        if left.get_schema().has_column_with_unqualified_name(IS_RETRACT_FIELD) {
            return Err(PlanError::not_implemented("can't handle updating left side of join"));
        }
        if right.get_schema().has_column_with_unqualified_name(IS_RETRACT_FIELD) {
            return Err(PlanError::not_implemented("can't handle updating right side of join"));
        }
        Ok(())
    }
}

// ---------------------------------------------------------------------------
// Equalities of structs
// ---------------------------------------------------------------------------

pub const NESTED_STRUCT_JOIN: &'static str =
    "Joins on struct fields are only supported for structs with a single layer of nesting";

pub const MISMATCHED_STRUCT_JOIN: &'static str =
    "Joins on structs must have the same types on both sides of '='";

pub const EMPTY_STRUCT_JOIN: &'static str =
    "Struct types used in join comparison must have at least one field";

/// Whether a type has parts of its own.
pub open spec fn is_nested_type(data_type: DataTypeView) -> bool {
    data_type is Struct || data_type is List
}

/// Whether a field of the struct is itself nested.
pub open spec fn has_nested_field(fields: Seq<FieldView>) -> bool {
    exists|i: int| 0 <= i < fields.len() && is_nested_type(#[trigger] fields[i].data_type)
}

/// `get_field(e, 'name')`: the field `name` of the struct `e`.
pub open spec fn get_field_view(e: ExprView, field: FieldView) -> ExprView {
    ExprView::ScalarFunction {
        name: GET_FIELD@,
        args: seq![e, ExprView::Literal(ScalarValueView::Utf8(Some(field.name)))],
        return_type: field.data_type,
    }
}

/// The equality of one field of two structs.
pub open spec fn field_equality(left: ExprView, right: ExprView, field: FieldView) -> ExprView {
    binary_view(get_field_view(left, field), Operator::Eq, get_field_view(right, field))
}

/// The conjunction of the equalities of the first `n` fields, `n >= 1`,
/// nested to the left.
pub open spec fn field_equalities(
    left: ExprView,
    right: ExprView,
    fields: Seq<FieldView>,
    n: nat,
) -> ExprView
    decreases n,
{
    if n <= 1 {
        field_equality(left, right, fields[0])
    } else {
        binary_view(
            field_equalities(left, right, fields, (n - 1) as nat),
            Operator::And,
            field_equality(left, right, fields[n - 1]),
        )
    }
}

/// Rewrites one node: an equality whose left side is a struct becomes the
/// conjunction of the equalities of the struct's fields. The struct may
/// hold no nested field, both sides must have the same type, and the struct
/// must have a field. Any other node stays.
pub open spec fn struct_eq_step(e: ExprView, schema: Seq<FieldView>) -> Result<ExprView, Failure> {
    match e {
        ExprView::BinaryExpr { left, op: Operator::Eq, right } => match typed(*left, schema) {
            Err(failure) => Err(failure),
            Ok((left_type, _)) => match typed(*right, schema) {
                Err(failure) => Err(failure),
                Ok((right_type, _)) => match left_type {
                    DataTypeView::Struct(fields) => if has_nested_field(fields) {
                        Err((ErrorKind::Plan, NESTED_STRUCT_JOIN@))
                    } else if left_type != right_type {
                        Err((ErrorKind::TypeMismatch, MISMATCHED_STRUCT_JOIN@))
                    } else if fields.len() == 0 {
                        Err((ErrorKind::Plan, EMPTY_STRUCT_JOIN@))
                    } else {
                        Ok(field_equalities(*left, *right, fields, fields.len()))
                    },
                    _ => Ok(e),
                },
            },
        },
        _ => Ok(e),
    }
}

/// Whether a step changes the node.
pub open spec fn struct_eq_applies(e: ExprView, schema: Seq<FieldView>) -> bool {
    e matches ExprView::BinaryExpr { left, op: Operator::Eq, .. } && typed(*left, schema) matches Ok(
        (DataTypeView::Struct(_), _),
    )
}

fn get_field(e: Expr, field: &Field) -> (r: Expr)
    ensures
        r@ == get_field_view(e@, field@),
{
    let mut args: Vec<Expr> = Vec::new();
    args.push(e);
    args.push(Expr::lit_text(field.name.clone()));
    let r = Expr::ScalarFunction {
        name: GET_FIELD.to_owned(),
        args,
        return_type: field.data_type.clone(),
    };
    assert(r@->ScalarFunction_args =~= get_field_view(e@, field@)->ScalarFunction_args);
    r
}

fn any_nested(fields: &Vec<Field>) -> (r: bool)
    ensures
        r == has_nested_field(Seq::new(fields.len() as nat, |i: int| fields[i]@)),
{
    let ghost views = Seq::new(fields.len() as nat, |i: int| fields[i]@);
    let mut i: usize = 0;
    while i < fields.len()
        invariant
            i <= fields.len(),
            views == Seq::new(fields.len() as nat, |i: int| fields[i]@),
            forall|j: int| 0 <= j < i ==> !is_nested_type(#[trigger] views[j].data_type),
        decreases fields.len() - i,
    {
        if fields[i].data_type.is_nested() {
            assert(is_nested_type(views[i as int].data_type));
            return true;
        }
        i += 1;
    }
    false
}

/// Rewrites one node of a join filter, over the schema of the join.
pub fn struct_eq_f_up(node: Expr, schema: &Schema) -> (r: Result<Transformed<Expr>, PlanError>)
    ensures
        match struct_eq_step(node@, schema@) {
            Ok(e) => r matches Ok(t) && t.data@ == e && t.transformed == struct_eq_applies(
                node@,
                schema@,
            ),
            Err(failure) => r matches Err(e) && e@ == failure,
        },
{
    match &node {
        Expr::BinaryExpr { left, op: Operator::Eq, right } => {
            let (left_type, _) = match left.data_type_and_nullable(schema) {
                Ok(found) => found,
                Err(e) => {
                    return Err(e);
                },
            };
            let (right_type, _) = match right.data_type_and_nullable(schema) {
                Ok(found) => found,
                Err(e) => {
                    return Err(e);
                },
            };
            match &left_type {
                DataType::Struct(fields) => {
                    let ghost views = left_type@->Struct_0;
                    assert(views =~= Seq::new(fields.len() as nat, |i: int| fields[i]@));
                    if any_nested(fields) {
                        return Err(PlanError::plan(NESTED_STRUCT_JOIN));
                    }
                    if !left_type.same_as(&right_type) {
                        return Err(PlanError::type_mismatch(MISMATCHED_STRUCT_JOIN));
                    }
                    if fields.len() == 0 {
                        return Err(PlanError::plan(EMPTY_STRUCT_JOIN));
                    }
                    let mut expr = get_field((**left).clone(), &fields[0]).eq(
                        get_field((**right).clone(), &fields[0]),
                    );
                    let mut i: usize = 1;
                    while i < fields.len()
                        invariant
                            1 <= i <= fields.len(),
                            views == Seq::new(fields.len() as nat, |i: int| fields[i]@),
                            expr@ == field_equalities(left@, right@, views, i as nat),
                        decreases fields.len() - i,
                    {
                        let next = get_field((**left).clone(), &fields[i]).eq(
                            get_field((**right).clone(), &fields[i]),
                        );
                        expr = expr.and(next);
                        i += 1;
                    }
                    Ok(Transformed { data: expr, transformed: true })
                },
                _ => Ok(Transformed { data: node, transformed: false }),
            }
        },
        _ => Ok(Transformed { data: node, transformed: false }),
    }
}

/// Rewrites the first `upto` expressions of a list, in order; the first
/// failure ends the rewrite.
pub open spec fn rewrite_all(es: Seq<ExprView>, upto: nat, schema: Seq<FieldView>) -> Result<
    Seq<ExprView>,
    Failure,
>
    decreases es, upto,
{
    if upto == 0 || upto > es.len() {
        Ok(Seq::empty())
    } else {
        match rewrite_all(es, (upto - 1) as nat, schema) {
            Err(failure) => Err(failure),
            Ok(done) => match struct_eq_rewrite(es[upto - 1], schema) {
                Err(failure) => Err(failure),
                Ok(e) => Ok(done.push(e)),
            },
        }
    }
}

/// Rewrites the first `upto` branches of a `CASE`, each condition before
/// its result.
pub open spec fn rewrite_pairs(
    pairs: Seq<(ExprView, ExprView)>,
    upto: nat,
    schema: Seq<FieldView>,
) -> Result<Seq<(ExprView, ExprView)>, Failure>
    decreases pairs, upto,
{
    if upto == 0 || upto > pairs.len() {
        Ok(Seq::empty())
    } else {
        match rewrite_pairs(pairs, (upto - 1) as nat, schema) {
            Err(failure) => Err(failure),
            Ok(done) => match struct_eq_rewrite(pairs[upto - 1].0, schema) {
                Err(failure) => Err(failure),
                Ok(when) => match struct_eq_rewrite(pairs[upto - 1].1, schema) {
                    Err(failure) => Err(failure),
                    Ok(then) => Ok(done.push((when, then))),
                },
            },
        }
    }
}

/// Rewrites the parts of a node, in the order in which they are written.
pub open spec fn rewrite_children(e: ExprView, schema: Seq<FieldView>) -> Result<ExprView, Failure>
    decreases e, 0nat,
{
    match e {
        ExprView::Column(_) => Ok(e),
        ExprView::Literal(_) => Ok(e),
        ExprView::BinaryExpr { left, op, right } => match struct_eq_rewrite(*left, schema) {
            Err(failure) => Err(failure),
            Ok(l) => match struct_eq_rewrite(*right, schema) {
                Err(failure) => Err(failure),
                Ok(r) => Ok(binary_view(l, op, r)),
            },
        },
        ExprView::Case { expr, when_then_expr, else_expr } => {
            let head = match expr {
                Some(inner) => match struct_eq_rewrite(*inner, schema) {
                    Err(failure) => Err(failure),
                    Ok(x) => Ok(Some(Box::new(x))),
                },
                None => Ok(None),
            };
            match head {
                Err(failure) => Err(failure),
                Ok(new_expr) => match rewrite_pairs(when_then_expr, when_then_expr.len(), schema) {
                    Err(failure) => Err(failure),
                    Ok(new_pairs) => match else_expr {
                        Some(inner) => match struct_eq_rewrite(*inner, schema) {
                            Err(failure) => Err(failure),
                            Ok(x) => Ok(
                                ExprView::Case {
                                    expr: new_expr,
                                    when_then_expr: new_pairs,
                                    else_expr: Some(Box::new(x)),
                                },
                            ),
                        },
                        None => Ok(
                            ExprView::Case {
                                expr: new_expr,
                                when_then_expr: new_pairs,
                                else_expr: None,
                            },
                        ),
                    },
                },
            }
        },
        ExprView::ScalarFunction { name, args, return_type } => match rewrite_all(
            args,
            args.len(),
            schema,
        ) {
            Err(failure) => Err(failure),
            Ok(new_args) => Ok(ExprView::ScalarFunction { name, args: new_args, return_type }),
        },
        ExprView::Alias { expr, relation, name } => match struct_eq_rewrite(*expr, schema) {
            Err(failure) => Err(failure),
            Ok(x) => Ok(ExprView::Alias { expr: Box::new(x), relation, name }),
        },
    }
}

/// Rewrites an expression from the leaves up: the parts of a node first,
/// then the node itself by [`struct_eq_step`].
pub open spec fn struct_eq_rewrite(e: ExprView, schema: Seq<FieldView>) -> Result<ExprView, Failure>
    decreases e, 1nat,
{
    match rewrite_children(e, schema) {
        Err(failure) => Err(failure),
        Ok(rewritten) => struct_eq_step(rewritten, schema),
    }
}

/// The outcome of a rewrite, by views.
pub open spec fn rewrite_view(r: Result<Expr, PlanError>) -> Result<ExprView, Failure> {
    match r {
        Ok(e) => Ok(e@),
        Err(e) => Err(e@),
    }
}

fn rewrite_option_box(e: &Option<Box<Expr>>, schema: &Schema) -> (r: Result<
    Option<Box<Expr>>,
    PlanError,
>)
    ensures
        match e {
            Some(inner) => match struct_eq_rewrite(inner@, schema@) {
                Ok(x) => r matches Ok(found) && option_box_view(found) == Some(Box::new(x)),
                Err(failure) => r matches Err(err) && err@ == failure,
            },
            None => r matches Ok(found) && found is None,
        },
    decreases e,
{
    match e {
        Some(inner) => match rewrite_struct_eq(&**inner, schema) {
            Ok(x) => Ok(Some(Box::new(x))),
            Err(err) => Err(err),
        },
        None => Ok(None),
    }
}

fn rewrite_args(args: &Vec<Expr>, schema: &Schema) -> (r: Result<Vec<Expr>, PlanError>)
    ensures
        match rewrite_all(exprs_view(args@), args.len() as nat, schema@) {
            Ok(done) => r matches Ok(found) && exprs_view(found@) == done,
            Err(failure) => r matches Err(err) && err@ == failure,
        },
    decreases args,
{
    let ghost views = exprs_view(args@);
    let mut out: Vec<Expr> = Vec::new();
    let mut i: usize = 0;
    assert(exprs_view(out@) =~= Seq::empty());
    while i < args.len()
        invariant
            i <= args.len(),
            views == exprs_view(args@),
            rewrite_all(views, i as nat, schema@) == Ok::<Seq<ExprView>, Failure>(
                exprs_view(out@),
            ),
        decreases args.len() - i,
    {
        let arg = match rewrite_struct_eq(&args[i], schema) {
            Ok(x) => x,
            Err(e) => {
                proof {
                    lemma_rewrite_all_fails(views, (i + 1) as nat, views.len(), schema@);
                }
                return Err(e);
            },
        };
        let ghost before = exprs_view(out@);
        out.push(arg);
        i += 1;
        assert(exprs_view(out@) =~= before.push(arg@));
    }
    Ok(out)
}

fn rewrite_branches(pairs: &Vec<(Expr, Expr)>, schema: &Schema) -> (r: Result<
    Vec<(Expr, Expr)>,
    PlanError,
>)
    ensures
        match rewrite_pairs(pairs_view(pairs@), pairs.len() as nat, schema@) {
            Ok(done) => r matches Ok(found) && pairs_view(found@) == done,
            Err(failure) => r matches Err(err) && err@ == failure,
        },
    decreases pairs,
{
    let ghost views = pairs_view(pairs@);
    let mut out: Vec<(Expr, Expr)> = Vec::new();
    let mut i: usize = 0;
    assert(pairs_view(out@) =~= Seq::empty());
    while i < pairs.len()
        invariant
            i <= pairs.len(),
            views == pairs_view(pairs@),
            rewrite_pairs(views, i as nat, schema@) == Ok::<Seq<(ExprView, ExprView)>, Failure>(
                pairs_view(out@),
            ),
        decreases pairs.len() - i,
    {
        let when = match rewrite_struct_eq(&pairs[i].0, schema) {
            Ok(x) => x,
            Err(e) => {
                proof {
                    lemma_rewrite_pairs_fails(views, (i + 1) as nat, views.len(), schema@);
                }
                return Err(e);
            },
        };
        let then = match rewrite_struct_eq(&pairs[i].1, schema) {
            Ok(x) => x,
            Err(e) => {
                proof {
                    lemma_rewrite_pairs_fails(views, (i + 1) as nat, views.len(), schema@);
                }
                return Err(e);
            },
        };
        let ghost before = pairs_view(out@);
        out.push((when, then));
        i += 1;
        assert(pairs_view(out@) =~= before.push((when@, then@)));
    }
    Ok(out)
}

fn rewrite_parts(expr: &Expr, schema: &Schema) -> (r: Result<Expr, PlanError>)
    ensures
        rewrite_view(r) == rewrite_children(expr@, schema@),
    decreases expr, 0nat,
{
    match expr {
        Expr::Column(c) => Ok(Expr::Column(c.clone())),
        Expr::Literal(v) => Ok(Expr::Literal(v.clone())),
        Expr::BinaryExpr { left, op, right } => {
            let l = match rewrite_struct_eq(&**left, schema) {
                Ok(x) => x,
                Err(e) => {
                    return Err(e);
                },
            };
            let r = match rewrite_struct_eq(&**right, schema) {
                Ok(x) => x,
                Err(e) => {
                    return Err(e);
                },
            };
            Ok(Expr::binary(l, *op, r))
        },
        Expr::Case { expr: head, when_then_expr, else_expr } => {
            proof {
                lemma_case_view(*expr);
            }
            let new_head = match rewrite_option_box(head, schema) {
                Ok(x) => x,
                Err(e) => {
                    return Err(e);
                },
            };
            let new_pairs = match rewrite_branches(when_then_expr, schema) {
                Ok(x) => x,
                Err(e) => {
                    return Err(e);
                },
            };
            let new_else = match rewrite_option_box(else_expr, schema) {
                Ok(x) => x,
                Err(e) => {
                    return Err(e);
                },
            };
            let r = Expr::Case { expr: new_head, when_then_expr: new_pairs, else_expr: new_else };
            proof {
                lemma_case_view(r);
            }
            Ok(r)
        },
        Expr::ScalarFunction { name, args, return_type } => {
            proof {
                lemma_call_view(*expr);
            }
            let new_args = match rewrite_args(args, schema) {
                Ok(x) => x,
                Err(e) => {
                    return Err(e);
                },
            };
            let r = Expr::ScalarFunction {
                name: name.clone(),
                args: new_args,
                return_type: return_type.clone(),
            };
            proof {
                lemma_call_view(r);
            }
            Ok(r)
        },
        Expr::Alias { expr: inner, relation, name } => {
            let x = match rewrite_struct_eq(&**inner, schema) {
                Ok(x) => x,
                Err(e) => {
                    return Err(e);
                },
            };
            Ok(
                Expr::Alias {
                    expr: Box::new(x),
                    relation: clone_text_option(relation),
                    name: name.clone(),
                },
            )
        },
    }
}

/// Takes the equalities of structs in a join filter apart, over the schema
/// of the join.
pub fn rewrite_struct_eq(expr: &Expr, schema: &Schema) -> (r: Result<Expr, PlanError>)
    ensures
        rewrite_view(r) == struct_eq_rewrite(expr@, schema@),
    decreases expr, 1nat,
{
    let parts = match rewrite_parts(expr, schema) {
        Ok(x) => x,
        Err(e) => {
            return Err(e);
        },
    };
    match struct_eq_f_up(parts, schema) {
        Ok(t) => Ok(t.data),
        Err(e) => Err(e),
    }
}

/// A failure among the first expressions of a list is the failure of every
/// longer part of the list.
proof fn lemma_rewrite_all_fails(es: Seq<ExprView>, at: nat, upto: nat, schema: Seq<FieldView>)
    requires
        at <= upto <= es.len(),
        rewrite_all(es, at, schema) is Err,
    ensures
        rewrite_all(es, upto, schema) == rewrite_all(es, at, schema),
    decreases upto - at,
{
    if at < upto {
        lemma_rewrite_all_fails(es, at, (upto - 1) as nat, schema);
    }
}

/// A failure among the first branches of a `CASE` is the failure of every
/// longer part of the list.
proof fn lemma_rewrite_pairs_fails(
    pairs: Seq<(ExprView, ExprView)>,
    at: nat,
    upto: nat,
    schema: Seq<FieldView>,
)
    requires
        at <= upto <= pairs.len(),
        rewrite_pairs(pairs, at, schema) is Err,
    ensures
        rewrite_pairs(pairs, upto, schema) == rewrite_pairs(pairs, at, schema),
    decreases upto - at,
{
    if at < upto {
        lemma_rewrite_pairs_fails(pairs, at, (upto - 1) as nat, schema);
    }
}

// ---------------------------------------------------------------------------
// The key of each side
// ---------------------------------------------------------------------------

/// The relation that the key columns are put under.
pub const KEY_QUALIFIER: &'static str = "_arroyo";

/// The name of the `index`-th key column.
pub open spec fn key_name(index: nat) -> Seq<char> {
    "_key_"@ + decimal_text(index)
}

/// A reference to a field.
pub open spec fn column_of(field: FieldView) -> ExprView {
    ExprView::Column(ColumnView { relation: field.qualifier, name: field.name })
}

/// The `index`-th key expression under its key name.
pub open spec fn key_alias(index: nat, e: ExprView) -> ExprView {
    ExprView::Alias { expr: Box::new(e), relation: Some(KEY_QUALIFIER@), name: key_name(index) }
}

/// The fields of the first `upto` key columns over the fields of the input,
/// or the first failure to type a key expression.
pub open spec fn key_fields(keys: Seq<ExprView>, upto: nat, input: Seq<FieldView>) -> Result<
    Seq<FieldView>,
    Failure,
>
    decreases upto,
{
    if upto == 0 || upto > keys.len() {
        Ok(Seq::empty())
    } else {
        match key_fields(keys, (upto - 1) as nat, input) {
            Err(failure) => Err(failure),
            Ok(done) => match typed(keys[upto - 1], input) {
                Err(failure) => Err(failure),
                Ok((data_type, nullable)) => Ok(
                    done.push(
                        FieldView {
                            qualifier: Some(KEY_QUALIFIER@),
                            name: key_name((upto - 1) as nat),
                            data_type,
                            nullable,
                        },
                    ),
                ),
            },
        }
    }
}

/// The expressions of the key projection: the key expressions under their
/// key names, then every field of the input.
pub open spec fn key_projection(keys: Seq<ExprView>, input: Seq<FieldView>) -> Seq<ExprView> {
    Seq::new(keys.len(), |i: int| key_alias(i as nat, keys[i])) + Seq::new(
        input.len(),
        |i: int| column_of(input[i]),
    )
}

/// The positions `0..count`.
pub open spec fn first_positions(count: nat) -> Seq<usize> {
    Seq::new(count, |i: int| i as usize)
}

/// The first field named as the event-time column.
pub open spec fn timestamp_position(fields: Seq<FieldView>) -> Option<nat> {
    crate::codec::field_index(Seq::new(fields.len(), |i: int| fields[i].name), TIMESTAMP_FIELD@)
}

/// The schema of the key projection and the position of its event-time
/// column, or why the projection cannot be built: a key expression cannot
/// be typed, or the input has no event-time column.
pub open spec fn key_plan_schema(keys: Seq<ExprView>, input: Seq<FieldView>) -> Result<
    (Seq<FieldView>, nat),
    Failure,
> {
    match key_fields(keys, keys.len(), input) {
        Err(failure) => Err(failure),
        Ok(fields) => match timestamp_position(input) {
            None => Err((ErrorKind::Plan, "no _timestamp field in schema"@)),
            Some(position) => Ok((fields + input, keys.len() + position)),
        },
    }
}

/// Whether `plan` is the key calculation of the side `name` over `input`:
/// an extension around a projection of the key expressions and all fields
/// of the input, keyed by the first `keys.len()` columns.
pub open spec fn is_key_plan(
    plan: LogicalPlan,
    input: LogicalPlan,
    keys: Seq<ExprView>,
    name: Seq<char>,
) -> bool {
    &&& key_plan_schema(keys, input.schema()@) matches Ok((fields, timestamp_index))
    &&& plan matches LogicalPlan::Extension(extension)
    &&& extension.kind == OperatorKind::KeyCalculation
    &&& text_option_view(extension.name) == Some(name)
    &&& extension.window is None
    &&& extension.config@.len() == 0
    &&& extension.schema@ == (crate::schema::ArroyoSchemaView {
        fields,
        timestamp_index,
        key_indices: Some(first_positions(keys.len())),
    })
    &&& extension.inputs@.len() == 1
    &&& extension.inputs[0] matches LogicalPlan::Projection { expr, input: inner, schema }
    &&& *inner == input
    &&& exprs_view(expr@) == key_projection(keys, input.schema()@)
    &&& schema@ == fields
}

fn find_timestamp(schema: &Schema) -> (r: Option<usize>)
    ensures
        match timestamp_position(schema@) {
            Some(i) => r == Some(i as usize) && i < schema@.len(),
            None => r is None,
        },
{
    let ghost names = Seq::new(schema@.len(), |i: int| schema@[i].name);
    let mut i: usize = 0;
    while i < schema.fields.len()
        invariant
            i <= schema.fields.len(),
            names == Seq::new(schema@.len(), |i: int| schema@[i].name),
            forall|j: int| 0 <= j < i ==> names[j] != TIMESTAMP_FIELD@,
        decreases schema.fields.len() - i,
    {
        if same_text(schema.fields[i].name.as_str(), TIMESTAMP_FIELD) {
            assert(names[i as int] == schema@[i as int].name);
            assert(crate::codec::is_first_index(names, TIMESTAMP_FIELD@, i as int));
            let ghost chosen = choose|k: int|
                crate::codec::is_first_index(names, TIMESTAMP_FIELD@, k);
            assert(chosen == i) by {
                if chosen < i {
                    assert(names[chosen] != TIMESTAMP_FIELD@);
                } else if chosen > i {
                    assert(names[i as int] != TIMESTAMP_FIELD@);
                }
            }
            return Some(i);
        }
        assert(names[i as int] == schema@[i as int].name);
        i += 1;
    }
    assert(forall|k: int| !crate::codec::is_first_index(names, TIMESTAMP_FIELD@, k));
    None
}

fn positions(count: usize) -> (r: Vec<usize>)
    ensures
        r@ == first_positions(count as nat),
{
    let mut out: Vec<usize> = Vec::new();
    let mut i: usize = 0;
    while i < count
        invariant
            i <= count,
            out@ == first_positions(i as nat),
        decreases count - i,
    {
        out.push(i);
        i += 1;
        assert(out@ =~= first_positions(i as nat));
    }
    out
}

fn column_expr(field: &Field) -> (r: Expr)
    ensures
        r@ == column_of(field@),
{
    Expr::column(clone_text_option(&field.qualifier), field.name.clone())
}

impl JoinRewriter {
    /// Puts a projection around `input` that computes the join key in its
    /// first columns and keeps every column of the input, and wraps it in the
    /// key calculation of the side `name`.
    #[verifier::loop_isolation(false)]
    pub fn create_join_key_plan(
        &self,
        input: LogicalPlan,
        join_expressions: Vec<Expr>,
        name: &str,
    ) -> (r: Result<LogicalPlan, PlanError>)
        ensures
            match key_plan_schema(exprs_view(join_expressions@), input.schema()@) {
                Err(failure) => r matches Err(e) && e@ == failure,
                Ok(_) => r matches Ok(plan) && is_key_plan(
                    plan,
                    input,
                    exprs_view(join_expressions@),
                    name@,
                ),
            },
    {
        let key_count = join_expressions.len();
        let ghost keys = exprs_view(join_expressions@);
        let ghost input_fields = input.schema()@;
        let input_schema = input.get_schema();
        let mut exprs: Vec<Expr> = Vec::new();
        let mut fields: Vec<Field> = Vec::new();
        let mut index: usize = 0;
        assert(Seq::new(fields.len() as nat, |i: int| fields[i]@) =~= Seq::empty());
        while index < key_count
            invariant
                index <= key_count == join_expressions.len(),
                keys == exprs_view(join_expressions@),
                input_fields == input_schema@,
                exprs.len() == index,
                fields.len() == index,
                forall|i: int| 0 <= i < index ==> #[trigger] exprs[i]@ == key_alias(i as nat, keys[i]),
                key_fields(keys, index as nat, input_fields) == Ok::<Seq<FieldView>, Failure>(
                    Seq::new(fields.len() as nat, |i: int| fields[i]@),
                ),
            decreases key_count - index,
        {
            let expr = &join_expressions[index];
            assert(keys[index as int] == expr@);
            let (data_type, nullable) = match expr.data_type_and_nullable(input_schema) {
                Ok(found) => found,
                Err(e) => {
                    proof {
                        lemma_key_fields_fails(
                            keys,
                            (index + 1) as nat,
                            keys.len(),
                            input_fields,
                        );
                    }
                    return Err(e);
                },
            };
            let key = "_key_".to_owned().concat(usize_to_text(index).as_str());
            let ghost before = Seq::new(fields.len() as nat, |i: int| fields[i]@);
            fields.push(
                Field {
                    qualifier: Some(KEY_QUALIFIER.to_owned()),
                    name: key.clone(),
                    data_type,
                    nullable,
                },
            );
            exprs.push(expr.clone().alias_qualified(Some(KEY_QUALIFIER.to_owned()), key));
            assert(Seq::new(fields.len() as nat, |i: int| fields[i]@) =~= before.push(
                fields[index as int]@,
            ));
            index += 1;
        }
        let ghost key_part = Seq::new(fields.len() as nat, |i: int| fields[i]@);
        let mut i: usize = 0;
        while i < input_schema.fields.len()
            invariant
                i <= input_schema.fields.len(),
                input_fields == input_schema@,
                exprs.len() == key_count + i,
                fields.len() == key_count + i,
                key_count == keys.len(),
                forall|j: int|
                    0 <= j < key_count ==> #[trigger] exprs[j]@ == key_alias(j as nat, keys[j]),
                forall|j: int|
                    key_count <= j < key_count + i ==> #[trigger] exprs[j]@ == column_of(
                        input_fields[j - key_count],
                    ),
                forall|j: int| 0 <= j < key_count ==> #[trigger] fields[j]@ == key_part[j],
                key_part.len() == key_count,
                forall|j: int|
                    key_count <= j < key_count + i ==> #[trigger] fields[j]@ == input_fields[j
                        - key_count],
            decreases input_schema.fields.len() - i,
        {
            let field = &input_schema.fields[i];
            assert(input_fields[i as int] == field@);
            exprs.push(column_expr(field));
            fields.push(field.clone());
            i += 1;
        }
        let timestamp_index = match find_timestamp(input_schema) {
            Some(position) => key_count + position,
            None => {
                return Err(PlanError::plan("no _timestamp field in schema"));
            },
        };
        let schema = Schema { fields };
        assert(schema@ =~= key_part + input_fields);
        assert(exprs_view(exprs@) =~= key_projection(keys, input_fields));
        let stream_schema = ArroyoSchema::new_keyed(
            schema.clone(),
            timestamp_index,
            positions(key_count),
        );
        let projection = LogicalPlan::Projection { expr: exprs, input: Box::new(input), schema };
        let mut inputs: Vec<LogicalPlan> = Vec::new();
        inputs.push(projection);
        Ok(
            LogicalPlan::Extension(
                Extension {
                    kind: OperatorKind::KeyCalculation,
                    name: Some(name.to_owned()),
                    window: None,
                    inputs,
                    schema: stream_schema,
                    config: Vec::new(),
                },
            ),
        )
    }
}

/// A failure among the first key expressions is the failure of every longer
/// part of the list.
proof fn lemma_key_fields_fails(keys: Seq<ExprView>, at: nat, upto: nat, input: Seq<FieldView>)
    requires
        at <= upto <= keys.len(),
        key_fields(keys, at, input) is Err,
    ensures
        key_fields(keys, upto, input) == key_fields(keys, at, input),
    decreases upto - at,
{
    if at < upto {
        lemma_key_fields_fails(keys, at, (upto - 1) as nat, input);
    }
}

// ---------------------------------------------------------------------------
// One event time after the join
// ---------------------------------------------------------------------------

/// Whether a field is named as the event-time column.
pub open spec fn is_timestamp() -> spec_fn(FieldView) -> bool {
    |field: FieldView| field.name == TIMESTAMP_FIELD@
}

/// Whether a field is not named as the event-time column.
pub open spec fn is_not_timestamp() -> spec_fn(FieldView) -> bool {
    |field: FieldView| field.name != TIMESTAMP_FIELD@
}

/// The later of the event times of the two sides: the left one where it is
/// not before the right one, the right one where it is, and the one that is
/// not null where the other is.
pub open spec fn max_timestamp(left: FieldView, right: FieldView) -> ExprView {
    ExprView::Case {
        expr: Some(Box::new(binary_view(column_of(left), Operator::GtEq, column_of(right)))),
        when_then_expr: seq![
            (ExprView::Literal(ScalarValueView::Boolean(Some(true))), column_of(left)),
            (ExprView::Literal(ScalarValueView::Boolean(Some(false))), column_of(right)),
        ],
        else_expr: Some(
            Box::new(
                ExprView::ScalarFunction {
                    name: COALESCE@,
                    args: seq![column_of(left), column_of(right)],
                    return_type: left.data_type,
                },
            ),
        ),
    }
}

/// The expressions of the projection over a join: every field but the event
/// times, then the later of the two event times under the name of the first.
pub open spec fn post_join_exprs(fields: Seq<FieldView>) -> Seq<ExprView> {
    let times = fields.filter(is_timestamp());
    let others = fields.filter(is_not_timestamp());
    Seq::new(others.len(), |i: int| column_of(others[i])).push(
        ExprView::Alias {
            expr: Box::new(max_timestamp(times[0], times[1])),
            relation: times[0].qualifier,
            name: times[0].name,
        },
    )
}

/// The fields of the projection over a join: every field but the event
/// times, then the first event time.
pub open spec fn post_join_fields(fields: Seq<FieldView>) -> Seq<FieldView> {
    fields.filter(is_not_timestamp()).push(fields.filter(is_timestamp())[0])
}

/// Whether `plan` is the projection over `input` that folds the two event
/// times into one.
pub open spec fn is_timestamp_projection(plan: LogicalPlan, input: LogicalPlan) -> bool {
    &&& plan matches LogicalPlan::Projection { expr, input: inner, schema }
    &&& *inner == input
    &&& exprs_view(expr@) == post_join_exprs(input.schema()@)
    &&& schema@ == post_join_fields(input.schema()@)
}

fn max_timestamp_expr(left: &Field, right: &Field) -> (r: Expr)
    ensures
        r@ == max_timestamp(left@, right@),
{
    let mut branches: Vec<(Expr, Expr)> = Vec::new();
    branches.push((Expr::lit_bool(true), column_expr(left)));
    branches.push((Expr::lit_bool(false), column_expr(right)));
    let mut args: Vec<Expr> = Vec::new();
    args.push(column_expr(left));
    args.push(column_expr(right));
    let fallback = Expr::ScalarFunction {
        name: COALESCE.to_owned(),
        args,
        return_type: left.data_type.clone(),
    };
    let head = Expr::binary(column_expr(left), Operator::GtEq, column_expr(right));
    let r = Expr::Case {
        expr: Some(Box::new(head)),
        when_then_expr: branches,
        else_expr: Some(Box::new(fallback)),
    };
    proof {
        lemma_call_view(fallback);
        lemma_case_view(r);
        assert(exprs_view(fallback->args@) =~= seq![column_of(left@), column_of(right@)]);
        assert(pairs_view(r->when_then_expr@) =~= max_timestamp(
            left@,
            right@,
        )->Case_when_then_expr);
    }
    r
}

impl JoinRewriter {
    /// Puts a projection over a join that keeps every column but the two event
    /// times and appends the later of the two as the one event time.
    pub fn post_join_timestamp_projection(&mut self, input: LogicalPlan) -> (r: Result<
        LogicalPlan,
        PlanError,
    >)
        ensures
            if input.schema()@.filter(is_timestamp()).len() == 2 {
                r matches Ok(plan) && is_timestamp_projection(plan, input)
            } else {
                r matches Err(e) && e@ == (
                    ErrorKind::NotImplemented,
                    "join must have two timestamp fields"@,
                )
            },
    {
        let schema = input.get_schema();
        let ghost all = schema@;
        let mut times: Vec<Field> = Vec::new();
        let mut others: Vec<Field> = Vec::new();
        let mut exprs: Vec<Expr> = Vec::new();
        let mut i: usize = 0;
        proof {
            reveal(Seq::filter);
            assert(all.take(0).filter(is_timestamp()) =~= Seq::empty());
            assert(all.take(0).filter(is_not_timestamp()) =~= Seq::empty());
        }
        while i < schema.fields.len()
            invariant
                i <= schema.fields.len(),
                all == schema@,
                Seq::new(times.len() as nat, |j: int| times[j]@) == all.take(i as int).filter(
                    is_timestamp(),
                ),
                Seq::new(others.len() as nat, |j: int| others[j]@) == all.take(i as int).filter(
                    is_not_timestamp(),
                ),
                exprs.len() == others.len(),
                forall|j: int| 0 <= j < exprs.len() ==> #[trigger] exprs[j]@ == column_of(others[j]@),
            decreases schema.fields.len() - i,
        {
            let field = &schema.fields[i];
            let ghost before_times = Seq::new(times.len() as nat, |j: int| times[j]@);
            let ghost before_others = Seq::new(others.len() as nat, |j: int| others[j]@);
            proof {
                reveal(Seq::filter);
                assert(all.take(i + 1).drop_last() =~= all.take(i as int));
                assert(all.take(i + 1).last() == field@);
            }
            if same_text(field.name.as_str(), TIMESTAMP_FIELD) {
                times.push(field.clone());
                assert(Seq::new(times.len() as nat, |j: int| times[j]@) =~= before_times.push(field@));
            } else {
                exprs.push(column_expr(field));
                others.push(field.clone());
                assert(Seq::new(others.len() as nat, |j: int| others[j]@) =~= before_others.push(
                    field@,
                ));
            }
            i += 1;
        }
        assert(all.take(i as int) =~= all);
        if times.len() != 2 {
            return Err(PlanError::not_implemented("join must have two timestamp fields"));
        }
        let ghost time_views = all.filter(is_timestamp());
        let ghost other_views = all.filter(is_not_timestamp());
        assert(times[0]@ == time_views[0] && times[1]@ == time_views[1]);
        let max = max_timestamp_expr(&times[0], &times[1]);
        exprs.push(
            max.alias_qualified(clone_text_option(&times[0].qualifier), times[0].name.clone()),
        );
        others.push(times[0].clone());
        let output = Schema { fields: others };
        assert(output@ =~= post_join_fields(all));
        assert(exprs_view(exprs@) =~= post_join_exprs(all)) by {
            assert forall|j: int| 0 <= j < other_views.len() implies exprs[j]@ == column_of(
                other_views[j],
            ) by {
                assert(others[j]@ == other_views[j]);
            }
        }
        Ok(LogicalPlan::Projection { expr: exprs, input: Box::new(input), schema: output })
    }
}

// ---------------------------------------------------------------------------
// The rewrite
// ---------------------------------------------------------------------------

/// The key expressions of the left side of a join.
pub open spec fn left_keys(on: Seq<(Expr, Expr)>) -> Seq<ExprView> {
    Seq::new(on.len(), |i: int| on[i].0@)
}

/// The key expressions of the right side of a join.
pub open spec fn right_keys(on: Seq<(Expr, Expr)>) -> Seq<ExprView> {
    Seq::new(on.len(), |i: int| on[i].1@)
}

/// Whether a join can run, and then whether it is instant. Besides what
/// [`join_windowing`] refuses, a join must be constrained by `ON`, must not
/// take nulls as equal, must have no updating side and, unless it is
/// instant, must have a key.
pub open spec fn join_admitted(join: Join) -> Result<bool, Failure> {
    match join_windowing_of(*join.left, *join.right, join.join_type) {
        Err(failure) => Err(failure),
        Ok(is_instant) => if join.join_constraint != JoinConstraint::On || join.null_equals_null {
            Err((ErrorKind::NotImplemented, "can't handle join constraint other than ON"@))
        } else {
            match updating_side(join.left.schema()@, join.right.schema()@) {
                Some(failure) => Err(failure),
                None => if join.on@.len() == 0 && !is_instant {
                    Err(
                        (
                            ErrorKind::NotImplemented,
                            "Updating joins must include an equijoin condition"@,
                        ),
                    )
                } else {
                    Ok(is_instant)
                },
            }
        },
    }
}

/// The filter of a join with its equalities of structs taken apart.
pub open spec fn rewritten_filter(filter: Option<Expr>, schema: Seq<FieldView>) -> Result<
    Option<ExprView>,
    Failure,
> {
    match filter {
        None => Ok(None),
        Some(e) => match struct_eq_rewrite(e@, schema) {
            Err(failure) => Err(failure),
            Ok(rewritten) => Ok(Some(rewritten)),
        },
    }
}

/// Whether a join can be rewritten, and then whether it is instant: the
/// join must be admitted, its filter must be rewritable, the keys of both
/// sides must be typed over sides that have an event time, and the join
/// must put out exactly two event times.
pub open spec fn join_outcome(join: Join) -> Result<bool, Failure> {
    match join_admitted(join) {
        Err(failure) => Err(failure),
        Ok(is_instant) => match rewritten_filter(join.filter, join.schema@) {
            Err(failure) => Err(failure),
            Ok(_) => match key_plan_schema(left_keys(join.on@), join.left.schema()@) {
                Err(failure) => Err(failure),
                Ok(_) => match key_plan_schema(right_keys(join.on@), join.right.schema()@) {
                    Err(failure) => Err(failure),
                    Ok(_) => if join.schema@.filter(is_timestamp()).len() != 2 {
                        Err(
                            (
                                ErrorKind::NotImplemented,
                                "join must have two timestamp fields"@,
                            ),
                        )
                    } else {
                        Ok(is_instant)
                    },
                },
            },
        },
    }
}

/// The view of an expression that may be absent.
pub open spec fn option_expr_view(e: Option<Expr>) -> Option<ExprView> {
    match e {
        Some(inner) => Some(inner@),
        None => None,
    }
}

/// Whether `inner` is the join `join` over the key calculations of its two
/// sides, with the same keys, type and schema and with the rewritten filter.
pub open spec fn is_keyed_join(inner: LogicalPlan, join: Join) -> bool {
    &&& inner matches LogicalPlan::Join(keyed)
    &&& is_key_plan(*keyed.left, *join.left, left_keys(join.on@), "left"@)
    &&& is_key_plan(*keyed.right, *join.right, right_keys(join.on@), "right"@)
    &&& keyed.on == join.on
    &&& keyed.join_type == join.join_type
    &&& keyed.join_constraint == JoinConstraint::On
    &&& keyed.schema == join.schema
    &&& !keyed.null_equals_null
    &&& Ok::<Option<ExprView>, Failure>(option_expr_view(keyed.filter)) == rewritten_filter(
        join.filter,
        join.schema@,
    )
}

/// Whether `plan` is the streaming join that `join` is rewritten to: an
/// unkeyed extension, instant or not, around the projection that folds the
/// event times, around the keyed join.
pub open spec fn is_join_extension(plan: LogicalPlan, join: Join, is_instant: bool) -> bool {
    &&& plan matches LogicalPlan::Extension(extension)
    &&& extension.kind == (OperatorKind::Join { is_instant })
    &&& extension.name is None
    &&& extension.window is None
    &&& extension.config@.len() == 0
    &&& extension.schema@ == (crate::schema::ArroyoSchemaView {
        fields: post_join_fields(join.schema@),
        timestamp_index: (post_join_fields(join.schema@).len() - 1) as nat,
        key_indices: None,
    })
    &&& extension.inputs@.len() == 1
    &&& extension.inputs[0] matches LogicalPlan::Projection { input: inner, .. }
    &&& is_timestamp_projection(extension.inputs[0], *inner)
    &&& is_keyed_join(*inner, join)
}

/// Rewrites the equalities of structs in the filter of a join.
pub struct StructEqRewriter {
    pub schema: Schema,
}

impl StructEqRewriter {
    /// Rewrites one node; see [`struct_eq_step`].
    pub fn f_up(&mut self, node: Expr) -> (r: Result<Transformed<Expr>, PlanError>)
        ensures
            final(self).schema == old(self).schema,
            match struct_eq_step(node@, old(self).schema@) {
                Ok(e) => r matches Ok(t) && t.data@ == e && t.transformed == struct_eq_applies(
                    node@,
                    old(self).schema@,
                ),
                Err(failure) => r matches Err(e) && e@ == failure,
            },
    {
        struct_eq_f_up(node, &self.schema)
    }
}

fn unzip_keys(on: &Vec<(Expr, Expr)>) -> (r: (Vec<Expr>, Vec<Expr>))
    ensures
        exprs_view(r.0@) == left_keys(on@),
        exprs_view(r.1@) == right_keys(on@),
{
    let mut left: Vec<Expr> = Vec::new();
    let mut right: Vec<Expr> = Vec::new();
    let mut i: usize = 0;
    while i < on.len()
        invariant
            i <= on.len(),
            left.len() == i,
            right.len() == i,
            forall|j: int| 0 <= j < i ==> #[trigger] left[j]@ == on[j].0@,
            forall|j: int| 0 <= j < i ==> #[trigger] right[j]@ == on[j].1@,
        decreases on.len() - i,
    {
        left.push(on[i].0.clone());
        right.push(on[i].1.clone());
        i += 1;
    }
    assert(exprs_view(left@) =~= left_keys(on@));
    assert(exprs_view(right@) =~= right_keys(on@));
    (left, right)
}

impl JoinRewriter {
    /// Rewrites one node of a plan. A join that can run becomes a streaming
    /// join, see [`is_join_extension`]; one that cannot is refused, see
    /// [`join_outcome`]; any other node stays.
    pub fn f_up(&mut self, node: LogicalPlan) -> (r: Result<Transformed<LogicalPlan>, PlanError>)
        ensures
            match node {
                LogicalPlan::Join(join) => match join_outcome(join) {
                    Err(failure) => r matches Err(e) && e@ == failure,
                    Ok(is_instant) => r matches Ok(t) && t.transformed && is_join_extension(
                        t.data,
                        join,
                        is_instant,
                    ),
                },
                _ => r matches Ok(t) && !t.transformed && t.data == node,
            },
    {
        let join = match node {
            LogicalPlan::Join(join) => join,
            other => {
                return Ok(Transformed { data: other, transformed: false });
            },
        };
        let ghost given = join;
        let is_instant = match Self::check_join_windowing(&join) {
            Ok(x) => x,
            Err(e) => {
                return Err(e);
            },
        };
        let Join {
            left,
            right,
            on,
            filter,
            join_type,
            join_constraint,
            schema,
            null_equals_null,
        } = join;
        match join_constraint {
            JoinConstraint::On => {},
            _ => {
                return Err(
                    PlanError::not_implemented("can't handle join constraint other than ON"),
                );
            },
        }
        if null_equals_null {
            return Err(PlanError::not_implemented("can't handle join constraint other than ON"));
        }
        match Self::check_updating(&*left, &*right) {
            Ok(()) => {},
            Err(e) => {
                return Err(e);
            },
        }
        if on.len() == 0 && !is_instant {
            return Err(
                PlanError::not_implemented("Updating joins must include an equijoin condition"),
            );
        }
        let (left_expressions, right_expressions) = unzip_keys(&on);
        let filter = match filter {
            Some(e) => match rewrite_struct_eq(&e, &schema) {
                Ok(rewritten) => Some(rewritten),
                Err(e) => {
                    return Err(e);
                },
            },
            None => None,
        };
        let left_input = match self.create_join_key_plan(*left, left_expressions, "left") {
            Ok(plan) => plan,
            Err(e) => {
                return Err(e);
            },
        };
        let right_input = match self.create_join_key_plan(*right, right_expressions, "right") {
            Ok(plan) => plan,
            Err(e) => {
                return Err(e);
            },
        };
        let rewritten_join = LogicalPlan::Join(
            Join {
                left: Box::new(left_input),
                right: Box::new(right_input),
                on,
                filter,
                join_type,
                join_constraint: JoinConstraint::On,
                schema,
                null_equals_null: false,
            },
        );
        assert(is_keyed_join(rewritten_join, given));
        let final_logical_plan = match self.post_join_timestamp_projection(rewritten_join) {
            Ok(plan) => plan,
            Err(e) => {
                return Err(e);
            },
        };
        let output = match &final_logical_plan {
            LogicalPlan::Projection { schema, .. } => schema.clone(),
            _ => {
                proof {
                    assert(false);
                }
                Schema { fields: Vec::new() }
            },
        };
        let timestamp_index = output.len() - 1;
        let mut inputs: Vec<LogicalPlan> = Vec::new();
        inputs.push(final_logical_plan);
        let extension = Extension {
            kind: OperatorKind::Join { is_instant },
            name: None,
            window: None,
            inputs,
            schema: ArroyoSchema::new_unkeyed(output, timestamp_index),
            config: Vec::new(),
        };
        Ok(Transformed { data: LogicalPlan::Extension(extension), transformed: true })
    }
}

// ---------------------------------------------------------------------------
// The schemas that the rewrite builds
// ---------------------------------------------------------------------------

/// No key column is named as the event-time column.
pub proof fn lemma_key_is_no_timestamp(index: nat)
    ensures
        key_name(index) != TIMESTAMP_FIELD@,
{
    reveal_strlit("_key_");
    reveal_strlit("_timestamp");
    assert(key_name(index)[1] == 'k');
    assert(TIMESTAMP_FIELD@[1] == 't');
}

/// The fields of the key columns are as many as the keys, each under its
/// key name and the key relation.
pub proof fn lemma_key_fields_shape(keys: Seq<ExprView>, upto: nat, input: Seq<FieldView>)
    requires
        upto <= keys.len(),
        key_fields(keys, upto, input) is Ok,
    ensures
        key_fields(keys, upto, input)->Ok_0.len() == upto,
        forall|i: int|
            0 <= i < upto ==> {
                let field = #[trigger] key_fields(keys, upto, input)->Ok_0[i];
                &&& field.qualifier == Some(KEY_QUALIFIER@)
                &&& field.name == key_name(i as nat)
                &&& typed(keys[i], input) == Ok::<(DataTypeView, bool), Failure>(
                    (field.data_type, field.nullable),
                )
            },
    decreases upto,
{
    if upto > 0 {
        lemma_key_fields_shape(keys, (upto - 1) as nat, input);
    }
}

/// The schema of a key projection is the key columns in front of the
/// columns of the input, keyed by the positions of the key columns; and
/// where the input has exactly one event-time column, of the type of event
/// times, the schema meets the invariant of streaming schemas.
pub proof fn lemma_key_plan_schema(keys: Seq<ExprView>, input: Seq<FieldView>)
    requires
        key_plan_schema(keys, input) is Ok,
    ensures
        ({
            let (fields, timestamp_index) = key_plan_schema(keys, input)->Ok_0;
            &&& fields.len() == keys.len() + input.len()
            &&& forall|i: int|
                0 <= i < keys.len() ==> (#[trigger] fields[i]).qualifier == Some(KEY_QUALIFIER@)
                    && fields[i].name == key_name(i as nat)
            &&& forall|i: int| 0 <= i < input.len() ==> #[trigger] fields[keys.len() + i] == input[i]
            &&& keys.len() <= timestamp_index < fields.len()
            &&& fields[timestamp_index as int].name == TIMESTAMP_FIELD@
            &&& (exists|p: int| crate::schema::sole_timestamp_at(input, p) && input[p].data_type
                == crate::schema::event_time_type()) ==> (crate::schema::ArroyoSchemaView {
                fields,
                timestamp_index,
                key_indices: Some(first_positions(keys.len())),
            }).wf()
        }),
{
    let (fields, timestamp_index) = key_plan_schema(keys, input)->Ok_0;
    let key_part = key_fields(keys, keys.len(), input)->Ok_0;
    lemma_key_fields_shape(keys, keys.len(), input);
    let names = Seq::new(input.len(), |i: int| input[i].name);
    let position = timestamp_position(input)->0 as int;
    assert(crate::codec::is_first_index(names, TIMESTAMP_FIELD@, position));
    assert(names[position] == input[position].name);
    assert forall|i: int| 0 <= i < keys.len() implies (#[trigger] fields[i]).qualifier == Some(
        KEY_QUALIFIER@,
    ) && fields[i].name == key_name(i as nat) by {
        assert(fields[i] == key_part[i]);
    }
    if exists|p: int|
        crate::schema::sole_timestamp_at(input, p) && input[p].data_type
            == crate::schema::event_time_type() {
        let p = choose|p: int|
            crate::schema::sole_timestamp_at(input, p) && input[p].data_type
                == crate::schema::event_time_type();
        assert(input[position].name == TIMESTAMP_FIELD@);
        assert(position == p);
        assert forall|i: int| 0 <= i < fields.len() implies ((#[trigger] fields[i]).name
            == TIMESTAMP_FIELD@ <==> i == timestamp_index) by {
            if i < keys.len() {
                lemma_key_is_no_timestamp(i as nat);
                assert(fields[i] == key_part[i]);
            } else {
                assert(fields[i] == input[i - keys.len()]);
            }
        }
        assert(fields[timestamp_index as int] == input[p]);
    }
}

/// The schema of the projection over a join has exactly one field named as
/// the event-time column, its last; where that field is of the type of
/// event times, the schema meets the invariant of streaming schemas.
pub proof fn lemma_post_join_schema(fields: Seq<FieldView>)
    requires
        fields.filter(is_timestamp()).len() == 2,
    ensures
        crate::schema::sole_timestamp_at(
            post_join_fields(fields),
            post_join_fields(fields).len() - 1,
        ),
        fields.filter(is_timestamp())[0].data_type == crate::schema::event_time_type() ==> (
        crate::schema::ArroyoSchemaView {
            fields: post_join_fields(fields),
            timestamp_index: (post_join_fields(fields).len() - 1) as nat,
            key_indices: None,
        }).wf(),
{
    let times = fields.filter(is_timestamp());
    let others = fields.filter(is_not_timestamp());
    let output = post_join_fields(fields);
    fields.lemma_filter_pred(is_timestamp(), 0);
    assert forall|i: int| 0 <= i < output.len() implies ((#[trigger] output[i]).name
        == TIMESTAMP_FIELD@ <==> i == output.len() - 1) by {
        if i < others.len() {
            fields.lemma_filter_pred(is_not_timestamp(), i);
            assert(output[i] == others[i]);
        }
    }
}

} // verus!

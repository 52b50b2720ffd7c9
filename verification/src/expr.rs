//! Expressions of a logical plan.

use crate::error::ErrorKind;
use crate::error::PlanError;
use crate::schema::DataType;
use crate::schema::DataTypeView;
use crate::schema::FieldView;
use crate::schema::IntervalUnit;
use crate::schema::Schema;
use crate::schema::TimeUnit;
use crate::text::same_text;
use crate::text::same_text_option;
use crate::text::clone_text_option;
use crate::text::text_option_view;
use vstd::prelude::*;
use vstd::string::*;

verus! {

/// A reference to a column, by name and, where given, by relation.
#[derive(Debug, PartialEq, Eq)]
pub struct Column {
    pub relation: Option<String>,
    pub name: String,
}

pub struct ColumnView {
    pub relation: Option<Seq<char>>,
    pub name: Seq<char>,
}

impl View for Column {
    type V = ColumnView;

    open spec fn view(&self) -> ColumnView {
        ColumnView { relation: text_option_view(self.relation), name: self.name@ }
    }
}

impl Clone for Column {
    fn clone(&self) -> (r: Self)
        ensures
            r@ == self@,
    {
        Column { relation: clone_text_option(&self.relation), name: self.name.clone() }
    }
}

/// A binary operator.
#[derive(Clone, Copy, Debug, PartialEq, Eq, Structural)]
pub enum Operator {
    Eq,
    NotEq,
    Lt,
    LtEq,
    Gt,
    GtEq,
    And,
    Or,
    Plus,
    Minus,
    Multiply,
    Divide,
}

/// An interval of months, days and nanoseconds.
#[derive(Clone, Copy, Debug, PartialEq, Eq, Structural)]
pub struct IntervalMonthDayNano {
    pub months: i32,
    pub days: i32,
    pub nanoseconds: i64,
}

/// A constant. `None` inside a variant is the null of that type.
#[derive(Debug, PartialEq, Eq)]
pub enum ScalarValue {
    Null,
    Boolean(Option<bool>),
    Int64(Option<i64>),
    Utf8(Option<String>),
    TimestampNanosecond(Option<i64>),
    IntervalMonthDayNano(Option<IntervalMonthDayNano>),
}

pub enum ScalarValueView {
    Null,
    Boolean(Option<bool>),
    Int64(Option<i64>),
    Utf8(Option<Seq<char>>),
    TimestampNanosecond(Option<i64>),
    IntervalMonthDayNano(Option<IntervalMonthDayNano>),
}

impl View for ScalarValue {
    type V = ScalarValueView;

    open spec fn view(&self) -> ScalarValueView {
        match self {
            ScalarValue::Null => ScalarValueView::Null,
            ScalarValue::Boolean(v) => ScalarValueView::Boolean(*v),
            ScalarValue::Int64(v) => ScalarValueView::Int64(*v),
            ScalarValue::Utf8(v) => ScalarValueView::Utf8(text_option_view(*v)),
            ScalarValue::TimestampNanosecond(v) => ScalarValueView::TimestampNanosecond(*v),
            ScalarValue::IntervalMonthDayNano(v) => ScalarValueView::IntervalMonthDayNano(*v),
        }
    }
}

impl Clone for ScalarValue {
    fn clone(&self) -> (r: Self)
        ensures
            r@ == self@,
    {
        match self {
            ScalarValue::Null => ScalarValue::Null,
            ScalarValue::Boolean(v) => ScalarValue::Boolean(*v),
            ScalarValue::Int64(v) => ScalarValue::Int64(*v),
            ScalarValue::Utf8(v) => ScalarValue::Utf8(clone_text_option(v)),
            ScalarValue::TimestampNanosecond(v) => ScalarValue::TimestampNanosecond(*v),
            ScalarValue::IntervalMonthDayNano(v) => ScalarValue::IntervalMonthDayNano(*v),
        }
    }
}

/// An expression over the columns of a plan.
#[derive(Debug, PartialEq, Eq)]
#[allow(inconsistent_fields)]
pub enum Expr {
    Column(Column),
    Literal(ScalarValue),
    BinaryExpr { left: Box<Expr>, op: Operator, right: Box<Expr> },
    /// `CASE expr WHEN w THEN t ... ELSE e END`.
    Case { expr: Option<Box<Expr>>, when_then_expr: Vec<(Expr, Expr)>, else_expr: Option<Box<Expr>> },
    /// A call of the scalar function `name`, which returns `return_type`.
    ScalarFunction { name: String, args: Vec<Expr>, return_type: DataType },
    /// An expression under a new name.
    Alias { expr: Box<Expr>, relation: Option<String>, name: String },
}

#[allow(inconsistent_fields)]
pub enum ExprView {
    Column(ColumnView),
    Literal(ScalarValueView),
    BinaryExpr { left: Box<ExprView>, op: Operator, right: Box<ExprView> },
    Case {
        expr: Option<Box<ExprView>>,
        when_then_expr: Seq<(ExprView, ExprView)>,
        else_expr: Option<Box<ExprView>>,
    },
    ScalarFunction { name: Seq<char>, args: Seq<ExprView>, return_type: DataTypeView },
    Alias { expr: Box<ExprView>, relation: Option<Seq<char>>, name: Seq<char> },
}

/// The name of the function that takes a field out of a struct.
pub const GET_FIELD: &'static str = "get_field";

/// The name of the function that returns its first argument that is not
/// null.
pub const COALESCE: &'static str = "coalesce";

/// The name of the function that rounds a timestamp down to a multiple of
/// an interval.
pub const DATE_BIN: &'static str = "date_bin";

impl Expr {
    pub open spec fn view(&self) -> ExprView
        decreases self,
    {
        match self {
            Expr::Column(c) => ExprView::Column(c@),
            Expr::Literal(v) => ExprView::Literal(v@),
            Expr::BinaryExpr { left, op, right } => ExprView::BinaryExpr {
                left: Box::new(left.view()),
                op: *op,
                right: Box::new(right.view()),
            },
            Expr::Case { expr, when_then_expr, else_expr } => ExprView::Case {
                expr: match expr {
                    Some(e) => Some(Box::new(e.view())),
                    None => None,
                },
                when_then_expr: Seq::new(
                    when_then_expr.len() as nat,
                    |i: int|
                        if 0 <= i < when_then_expr.len() {
                            (when_then_expr[i].0.view(), when_then_expr[i].1.view())
                        } else {
                            arbitrary()
                        },
                ),
                else_expr: match else_expr {
                    Some(e) => Some(Box::new(e.view())),
                    None => None,
                },
            },
            Expr::ScalarFunction { name, args, return_type } => ExprView::ScalarFunction {
                name: name@,
                args: Seq::new(
                    args.len() as nat,
                    |i: int|
                        if 0 <= i < args.len() {
                            args[i].view()
                        } else {
                            arbitrary()
                        },
                ),
                return_type: return_type@,
            },
            Expr::Alias { expr, relation, name } => ExprView::Alias {
                expr: Box::new(expr.view()),
                relation: text_option_view(*relation),
                name: name@,
            },
        }
    }

    /// A reference to the column `name` of `relation`.
    pub fn column(relation: Option<String>, name: String) -> (r: Expr)
        ensures
            r@ == ExprView::Column(ColumnView { relation: text_option_view(relation), name: name@ }),
    {
        Expr::Column(Column { relation, name })
    }

    /// The constant text `text`.
    pub fn lit_text(text: String) -> (r: Expr)
        ensures
            r@ == ExprView::Literal(ScalarValueView::Utf8(Some(text@))),
    {
        Expr::Literal(ScalarValue::Utf8(Some(text)))
    }

    /// The constant `value`.
    pub fn lit_bool(value: bool) -> (r: Expr)
        ensures
            r@ == ExprView::Literal(ScalarValueView::Boolean(Some(value))),
    {
        Expr::Literal(ScalarValue::Boolean(Some(value)))
    }

    /// `left op right`.
    pub fn binary(left: Expr, op: Operator, right: Expr) -> (r: Expr)
        ensures
            r@ == binary_view(left@, op, right@),
    {
        Expr::BinaryExpr { left: Box::new(left), op, right: Box::new(right) }
    }

    /// `self = other`.
    pub fn eq(self, other: Expr) -> (r: Expr)
        ensures
            r@ == binary_view(self@, Operator::Eq, other@),
    {
        Expr::binary(self, Operator::Eq, other)
    }

    /// `self AND other`.
    pub fn and(self, other: Expr) -> (r: Expr)
        ensures
            r@ == binary_view(self@, Operator::And, other@),
    {
        Expr::binary(self, Operator::And, other)
    }

    /// `self AS relation.name`.
    pub fn alias_qualified(self, relation: Option<String>, name: String) -> (r: Expr)
        ensures
            r@ == (ExprView::Alias {
                expr: Box::new(self@),
                relation: text_option_view(relation),
                name: name@,
            }),
    {
        Expr::Alias { expr: Box::new(self), relation, name }
    }
}

/// `left op right`.
pub open spec fn binary_view(left: ExprView, op: Operator, right: ExprView) -> ExprView {
    ExprView::BinaryExpr { left: Box::new(left), op, right: Box::new(right) }
}

fn clone_option_box(e: &Option<Box<Expr>>) -> (r: Option<Box<Expr>>)
    ensures
        match (e, r) {
            (Some(a), Some(b)) => a.view() == b.view(),
            (None, None) => true,
            _ => false,
        },
    decreases e,
{
    match e {
        Some(inner) => Some(Box::new((**inner).clone())),
        None => None,
    }
}

impl Clone for Expr {
    fn clone(&self) -> (r: Self)
        ensures
            r@ == self@,
        decreases self,
    {
        match self {
            Expr::Column(c) => Expr::Column(c.clone()),
            Expr::Literal(v) => Expr::Literal(v.clone()),
            Expr::BinaryExpr { left, op, right } => Expr::BinaryExpr {
                left: Box::new((**left).clone()),
                op: *op,
                right: Box::new((**right).clone()),
            },
            Expr::Case { expr, when_then_expr, else_expr } => {
                let mut pairs: Vec<(Expr, Expr)> = Vec::new();
                let mut i: usize = 0;
                while i < when_then_expr.len()
                    invariant
                        i <= when_then_expr.len(),
                        pairs.len() == i,
                        *self matches Expr::Case { when_then_expr: own, .. } && own
                            == when_then_expr,
                        forall|j: int|
                            0 <= j < i ==> pairs[j].0@ == when_then_expr[j].0@ && pairs[j].1@
                                == when_then_expr[j].1@,
                    decreases when_then_expr.len() - i,
                {
                    pairs.push((when_then_expr[i].0.clone(), when_then_expr[i].1.clone()));
                    i += 1;
                }
                let r = Expr::Case {
                    expr: clone_option_box(expr),
                    when_then_expr: pairs,
                    else_expr: clone_option_box(else_expr),
                };
                assert(r@->Case_when_then_expr =~= self@->Case_when_then_expr);
                r
            },
            Expr::ScalarFunction { name, args, return_type } => {
                let mut out: Vec<Expr> = Vec::new();
                let mut i: usize = 0;
                while i < args.len()
                    invariant
                        i <= args.len(),
                        out.len() == i,
                        *self matches Expr::ScalarFunction { args: own, .. } && own == args,
                        forall|j: int| 0 <= j < i ==> out[j]@ == args[j]@,
                    decreases args.len() - i,
                {
                    out.push(args[i].clone());
                    i += 1;
                }
                let r = Expr::ScalarFunction {
                    name: name.clone(),
                    args: out,
                    return_type: return_type.clone(),
                };
                assert(r@->ScalarFunction_args =~= self@->ScalarFunction_args);
                r
            },
            Expr::Alias { expr, relation, name } => Expr::Alias {
                expr: Box::new((**expr).clone()),
                relation: clone_text_option(relation),
                name: name.clone(),
            },
        }
    }
}

/// The views of a list of expressions.
pub open spec fn exprs_view(exprs: Seq<Expr>) -> Seq<ExprView> {
    Seq::new(exprs.len(), |i: int| exprs[i]@)
}

/// The views of a list of pairs of expressions.
pub open spec fn pairs_view(pairs: Seq<(Expr, Expr)>) -> Seq<(ExprView, ExprView)> {
    Seq::new(pairs.len(), |i: int| (pairs[i].0@, pairs[i].1@))
}

/// The view of an expression that may be absent.
pub open spec fn option_box_view(e: Option<Box<Expr>>) -> Option<Box<ExprView>> {
    match e {
        Some(inner) => Some(Box::new(inner@)),
        None => None,
    }
}

/// The view of a `CASE` is made of the views of its parts.
pub proof fn lemma_case_view(e: Expr)
    requires
        e is Case,
    ensures
        e@ == (ExprView::Case {
            expr: option_box_view(e->Case_expr),
            when_then_expr: pairs_view(e->when_then_expr@),
            else_expr: option_box_view(e->else_expr),
        }),
{
    assert(e@->Case_when_then_expr =~= pairs_view(e->when_then_expr@));
}

/// The view of a call is made of the views of its arguments.
pub proof fn lemma_call_view(e: Expr)
    requires
        e is ScalarFunction,
    ensures
        e@ == (ExprView::ScalarFunction {
            name: e->ScalarFunction_name@,
            args: exprs_view(e->args@),
            return_type: e->return_type@,
        }),
{
    assert(e@->ScalarFunction_args =~= exprs_view(e->args@));
}

// ---------------------------------------------------------------------------
// Types of expressions
// ---------------------------------------------------------------------------

/// Whether a field is the one that a column reference names: the names are
/// the same, and so are the relations where the reference gives one.
pub open spec fn matches_column(field: FieldView, column: ColumnView) -> bool {
    field.name == column.name && (column.relation is None || field.qualifier == column.relation)
}

/// Whether `i` is the first field that the column reference names.
pub open spec fn is_first_column(fields: Seq<FieldView>, column: ColumnView, i: int) -> bool {
    &&& 0 <= i < fields.len()
    &&& matches_column(fields[i], column)
    &&& forall|j: int| 0 <= j < i ==> !matches_column(#[trigger] fields[j], column)
}

/// The position of the first field that the column reference names.
pub open spec fn column_index(fields: Seq<FieldView>, column: ColumnView) -> Option<nat> {
    if exists|i: int| is_first_column(fields, column, i) {
        Some((choose|i: int| is_first_column(fields, column, i)) as nat)
    } else {
        None
    }
}

/// Finds the first field that the column reference names.
pub fn find_column(schema: &Schema, column: &Column) -> (r: Option<usize>)
    ensures
        match column_index(schema@, column@) {
            Some(i) => r == Some(i as usize),
            None => r is None,
        },
{
    let mut i: usize = 0;
    while i < schema.fields.len()
        invariant
            i <= schema.fields.len(),
            forall|j: int| 0 <= j < i ==> !matches_column(#[trigger] schema@[j], column@),
        decreases schema.fields.len() - i,
    {
        let field = &schema.fields[i];
        assert(schema@[i as int] == field@);
        let same_relation = match &column.relation {
            None => true,
            Some(_) => same_text_option(&field.qualifier, &column.relation),
        };
        if same_text(field.name.as_str(), column.name.as_str()) && same_relation {
            assert(is_first_column(schema@, column@, i as int));
            let ghost chosen = choose|k: int| is_first_column(schema@, column@, k);
            assert(chosen == i) by {
                if chosen < i {
                    assert(!matches_column(schema@[chosen], column@));
                } else if chosen > i {
                    assert(!matches_column(schema@[i as int], column@));
                }
            }
            return Some(i);
        }
        i += 1;
    }
    assert(forall|k: int| !is_first_column(schema@, column@, k));
    None
}

/// The type of a constant.
pub open spec fn literal_type(value: ScalarValueView) -> DataTypeView {
    match value {
        ScalarValueView::Null => DataTypeView::Null,
        ScalarValueView::Boolean(_) => DataTypeView::Boolean,
        ScalarValueView::Int64(_) => DataTypeView::Int64,
        ScalarValueView::Utf8(_) => DataTypeView::Utf8,
        ScalarValueView::TimestampNanosecond(_) => DataTypeView::Timestamp(TimeUnit::Nanosecond),
        ScalarValueView::IntervalMonthDayNano(_) => DataTypeView::Interval(
            IntervalUnit::MonthDayNano,
        ),
    }
}

/// Whether a constant is null.
pub open spec fn literal_is_null(value: ScalarValueView) -> bool {
    match value {
        ScalarValueView::Null => true,
        ScalarValueView::Boolean(v) => v is None,
        ScalarValueView::Int64(v) => v is None,
        ScalarValueView::Utf8(v) => v is None,
        ScalarValueView::TimestampNanosecond(v) => v is None,
        ScalarValueView::IntervalMonthDayNano(v) => v is None,
    }
}

/// Whether an operator yields a truth value.
pub open spec fn is_predicate(op: Operator) -> bool {
    !(op == Operator::Plus || op == Operator::Minus || op == Operator::Multiply || op
        == Operator::Divide)
}

/// The type of an expression over the given fields, and whether it can be
/// null.
///
/// A column has the type of the field it names. A comparison or a
/// connective is a truth value; an arithmetic expression has the type of its
/// left operand. A `CASE` has the type of its first branch and a call that
/// of the function; both count as nullable.
pub open spec fn typed(e: ExprView, fields: Seq<FieldView>) -> Result<
    (DataTypeView, bool),
    (ErrorKind, Seq<char>),
>
    decreases e,
{
    match e {
        ExprView::Column(c) => match column_index(fields, c) {
            Some(i) => Ok((fields[i as int].data_type, fields[i as int].nullable)),
            None => Err((ErrorKind::Plan, "No field named "@ + c.name)),
        },
        ExprView::Literal(v) => Ok((literal_type(v), literal_is_null(v))),
        ExprView::BinaryExpr { left, op, right } => match typed(*left, fields) {
            Err(e) => Err(e),
            Ok((left_type, left_null)) => match typed(*right, fields) {
                Err(e) => Err(e),
                Ok((_, right_null)) => Ok(
                    (
                        if is_predicate(op) {
                            DataTypeView::Boolean
                        } else {
                            left_type
                        },
                        left_null || right_null,
                    ),
                ),
            },
        },
        ExprView::Case { when_then_expr, .. } => if when_then_expr.len() == 0 {
            Err((ErrorKind::Plan, "CASE must have a WHEN branch"@))
        } else {
            match typed(when_then_expr[0].1, fields) {
                Err(e) => Err(e),
                Ok((branch_type, _)) => Ok((branch_type, true)),
            }
        },
        ExprView::ScalarFunction { return_type, .. } => Ok((return_type, true)),
        ExprView::Alias { expr, .. } => typed(*expr, fields),
    }
}

fn literal_data_type(value: &ScalarValue) -> (r: (DataType, bool))
    ensures
        r.0@ == literal_type(value@),
        r.1 == literal_is_null(value@),
{
    match value {
        ScalarValue::Null => (DataType::Null, true),
        ScalarValue::Boolean(v) => (DataType::Boolean, v.is_none()),
        ScalarValue::Int64(v) => (DataType::Int64, v.is_none()),
        ScalarValue::Utf8(v) => (DataType::Utf8, v.is_none()),
        ScalarValue::TimestampNanosecond(v) => (
            DataType::Timestamp(TimeUnit::Nanosecond),
            v.is_none(),
        ),
        ScalarValue::IntervalMonthDayNano(v) => (
            DataType::Interval(IntervalUnit::MonthDayNano),
            v.is_none(),
        ),
    }
}

fn op_is_predicate(op: Operator) -> (r: bool)
    ensures
        r == is_predicate(op),
{
    match op {
        Operator::Plus => false,
        Operator::Minus => false,
        Operator::Multiply => false,
        Operator::Divide => false,
        _ => true,
    }
}

/// The outcome of typing, by views.
pub open spec fn typed_view(r: Result<(DataType, bool), PlanError>) -> Result<
    (DataTypeView, bool),
    (ErrorKind, Seq<char>),
> {
    match r {
        Ok((data_type, nullable)) => Ok((data_type@, nullable)),
        Err(e) => Err(e@),
    }
}

impl Expr {
    /// The type of the expression over `schema`, and whether it can be null.
    pub fn data_type_and_nullable(&self, schema: &Schema) -> (r: Result<
        (DataType, bool),
        PlanError,
    >)
        ensures
            typed_view(r) == typed(self@, schema@),
        decreases self,
    {
        match self {
            Expr::Column(c) => match find_column(schema, c) {
                Some(i) => {
                    assert(schema@[i as int] == schema.fields[i as int]@);
                    Ok((schema.fields[i].data_type.clone(), schema.fields[i].nullable))
                },
                None => {
                    let message = "No field named ".to_owned().concat(c.name.as_str());
                    Err(PlanError { kind: ErrorKind::Plan, message })
                },
            },
            Expr::Literal(v) => Ok(literal_data_type(v)),
            Expr::BinaryExpr { left, op, right } => {
                let (left_type, left_null) = match left.data_type_and_nullable(schema) {
                    Ok(found) => found,
                    Err(e) => {
                        return Err(e);
                    },
                };
                let (_, right_null) = match right.data_type_and_nullable(schema) {
                    Ok(found) => found,
                    Err(e) => {
                        return Err(e);
                    },
                };
                if op_is_predicate(*op) {
                    Ok((DataType::Boolean, left_null || right_null))
                } else {
                    Ok((left_type, left_null || right_null))
                }
            },
            Expr::Case { when_then_expr, .. } => {
                if when_then_expr.len() == 0 {
                    Err(PlanError::plan("CASE must have a WHEN branch"))
                } else {
                    match when_then_expr[0].1.data_type_and_nullable(schema) {
                        Ok((branch_type, _)) => Ok((branch_type, true)),
                        Err(e) => Err(e),
                    }
                }
            },
            Expr::ScalarFunction { return_type, .. } => Ok((return_type.clone(), true)),
            Expr::Alias { expr, .. } => expr.data_type_and_nullable(schema),
        }
    }
}

} // verus!

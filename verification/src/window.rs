//! The `window(start, end)` scalar function, which builds the window
//! descriptor of a row from two event times.

use crate::error::ErrorKind;
use crate::error::PlanError;
use crate::schema::event_time_type;
use crate::schema::DataType;
use crate::schema::DataTypeView;
use crate::schema::TimeUnit;
use crate::text::decimal_text;
use crate::text::usize_to_text;
use vstd::prelude::*;
use vstd::string::*;

verus! {

/// An argument of a scalar function: a column of values, or one value that
/// stands for every row. A cell holds the 64-bit representation of its
/// value, which for a timestamp is its count of nanoseconds.
#[derive(Debug, PartialEq, Eq)]
pub enum ColumnarValue {
    Array { data_type: DataType, values: Vec<Option<i64>> },
    Scalar { data_type: DataType, value: Option<i64> },
}

/// The cells of an argument.
pub enum Cells {
    Array(Seq<Option<i64>>),
    Scalar(Option<i64>),
}

impl ColumnarValue {
    pub open spec fn type_view(&self) -> DataTypeView {
        match self {
            ColumnarValue::Array { data_type, .. } => data_type@,
            ColumnarValue::Scalar { data_type, .. } => data_type@,
        }
    }

    pub open spec fn cells(&self) -> Cells {
        match self {
            ColumnarValue::Array { values, .. } => Cells::Array(values@),
            ColumnarValue::Scalar { value, .. } => Cells::Scalar(*value),
        }
    }

    pub fn data_type(&self) -> (r: &DataType)
        ensures
            r@ == self.type_view(),
    {
        match self {
            ColumnarValue::Array { data_type, .. } => data_type,
            ColumnarValue::Scalar { data_type, .. } => data_type,
        }
    }
}

/// The result of `window`: a struct of the two non-null nanosecond
/// timestamps `start` and `end`, as a column or as one value.
#[derive(Debug, PartialEq, Eq)]
#[allow(inconsistent_fields)]
pub enum WindowValue {
    Array { start: Vec<Option<i64>>, end: Vec<Option<i64>> },
    Scalar { start: Option<i64>, end: Option<i64> },
}

#[allow(inconsistent_fields)]
pub enum WindowValueView {
    Array { start: Seq<Option<i64>>, end: Seq<Option<i64>> },
    Scalar { start: Option<i64>, end: Option<i64> },
}

impl View for WindowValue {
    type V = WindowValueView;

    open spec fn view(&self) -> WindowValueView {
        match self {
            WindowValue::Array { start, end } => WindowValueView::Array {
                start: start@,
                end: end@,
            },
            WindowValue::Scalar { start, end } => WindowValueView::Scalar {
                start: *start,
                end: *end,
            },
        }
    }
}

impl WindowValueView {
    /// The number of rows of a column; a single value has none.
    pub open spec fn rows(self) -> Option<nat> {
        match self {
            WindowValueView::Array { start, .. } => Some(start.len()),
            WindowValueView::Scalar { .. } => None,
        }
    }
}

/// The window of each row: where one argument is a single value, it stands
/// for every row of the other; two single values give a single window.
pub open spec fn window_of(start: Cells, end: Cells) -> WindowValueView {
    match (start, end) {
        (Cells::Array(s), Cells::Array(e)) => WindowValueView::Array { start: s, end: e },
        (Cells::Array(s), Cells::Scalar(e)) => WindowValueView::Array {
            start: s,
            end: Seq::new(s.len(), |i: int| e),
        },
        (Cells::Scalar(s), Cells::Array(e)) => WindowValueView::Array {
            start: Seq::new(e.len(), |i: int| s),
            end: e,
        },
        (Cells::Scalar(s), Cells::Scalar(e)) => WindowValueView::Scalar { start: s, end: e },
    }
}

/// Whether two arguments that are both columns have the same number of rows.
pub open spec fn rows_agree(start: Cells, end: Cells) -> bool {
    match (start, end) {
        (Cells::Array(s), Cells::Array(e)) => s.len() == e.len(),
        _ => true,
    }
}

/// A column of `size` rows that all hold `value`.
pub fn to_array_of_size(value: Option<i64>, size: usize) -> (r: Vec<Option<i64>>)
    ensures
        r@ == Seq::new(size as nat, |i: int| value),
{
    let mut out: Vec<Option<i64>> = Vec::new();
    let mut i: usize = 0;
    while i < size
        invariant
            i <= size,
            out@ == Seq::new(i as nat, |j: int| value),
        decreases size - i,
    {
        out.push(value);
        i += 1;
        assert(out@ =~= Seq::new(i as nat, |j: int| value));
    }
    out
}

fn is_event_time(data_type: &DataType) -> (r: bool)
    ensures
        r == (data_type@ == event_time_type()),
{
    match data_type {
        DataType::Timestamp(TimeUnit::Nanosecond) => true,
        _ => false,
    }
}

/// What `window` returns for its arguments.
pub open spec fn window_result(columns: Seq<ColumnarValue>) -> Result<
    WindowValueView,
    (ErrorKind, Seq<char>),
> {
    if columns.len() != 2 {
        Err(
            (
                ErrorKind::TypeMismatch,
                "window function expected 2 argument, got "@ + decimal_text(columns.len()),
            ),
        )
    } else if columns[0].type_view() != event_time_type() {
        Err(
            (
                ErrorKind::TypeMismatch,
                "window function expected first argument to be a timestamp"@,
            ),
        )
    } else if columns[1].type_view() != event_time_type() {
        Err(
            (
                ErrorKind::TypeMismatch,
                "window function expected second argument to be a timestamp"@,
            ),
        )
    } else {
        Ok(window_of(columns[0].cells(), columns[1].cells()))
    }
}

/// Builds the window descriptor of each row from its start and end time.
///
/// There must be exactly two arguments, both nanosecond timestamps; two
/// columns must have the same number of rows.
pub fn window_function(columns: &[ColumnarValue]) -> (r: Result<WindowValue, PlanError>)
    requires
        window_result(columns@) is Ok ==> rows_agree(columns[0].cells(), columns[1].cells()),
    ensures
        match window_result(columns@) {
            Ok(window) => r matches Ok(found) && found@ == window,
            Err(error) => r matches Err(e) && e@ == error,
        },
{
    if columns.len() != 2 {
        let message = "window function expected 2 argument, got ".to_owned().concat(
            usize_to_text(columns.len()).as_str(),
        );
        return Err(PlanError { kind: ErrorKind::TypeMismatch, message });
    }
    if !is_event_time(columns[0].data_type()) {
        return Err(
            PlanError::type_mismatch("window function expected first argument to be a timestamp"),
        );
    }
    if !is_event_time(columns[1].data_type()) {
        return Err(
            PlanError::type_mismatch("window function expected second argument to be a timestamp"),
        );
    }
    match (&columns[0], &columns[1]) {
        (ColumnarValue::Array { values: start, .. }, ColumnarValue::Array { values: end, .. }) => {
            Ok(WindowValue::Array { start: start.clone(), end: end.clone() })
        },
        (
            ColumnarValue::Array { values: start, .. },
            ColumnarValue::Scalar { value: end, .. },
        ) => {
            let end = to_array_of_size(*end, start.len());
            Ok(WindowValue::Array { start: start.clone(), end })
        },
        (
            ColumnarValue::Scalar { value: start, .. },
            ColumnarValue::Array { values: end, .. },
        ) => {
            let start = to_array_of_size(*start, end.len());
            Ok(WindowValue::Array { start, end: end.clone() })
        },
        (
            ColumnarValue::Scalar { value: start, .. },
            ColumnarValue::Scalar { value: end, .. },
        ) => Ok(WindowValue::Scalar { start: *start, end: *end }),
    }
}

/// The result has rows exactly when an argument is a column, and then as
/// many as that column.
pub proof fn lemma_window_rows(start: Cells, end: Cells)
    requires
        rows_agree(start, end),
    ensures
        window_of(start, end).rows() == match (start, end) {
            (Cells::Array(s), _) => Some(s.len()),
            (_, Cells::Array(e)) => Some(e.len()),
            _ => None::<nat>,
        },
{
}

} // verus!

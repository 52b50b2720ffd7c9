//! Record schemas: data types, named fields, and the streaming schema that
//! marks the event-time column and the key columns.

use crate::text::clone_text_option;
use crate::text::same_text;
use crate::text::same_text_option;
use crate::text::text_option_view;
use vstd::prelude::*;
use vstd::string::*;

verus! {

/// The resolution of a timestamp.
#[derive(Clone, Copy, Debug, PartialEq, Eq, Structural)]
pub enum TimeUnit {
    Second,
    Millisecond,
    Microsecond,
    Nanosecond,
}

/// The unit of an interval.
#[derive(Clone, Copy, Debug, PartialEq, Eq, Structural)]
pub enum IntervalUnit {
    YearMonth,
    DayTime,
    MonthDayNano,
}

/// The type of a column: a scalar type, a struct with its fields, or a list.
#[derive(Debug, PartialEq, Eq)]
pub enum DataType {
    Null,
    Boolean,
    Int8,
    Int16,
    Int32,
    Int64,
    UInt8,
    UInt16,
    UInt32,
    UInt64,
    Float16,
    Float32,
    Float64,
    Utf8,
    LargeUtf8,
    Binary,
    LargeBinary,
    Date32,
    Date64,
    /// A timestamp without a time zone.
    Timestamp(TimeUnit),
    Time32(TimeUnit),
    Time64(TimeUnit),
    Duration(TimeUnit),
    Interval(IntervalUnit),
    /// A decimal number of the given precision and scale.
    Decimal128(u8, i8),
    Struct(Vec<Field>),
    List(Box<Field>),
}

/// A named, typed column. Columns of a query schema may carry the name of
/// the relation they come from.
#[derive(Debug, PartialEq, Eq)]
pub struct Field {
    pub qualifier: Option<String>,
    pub name: String,
    pub data_type: DataType,
    pub nullable: bool,
}

pub enum DataTypeView {
    Null,
    Boolean,
    Int8,
    Int16,
    Int32,
    Int64,
    UInt8,
    UInt16,
    UInt32,
    UInt64,
    Float16,
    Float32,
    Float64,
    Utf8,
    LargeUtf8,
    Binary,
    LargeBinary,
    Date32,
    Date64,
    Timestamp(TimeUnit),
    Time32(TimeUnit),
    Time64(TimeUnit),
    Duration(TimeUnit),
    Interval(IntervalUnit),
    Decimal128(u8, i8),
    Struct(Seq<FieldView>),
    List(Box<FieldView>),
}

pub struct FieldView {
    pub qualifier: Option<Seq<char>>,
    pub name: Seq<char>,
    pub data_type: DataTypeView,
    pub nullable: bool,
}

impl DataType {
    pub open spec fn view(&self) -> DataTypeView
        decreases self,
    {
        match self {
            DataType::Null => DataTypeView::Null,
            DataType::Boolean => DataTypeView::Boolean,
            DataType::Int8 => DataTypeView::Int8,
            DataType::Int16 => DataTypeView::Int16,
            DataType::Int32 => DataTypeView::Int32,
            DataType::Int64 => DataTypeView::Int64,
            DataType::UInt8 => DataTypeView::UInt8,
            DataType::UInt16 => DataTypeView::UInt16,
            DataType::UInt32 => DataTypeView::UInt32,
            DataType::UInt64 => DataTypeView::UInt64,
            DataType::Float16 => DataTypeView::Float16,
            DataType::Float32 => DataTypeView::Float32,
            DataType::Float64 => DataTypeView::Float64,
            DataType::Utf8 => DataTypeView::Utf8,
            DataType::LargeUtf8 => DataTypeView::LargeUtf8,
            DataType::Binary => DataTypeView::Binary,
            DataType::LargeBinary => DataTypeView::LargeBinary,
            DataType::Date32 => DataTypeView::Date32,
            DataType::Date64 => DataTypeView::Date64,
            DataType::Timestamp(unit) => DataTypeView::Timestamp(*unit),
            DataType::Time32(unit) => DataTypeView::Time32(*unit),
            DataType::Time64(unit) => DataTypeView::Time64(*unit),
            DataType::Duration(unit) => DataTypeView::Duration(*unit),
            DataType::Interval(unit) => DataTypeView::Interval(*unit),
            DataType::Decimal128(precision, scale) => DataTypeView::Decimal128(*precision, *scale),
            DataType::Struct(fields) => DataTypeView::Struct(
                Seq::new(
                    fields.len() as nat,
                    |i: int|
                        if 0 <= i < fields.len() {
                            fields[i].view()
                        } else {
                            arbitrary()
                        },
                ),
            ),
            DataType::List(item) => DataTypeView::List(Box::new(item.view())),
        }
    }

    /// Whether the type has parts of its own.
    pub open spec fn spec_is_nested(&self) -> bool {
        self is Struct || self is List
    }

    #[verifier::when_used_as_spec(spec_is_nested)]
    pub fn is_nested(&self) -> (r: bool)
        ensures
            r == self.spec_is_nested(),
    {
        match self {
            DataType::Struct(_) => true,
            DataType::List(_) => true,
            _ => false,
        }
    }

    /// Whether two types are the same.
    pub fn same_as(&self, other: &DataType) -> (r: bool)
        ensures
            r == (self@ == other@),
        decreases self,
    {
        match (self, other) {
            (DataType::Null, DataType::Null) => true,
            (DataType::Boolean, DataType::Boolean) => true,
            (DataType::Int8, DataType::Int8) => true,
            (DataType::Int16, DataType::Int16) => true,
            (DataType::Int32, DataType::Int32) => true,
            (DataType::Int64, DataType::Int64) => true,
            (DataType::UInt8, DataType::UInt8) => true,
            (DataType::UInt16, DataType::UInt16) => true,
            (DataType::UInt32, DataType::UInt32) => true,
            (DataType::UInt64, DataType::UInt64) => true,
            (DataType::Float16, DataType::Float16) => true,
            (DataType::Float32, DataType::Float32) => true,
            (DataType::Float64, DataType::Float64) => true,
            (DataType::Utf8, DataType::Utf8) => true,
            (DataType::LargeUtf8, DataType::LargeUtf8) => true,
            (DataType::Binary, DataType::Binary) => true,
            (DataType::LargeBinary, DataType::LargeBinary) => true,
            (DataType::Date32, DataType::Date32) => true,
            (DataType::Date64, DataType::Date64) => true,
            (DataType::Timestamp(a), DataType::Timestamp(b)) => *a == *b,
            (DataType::Time32(a), DataType::Time32(b)) => *a == *b,
            (DataType::Time64(a), DataType::Time64(b)) => *a == *b,
            (DataType::Duration(a), DataType::Duration(b)) => *a == *b,
            (DataType::Interval(a), DataType::Interval(b)) => *a == *b,
            (DataType::Decimal128(a, b), DataType::Decimal128(c, d)) => *a == *c && *b == *d,
            (DataType::Struct(a), DataType::Struct(b)) => {
                if a.len() != b.len() {
                    assert(self@->Struct_0.len() != other@->Struct_0.len());
                    return false;
                }
                let mut i: usize = 0;
                while i < a.len()
                    invariant
                        i <= a.len() == b.len(),
                        *self matches DataType::Struct(fields) && fields == a,
                        *other matches DataType::Struct(fields) && fields == b,
                        forall|j: int| 0 <= j < i ==> a[j]@ == b[j]@,
                    decreases a.len() - i,
                {
                    if !a[i].same_as(&b[i]) {
                        assert(self@->Struct_0[i as int] == a[i as int]@);
                        assert(other@->Struct_0[i as int] == b[i as int]@);
                        return false;
                    }
                    i += 1;
                }
                assert(self@->Struct_0 =~= other@->Struct_0);
                true
            },
            (DataType::List(a), DataType::List(b)) => a.same_as(b),
            _ => false,
        }
    }
}

impl Clone for DataType {
    fn clone(&self) -> (r: Self)
        ensures
            r@ == self@,
        decreases self,
    {
        match self {
            DataType::Null => DataType::Null,
            DataType::Boolean => DataType::Boolean,
            DataType::Int8 => DataType::Int8,
            DataType::Int16 => DataType::Int16,
            DataType::Int32 => DataType::Int32,
            DataType::Int64 => DataType::Int64,
            DataType::UInt8 => DataType::UInt8,
            DataType::UInt16 => DataType::UInt16,
            DataType::UInt32 => DataType::UInt32,
            DataType::UInt64 => DataType::UInt64,
            DataType::Float16 => DataType::Float16,
            DataType::Float32 => DataType::Float32,
            DataType::Float64 => DataType::Float64,
            DataType::Utf8 => DataType::Utf8,
            DataType::LargeUtf8 => DataType::LargeUtf8,
            DataType::Binary => DataType::Binary,
            DataType::LargeBinary => DataType::LargeBinary,
            DataType::Date32 => DataType::Date32,
            DataType::Date64 => DataType::Date64,
            DataType::Timestamp(unit) => DataType::Timestamp(*unit),
            DataType::Time32(unit) => DataType::Time32(*unit),
            DataType::Time64(unit) => DataType::Time64(*unit),
            DataType::Duration(unit) => DataType::Duration(*unit),
            DataType::Interval(unit) => DataType::Interval(*unit),
            DataType::Decimal128(precision, scale) => DataType::Decimal128(*precision, *scale),
            DataType::Struct(fields) => {
                let mut out: Vec<Field> = Vec::new();
                let mut i: usize = 0;
                while i < fields.len()
                    invariant
                        i <= fields.len(),
                        out.len() == i,
                        *self matches DataType::Struct(own) && own == fields,
                        forall|j: int| 0 <= j < i ==> out[j]@ == fields[j]@,
                    decreases fields.len() - i,
                {
                    out.push(fields[i].clone());
                    i += 1;
                }
                let r = DataType::Struct(out);
                assert(r@->Struct_0 =~= self@->Struct_0);
                r
            },
            DataType::List(item) => DataType::List(Box::new((**item).clone())),
        }
    }
}

impl Field {
    pub open spec fn view(&self) -> FieldView
        decreases self,
    {
        FieldView {
            qualifier: text_option_view(self.qualifier),
            name: self.name@,
            data_type: self.data_type.view(),
            nullable: self.nullable,
        }
    }

    /// A column that belongs to no relation.
    pub fn new(name: &str, data_type: DataType, nullable: bool) -> (field: Field)
        ensures
            field@ == (FieldView {
                qualifier: None,
                name: name@,
                data_type: data_type@,
                nullable,
            }),
    {
        Field { qualifier: None, name: name.to_owned(), data_type, nullable }
    }

    /// A column of the relation `qualifier`.
    pub fn new_qualified(qualifier: &str, name: &str, data_type: DataType, nullable: bool) -> (field:
        Field)
        ensures
            field@ == (FieldView {
                qualifier: Some(qualifier@),
                name: name@,
                data_type: data_type@,
                nullable,
            }),
    {
        Field {
            qualifier: Some(qualifier.to_owned()),
            name: name.to_owned(),
            data_type,
            nullable,
        }
    }

    /// Whether two fields are the same in relation, name, type and
    /// nullability.
    pub fn same_as(&self, other: &Field) -> (r: bool)
        ensures
            r == (self@ == other@),
        decreases self,
    {
        same_text_option(&self.qualifier, &other.qualifier) && self.name == other.name && self.nullable == other.nullable
            && self.data_type.same_as(&other.data_type)
    }
}

impl Clone for Field {
    fn clone(&self) -> (r: Self)
        ensures
            r@ == self@,
        decreases self,
    {
        Field {
            qualifier: clone_text_option(&self.qualifier),
            name: self.name.clone(),
            data_type: self.data_type.clone(),
            nullable: self.nullable,
        }
    }
}

/// The name of the event-time column.
pub const TIMESTAMP_FIELD: &'static str = "_timestamp";

/// The name of the column that marks a row of an updating stream as a
/// retraction.
pub const IS_RETRACT_FIELD: &'static str = "_is_retract";

/// The type of the event-time column.
pub open spec fn event_time_type() -> DataTypeView {
    DataTypeView::Timestamp(TimeUnit::Nanosecond)
}

/// The event-time column as it is appended to a schema.
pub open spec fn event_time_field() -> FieldView {
    FieldView {
        qualifier: None,
        name: TIMESTAMP_FIELD@,
        data_type: event_time_type(),
        nullable: false,
    }
}

/// An ordered list of fields.
#[derive(Debug, PartialEq, Eq)]
pub struct Schema {
    pub fields: Vec<Field>,
}

impl Schema {
    pub open spec fn view(&self) -> Seq<FieldView> {
        Seq::new(self.fields.len() as nat, |i: int| self.fields[i]@)
    }

    pub fn new(fields: Vec<Field>) -> (schema: Schema)
        ensures
            schema.fields == fields,
    {
        Schema { fields }
    }

    pub fn len(&self) -> (n: usize)
        ensures
            n == self@.len(),
    {
        self.fields.len()
    }

    /// Whether some field has the given name, whatever its relation.
    pub fn has_column_with_unqualified_name(&self, name: &str) -> (r: bool)
        ensures
            r == has_field_named(self@, name@),
    {
        let mut i: usize = 0;
        while i < self.fields.len()
            invariant
                i <= self.fields.len(),
                forall|j: int| 0 <= j < i ==> self@[j].name != name@,
            decreases self.fields.len() - i,
        {
            if same_text(self.fields[i].name.as_str(), name) {
                assert(self@[i as int].name == name@);
                return true;
            }
            i += 1;
        }
        false
    }

    /// The schema with the event-time column appended.
    pub fn add_timestamp_field(&self) -> (r: Schema)
        ensures
            r@ == self@.push(event_time_field()),
    {
        let mut out = self.clone();
        let ghost before = out@;
        out.fields.push(
            Field::new(TIMESTAMP_FIELD, DataType::Timestamp(TimeUnit::Nanosecond), false),
        );
        assert(out@ =~= before.push(event_time_field()));
        out
    }
}

impl Clone for Schema {
    fn clone(&self) -> (r: Self)
        ensures
            r@ == self@,
    {
        let mut out: Vec<Field> = Vec::new();
        let mut i: usize = 0;
        while i < self.fields.len()
            invariant
                i <= self.fields.len(),
                out.len() == i,
                forall|j: int| 0 <= j < i ==> out[j]@ == self.fields[j]@,
            decreases self.fields.len() - i,
        {
            out.push(self.fields[i].clone());
            i += 1;
        }
        let r = Schema { fields: out };
        assert(r@ =~= self@);
        r
    }
}

/// Whether some field of the list has the given name.
pub open spec fn has_field_named(fields: Seq<FieldView>, name: Seq<char>) -> bool {
    exists|i: int| 0 <= i < fields.len() && #[trigger] fields[i].name == name
}

/// Whether the field at `index`, and no other, is named as the event-time
/// column.
pub open spec fn sole_timestamp_at(fields: Seq<FieldView>, index: int) -> bool {
    &&& 0 <= index < fields.len()
    &&& forall|i: int|
        0 <= i < fields.len() ==> (#[trigger] fields[i].name == TIMESTAMP_FIELD@ <==> i == index)
}

/// A schema of a stream: its fields, the position of the event-time column
/// and, for a keyed stream, the positions of the key columns.
#[derive(Debug, PartialEq, Eq)]
pub struct ArroyoSchema {
    pub schema: Schema,
    pub timestamp_index: usize,
    pub key_indices: Option<Vec<usize>>,
}

pub struct ArroyoSchemaView {
    pub fields: Seq<FieldView>,
    pub timestamp_index: nat,
    pub key_indices: Option<Seq<usize>>,
}

impl ArroyoSchema {
    pub open spec fn view(&self) -> ArroyoSchemaView {
        ArroyoSchemaView {
            fields: self.schema@,
            timestamp_index: self.timestamp_index as nat,
            key_indices: match self.key_indices {
                Some(keys) => Some(keys@),
                None => None,
            },
        }
    }

    /// A keyed schema from its parts.
    pub fn new_keyed(schema: Schema, timestamp_index: usize, key_indices: Vec<usize>) -> (r:
        ArroyoSchema)
        ensures
            r@ == (ArroyoSchemaView {
                fields: schema@,
                timestamp_index: timestamp_index as nat,
                key_indices: Some(key_indices@),
            }),
    {
        ArroyoSchema { schema, timestamp_index, key_indices: Some(key_indices) }
    }

    /// An unkeyed schema from its parts.
    pub fn new_unkeyed(schema: Schema, timestamp_index: usize) -> (r: ArroyoSchema)
        ensures
            r@ == (ArroyoSchemaView {
                fields: schema@,
                timestamp_index: timestamp_index as nat,
                key_indices: None,
            }),
    {
        ArroyoSchema { schema, timestamp_index, key_indices: None }
    }
}

impl ArroyoSchema {
    /// Whether the schema meets the invariant of a streaming schema.
    #[verifier::loop_isolation(false)]
    pub fn is_valid(&self) -> (r: bool)
        ensures
            r == self@.wf(),
    {
        let fields = &self.schema.fields;
        let ghost views = self.schema@;
        if self.timestamp_index >= fields.len() {
            return false;
        }
        let mut i: usize = 0;
        while i < fields.len()
            invariant
                i <= fields.len(),
                self.timestamp_index < fields.len(),
                views == self.schema@,
                forall|j: int|
                    0 <= j < i ==> ((#[trigger] views[j]).name == TIMESTAMP_FIELD@ <==> j
                        == self.timestamp_index),
            decreases fields.len() - i,
        {
            assert(views[i as int] == fields[i as int]@);
            if same_text(fields[i].name.as_str(), TIMESTAMP_FIELD) != (i == self.timestamp_index) {
                assert(!((#[trigger] views[i as int]).name == TIMESTAMP_FIELD@ <==> i
                    == self.timestamp_index));
                assert(!sole_timestamp_at(views, self.timestamp_index as int));
                return false;
            }
            i += 1;
        }
        assert(views[self.timestamp_index as int] == fields[self.timestamp_index as int]@);
        match &fields[self.timestamp_index].data_type {
            DataType::Timestamp(TimeUnit::Nanosecond) => {},
            _ => {
                return false;
            },
        }
        match &self.key_indices {
            None => true,
            Some(keys) => {
                let mut k: usize = 0;
                while k < keys.len()
                    invariant
                        k <= keys.len(),
                        forall|j: int| 0 <= j < k ==> #[trigger] keys[j] < fields.len(),
                    decreases keys.len() - k,
                {
                    if keys[k] >= fields.len() {
                        assert(self@.key_indices->0[k as int] >= self@.fields.len());
                        return false;
                    }
                    k += 1;
                }
                true
            },
        }
    }
}

impl Clone for ArroyoSchema {
    fn clone(&self) -> (r: Self)
        ensures
            r@ == self@,
    {
        let key_indices = match &self.key_indices {
            Some(keys) => Some(keys.clone()),
            None => None,
        };
        ArroyoSchema {
            schema: self.schema.clone(),
            timestamp_index: self.timestamp_index,
            key_indices,
        }
    }
}

impl ArroyoSchemaView {
    /// The invariant of a streaming schema: exactly one field is named as
    /// the event-time column, it stands at `timestamp_index` and is a
    /// nanosecond timestamp, and every key index names a field.
    pub open spec fn wf(self) -> bool {
        &&& sole_timestamp_at(self.fields, self.timestamp_index as int)
        &&& self.fields[self.timestamp_index as int].data_type == event_time_type()
        &&& self.key_indices matches Some(keys) ==> forall|i: int|
            0 <= i < keys.len() ==> #[trigger] keys[i] < self.fields.len()
    }
}

} // verus!

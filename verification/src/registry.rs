//! The catalog of scalar functions that the planner can call: `window` and
//! the JSON functions. There are no aggregate or window functions of the
//! engine's own.

use crate::error::ErrorKind;
use crate::error::PlanError;
use crate::schema::DataType;
use crate::schema::DataTypeView;
use crate::schema::Field;
use crate::schema::FieldView;
use crate::schema::TimeUnit;
use crate::text::same_text;
use vstd::prelude::*;
use vstd::string::*;

verus! {

/// Whether a function gives the same result for the same arguments.
#[derive(Clone, Copy, Debug, PartialEq, Eq, Structural)]
pub enum Volatility {
    Immutable,
    Stable,
    Volatile,
}

/// The types of the arguments that a function takes, in order, and its
/// volatility.
#[derive(Debug, PartialEq, Eq)]
pub struct Signature {
    pub argument_types: Vec<DataType>,
    pub volatility: Volatility,
}

/// A scalar function: its name, what it takes and what it returns.
#[derive(Debug, PartialEq, Eq)]
pub struct ScalarUDF {
    pub name: String,
    pub signature: Signature,
    pub return_type: DataType,
}

pub struct ScalarUDFView {
    pub name: Seq<char>,
    pub argument_types: Seq<DataTypeView>,
    pub volatility: Volatility,
    pub return_type: DataTypeView,
}

impl View for ScalarUDF {
    type V = ScalarUDFView;

    open spec fn view(&self) -> ScalarUDFView {
        ScalarUDFView {
            name: self.name@,
            argument_types: Seq::new(
                self.signature.argument_types.len() as nat,
                |i: int| self.signature.argument_types[i]@,
            ),
            volatility: self.signature.volatility,
            return_type: self.return_type@,
        }
    }
}

impl Clone for ScalarUDF {
    fn clone(&self) -> (r: Self)
        ensures
            r@ == self@,
    {
        let mut argument_types: Vec<DataType> = Vec::new();
        let mut i: usize = 0;
        while i < self.signature.argument_types.len()
            invariant
                i <= self.signature.argument_types.len(),
                argument_types.len() == i,
                forall|j: int|
                    0 <= j < i ==> #[trigger] argument_types[j]@
                        == self.signature.argument_types[j]@,
            decreases self.signature.argument_types.len() - i,
        {
            argument_types.push(self.signature.argument_types[i].clone());
            i += 1;
        }
        let r = ScalarUDF {
            name: self.name.clone(),
            signature: Signature { argument_types, volatility: self.signature.volatility },
            return_type: self.return_type.clone(),
        };
        assert(r@.argument_types =~= self@.argument_types);
        r
    }
}

/// An aggregate function. The engine has none of its own.
#[derive(Debug, PartialEq, Eq)]
pub struct AggregateUDF {
    pub name: String,
}

/// A window function. The engine has none of its own.
#[derive(Debug, PartialEq, Eq)]
pub struct WindowUDF {
    pub name: String,
}

/// The name of the function that builds a window descriptor.
pub const WINDOW: &'static str = "window";

/// The type of an event time.
pub open spec fn timestamp_type() -> DataTypeView {
    DataTypeView::Timestamp(TimeUnit::Nanosecond)
}

/// The field `name` of a window descriptor: a nanosecond timestamp that is
/// never null.
pub open spec fn window_field(name: Seq<char>) -> FieldView {
    FieldView { qualifier: None, name, data_type: timestamp_type(), nullable: false }
}

/// The type of a window descriptor: the struct of `start` and `end`.
pub open spec fn window_struct() -> DataTypeView {
    DataTypeView::Struct(seq![window_field("start"@), window_field("end"@)])
}

/// The `window` function: it takes two nanosecond timestamps, returns a
/// window descriptor and is immutable.
pub open spec fn window_udf() -> ScalarUDFView {
    ScalarUDFView {
        name: WINDOW@,
        argument_types: seq![timestamp_type(), timestamp_type()],
        volatility: Volatility::Immutable,
        return_type: window_struct(),
    }
}

/// The signature of `window`.
pub fn tumble_signature() -> (r: Signature)
    ensures
        r.volatility == Volatility::Immutable,
        r.argument_types@.len() == 2,
        r.argument_types[0]@ == timestamp_type(),
        r.argument_types[1]@ == timestamp_type(),
{
    let mut argument_types: Vec<DataType> = Vec::new();
    argument_types.push(DataType::Timestamp(TimeUnit::Nanosecond));
    argument_types.push(DataType::Timestamp(TimeUnit::Nanosecond));
    Signature { argument_types, volatility: Volatility::Immutable }
}

/// The type that `window` returns.
pub fn window_return_type() -> (r: DataType)
    ensures
        r@ == window_struct(),
{
    let mut fields: Vec<Field> = Vec::new();
    fields.push(Field::new("start", DataType::Timestamp(TimeUnit::Nanosecond), false));
    fields.push(Field::new("end", DataType::Timestamp(TimeUnit::Nanosecond), false));
    let r = DataType::Struct(fields);
    assert(r@->Struct_0 =~= window_struct()->Struct_0);
    r
}

/// The `window` function.
pub fn window_scalar_function() -> (r: ScalarUDF)
    ensures
        r@ == window_udf(),
{
    let r = ScalarUDF {
        name: WINDOW.to_owned(),
        signature: tumble_signature(),
        return_type: window_return_type(),
    };
    assert(r@.argument_types =~= window_udf().argument_types);
    r
}

/// The function that a name stands for among the given ones: the last of
/// that name.
pub open spec fn registered(functions: Seq<ScalarUDFView>, name: Seq<char>) -> Option<
    ScalarUDFView,
>
    decreases functions.len(),
{
    if functions.len() == 0 {
        None
    } else if functions.last().name == name {
        Some(functions.last())
    } else {
        registered(functions.drop_last(), name)
    }
}

/// The views of a list of functions.
pub open spec fn functions_view(functions: Seq<ScalarUDF>) -> Seq<ScalarUDFView> {
    Seq::new(functions.len(), |i: int| functions[i]@)
}

/// The failure to find a function of the given sort, which is written with a
/// space after it.
pub open spec fn not_implemented(sort: Seq<char>, name: Seq<char>) -> (ErrorKind, Seq<char>) {
    (ErrorKind::NotImplemented, sort + name + " not implemented"@)
}

/// The registry of the functions of the engine.
pub struct EmptyRegistry {
    udfs: Vec<ScalarUDF>,
}

impl EmptyRegistry {
    /// The functions of the registry in the order in which they were
    /// registered; a later one takes the place of an earlier one of its
    /// name.
    pub closed spec fn functions(&self) -> Seq<ScalarUDFView> {
        functions_view(self.udfs@)
    }

    /// The registry of `window` and of the JSON functions.
    pub fn new(json_functions: Vec<ScalarUDF>) -> (registry: EmptyRegistry)
        ensures
            registry.functions() == seq![window_udf()] + functions_view(json_functions@),
    {
        let mut udfs: Vec<ScalarUDF> = Vec::new();
        udfs.push(window_scalar_function());
        let mut i: usize = 0;
        assert(functions_view(udfs@) =~= seq![window_udf()] + functions_view(
            json_functions@,
        ).take(0));
        while i < json_functions.len()
            invariant
                i <= json_functions.len(),
                functions_view(udfs@) == seq![window_udf()] + functions_view(
                    json_functions@,
                ).take(i as int),
            decreases json_functions.len() - i,
        {
            let ghost before = functions_view(udfs@);
            let function = json_functions[i].clone();
            udfs.push(function);
            assert(functions_view(udfs@) =~= before.push(function@));
            assert(functions_view(json_functions@).take(i + 1) =~= functions_view(
                json_functions@,
            ).take(i as int).push(function@));
            i += 1;
        }
        assert(functions_view(json_functions@).take(i as int) =~= functions_view(
            json_functions@,
        ));
        EmptyRegistry { udfs }
    }

    /// The names of the scalar functions, one for each function and in the
    /// order of registration.
    pub fn udfs(&self) -> (names: Vec<String>)
        ensures
            names.len() == self.functions().len(),
            forall|i: int|
                0 <= i < names.len() ==> (#[trigger] names[i])@ == self.functions()[i].name,
    {
        let mut names: Vec<String> = Vec::new();
        let mut i: usize = 0;
        while i < self.udfs.len()
            invariant
                i <= self.udfs.len(),
                names.len() == i,
                forall|j: int| 0 <= j < i ==> (#[trigger] names[j])@ == self.udfs[j].name@,
            decreases self.udfs.len() - i,
        {
            names.push(self.udfs[i].name.clone());
            i += 1;
        }
        names
    }

    /// The scalar function of the given name.
    pub fn udf(&self, name: &str) -> (r: Result<ScalarUDF, PlanError>)
        ensures
            match registered(self.functions(), name@) {
                Some(function) => r matches Ok(found) && found@ == function,
                None => r matches Err(e) && e@ == not_implemented("udf "@, name@),
            },
    {
        let ghost all = functions_view(self.udfs@);
        let mut i: usize = self.udfs.len();
        assert(all.take(i as int) =~= all);
        while i > 0
            invariant
                i <= self.udfs.len(),
                all == functions_view(self.udfs@),
                registered(all, name@) == registered(all.take(i as int), name@),
            decreases i,
        {
            i -= 1;
            assert(all.take(i + 1).last() == all[i as int]);
            assert(all.take(i + 1).drop_last() =~= all.take(i as int));
            if same_text(self.udfs[i].name.as_str(), name) {
                return Ok(self.udfs[i].clone());
            }
        }
        assert(all.take(0).len() == 0);
        Err(failure("udf ", name))
    }

    /// There is no aggregate function of any name.
    pub fn udaf(&self, name: &str) -> (r: Result<AggregateUDF, PlanError>)
        ensures
            r matches Err(e) && e@ == not_implemented("udaf "@, name@),
    {
        Err(failure("udaf ", name))
    }

    /// There is no window function of any name.
    pub fn udwf(&self, name: &str) -> (r: Result<WindowUDF, PlanError>)
        ensures
            r matches Err(e) && e@ == not_implemented("udwf "@, name@),
    {
        Err(failure("udwf ", name))
    }
}

fn failure(sort: &str, name: &str) -> (e: PlanError)
    ensures
        e@ == (ErrorKind::NotImplemented, sort@ + name@ + " not implemented"@),
{
    let message = sort.to_owned().concat(name).concat(" not implemented");
    PlanError { kind: ErrorKind::NotImplemented, message }
}

} // verus!

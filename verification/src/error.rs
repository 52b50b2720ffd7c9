use vstd::prelude::*;

verus! {

/// The class of a planning failure.
#[derive(Clone, Copy, Debug, PartialEq, Eq, Structural)]
pub enum ErrorKind {
    /// The query uses a shape the engine does not support.
    NotImplemented,
    /// The plan is malformed or cannot be planned.
    Plan,
    /// An argument or operand has the wrong type.
    TypeMismatch,
    /// A defect inside the engine or a corrupt serialized plan.
    Internal,
}

/// A planning failure: its class and a message for the user.
#[derive(Clone, Debug, PartialEq, Eq)]
pub struct PlanError {
    pub kind: ErrorKind,
    pub message: String,
}

impl View for PlanError {
    type V = (ErrorKind, Seq<char>);

    open spec fn view(&self) -> (ErrorKind, Seq<char>) {
        (self.kind, self.message@)
    }
}

impl PlanError {
    pub fn new(kind: ErrorKind, message: &str) -> (e: PlanError)
        ensures
            e@ == (kind, message@),
    {
        PlanError { kind, message: message.to_owned() }
    }

    pub fn not_implemented(message: &str) -> (e: PlanError)
        ensures
            e@ == (ErrorKind::NotImplemented, message@),
    {
        PlanError::new(ErrorKind::NotImplemented, message)
    }

    pub fn plan(message: &str) -> (e: PlanError)
        ensures
            e@ == (ErrorKind::Plan, message@),
    {
        PlanError::new(ErrorKind::Plan, message)
    }

    pub fn type_mismatch(message: &str) -> (e: PlanError)
        ensures
            e@ == (ErrorKind::TypeMismatch, message@),
    {
        PlanError::new(ErrorKind::TypeMismatch, message)
    }

    pub fn internal(message: &str) -> (e: PlanError)
        ensures
            e@ == (ErrorKind::Internal, message@),
    {
        PlanError::new(ErrorKind::Internal, message)
    }
}

} // verus!

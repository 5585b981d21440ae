//! Failures of the query layer, with the status class each one maps to.
use vstd::prelude::*;

verus! {

/// Everything that can make a request fail. The payload names the offending
/// value (a field, an operator, a table) or carries a driver's message.
#[derive(Debug, Clone)]
pub enum PersistenceError {
    /// A referenced field (or table) is absent from the catalog.
    FieldNotFound(String),
    /// An aggregate operator outside `sum`, `avg`, `count`, `max`, `min`.
    UnknownAggregate(String),
    /// A transformation outside `year`, `month`.
    UnknownTransformation(String),
    /// A filter operator outside `>`, `<`, `=`.
    UnknownFilterOperator(String),
    /// A filter on a column whose datatype has no quoting rule.
    UnsupportedDatatype(String),
    /// No declared relationship connects a required table to the ones before it.
    JoinPathNotFound(String),
    /// The backend driver failed: connection, rejected statement, timeout.
    BackendExecutionError(String),
    /// A cached payload could not be encoded or decoded.
    SerializationError(String),
    /// Anything not classified above.
    Unknown,
}

/// The mathematical value of a [`PersistenceError`].
pub enum Failure {
    FieldNotFound(Seq<char>),
    UnknownAggregate(Seq<char>),
    UnknownTransformation(Seq<char>),
    UnknownFilterOperator(Seq<char>),
    UnsupportedDatatype(Seq<char>),
    JoinPathNotFound(Seq<char>),
    BackendExecutionError(Seq<char>),
    SerializationError(Seq<char>),
    Unknown,
}

impl View for PersistenceError {
    type V = Failure;

    open spec fn view(&self) -> Failure {
        match self {
            PersistenceError::FieldNotFound(s) => Failure::FieldNotFound(s@),
            PersistenceError::UnknownAggregate(s) => Failure::UnknownAggregate(s@),
            PersistenceError::UnknownTransformation(s) => Failure::UnknownTransformation(s@),
            PersistenceError::UnknownFilterOperator(s) => Failure::UnknownFilterOperator(s@),
            PersistenceError::UnsupportedDatatype(s) => Failure::UnsupportedDatatype(s@),
            PersistenceError::JoinPathNotFound(s) => Failure::JoinPathNotFound(s@),
            PersistenceError::BackendExecutionError(s) => Failure::BackendExecutionError(s@),
            PersistenceError::SerializationError(s) => Failure::SerializationError(s@),
            PersistenceError::Unknown => Failure::Unknown,
        }
    }
}

/// Request and validation failures are the caller's (400); the rest are the
/// server's (500).
pub open spec fn is_client_failure(f: Failure) -> bool {
    match f {
        Failure::FieldNotFound(_) | Failure::UnknownAggregate(_) | Failure::UnknownTransformation(_)
        | Failure::UnknownFilterOperator(_) | Failure::UnsupportedDatatype(_)
        | Failure::JoinPathNotFound(_) => true,
        _ => false,
    }
}

/// The value of a `Result<String, PersistenceError>`.
pub open spec fn text_result(r: Result<String, PersistenceError>) -> Result<Seq<char>, Failure> {
    match r {
        Ok(s) => Ok(s@),
        Err(e) => Err(e@),
    }
}

impl PersistenceError {
    /// The HTTP-style status this failure is answered with.
    pub fn status_code(&self) -> (r: u16)
        ensures
            r == (if is_client_failure(self@) { 400u16 } else { 500u16 }),
    {
        match self {
            PersistenceError::FieldNotFound(_)
            | PersistenceError::UnknownAggregate(_)
            | PersistenceError::UnknownTransformation(_)
            | PersistenceError::UnknownFilterOperator(_)
            | PersistenceError::UnsupportedDatatype(_)
            | PersistenceError::JoinPathNotFound(_) => 400,
            PersistenceError::BackendExecutionError(_)
            | PersistenceError::SerializationError(_)
            | PersistenceError::Unknown => 500,
        }
    }
}

} // verus!

use vstd::prelude::*;

verus! {

/// The failure taxonomy of the engine: every statement either commits and
/// returns a payload, or aborts with one of these and leaves storage as it
/// stood before the statement began.
#[derive(Clone, Copy, PartialEq, Eq, Structural, Debug)]
pub enum EngineError {
    /// A malformed literal, or a malformed statement: a value row whose arity
    /// does not match its column list, or a schema with a repeated column
    /// name or more than one PRIMARY KEY.
    ParseError,
    /// The statement names a table the catalog does not hold.
    TableNotFound,
    /// CREATE TABLE without IF NOT EXISTS on a name already present.
    TableAlreadyExists,
    /// An expression or a column list names a column the schema does not hold.
    ColumnNotFound,
    /// A value does not fit the declared column type, or an operand of an
    /// expression has the wrong type.
    TypeMismatch,
    /// An insert or update would duplicate a PRIMARY KEY or UNIQUE value.
    UniqueViolation,
}

} // verus!

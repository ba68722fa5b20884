use vstd::prelude::*;

verus! {

/// Why a returned value could not be turned into the declared type.
#[derive(Debug, Clone, PartialEq, Eq)]
pub enum DecodeError {
    /// The record declares a field of this name, which no returned column carries.
    MissingColumn(String),
    /// The cell holds another variant than the declared type reads.
    UnexpectedVariant,
    /// No cell was handed over at all.
    NoValue,
}

/// The failures that the connection reports to its caller.
#[derive(Debug, Clone, PartialEq, Eq)]
pub enum RdsError {
    /// The service refused to open a transaction.
    AlreadyInTransaction,
    /// A commit or rollback was asked for while no transaction is open.
    TransactionStateError,
    /// The remote call itself failed; it carries the failure as reported.
    ExecutionFailure(String),
    /// A returned value did not fit the declared type.
    DeserializationError(DecodeError),
    /// Rows came back without the column descriptors needed to read them by name.
    MissingColumnMetadata,
    /// The encoded bytes of a bind value do not fit its declared type.
    MalformedBind,
}

} // verus!

//! A backend for relational client code that runs its statements against a
//! stateless, call-per-statement SQL service: a query builder, the binding
//! and decoding of typed values, the mapping of returned rows, and the
//! nesting of transactions over one remote transaction token.

pub mod connection;
pub mod error;
pub mod query_builder;
pub mod row;
pub mod transaction_manager;
pub mod types;

use vstd::prelude::*;

use row::SqlType;
use types::RdsTypes;

verus! {

/// The backend marker type: statements built for this backend are sent to
/// the remote SQL service.
#[derive(Debug, Clone, Copy, Hash, PartialEq, Eq, Structural)]
pub struct Rds;

/// The tag that bind values of the declared type `t` carry.
pub open spec fn tag_of(t: SqlType) -> RdsTypes {
    match t {
        SqlType::Bool => RdsTypes::Boolean,
        SqlType::SmallInt | SqlType::Integer | SqlType::BigInt => RdsTypes::Long,
        SqlType::Float | SqlType::Double => RdsTypes::Double,
        SqlType::Text => RdsTypes::String,
        SqlType::Binary => RdsTypes::Blob,
        SqlType::Date => RdsTypes::Date,
        SqlType::Time => RdsTypes::Time,
        SqlType::Timestamp => RdsTypes::TimeStamp,
    }
}

impl Rds {
    /// The type tag of the declared type `t`.
    pub fn metadata(t: SqlType) -> (r: RdsTypes)
        ensures
            r == tag_of(t),
    {
        match t {
            SqlType::Bool => RdsTypes::Boolean,
            SqlType::SmallInt | SqlType::Integer | SqlType::BigInt => RdsTypes::Long,
            SqlType::Float | SqlType::Double => RdsTypes::Double,
            SqlType::Text => RdsTypes::String,
            SqlType::Binary => RdsTypes::Blob,
            SqlType::Date => RdsTypes::Date,
            SqlType::Time => RdsTypes::Time,
            SqlType::Timestamp => RdsTypes::TimeStamp,
        }
    }
}

} // verus!

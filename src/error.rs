//! The error type of the service.

use vstd::prelude::*;

verus! {

/// The errors of the service.
///
/// `InvalidInput` is a caller's mistake, `DatabaseError` a failure of the
/// sample store, `StandardError` a failure to fetch or decode the upstream feed.
#[derive(Debug, Clone)]
pub enum CustomError {
    InvalidInput(String),
    DatabaseError(String),
    StandardError(String),
}

impl CustomError {
    /// The error is `InvalidInput` and carries `msg`.
    pub open spec fn is_invalid_input(&self, msg: Seq<char>) -> bool {
        &&& self is InvalidInput
        &&& self->InvalidInput_0@ == msg
    }

    /// The error is `StandardError` and carries `msg`.
    pub open spec fn is_standard_error(&self, msg: Seq<char>) -> bool {
        &&& self is StandardError
        &&& self->StandardError_0@ == msg
    }

    /// The error is `DatabaseError` and carries `msg`.
    pub open spec fn is_database_error(&self, msg: Seq<char>) -> bool {
        &&& self is DatabaseError
        &&& self->DatabaseError_0@ == msg
    }
}

} // verus!

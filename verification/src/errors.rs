//! The shared error taxonomy: non-retryable precondition failures detected
//! synchronously at construction time, never mid-stream.

use vstd::prelude::*;

verus! {

/// The three error kinds shared by every indicator constructor.
///
/// Only `InvalidParameter` is currently produced (a structural constructor
/// argument, such as a zero period, violates its contract); the two data-item
/// kinds are reserved for future input validation.
#[derive(Debug, Clone, PartialEq, Eq, Structural)]
pub enum TaError {
    InvalidParameter,
    DataItemIncomplete,
    DataItemInvalid,
}

impl TaError {
    /// A human-readable description of the error kind.
    pub fn message(&self) -> (m: &'static str)
        ensures
            *self == TaError::InvalidParameter ==> m@ == "invalid parameter"@,
            *self == TaError::DataItemIncomplete ==> m@ == "data item is incomplete"@,
            *self == TaError::DataItemInvalid ==> m@ == "data item is invalid"@,
    {
        match *self {
            TaError::InvalidParameter => "invalid parameter",
            TaError::DataItemIncomplete => "data item is incomplete",
            TaError::DataItemInvalid => "data item is invalid",
        }
    }
}

} // verus!

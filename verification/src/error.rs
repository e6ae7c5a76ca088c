//! The ways a request can be turned down.

use vstd::prelude::*;

verus! {

/// Why an operation did not go through.
///
/// `NotFound` and `PermissionDenied` are answers to the caller. The other three mean that the
/// request as a whole has to be abandoned by whoever drives the contract.
#[derive(Clone, Copy, Debug, PartialEq, Eq, Structural)]
pub enum ContractError {
    /// No mail is stored under the identifier.
    NotFound,
    /// The requester is not on record as the sender of the mail.
    PermissionDenied,
    /// Storage was to be charged to an account that has no ledger entry.
    AccountNotProvisioned,
    /// The notification service reported failure.
    ExternalCallFailed,
    /// The callback saw something other than exactly one settled result.
    ProtocolViolation,
}

impl ContractError {
    /// The text a contract aborts with for this error.
    pub fn message(&self) -> (text: &'static str)
        ensures
            text@ == match *self {
                ContractError::NotFound => "ERR_NOT_FOUND"@,
                ContractError::PermissionDenied => "Caller is not sender"@,
                ContractError::AccountNotProvisioned => "ERR_ACCOUNT_NOT_FOUND"@,
                ContractError::ExternalCallFailed => "ERR_CALL_FAILED"@,
                ContractError::ProtocolViolation => "ERR_TOO_MANY_RESULTS"@,
            },
    {
        match self {
            ContractError::NotFound => "ERR_NOT_FOUND",
            ContractError::PermissionDenied => "Caller is not sender",
            ContractError::AccountNotProvisioned => "ERR_ACCOUNT_NOT_FOUND",
            ContractError::ExternalCallFailed => "ERR_CALL_FAILED",
            ContractError::ProtocolViolation => "ERR_TOO_MANY_RESULTS",
        }
    }
}

} // verus!

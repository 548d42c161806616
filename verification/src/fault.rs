//! The ways in which a request can fail.

use vstd::prelude::*;

verus! {

/// Why a request was not carried out.
#[derive(Clone, Copy, Debug, PartialEq, Eq, Structural)]
pub enum LedgerError {
    /// The administrator key was wrong, or the command needs a session that
    /// has authenticated.
    Unauthorized,
    /// The account to create is already there.
    AccountExists,
    /// The account to read, remove or adjust is not there.
    AccountNotFound,
    /// The new balance would not fit a signed 64-bit integer.
    BalanceOverflow,
    /// The line is no known command, has the wrong number of arguments, or
    /// holds a number that cannot be read.
    MalformedRequest,
}

impl LedgerError {
    /// The words in which the error is reported to the operator.
    pub open spec fn text(self) -> Seq<char> {
        match self {
            LedgerError::Unauthorized => "unauthorized request"@,
            LedgerError::AccountExists => "account already exists"@,
            LedgerError::AccountNotFound => "no such account"@,
            LedgerError::BalanceOverflow => "balance overflow/underflow"@,
            LedgerError::MalformedRequest => "malformed request"@,
        }
    }

    /// The words in which the error is reported to the operator.
    pub fn describe(&self) -> (out: &'static str)
        ensures
            out@ == self.text(),
    {
        match self {
            LedgerError::Unauthorized => "unauthorized request",
            LedgerError::AccountExists => "account already exists",
            LedgerError::AccountNotFound => "no such account",
            LedgerError::BalanceOverflow => "balance overflow/underflow",
            LedgerError::MalformedRequest => "malformed request",
        }
    }
}

} // verus!

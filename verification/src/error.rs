//! The reasons for which an operation is rejected.

use vstd::prelude::*;

verus! {

/// Why an operation was rejected.  A rejected operation changes nothing.
#[derive(Clone, Copy, Debug, PartialEq, Eq, Structural)]
pub enum Error {
    /// A debit asked for more points than the account holds.
    InsufficientBalance,
    /// The caller is not the one the operation is reserved for.
    Unauthorized,
    /// The operation is switched off while the contract is paused.
    Paused,
    /// A credit, or the numbering of withdrawals, would leave the range of
    /// its integer type.
    Overflow,
}

impl Error {
    /// The text that goes with each reason.
    pub open spec fn text(self) -> Seq<char> {
        match self {
            Error::InsufficientBalance => "Not enough points"@,
            Error::Unauthorized => "Only owner can call this function"@,
            Error::Paused => "Function is paused"@,
            Error::Overflow => "Arithmetic overflow"@,
        }
    }

    /// A message for the reason, fit to be shown to the caller.
    pub fn message(&self) -> (msg: &'static str)
        ensures
            msg@ == self.text(),
    {
        match self {
            Error::InsufficientBalance => "Not enough points",
            Error::Unauthorized => "Only owner can call this function",
            Error::Paused => "Function is paused",
            Error::Overflow => "Arithmetic overflow",
        }
    }
}

} // verus!

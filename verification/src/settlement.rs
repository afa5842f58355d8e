//! What a withdrawal hands to the outside, and how its settlement ends.

use crate::account::AccountId;
use vstd::prelude::*;

verus! {

/// A transfer that the contract asks the token contract to make.  Whoever
/// runs the contract sends it, and schedules the continuation that reports
/// the outcome under the same token, account and amount.
#[derive(Debug)]
pub struct TransferRequest {
    /// The token of the withdrawal that the transfer belongs to.
    pub token: u64,
    /// The contract that is asked to make the transfer.
    pub token_contract: AccountId,
    /// The account that is to receive the transfer.
    pub receiver: AccountId,
    /// The amount to transfer.
    pub amount: u128,
}

/// How the delivery of a transfer's outcome ended.
#[derive(Clone, Copy, Debug, PartialEq, Eq, Structural)]
pub enum Settlement {
    /// The transfer succeeded: the debit stands.
    Committed,
    /// The transfer failed: the points are back on the account.
    Compensated,
    /// No such withdrawal is in flight, so nothing was changed.  This is
    /// what a second delivery of an outcome meets.
    Ignored,
}

} // verus!

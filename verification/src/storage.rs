//! What storage costs, and what is left of a deposit that paid for it.

use crate::notebook::NoteError;
use vstd::prelude::*;

verus! {

/// The price of one byte of storage, in the smallest unit of the currency.
pub const STORAGE_BYTE_COST: u128 = 10_000_000_000_000_000_000;

/// The price of one byte of storage, as `near_sdk::env::storage_byte_cost`
/// gives it.  The contract is taken on trust, not proved: that function
/// returns the same fixed amount on every call, and `NearToken::as_yoctonear`
/// hands out the amount as a number of the smallest unit.
#[verifier::external_body]
fn storage_byte_cost() -> (cost: u128)
    ensures
        cost == STORAGE_BYTE_COST,
{
    near_sdk::env::storage_byte_cost().as_yoctonear()
}

/// The price of the storage that was taken up while the use of storage grew
/// from `usage_before` to `usage_after` bytes.
pub open spec fn storage_cost(usage_before: u64, usage_after: u64) -> int {
    STORAGE_BYTE_COST * (usage_after - usage_before)
}

/// What is to be paid back of `deposit` once it has paid for the storage
/// taken up between `usage_before` and `usage_after`; no deposit counts as
/// a deposit of zero.  `None` says that nothing is left to pay back.  A
/// deposit that does not cover the price is refused with
/// [`NoteError::NotEnoughDeposit`].
pub fn storage_refund(deposit: Option<u128>, usage_before: u64, usage_after: u64) -> (outcome:
    Result<Option<u128>, NoteError>)
    requires
        usage_before <= usage_after,
    ensures
        ({
            let paid: int = match deposit {
                Some(paid) => paid as int,
                None => 0,
            };
            let cost = storage_cost(usage_before, usage_after);
            match outcome {
                Ok(Some(refund)) => refund > 0 && refund == paid - cost,
                Ok(None) => paid == cost,
                Err(reason) => reason == NoteError::NotEnoughDeposit && paid < cost,
            }
        }),
{
    let bytes: u128 = (usage_after - usage_before) as u128;
    assert(STORAGE_BYTE_COST * bytes <= u128::MAX) by (nonlinear_arith)
        requires
            bytes <= u64::MAX,
            STORAGE_BYTE_COST == 10_000_000_000_000_000_000,
    ;
    let cost = storage_byte_cost() * bytes;
    let paid = match deposit {
        Some(paid) => paid,
        None => 0,
    };
    if paid < cost {
        Err(NoteError::NotEnoughDeposit)
    } else if paid == cost {
        Ok(None)
    } else {
        Ok(Some(paid - cost))
    }
}

} // verus!

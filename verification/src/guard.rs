//! The authorization guard: who calls, and whether that caller may.
//!
//! The guard only evaluates predicates over the invocation [`Context`]; it
//! changes nothing.

use crate::account::AccountId;
use crate::error::Error;
use vstd::prelude::*;

verus! {

/// What the platform tells a handler about the invocation it serves.
pub struct Context {
    /// The direct caller: the account that made this very call.
    pub predecessor: AccountId,
    /// The account that signed the transaction at the origin of the call
    /// chain.  A contract in between can forward a call that its signer never
    /// meant to make, so no right is ever derived from this field.
    pub signer: AccountId,
    /// The account of the contract that is being invoked.
    pub current: AccountId,
    /// The value attached to the call.
    pub attached_deposit: u128,
    /// For a continuation: whether the transfer that it awaited succeeded.
    /// `None` for a call that continues nothing.
    pub promise_outcome: Option<bool>,
}

impl Context {
    /// The context of a plain call.
    pub fn call(
        predecessor: AccountId,
        signer: AccountId,
        current: AccountId,
        attached_deposit: u128,
    ) -> (ctx: Self)
        ensures
            ctx.predecessor == predecessor,
            ctx.signer == signer,
            ctx.current == current,
            ctx.attached_deposit == attached_deposit,
            ctx.promise_outcome.is_none(),
    {
        Context { predecessor, signer, current, attached_deposit, promise_outcome: None }
    }

    /// The context of a continuation that the contract `current` scheduled
    /// for itself behind a transfer that ended as `success` says.
    pub fn continuation(signer: AccountId, current: AccountId, success: bool) -> (ctx: Self)
        ensures
            ctx.predecessor@ == current@,
            ctx.signer == signer,
            ctx.current == current,
            ctx.attached_deposit == 0,
            ctx.promise_outcome == Some(success),
            ctx.is_internal(),
    {
        Context {
            predecessor: current.clone(),
            signer,
            current,
            attached_deposit: 0,
            promise_outcome: Some(success),
        }
    }

    /// Whether the invocation is the contract's own continuation: the
    /// contract called itself, and an outcome of a transfer came with the
    /// call.
    pub open spec fn is_internal(&self) -> bool {
        self.predecessor@ == self.current@ && self.promise_outcome.is_some()
    }
}

/// The account on whose behalf a handler acts, whose points it credits or
/// debits: the direct caller, whoever signed.
pub fn acting_account(ctx: &Context) -> (account: &AccountId)
    ensures
        account@ == ctx.predecessor@,
{
    &ctx.predecessor
}

/// Passes exactly when the direct caller is `expected`.  The signer plays no
/// part.
pub fn require_caller(ctx: &Context, expected: &AccountId) -> (verdict: Result<(), Error>)
    ensures
        verdict.is_ok() <==> ctx.predecessor@ == expected@,
        verdict.is_err() ==> verdict == Err::<(), Error>(Error::Unauthorized),
{
    if ctx.predecessor == *expected {
        Ok(())
    } else {
        Err(Error::Unauthorized)
    }
}

/// Passes exactly when the contract is not paused.
pub fn require_not_paused(paused: bool) -> (verdict: Result<(), Error>)
    ensures
        verdict.is_ok() <==> !paused,
        verdict.is_err() ==> verdict == Err::<(), Error>(Error::Paused),
{
    if paused {
        Err(Error::Paused)
    } else {
        Ok(())
    }
}

/// Passes exactly when the invocation is the contract's own continuation of
/// a transfer it requested, and not a call that anyone could have made.
pub fn require_internal(ctx: &Context) -> (verdict: Result<(), Error>)
    ensures
        verdict.is_ok() <==> ctx.is_internal(),
        verdict.is_err() ==> verdict == Err::<(), Error>(Error::Unauthorized),
{
    if ctx.predecessor == ctx.current && ctx.promise_outcome.is_some() {
        Ok(())
    } else {
        Err(Error::Unauthorized)
    }
}

} // verus!

//! The contract: accrual of points, their withdrawal in two steps, and the
//! owner's switches.

use crate::account::AccountId;
use crate::error::Error;
use crate::guard::{acting_account, require_caller, require_internal, Context};
use crate::laws::{law_initial_state_is_valid, law_step_conserves_value, Step};
use crate::ledger::{each_listed_once, recorded, Ledger};
use crate::model::{points_for, State};
use crate::pausable::Pausable;
use crate::pending::{filed, tokens_in_order, PendingWithdrawal, Withdrawals};
use crate::settlement::{Settlement, TransferRequest};
use vstd::prelude::*;

verus! {

/// The points that a deposit of `value` buys, unless they are too many for
/// the type of a balance.
pub fn points_bought(value: u128) -> (points: Option<u128>)
    ensures
        match points {
            Some(points) => points == points_for(value as nat),
            None => points_for(value as nat) > u128::MAX,
        },
{
    value.checked_mul(2)
}

/// The state of the contract.
pub struct StatusMessage {
    data: String,
    pause_status: bool,
    w_near_contract: AccountId,
    owner: AccountId,
    account_balances: Ledger,
    withdrawals: Withdrawals,
}

/// All that the contract holds, as plain values: what is written down
/// between two invocations and read back before the next.
pub struct Snapshot {
    /// The text that `get_data` hands out.
    pub data: String,
    /// Whether the contract is paused.
    pub pause_status: bool,
    /// The contract that carries out the token transfers.
    pub w_near_contract: AccountId,
    /// The owner of the contract.
    pub owner: AccountId,
    /// The accounts on record, each with its points.
    pub account_balances: Vec<(AccountId, u128)>,
    /// The withdrawals in flight.
    pub withdrawals: Vec<PendingWithdrawal>,
    /// The token that the next withdrawal gets.
    pub next_token: u64,
}

impl Snapshot {
    /// Whether the values can be those of a contract: no account and no
    /// token stands twice, and every token was handed out before the next
    /// one.
    pub open spec fn consistent(&self) -> bool {
        &&& each_listed_once(self.account_balances@)
        &&& tokens_in_order(self.withdrawals@, self.next_token as nat)
    }

    /// The state that the values stand for.
    pub open spec fn state(&self) -> State {
        State {
            data: self.data@,
            paused: self.pause_status,
            token_contract: self.w_near_contract@,
            owner: self.owner@,
            balances: recorded(self.account_balances@),
            pending: filed(self.withdrawals@),
            next_token: self.next_token as nat,
        }
    }
}

impl View for StatusMessage {
    type V = State;

    closed spec fn view(&self) -> State {
        State {
            data: self.data@,
            paused: self.pause_status,
            token_contract: self.w_near_contract@,
            owner: self.owner@,
            balances: self.account_balances@,
            pending: self.withdrawals@,
            next_token: self.withdrawals.next(),
        }
    }
}

impl StatusMessage {
    /// The view of a contract is a valid state.
    proof fn lemma_valid(&self)
        requires
            self.withdrawals.well_formed(),
        ensures
            self@.valid(),
    {
        self.account_balances.lemma_in_range();
        self.withdrawals.lemma_in_order();
    }

    /// A contract owned by `owner` that sends its transfers to
    /// `w_near_contract`: not paused, with no points and no withdrawals.
    pub fn init(owner: AccountId, w_near_contract: AccountId) -> (contract: Self)
        ensures
            contract@ == State::initial(owner@, w_near_contract@),
            contract@.valid(),
    {
        proof {
            law_initial_state_is_valid(owner@, w_near_contract@);
        }
        StatusMessage {
            owner,
            data: "Hello World!".to_owned(),
            pause_status: false,
            w_near_contract,
            account_balances: Ledger::new(),
            withdrawals: Withdrawals::new(),
        }
    }

    /// The contract as plain values.
    pub fn snapshot(&self) -> (snapshot: Snapshot)
        ensures
            snapshot.consistent(),
            snapshot.state() == self@,
            self@.valid(),
    {
        proof {
            use_type_invariant(&self.withdrawals);
            self.lemma_valid();
        }
        Snapshot {
            data: self.data.clone(),
            pause_status: self.pause_status,
            w_near_contract: self.w_near_contract.clone(),
            owner: self.owner.clone(),
            account_balances: self.account_balances.entries(),
            withdrawals: self.withdrawals.entries(),
            next_token: self.withdrawals.next_token(),
        }
    }

    /// The contract that `snapshot` stands for, unless its values are not
    /// consistent.
    pub fn restore(snapshot: Snapshot) -> (restored: Option<Self>)
        ensures
            match restored {
                Some(contract) => {
                    &&& snapshot.consistent()
                    &&& contract@ == snapshot.state()
                    &&& contract@.valid()
                },
                None => !snapshot.consistent(),
            },
    {
        let account_balances = match Ledger::from_entries(&snapshot.account_balances) {
            Some(ledger) => ledger,
            None => {
                return None;
            },
        };
        let withdrawals = match Withdrawals::from_entries(
            &snapshot.withdrawals,
            snapshot.next_token,
        ) {
            Some(withdrawals) => withdrawals,
            None => {
                return None;
            },
        };
        let contract = StatusMessage {
            data: snapshot.data,
            pause_status: snapshot.pause_status,
            w_near_contract: snapshot.w_near_contract,
            owner: snapshot.owner,
            account_balances,
            withdrawals,
        };
        proof {
            use_type_invariant(&contract.withdrawals);
            contract.lemma_valid();
        }
        Some(contract)
    }

    /// Whether the contract is paused.
    pub fn get_pause_status(&self) -> (paused: bool)
        ensures
            paused == self@.paused,
    {
        self.pause_status
    }

    /// Sets the pause switch and leaves everything else as it is.
    pub(crate) fn set_pause_status(&mut self, paused: bool)
        ensures
            final(self)@ == (State { paused, ..old(self)@ }),
            final(self)@.valid(),
    {
        proof {
            use_type_invariant(&self.withdrawals);
            self.lemma_valid();
        }
        self.pause_status = paused;
    }

    /// The owner of the contract.
    pub fn get_owner(&self) -> (owner: AccountId)
        ensures
            owner@ == self@.owner,
    {
        self.owner.clone()
    }

    /// Credits the direct caller with the points that the attached deposit
    /// buys, and returns the caller's new balance.  Points that do not fit on
    /// the balance are refused with [`Error::Overflow`].
    pub fn buy_points(&mut self, ctx: &Context) -> (outcome: Result<u128, Error>)
        ensures
            final(self)@ == old(self)@.deposit(ctx.predecessor@, ctx.attached_deposit as nat),
            final(self)@.valid(),
            match outcome {
                Ok(balance) => {
                    &&& old(self)@.accepts_deposit(ctx.predecessor@, ctx.attached_deposit as nat)
                    &&& balance == old(self)@.balance_of(ctx.predecessor@) + points_for(
                        ctx.attached_deposit as nat,
                    )
                },
                Err(reason) => {
                    &&& reason == Error::Overflow
                    &&& !old(self)@.accepts_deposit(ctx.predecessor@, ctx.attached_deposit as nat)
                },
            },
    {
        proof {
            use_type_invariant(&self.withdrawals);
            self.lemma_valid();
            law_step_conserves_value(
                self@,
                Step::Deposit { caller: ctx.predecessor@, value: ctx.attached_deposit as nat },
            );
        }
        let caller = acting_account(ctx);
        match points_bought(ctx.attached_deposit) {
            Some(points) => self.account_balances.credit(caller, points),
            None => Err(Error::Overflow),
        }
    }

    /// The points that `account_id` holds.  Never fails: an account that
    /// never bought any holds zero.
    pub fn get_user_points(&self, account_id: AccountId) -> (points: u128)
        ensures
            points == self@.balance_of(account_id@),
    {
        self.account_balances.get(&account_id)
    }

    /// The withdrawal in flight under `token`, if there is one.
    pub fn pending_withdrawal(&self, token: u64) -> (found: Option<&PendingWithdrawal>)
        ensures
            match found {
                Some(withdrawal) => {
                    &&& self@.pending.contains_key(token as nat)
                    &&& withdrawal@ == self@.pending[token as nat]
                    &&& withdrawal.id() == token
                },
                None => !self@.pending.contains_key(token as nat),
            },
    {
        self.withdrawals.get(token)
    }

    /// Starts a withdrawal of `amount` points by the direct caller.
    ///
    /// The points are taken from the caller's balance first, and only then is
    /// the transfer handed out to be requested: while it is in flight, no
    /// reader sees the points on the balance.  The withdrawal stays in flight
    /// under the returned token until [`Self::resolve_withdraw`] settles it.
    ///
    /// A caller that holds less than `amount` is refused with
    /// [`Error::InsufficientBalance`]; a contract that has used up its tokens
    /// refuses with [`Error::Overflow`].  A refusal changes nothing.
    pub fn withdraw_points_wnear(&mut self, ctx: &Context, amount: u128) -> (outcome: Result<
        TransferRequest,
        Error,
    >)
        ensures
            final(self)@ == old(self)@.withdraw(ctx.predecessor@, amount as nat),
            final(self)@.valid(),
            match outcome {
                Ok(request) => {
                    &&& old(self)@.accepts_withdraw(ctx.predecessor@, amount as nat)
                    &&& request.token == old(self)@.next_token
                    &&& request.token_contract@ == old(self)@.token_contract
                    &&& request.receiver@ == ctx.predecessor@
                    &&& request.amount == amount
                },
                Err(reason) => {
                    &&& !old(self)@.accepts_withdraw(ctx.predecessor@, amount as nat)
                    &&& reason == Error::InsufficientBalance <==> !old(self)@.covers(
                        ctx.predecessor@,
                        amount as nat,
                    )
                    &&& reason == Error::Overflow <==> old(self)@.covers(
                        ctx.predecessor@,
                        amount as nat,
                    )
                },
            },
    {
        proof {
            use_type_invariant(&self.withdrawals);
            self.lemma_valid();
            law_step_conserves_value(
                self@,
                Step::Withdraw { caller: ctx.predecessor@, amount: amount as nat },
            );
        }
        let caller = acting_account(ctx);
        if amount > self.account_balances.get(caller) {
            return Err(Error::InsufficientBalance);
        }
        if !self.withdrawals.has_token() {
            return Err(Error::Overflow);
        }
        match self.account_balances.debit(caller, amount) {
            Ok(_) => {},
            Err(reason) => {
                return Err(reason);
            },
        }
        let token = self.withdrawals.open(caller, amount);
        Ok(
            TransferRequest {
                token,
                token_contract: self.w_near_contract.clone(),
                receiver: caller.clone(),
                amount,
            },
        )
    }

    /// Settles the withdrawal of `amount` by `account_id` that is in flight
    /// under `token`, with the outcome that the context carries.
    ///
    /// Only the contract's own continuation may settle: any other invocation
    /// is refused with [`Error::Unauthorized`] and changes nothing, whatever
    /// its arguments claim.  A success lets the debit stand.  A failure
    /// credits the points back; if they no longer fit on the balance, the
    /// delivery is refused with [`Error::Overflow`] and the withdrawal stays
    /// in flight.  Where no such withdrawal is in flight, as on a second
    /// delivery, nothing is changed.
    pub fn resolve_withdraw(
        &mut self,
        ctx: &Context,
        token: u64,
        account_id: AccountId,
        amount: u128,
    ) -> (outcome: Result<Settlement, Error>)
        ensures
            final(self)@ == (if ctx.is_internal() {
                old(self)@.settle(
                    token as nat,
                    account_id@,
                    amount as nat,
                    ctx.promise_outcome == Some(true),
                )
            } else {
                old(self)@
            }),
            final(self)@.valid(),
            match outcome {
                Ok(Settlement::Committed) => {
                    &&& ctx.is_internal()
                    &&& ctx.promise_outcome == Some(true)
                    &&& old(self)@.awaits(token as nat, account_id@, amount as nat)
                },
                Ok(Settlement::Compensated) => {
                    &&& ctx.is_internal()
                    &&& ctx.promise_outcome == Some(false)
                    &&& old(self)@.awaits(token as nat, account_id@, amount as nat)
                    &&& old(self)@.can_restore(token as nat)
                },
                Ok(Settlement::Ignored) => {
                    &&& ctx.is_internal()
                    &&& !old(self)@.awaits(token as nat, account_id@, amount as nat)
                },
                Err(reason) => {
                    &&& reason == Error::Unauthorized <==> !ctx.is_internal()
                    &&& reason == Error::Overflow <==> {
                        &&& ctx.is_internal()
                        &&& ctx.promise_outcome == Some(false)
                        &&& old(self)@.awaits(token as nat, account_id@, amount as nat)
                        &&& !old(self)@.can_restore(token as nat)
                    }
                    &&& reason == Error::Unauthorized || reason == Error::Overflow
                },
            },
    {
        proof {
            use_type_invariant(&self.withdrawals);
            self.lemma_valid();
            law_step_conserves_value(
                self@,
                Step::Settle {
                    token: token as nat,
                    account: account_id@,
                    amount: amount as nat,
                    success: ctx.promise_outcome == Some(true),
                },
            );
        }
        match require_internal(ctx) {
            Ok(()) => {},
            Err(reason) => {
                return Err(reason);
            },
        }
        let success = match ctx.promise_outcome {
            Some(success) => success,
            None => {
                return Err(Error::Unauthorized);
            },
        };
        let awaited = match self.withdrawals.get(token) {
            Some(withdrawal) => *withdrawal.account() == account_id && withdrawal.amount()
                == amount,
            None => false,
        };
        if !awaited {
            return Ok(Settlement::Ignored);
        }
        if success {
            self.withdrawals.close(token);
            Ok(Settlement::Committed)
        } else {
            match self.account_balances.credit(&account_id, amount) {
                Ok(_) => {
                    self.withdrawals.close(token);
                    Ok(Settlement::Compensated)
                },
                Err(reason) => Err(reason),
            }
        }
    }

    /// The data of the contract, unless the contract is paused.
    pub fn get_data(&self) -> (outcome: Result<String, Error>)
        ensures
            match outcome {
                Ok(data) => !self@.paused && data@ == self@.data,
                Err(reason) => self@.paused && reason == Error::Paused,
            },
    {
        match self.when_not_paused() {
            Ok(()) => Ok(self.data.clone()),
            Err(reason) => Err(reason),
        }
    }

    /// Switches the pause over, for the owner as the direct caller.  Anyone
    /// else is refused with [`Error::Unauthorized`], and nothing changes.
    pub fn pub_toggle_pause(&mut self, ctx: &Context) -> (outcome: Result<(), Error>)
        ensures
            outcome.is_ok() <==> ctx.predecessor@ == old(self)@.owner,
            outcome.is_err() ==> outcome == Err::<(), Error>(Error::Unauthorized),
            final(self)@ == (if outcome.is_ok() {
                old(self)@.toggled()
            } else {
                old(self)@
            }),
            final(self)@.valid(),
    {
        proof {
            use_type_invariant(&self.withdrawals);
            self.lemma_valid();
        }
        match require_caller(ctx, &self.owner) {
            Ok(()) => {
                self.toggle_pause();
                Ok(())
            },
            Err(reason) => Err(reason),
        }
    }

    /// Makes `new_owner` the owner, for the owner as the direct caller.
    /// Anyone else is refused with [`Error::Unauthorized`], and nothing
    /// changes: that the owner signed the transaction which some other
    /// contract forwards gives that contract no right.
    pub fn set_owner(&mut self, ctx: &Context, new_owner: AccountId) -> (outcome: Result<
        (),
        Error,
    >)
        ensures
            outcome.is_ok() <==> ctx.predecessor@ == old(self)@.owner,
            outcome.is_err() ==> outcome == Err::<(), Error>(Error::Unauthorized),
            final(self)@ == (if outcome.is_ok() {
                old(self)@.owned_by(new_owner@)
            } else {
                old(self)@
            }),
            final(self)@.valid(),
    {
        proof {
            use_type_invariant(&self.withdrawals);
            self.lemma_valid();
        }
        match require_caller(ctx, &self.owner) {
            Ok(()) => {
                self.owner = new_owner;
                Ok(())
            },
            Err(reason) => Err(reason),
        }
    }
}

} // verus!

//! What holds of the contract in every state and over every run.

use crate::model::{amount, points, points_for, Pending, State};
use crate::totals::{lemma_total_empty, lemma_total_insert, lemma_total_remove};
use vstd::prelude::*;

verus! {

/// One step that moves points: a deposit, the start of a withdrawal, or the
/// delivery of a transfer's outcome to the contract's own continuation.
pub enum Step {
    /// `caller` deposits `value`.
    Deposit { caller: Seq<char>, value: nat },
    /// `caller` asks to withdraw `amount`.
    Withdraw { caller: Seq<char>, amount: nat },
    /// The outcome `success` is delivered for the withdrawal of `amount` by
    /// `account` under `token`.
    Settle { token: nat, account: Seq<char>, amount: nat, success: bool },
}

/// The points that `step` credits for a deposit when taken in state `s`.
pub open spec fn credited(s: State, step: Step) -> nat {
    match step {
        Step::Deposit { caller, value } => if s.accepts_deposit(caller, value) {
            points_for(value)
        } else {
            0
        },
        _ => 0,
    }
}

/// The points that leave the contract for good when `step` is taken in state
/// `s`: those of a withdrawal whose transfer is reported as done.
pub open spec fn committed(s: State, step: Step) -> nat {
    match step {
        Step::Settle { token, account, amount, success } => if success && s.awaits(
            token,
            account,
            amount,
        ) {
            amount
        } else {
            0
        },
        _ => 0,
    }
}

impl State {
    /// The state after `step`.
    pub open spec fn after(self, step: Step) -> State {
        match step {
            Step::Deposit { caller, value } => self.deposit(caller, value),
            Step::Withdraw { caller, amount } => self.withdraw(caller, amount),
            Step::Settle { token, account, amount, success } => self.settle(
                token,
                account,
                amount,
                success,
            ),
        }
    }

    /// The state after all of `steps`, taken in order.
    pub open spec fn after_all(self, steps: Seq<Step>) -> State
        decreases steps.len(),
    {
        if steps.len() == 0 {
            self
        } else {
            self.after_all(steps.drop_last()).after(steps.last())
        }
    }
}

/// The points credited for deposits over `steps`, taken in order from `s`.
pub open spec fn credited_over(s: State, steps: Seq<Step>) -> nat
    decreases steps.len(),
{
    if steps.len() == 0 {
        0
    } else {
        credited_over(s, steps.drop_last()) + credited(
            s.after_all(steps.drop_last()),
            steps.last(),
        )
    }
}

/// The points of the withdrawals committed over `steps`, taken in order from
/// `s`.
pub open spec fn committed_over(s: State, steps: Seq<Step>) -> nat
    decreases steps.len(),
{
    if steps.len() == 0 {
        0
    } else {
        committed_over(s, steps.drop_last()) + committed(
            s.after_all(steps.drop_last()),
            steps.last(),
        )
    }
}

/// A contract that was just set up is in a valid state and holds no points.
pub proof fn law_initial_state_is_valid(owner: Seq<char>, token_contract: Seq<char>)
    ensures
        State::initial(owner, token_contract).valid(),
        State::initial(owner, token_contract).in_accounts() == 0,
        State::initial(owner, token_contract).in_flight() == 0,
{
    lemma_total_empty::<Seq<char>, nat>(points());
    lemma_total_empty::<nat, Pending>(amount());
}

/// A deposit never buys fewer points than a smaller one.
pub proof fn law_conversion_is_monotonic(smaller: nat, larger: nat)
    requires
        smaller <= larger,
    ensures
        points_for(smaller) <= points_for(larger),
{
}

/// Every step leaves a valid state valid, and moves points only between the
/// accounts, the withdrawals in flight and the outside: what the accounts
/// and the withdrawals in flight hold afterwards, with what the step
/// committed, is what they held before, with what the step credited.
pub proof fn law_step_conserves_value(s: State, step: Step)
    requires
        s.valid(),
    ensures
        s.after(step).valid(),
        s.after(step).in_accounts() + s.after(step).in_flight() + committed(s, step)
            == s.in_accounts() + s.in_flight() + credited(s, step),
{
    let t = s.after(step);
    match step {
        Step::Deposit { caller, value } => {
            if s.accepts_deposit(caller, value) {
                lemma_total_insert(
                    s.balances,
                    points(),
                    caller,
                    s.balance_of(caller) + points_for(value),
                );
            }
        },
        Step::Withdraw { caller, amount } => {
            if s.accepts_withdraw(caller, amount) {
                lemma_total_insert(
                    s.balances,
                    points(),
                    caller,
                    (s.balance_of(caller) - amount) as nat,
                );
                lemma_total_insert(
                    s.pending,
                    crate::model::amount(),
                    s.next_token,
                    Pending { account: caller, amount },
                );
                assert(!s.pending.contains_key(s.next_token));
            }
        },
        Step::Settle { token, account, amount, success } => {
            if s.awaits(token, account, amount) {
                if success {
                    lemma_total_remove(s.pending, crate::model::amount(), token);
                } else if s.can_restore(token) {
                    lemma_total_remove(s.pending, crate::model::amount(), token);
                    lemma_total_insert(
                        s.balances,
                        points(),
                        account,
                        s.balance_of(account) + amount,
                    );
                }
            }
        },
    }
}

/// No run drives a balance below zero or beyond the range of its type, and a
/// withdrawal that is taken leaves the caller exactly `amount` poorer.
pub proof fn law_balance_stays_in_range(s: State, steps: Seq<Step>, account: Seq<char>)
    requires
        s.valid(),
    ensures
        s.after_all(steps).valid(),
        0 <= s.after_all(steps).balance_of(account) <= u128::MAX,
        forall|amount: nat| #[trigger]
            s.accepts_withdraw(account, amount) ==> s.withdraw(account, amount).balance_of(account)
                == s.balance_of(account) - amount,
    decreases steps.len(),
{
    if steps.len() > 0 {
        law_balance_stays_in_range(s, steps.drop_last(), account);
        law_step_conserves_value(s.after_all(steps.drop_last()), steps.last());
    }
}

/// Value is conserved over every run: the points on all balances and in all
/// withdrawals in flight, together with the points of the withdrawals that
/// were committed on the way, are the points held at the start together with
/// the points credited for deposits on the way.
pub proof fn law_value_is_conserved(s: State, steps: Seq<Step>)
    requires
        s.valid(),
    ensures
        s.after_all(steps).valid(),
        s.after_all(steps).in_accounts() + s.after_all(steps).in_flight() + committed_over(
            s,
            steps,
        ) == s.in_accounts() + s.in_flight() + credited_over(s, steps),
    decreases steps.len(),
{
    if steps.len() > 0 {
        law_value_is_conserved(s, steps.drop_last());
        law_step_conserves_value(s.after_all(steps.drop_last()), steps.last());
    }
}

/// From a fresh contract on, the points on all balances and in all
/// withdrawals in flight are the points credited for deposits less the
/// points of the committed withdrawals.
pub proof fn law_value_is_conserved_from_start(
    owner: Seq<char>,
    token_contract: Seq<char>,
    steps: Seq<Step>,
)
    ensures
        ({
            let start = State::initial(owner, token_contract);
            let end = start.after_all(steps);
            end.in_accounts() + end.in_flight() == credited_over(start, steps) - committed_over(
                start,
                steps,
            )
        }),
{
    law_initial_state_is_valid(owner, token_contract);
    law_value_is_conserved(State::initial(owner, token_contract), steps);
}

/// Delivering the same outcome a second time changes nothing.
pub proof fn law_settlement_is_idempotent(
    s: State,
    token: nat,
    account: Seq<char>,
    amount: nat,
    success: bool,
)
    ensures
        s.settle(token, account, amount, success).settle(token, account, amount, success)
            == s.settle(token, account, amount, success),
{
    let once = s.settle(token, account, amount, success);
    if once != s {
        assert(!once.pending.contains_key(token));
    }
}

/// Once a delivery has settled a withdrawal, its token is spent: whatever is
/// delivered under it later, with whatever account, amount and outcome,
/// changes nothing.  So the outcome of one withdrawal changes the balances
/// at most once.
pub proof fn law_settled_token_is_spent(
    s: State,
    token: nat,
    account: Seq<char>,
    amount: nat,
    success: bool,
    later_account: Seq<char>,
    later_amount: nat,
    later_success: bool,
)
    requires
        s.awaits(token, account, amount),
        success || s.can_restore(token),
    ensures
        s.settle(token, account, amount, success).settle(
            token,
            later_account,
            later_amount,
            later_success,
        ) == s.settle(token, account, amount, success),
{
    let once = s.settle(token, account, amount, success);
    assert(!once.pending.contains_key(token));
}

/// A token that was handed out and is not in flight stays out of flight over
/// every run: no later withdrawal gets it again.  So between the settlement
/// of a withdrawal and a second delivery of its outcome, whatever else
/// happens, the second delivery still changes nothing.
pub proof fn law_spent_token_stays_spent(s: State, steps: Seq<Step>, token: nat)
    requires
        s.valid(),
        token < s.next_token,
        !s.pending.contains_key(token),
    ensures
        s.next_token <= s.after_all(steps).next_token,
        !s.after_all(steps).pending.contains_key(token),
        forall|account: Seq<char>, amount: nat, success: bool|
            s.after_all(steps).settle(token, account, amount, success) == s.after_all(steps),
    decreases steps.len(),
{
    if steps.len() > 0 {
        law_spent_token_stays_spent(s, steps.drop_last(), token);
        law_value_is_conserved(s, steps.drop_last());
    }
}

/// The account whose balance a step may change.
pub open spec fn subject(step: Step) -> Seq<char> {
    match step {
        Step::Deposit { caller, .. } => caller,
        Step::Withdraw { caller, .. } => caller,
        Step::Settle { account, .. } => account,
    }
}

/// A step changes the balance of no account but its subject: the accounts
/// do not stand in each other's way.
pub proof fn law_step_touches_one_account(s: State, step: Step, other: Seq<char>)
    requires
        other != subject(step),
    ensures
        s.after(step).balance_of(other) == s.balance_of(other),
{
}

/// An account that is on record stays on record: no step takes a balance
/// off the ledger, it can only bring it down to zero.
pub proof fn law_accounts_stay_on_record(s: State, step: Step, account: Seq<char>)
    requires
        s.balances.contains_key(account),
    ensures
        s.after(step).balances.contains_key(account),
{
}

/// A deposit shows on the balance at once, as the points it bought.
pub proof fn law_deposit_shows_on_balance(s: State, caller: Seq<char>, value: nat)
    requires
        s.accepts_deposit(caller, value),
    ensures
        s.deposit(caller, value).balance_of(caller) == s.balance_of(caller) + points_for(value),
        forall|other: Seq<char>|
            other != caller ==> s.deposit(caller, value).balance_of(other) == s.balance_of(other),
{
}

/// A withdrawal shows on the balance at once, before its transfer is
/// settled, and stands in flight under the token it was given.
pub proof fn law_withdrawal_debits_first(s: State, caller: Seq<char>, amount: nat)
    requires
        s.valid(),
        s.accepts_withdraw(caller, amount),
    ensures
        s.withdraw(caller, amount).balance_of(caller) == s.balance_of(caller) - amount,
        s.withdraw(caller, amount).awaits(s.next_token, caller, amount),
        forall|token: nat| #[trigger]
            s.pending.contains_key(token) ==> s.withdraw(caller, amount).pending[token]
                == s.pending[token],
{
}

/// A withdrawal followed by the report of a successful transfer leaves the
/// caller with the balance held before, less the amount, and nothing in
/// flight that was not in flight before.
pub proof fn law_round_trip_commits(s: State, caller: Seq<char>, amount: nat)
    requires
        s.valid(),
        s.accepts_withdraw(caller, amount),
    ensures
        ({
            let end = s.withdraw(caller, amount).settle(s.next_token, caller, amount, true);
            &&& end.balance_of(caller) == s.balance_of(caller) - amount
            &&& end.pending == s.pending
            &&& forall|other: Seq<char>| end.balance_of(other) == s.withdraw(caller, amount).balance_of(other)
        }),
{
    let mid = s.withdraw(caller, amount);
    let end = mid.settle(s.next_token, caller, amount, true);
    assert(!s.pending.contains_key(s.next_token));
    assert(end.pending =~= s.pending);
}

/// A withdrawal followed by the report of a failed transfer restores the
/// caller's balance in full, and every other balance is as it was.
pub proof fn law_round_trip_compensates(s: State, caller: Seq<char>, amount: nat)
    requires
        s.valid(),
        s.accepts_withdraw(caller, amount),
    ensures
        ({
            let end = s.withdraw(caller, amount).settle(s.next_token, caller, amount, false);
            &&& forall|account: Seq<char>| end.balance_of(account) == s.balance_of(account)
            &&& end.pending == s.pending
        }),
{
    let mid = s.withdraw(caller, amount);
    let end = mid.settle(s.next_token, caller, amount, false);
    assert(!s.pending.contains_key(s.next_token));
    assert(mid.can_restore(s.next_token));
    assert(end.pending =~= s.pending);
}

/// Switching the pause over pauses a running contract and lets a paused one
/// run; switching it over twice leaves the contract as it was.
pub proof fn law_pause_switches_back(s: State)
    ensures
        s.toggled().paused == !s.paused,
        s.toggled().toggled() == s,
{
}

} // verus!

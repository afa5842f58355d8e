//! The contract as a mathematical state, and the steps that change it.
//!
//! Every handler of [`crate::StatusMessage`] is specified as one of the steps
//! defined here, applied to the view of the contract.

use crate::totals::total;
use vstd::prelude::*;

verus! {

/// The points that a deposit of `value` buys: twice the value.
pub open spec fn points_for(value: nat) -> nat {
    2 * value
}

/// A withdrawal whose transfer has been requested and has not been settled.
pub struct Pending {
    /// The account that was debited.
    pub account: Seq<char>,
    /// The points that were taken from it.
    pub amount: nat,
}

/// The weight of a balance in a sum of balances: itself.
pub open spec fn points() -> spec_fn(nat) -> nat {
    |balance: nat| balance
}

/// The weight of a pending withdrawal in a sum: its amount.
pub open spec fn amount() -> spec_fn(Pending) -> nat {
    |pending: Pending| pending.amount
}

/// The state of the contract.
pub struct State {
    /// The text that `get_data` hands out.
    pub data: Seq<char>,
    /// Whether the contract is paused.
    pub paused: bool,
    /// The contract that carries out the token transfers.
    pub token_contract: Seq<char>,
    /// The account with the right to pause and to name a new owner.
    pub owner: Seq<char>,
    /// The points on record, by account.
    pub balances: Map<Seq<char>, nat>,
    /// The withdrawals in flight, by token.
    pub pending: Map<nat, Pending>,
    /// The token that the next withdrawal gets.
    pub next_token: nat,
}

impl State {
    /// The state of a contract that was just set up.
    pub open spec fn initial(owner: Seq<char>, token_contract: Seq<char>) -> State {
        State {
            data: "Hello World!"@,
            paused: false,
            token_contract,
            owner,
            balances: Map::empty(),
            pending: Map::empty(),
            next_token: 0,
        }
    }

    /// What holds of every state that the contract can be in: finitely many
    /// accounts and withdrawals, every amount within the range of the
    /// balance's type, and every token in flight handed out before.
    pub open spec fn valid(self) -> bool {
        &&& self.balances.dom().finite()
        &&& self.pending.dom().finite()
        &&& self.next_token <= u64::MAX
        &&& forall|account: Seq<char>| #[trigger]
            self.balances.contains_key(account) ==> self.balances[account] <= u128::MAX
        &&& forall|token: nat| #[trigger]
            self.pending.contains_key(token) ==> token < self.next_token
                && self.pending[token].amount <= u128::MAX
    }

    /// The points that `account` holds: those on record, or zero.
    pub open spec fn balance_of(self, account: Seq<char>) -> nat {
        if self.balances.contains_key(account) {
            self.balances[account]
        } else {
            0
        }
    }

    /// The points held by all accounts together.
    pub open spec fn in_accounts(self) -> nat {
        total(self.balances, points())
    }

    /// The points of all withdrawals in flight together.
    pub open spec fn in_flight(self) -> nat {
        total(self.pending, amount())
    }

    /// Whether a deposit of `value` by `caller` is taken: the points it buys
    /// must fit on top of what the caller holds.
    pub open spec fn accepts_deposit(self, caller: Seq<char>, value: nat) -> bool {
        self.balance_of(caller) + points_for(value) <= u128::MAX
    }

    /// The state after `caller` deposits `value`.
    pub open spec fn deposit(self, caller: Seq<char>, value: nat) -> State {
        if self.accepts_deposit(caller, value) {
            State {
                balances: self.balances.insert(
                    caller,
                    self.balance_of(caller) + points_for(value),
                ),
                ..self
            }
        } else {
            self
        }
    }

    /// Whether `caller` holds the `amount` it asks to withdraw.
    pub open spec fn covers(self, caller: Seq<char>, amount: nat) -> bool {
        amount <= self.balance_of(caller)
    }

    /// Whether a token is left for one more withdrawal.
    pub open spec fn has_token(self) -> bool {
        self.next_token < u64::MAX
    }

    /// Whether a withdrawal of `amount` by `caller` is taken.
    pub open spec fn accepts_withdraw(self, caller: Seq<char>, amount: nat) -> bool {
        self.covers(caller, amount) && self.has_token()
    }

    /// The state after `caller` asks to withdraw `amount`: the points are
    /// taken from the balance at once and stand as a withdrawal in flight
    /// under the next token.
    pub open spec fn withdraw(self, caller: Seq<char>, amount: nat) -> State {
        if self.accepts_withdraw(caller, amount) {
            State {
                balances: self.balances.insert(
                    caller,
                    (self.balance_of(caller) - amount) as nat,
                ),
                pending: self.pending.insert(self.next_token, Pending { account: caller, amount }),
                next_token: self.next_token + 1,
                ..self
            }
        } else {
            self
        }
    }

    /// Whether a withdrawal of `amount` by `account` is in flight under
    /// `token`.
    pub open spec fn awaits(self, token: nat, account: Seq<char>, amount: nat) -> bool {
        self.pending.contains_key(token) && self.pending[token] == (Pending { account, amount })
    }

    /// The state after the transfer for `token` succeeded: the withdrawal is
    /// no longer in flight, and the debit stands.
    pub open spec fn commit(self, token: nat) -> State {
        State { pending: self.pending.remove(token), ..self }
    }

    /// Whether the points of the withdrawal under `token` fit back on the
    /// balance they were taken from.
    pub open spec fn can_restore(self, token: nat) -> bool {
        self.balance_of(self.pending[token].account) + self.pending[token].amount <= u128::MAX
    }

    /// The state after the transfer for `token` failed: the withdrawal is no
    /// longer in flight, and its points are back on the balance.
    pub open spec fn compensate(self, token: nat) -> State {
        let Pending { account, amount } = self.pending[token];
        State {
            balances: self.balances.insert(account, self.balance_of(account) + amount),
            pending: self.pending.remove(token),
            ..self
        }
    }

    /// The state after the outcome of the transfer for `token` was
    /// delivered.  Nothing changes unless a withdrawal of `amount` by
    /// `account` is in flight under `token`, nor when the points of a
    /// failed transfer do not fit back on the balance.
    pub open spec fn settle(self, token: nat, account: Seq<char>, amount: nat, success: bool)
        -> State {
        if !self.awaits(token, account, amount) {
            self
        } else if success {
            self.commit(token)
        } else if self.can_restore(token) {
            self.compensate(token)
        } else {
            self
        }
    }

    /// The state with the pause switched over.
    pub open spec fn toggled(self) -> State {
        State { paused: !self.paused, ..self }
    }

    /// The state with `owner` as the owner.
    pub open spec fn owned_by(self, owner: Seq<char>) -> State {
        State { owner, ..self }
    }
}

} // verus!

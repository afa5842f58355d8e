//! The withdrawals in flight: debited, requested, and not yet settled.

use crate::account::AccountId;
use crate::model::Pending;
use crate::table::{
    as_map, distinct, lemma_at, lemma_empty, lemma_finite, lemma_push, lemma_remove, listed,
    position,
};
use vstd::prelude::*;

verus! {

/// A withdrawal in flight, as the contract keeps it.
#[derive(Debug)]
pub struct PendingWithdrawal {
    token: u64,
    account: AccountId,
    amount: u128,
}

impl View for PendingWithdrawal {
    type V = Pending;

    closed spec fn view(&self) -> Pending {
        Pending { account: self.account@, amount: self.amount as nat }
    }
}

impl PendingWithdrawal {
    /// The token under which the withdrawal is kept.
    pub closed spec fn id(&self) -> nat {
        self.token as nat
    }

    /// A withdrawal of `amount` by `account`, kept under `token`.
    pub fn new(token: u64, account: AccountId, amount: u128) -> (withdrawal: Self)
        ensures
            withdrawal.id() == token,
            withdrawal@ == (Pending { account: account@, amount: amount as nat }),
    {
        PendingWithdrawal { token, account, amount }
    }

    /// The token under which the withdrawal is kept.
    pub fn token(&self) -> (token: u64)
        ensures
            token == self.id(),
    {
        self.token
    }

    /// The account that was debited.
    pub fn account(&self) -> (account: &AccountId)
        ensures
            account@ == self@.account,
    {
        &self.account
    }

    /// The points that were taken from the account.
    pub fn amount(&self) -> (amount: u128)
        ensures
            amount == self@.amount,
    {
        self.amount
    }
}

impl Clone for PendingWithdrawal {
    fn clone(&self) -> (copy: Self)
        ensures
            copy.id() == self.id(),
            copy@ == self@,
    {
        PendingWithdrawal { token: self.token, account: self.account.clone(), amount: self.amount }
    }
}

/// The withdrawals that a list stands for, by token.
pub open spec fn filed(list: Seq<PendingWithdrawal>) -> Map<nat, Pending>
    decreases list.len(),
{
    if list.len() == 0 {
        Map::empty()
    } else {
        filed(list.drop_last()).insert(list.last().id(), list.last()@)
    }
}

/// No token stands twice in the list, and each was handed out before
/// `next_token`.
pub open spec fn tokens_in_order(list: Seq<PendingWithdrawal>, next_token: nat) -> bool {
    &&& forall|i: int, j: int| 0 <= i < j < list.len() ==> list[i].id() != list[j].id()
    &&& forall|i: int| 0 <= i < list.len() ==> list[i].id() < next_token
}

/// The withdrawals as records of a token and what is kept under it.
spec fn records(open: Seq<PendingWithdrawal>) -> Seq<(nat, Pending)> {
    open.map_values(|withdrawal: PendingWithdrawal| (withdrawal.id(), withdrawal@))
}

/// A list without a token twice stands for the same withdrawals whether it
/// is read record by record or as a whole.
proof fn lemma_filed(list: Seq<PendingWithdrawal>)
    requires
        distinct(records(list)),
    ensures
        filed(list) == as_map(records(list)),
    decreases list.len(),
{
    if list.len() == 0 {
        lemma_empty::<nat, Pending>();
        assert(records(list) =~= Seq::empty());
    } else {
        let shorter = list.drop_last();
        let last = list.last();
        assert(records(shorter) =~= records(list).drop_last());
        assert(distinct(records(shorter))) by {
            assert forall|a: int, b: int| 0 <= a < b < shorter.len() implies records(
                shorter,
            )[a].0 != records(shorter)[b].0 by {
                assert(records(list)[a].0 != records(list)[b].0);
            }
        }
        lemma_filed(shorter);
        if listed(records(shorter), last.id()) {
            let k = position(records(shorter), last.id());
            assert(records(list)[k].0 == records(list)[list.len() - 1].0);
        }
        lemma_push(records(shorter), last.id(), last@);
        assert(records(list) =~= records(shorter).push((last.id(), last@)));
    }
}

/// Where the withdrawal under `token` stands among `open`, if there is one.
fn find(open: &Vec<PendingWithdrawal>, token: u64) -> (found: Option<usize>)
    ensures
        match found {
            Some(at) => at < open.len() && open[at as int].id() == token,
            None => !listed(records(open@), token as nat),
        },
{
    let mut i: usize = 0;
    while i < open.len()
        invariant
            i <= open.len(),
            forall|k: int| 0 <= k < i ==> open[k].id() != token,
        decreases open.len() - i,
    {
        if open[i].token == token {
            return Some(i);
        }
        i += 1;
    }
    None
}

/// The withdrawals in flight, and the token for the next one.
pub(crate) struct Withdrawals {
    open: Vec<PendingWithdrawal>,
    next_token: u64,
}

impl View for Withdrawals {
    type V = Map<nat, Pending>;

    closed spec fn view(&self) -> Map<nat, Pending> {
        as_map(records(self.open@))
    }
}

impl Withdrawals {
    #[verifier::type_invariant]
    pub(crate) closed spec fn well_formed(self) -> bool {
        &&& distinct(records(self.open@))
        &&& forall|i: int| 0 <= i < self.open.len() ==> self.open[i].id() < self.next_token
    }

    /// The token that the next withdrawal gets.
    pub(crate) closed spec fn next(&self) -> nat {
        self.next_token as nat
    }

    /// The withdrawals in flight are finitely many, each amount is within
    /// the range of its type, and each token was handed out before the next
    /// one.
    pub(crate) proof fn lemma_in_order(&self)
        requires
            self.well_formed(),
        ensures
            self@.dom().finite(),
            self.next() <= u64::MAX,
            forall|token: nat| #[trigger]
                self@.contains_key(token) ==> token < self.next() && self@[token].amount
                    <= u128::MAX,
    {
        lemma_finite(records(self.open@));
        assert forall|token: nat| #[trigger] self@.contains_key(token) implies token
            < self.next() && self@[token].amount <= u128::MAX by {
            let at = position(records(self.open@), token);
            assert(self.open[at].id() == token);
        }
    }

    /// No withdrawal in flight, and none numbered yet.
    pub(crate) fn new() -> (fresh: Self)
        ensures
            fresh@ == Map::<nat, Pending>::empty(),
            fresh.next() == 0,
    {
        let fresh = Withdrawals { open: Vec::new(), next_token: 0 };
        proof {
            lemma_empty::<nat, Pending>();
            assert(records(fresh.open@) =~= Seq::empty());
        }
        fresh
    }

    /// Whether a token is left for one more withdrawal.
    pub(crate) fn has_token(&self) -> (left: bool)
        ensures
            left == (self.next() < u64::MAX),
    {
        self.next_token < u64::MAX
    }

    /// The token that the next withdrawal gets.
    pub(crate) fn next_token(&self) -> (token: u64)
        ensures
            token == self.next(),
    {
        self.next_token
    }

    /// The withdrawal in flight under `token`, if there is one.
    pub(crate) fn get(&self, token: u64) -> (found: Option<&PendingWithdrawal>)
        ensures
            match found {
                Some(withdrawal) => {
                    &&& self@.contains_key(token as nat)
                    &&& withdrawal@ == self@[token as nat]
                    &&& withdrawal.id() == token
                },
                None => !self@.contains_key(token as nat),
            },
    {
        proof {
            use_type_invariant(self);
        }
        match find(&self.open, token) {
            Some(at) => {
                proof {
                    lemma_at(records(self.open@), at as int);
                }
                Some(&self.open[at])
            },
            None => None,
        }
    }

    /// Puts a withdrawal of `amount` by `account` in flight and returns its
    /// token.
    pub(crate) fn open(&mut self, account: &AccountId, amount: u128) -> (token: u64)
        requires
            old(self).next() < u64::MAX,
        ensures
            token == old(self).next(),
            final(self).next() == old(self).next() + 1,
            final(self)@ == old(self)@.insert(
                token as nat,
                Pending { account: account@, amount: amount as nat },
            ),
    {
        proof {
            use_type_invariant(&*self);
        }
        let ghost before = records(self.open@);
        let token = self.next_token;
        let withdrawal = PendingWithdrawal { token, account: account.clone(), amount };
        let mut open: Vec<PendingWithdrawal> = Vec::new();
        std::mem::swap(&mut open, &mut self.open);
        proof {
            if listed(before, token as nat) {
                assert(open[position(before, token as nat)].id() == token);
            }
            lemma_push(before, token as nat, withdrawal@);
            assert(records(open@.push(withdrawal)) =~= before.push((token as nat, withdrawal@)));
        }
        open.push(withdrawal);
        *self = Withdrawals { open, next_token: token + 1 };
        token
    }

    /// Takes the withdrawal under `token` out of flight.
    pub(crate) fn close(&mut self, token: u64)
        ensures
            final(self).next() == old(self).next(),
            final(self)@ == old(self)@.remove(token as nat),
    {
        proof {
            use_type_invariant(&*self);
        }
        let ghost before = records(self.open@);
        match find(&self.open, token) {
            Some(at) => {
                let mut open: Vec<PendingWithdrawal> = Vec::new();
                std::mem::swap(&mut open, &mut self.open);
                let ghost kept = open@;
                let _ = open.remove(at);
                proof {
                    lemma_remove(before, at as int);
                    assert(records(open@) =~= before.remove(at as int));
                    assert forall|i: int| 0 <= i < open.len() implies open[i].id()
                        < self.next_token by {
                        assert(open[i] == kept[if i < at {
                            i
                        } else {
                            i + 1
                        }]);
                    }
                }
                self.open = open;
            },
            None => {
                assert(as_map(before) =~= as_map(before).remove(token as nat));
            },
        }
    }

    /// Every withdrawal in flight, each once.
    pub(crate) fn entries(&self) -> (list: Vec<PendingWithdrawal>)
        ensures
            tokens_in_order(list@, self.next()),
            filed(list@) == self@,
    {
        proof {
            use_type_invariant(self);
        }
        let mut list: Vec<PendingWithdrawal> = Vec::new();
        let mut i: usize = 0;
        while i < self.open.len()
            invariant
                i <= self.open.len(),
                list.len() == i,
                forall|k: int|
                    0 <= k < i ==> list[k].id() == self.open[k].id() && list[k]@ == self.open[k]@,
            decreases self.open.len() - i,
        {
            list.push(self.open[i].clone());
            i += 1;
        }
        proof {
            assert(records(list@) =~= records(self.open@));
            lemma_filed(list@);
            assert forall|a: int, b: int| 0 <= a < b < list.len() implies list[a].id()
                != list[b].id() by {
                assert(records(list@)[a].0 != records(list@)[b].0);
            }
        }
        list
    }

    /// The withdrawals in flight that `list` stands for, with `next_token`
    /// for the next one, unless a token stands in the list twice or was not
    /// handed out before `next_token`.
    pub(crate) fn from_entries(list: &Vec<PendingWithdrawal>, next_token: u64) -> (restored:
        Option<Withdrawals>)
        ensures
            match restored {
                Some(withdrawals) => {
                    &&& tokens_in_order(list@, next_token as nat)
                    &&& withdrawals@ == filed(list@)
                    &&& withdrawals.next() == next_token
                },
                None => !tokens_in_order(list@, next_token as nat),
            },
    {
        let mut open: Vec<PendingWithdrawal> = Vec::new();
        let mut i: usize = 0;
        while i < list.len()
            invariant
                i <= list.len(),
                tokens_in_order(list@.take(i as int), next_token as nat),
                open.len() == i,
                forall|k: int| 0 <= k < i ==> open[k].id() == list[k].id() && open[k]@ == list[k]@,
            decreases list.len() - i,
        {
            let entry = &list[i];
            if entry.token >= next_token {
                return None;
            }
            match find(&open, entry.token) {
                Some(k) => {
                    assert(list[k as int].id() == list[i as int].id());
                    return None;
                },
                None => {},
            }
            proof {
                assert forall|k: int| 0 <= k < i implies list[k].id() != list[i as int].id() by {
                    assert(records(open@)[k].0 == list[k].id());
                }
            }
            open.push(entry.clone());
            i += 1;
        }
        proof {
            assert(list@.take(i as int) =~= list@);
            assert(records(open@) =~= records(list@));
            assert(distinct(records(list@))) by {
                assert forall|a: int, b: int| 0 <= a < b < list.len() implies records(
                    list@,
                )[a].0 != records(list@)[b].0 by {
                    assert(list[a].id() != list[b].id());
                }
            }
            lemma_filed(list@);
        }
        Some(Withdrawals { open, next_token })
    }
}

} // verus!

//! The ledger store: a balance of points for each account.

use crate::account::AccountId;
use crate::error::Error;
use crate::table::{
    as_map, distinct, lemma_at, lemma_empty, lemma_finite, lemma_push, lemma_update, listed,
    position,
};
use vstd::prelude::*;

verus! {

/// One account with the points it holds.
struct Entry {
    account: AccountId,
    balance: u128,
}

/// The entries as records of an account's name and its points.
spec fn records(entries: Seq<Entry>) -> Seq<(Seq<char>, nat)> {
    entries.map_values(|entry: Entry| (entry.account@, entry.balance as nat))
}

/// The balances that a list of accounts with their points stands for.
pub open spec fn recorded(list: Seq<(AccountId, u128)>) -> Map<Seq<char>, nat>
    decreases list.len(),
{
    if list.len() == 0 {
        Map::empty()
    } else {
        recorded(list.drop_last()).insert(list.last().0@, list.last().1 as nat)
    }
}

/// No account stands twice in the list.
pub open spec fn each_listed_once(list: Seq<(AccountId, u128)>) -> bool {
    forall|i: int, j: int| 0 <= i < j < list.len() ==> list[i].0@ != list[j].0@
}

/// A list of accounts with their points as records of a name and points.
spec fn named(list: Seq<(AccountId, u128)>) -> Seq<(Seq<char>, nat)> {
    list.map_values(|entry: (AccountId, u128)| (entry.0@, entry.1 as nat))
}

/// A list without an account twice stands for the same balances whether it
/// is read record by record or as a whole.
proof fn lemma_recorded(list: Seq<(AccountId, u128)>)
    requires
        distinct(named(list)),
    ensures
        recorded(list) == as_map(named(list)),
    decreases list.len(),
{
    if list.len() == 0 {
        lemma_empty::<Seq<char>, nat>();
        assert(named(list) =~= Seq::empty());
    } else {
        let shorter = list.drop_last();
        let last = list.last();
        assert(named(shorter) =~= named(list).drop_last());
        assert(distinct(named(shorter))) by {
            assert forall|a: int, b: int| 0 <= a < b < shorter.len() implies named(shorter)[a].0
                != named(shorter)[b].0 by {
                assert(named(list)[a].0 != named(list)[b].0);
            }
        }
        lemma_recorded(shorter);
        if listed(named(shorter), last.0@) {
            let k = position(named(shorter), last.0@);
            assert(named(list)[k].0 == named(list)[list.len() - 1].0);
        }
        lemma_push(named(shorter), last.0@, last.1 as nat);
        assert(named(list) =~= named(shorter).push((last.0@, last.1 as nat)));
    }
}

/// Where the entry of `account` stands among `entries`, if it has one.
fn find(entries: &Vec<Entry>, account: &AccountId) -> (found: Option<usize>)
    ensures
        match found {
            Some(at) => at < entries.len() && entries[at as int].account@ == account@,
            None => !listed(records(entries@), account@),
        },
{
    let mut i: usize = 0;
    while i < entries.len()
        invariant
            i <= entries.len(),
            forall|k: int| 0 <= k < i ==> entries[k].account@ != account@,
        decreases entries.len() - i,
    {
        if entries[i].account == *account {
            return Some(i);
        }
        i += 1;
    }
    None
}

/// Balances of points by account.  An account that was never credited holds
/// zero points.
pub struct Ledger {
    entries: Vec<Entry>,
}

impl View for Ledger {
    type V = Map<Seq<char>, nat>;

    closed spec fn view(&self) -> Map<Seq<char>, nat> {
        as_map(records(self.entries@))
    }
}

impl Ledger {
    #[verifier::type_invariant]
    spec fn well_formed(self) -> bool {
        distinct(records(self.entries@))
    }

    /// The points that `account` holds: those on record, or zero.
    pub open spec fn balance_of(&self, account: Seq<char>) -> nat {
        if self@.contains_key(account) {
            self@[account]
        } else {
            0
        }
    }

    /// The accounts on record are finitely many, and each balance is within
    /// the range of its type.
    pub proof fn lemma_in_range(&self)
        ensures
            self@.dom().finite(),
            forall|account: Seq<char>| #[trigger]
                self@.contains_key(account) ==> self@[account] <= u128::MAX,
    {
        lemma_finite(records(self.entries@));
    }

    /// A ledger in which no account holds anything.
    pub fn new() -> (ledger: Self)
        ensures
            ledger@ == Map::<Seq<char>, nat>::empty(),
    {
        let ledger = Ledger { entries: Vec::new() };
        proof {
            lemma_empty::<Seq<char>, nat>();
            assert(records(ledger.entries@) =~= Seq::empty());
        }
        ledger
    }

    /// The points that `account` holds.  Never fails: an account without a
    /// record holds zero.
    pub fn get(&self, account: &AccountId) -> (points: u128)
        ensures
            points == self.balance_of(account@),
    {
        proof {
            use_type_invariant(self);
        }
        match find(&self.entries, account) {
            Some(at) => {
                proof {
                    lemma_at(records(self.entries@), at as int);
                }
                self.entries[at].balance
            },
            None => 0,
        }
    }

    /// Records `balance` as what `account` holds, in place of what it held.
    fn put(&mut self, account: &AccountId, balance: u128)
        ensures
            final(self)@ == old(self)@.insert(account@, balance as nat),
    {
        proof {
            use_type_invariant(&*self);
        }
        let ghost before = records(self.entries@);
        let entry = Entry { account: account.clone(), balance };
        let found = find(&self.entries, account);
        let mut entries: Vec<Entry> = Vec::new();
        std::mem::swap(&mut entries, &mut self.entries);
        match found {
            Some(at) => {
                entries.set(at, entry);
                proof {
                    lemma_update(before, at as int, balance as nat);
                    assert(records(entries@) =~= before.update(
                        at as int,
                        (account@, balance as nat),
                    ));
                }
            },
            None => {
                entries.push(entry);
                proof {
                    lemma_push(before, account@, balance as nat);
                    assert(records(entries@) =~= before.push((account@, balance as nat)));
                }
            },
        }
        self.entries = entries;
    }

    /// Adds `amount` points to what `account` holds and returns the new
    /// balance.  A sum that does not fit the balance's type is refused with
    /// [`Error::Overflow`], and the ledger stays as it was.
    pub fn credit(&mut self, account: &AccountId, amount: u128) -> (outcome: Result<u128, Error>)
        ensures
            match outcome {
                Ok(balance) => {
                    &&& balance == old(self).balance_of(account@) + amount
                    &&& final(self)@ == old(self)@.insert(account@, balance as nat)
                },
                Err(reason) => {
                    &&& reason == Error::Overflow
                    &&& old(self).balance_of(account@) + amount > u128::MAX
                    &&& final(self)@ == old(self)@
                },
            },
    {
        let held = self.get(account);
        match held.checked_add(amount) {
            Some(balance) => {
                self.put(account, balance);
                Ok(balance)
            },
            None => Err(Error::Overflow),
        }
    }

    /// Takes `amount` points from what `account` holds and returns the new
    /// balance.  Asking for more than the account holds is refused with
    /// [`Error::InsufficientBalance`], and the ledger stays as it was.
    pub fn debit(&mut self, account: &AccountId, amount: u128) -> (outcome: Result<u128, Error>)
        ensures
            match outcome {
                Ok(balance) => {
                    &&& amount <= old(self).balance_of(account@)
                    &&& balance == old(self).balance_of(account@) - amount
                    &&& final(self)@ == old(self)@.insert(account@, balance as nat)
                },
                Err(reason) => {
                    &&& reason == Error::InsufficientBalance
                    &&& amount > old(self).balance_of(account@)
                    &&& final(self)@ == old(self)@
                },
            },
    {
        let held = self.get(account);
        if amount > held {
            return Err(Error::InsufficientBalance);
        }
        let balance = held - amount;
        self.put(account, balance);
        Ok(balance)
    }

    /// Every account on record with its points, each account once.
    pub fn entries(&self) -> (list: Vec<(AccountId, u128)>)
        ensures
            each_listed_once(list@),
            recorded(list@) == self@,
    {
        proof {
            use_type_invariant(self);
        }
        let mut list: Vec<(AccountId, u128)> = Vec::new();
        let mut i: usize = 0;
        while i < self.entries.len()
            invariant
                i <= self.entries.len(),
                list.len() == i,
                forall|k: int|
                    0 <= k < i ==> list[k].0@ == self.entries[k].account@ && list[k].1
                        == self.entries[k].balance,
            decreases self.entries.len() - i,
        {
            let entry = &self.entries[i];
            list.push((entry.account.clone(), entry.balance));
            i += 1;
        }
        proof {
            assert(named(list@) =~= records(self.entries@));
            lemma_recorded(list@);
            assert forall|a: int, b: int| 0 <= a < b < list.len() implies list[a].0@
                != list[b].0@ by {
                assert(named(list@)[a].0 != named(list@)[b].0);
            }
        }
        list
    }

    /// The ledger that `list` stands for, unless an account stands in it
    /// twice.
    pub fn from_entries(list: &Vec<(AccountId, u128)>) -> (restored: Option<Ledger>)
        ensures
            match restored {
                Some(ledger) => each_listed_once(list@) && ledger@ == recorded(list@),
                None => !each_listed_once(list@),
            },
    {
        let mut entries: Vec<Entry> = Vec::new();
        let mut i: usize = 0;
        while i < list.len()
            invariant
                i <= list.len(),
                each_listed_once(list@.take(i as int)),
                entries.len() == i,
                forall|k: int|
                    0 <= k < i ==> entries[k].account@ == list[k].0@ && entries[k].balance
                        == list[k].1,
            decreases list.len() - i,
        {
            let account = &list[i].0;
            match find(&entries, account) {
                Some(k) => {
                    assert(list[k as int].0@ == list[i as int].0@);
                    return None;
                },
                None => {},
            }
            proof {
                assert forall|k: int| 0 <= k < i implies list[k].0@ != list[i as int].0@ by {
                    assert(records(entries@)[k].0 == list[k].0@);
                }
            }
            entries.push(Entry { account: account.clone(), balance: list[i].1 });
            i += 1;
        }
        proof {
            assert(list@.take(i as int) =~= list@);
            assert(records(entries@) =~= named(list@));
            assert(distinct(named(list@))) by {
                assert forall|a: int, b: int| 0 <= a < b < list.len() implies named(list@)[a].0
                    != named(list@)[b].0 by {
                    assert(list[a].0@ != list[b].0@);
                }
            }
            lemma_recorded(list@);
        }
        Some(Ledger { entries })
    }
}

} // verus!

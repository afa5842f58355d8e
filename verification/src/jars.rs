//! Money jars, and the storage keys under which a user's jars are kept.

use crate::account::AccountId;
use crate::decimal::{decimal, decimal_string, digit};
use vstd::prelude::*;
use vstd::string::StringExecFns;

verus! {

/// A jar with an amount of money in it.
#[derive(Clone, Copy, Debug, PartialEq, Eq, Structural, PartialOrd, Ord)]
pub struct MoneyJar {
    /// The money in the jar.
    pub amount: u128,
    /// The number that the user gave the jar.
    pub id: u128,
}

impl MoneyJar {
    /// A jar numbered `id` that holds `amount`.
    pub fn new(amount: u128, id: u128) -> (jar: Self)
        ensures
            jar.amount == amount,
            jar.id == id,
    {
        MoneyJar { amount, id }
    }

    /// Whether the amount in the jar is even.
    pub open spec fn is_even(self) -> bool {
        self.amount % 2 == 0
    }
}

/// The key of the jars that `account` opens with a jar numbered `id`: the
/// number in decimal, and the account's name right behind it.
pub open spec fn jar_key(id: nat, account: Seq<char>) -> Seq<char> {
    decimal(id) + account
}

/// The key of the jars that `account` opens with a jar numbered `id`.
pub fn jar_storage_key(id: u128, account: &AccountId) -> (key: String)
    ensures
        key@ == jar_key(id as nat, account@),
{
    decimal_string(id).concat(account.as_str())
}

/// The key of a set of jars made at the time `timestamp_ms`: the time in
/// decimal.
pub fn timestamp_storage_key(timestamp_ms: u64) -> (key: String)
    ensures
        key@ == decimal(timestamp_ms as nat),
{
    decimal_string(timestamp_ms as u128)
}

/// The key of the jars that `account` opens at the time `timestamp_ms` with a
/// jar numbered `id`: the key without the time, and the time in decimal
/// right behind it.
pub fn jar_storage_key_at(id: u128, account: &AccountId, timestamp_ms: u64) -> (key: String)
    ensures
        key@ == jar_key(id as nat, account@) + decimal(timestamp_ms as nat),
{
    let time = decimal_string(timestamp_ms as u128);
    jar_storage_key(id, account).concat(time.as_str())
}

/// The jars with an even amount among `jars`, in their order.
pub fn even_jars(jars: &Vec<MoneyJar>) -> (kept: Vec<MoneyJar>)
    ensures
        kept@ == jars@.filter(|jar: MoneyJar| jar.is_even()),
{
    let ghost even = |jar: MoneyJar| jar.is_even();
    let mut kept: Vec<MoneyJar> = Vec::new();
    let mut i: usize = 0;
    assert(jars@.take(0).filter(even) =~= Seq::<MoneyJar>::empty()) by {
        reveal(Seq::filter);
    }
    while i < jars.len()
        invariant
            i <= jars.len(),
            even == |jar: MoneyJar| jar.is_even(),
            kept@ == jars@.take(i as int).filter(even),
        decreases jars.len() - i,
    {
        let jar = jars[i];
        proof {
            let longer = jars@.take(i + 1);
            assert(longer.drop_last() =~= jars@.take(i as int));
            assert(longer.last() == jar);
            reveal(Seq::filter);
        }
        if jar.amount % 2 == 0 {
            kept.push(jar);
        }
        i += 1;
    }
    assert(jars@.take(i as int) =~= jars@);
    kept
}

/// The key does not tell where the jar's number ends and the account's name
/// begins: a jar numbered with one digit more, opened by an account, has the
/// key of the jar without that digit, opened by the account whose name
/// begins with the digit.
pub proof fn law_jar_keys_run_together(id: nat, last: nat, account: Seq<char>)
    requires
        id >= 1,
        last < 10,
    ensures
        jar_key(10 * id + last, account) == jar_key(id, seq![digit(last)] + account),
{
    assert((10 * id + last) / 10 == id && (10 * id + last) % 10 == last);
    assert(decimal(10 * id + last) =~= decimal(id).push(digit(last)));
    assert(decimal(id).push(digit(last)) + account =~= decimal(id) + (seq![digit(last)]
        + account));
}

} // verus!

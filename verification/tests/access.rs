use access_control::guard::{acting_account, require_caller, require_internal, require_not_paused};
use access_control::{AccountId, Context, Error, Pausable, Settlement, StatusMessage};

fn account(name: &str) -> AccountId {
    AccountId::new(name.to_string())
}

fn contract() -> StatusMessage {
    StatusMessage::init(account("owner.near"), account("wrap.near"))
}

fn call(caller: &str, deposit: u128) -> Context {
    Context::call(account(caller), account(caller), account("ledger.near"), deposit)
}

#[test]
fn require_caller_looks_at_the_direct_caller_only() {
    let direct = Context::call(account("owner.near"), account("eve.near"), account("ledger.near"), 0);
    assert_eq!(require_caller(&direct, &account("owner.near")), Ok(()));
    let relayed =
        Context::call(account("relay.near"), account("owner.near"), account("ledger.near"), 0);
    assert_eq!(require_caller(&relayed, &account("owner.near")), Err(Error::Unauthorized));
}

#[test]
fn handlers_act_for_the_direct_caller() {
    let relayed =
        Context::call(account("relay.near"), account("owner.near"), account("ledger.near"), 0);
    assert_eq!(acting_account(&relayed), &account("relay.near"));
}

#[test]
fn require_not_paused_follows_the_switch() {
    assert_eq!(require_not_paused(false), Ok(()));
    assert_eq!(require_not_paused(true), Err(Error::Paused));
}

#[test]
fn require_internal_wants_self_call_with_an_outcome() {
    let own = Context::continuation(account("alice.near"), account("ledger.near"), false);
    assert_eq!(require_internal(&own), Ok(()));
    assert_eq!(own.predecessor, account("ledger.near"));
    assert_eq!(own.promise_outcome, Some(false));
    assert_eq!(own.attached_deposit, 0);

    let plain_self_call =
        Context::call(account("ledger.near"), account("alice.near"), account("ledger.near"), 0);
    assert_eq!(require_internal(&plain_self_call), Err(Error::Unauthorized));

    let mut foreign = Context::call(
        account("exploit.near"),
        account("eve.near"),
        account("ledger.near"),
        0,
    );
    foreign.promise_outcome = Some(false);
    assert_eq!(require_internal(&foreign), Err(Error::Unauthorized));
}

#[test]
fn direct_call_of_the_continuation_is_rejected() {
    let mut c = contract();
    assert_eq!(c.get_user_points(account("eve.near")), 0);
    let settled = c.resolve_withdraw(&call("eve.near", 0), 0, account("eve.near"), 10000);
    assert_eq!(settled, Err(Error::Unauthorized));
    assert_eq!(c.get_user_points(account("eve.near")), 0);
}

#[test]
fn continuation_behind_a_foreign_failed_call_is_rejected() {
    let mut c = contract();
    let mut foreign = Context::call(
        account("exploit.near"),
        account("eve.near"),
        account("ledger.near"),
        0,
    );
    foreign.promise_outcome = Some(false);
    let settled = c.resolve_withdraw(&foreign, 0, account("eve.near"), 10000);
    assert_eq!(settled, Err(Error::Unauthorized));
    assert_eq!(c.get_user_points(account("eve.near")), 0);
}

#[test]
fn stranger_cannot_settle_a_withdrawal_in_flight() {
    let mut c = contract();
    c.buy_points(&call("alice.near", 50)).unwrap();
    let request = c.withdraw_points_wnear(&call("alice.near", 0), 100).unwrap();
    assert_eq!(c.get_user_points(account("alice.near")), 0);

    let mut bob = call("bob.near", 0);
    bob.promise_outcome = Some(false);
    let settled = c.resolve_withdraw(&bob, request.token, account("alice.near"), 100);
    assert_eq!(settled, Err(Error::Unauthorized));
    assert_eq!(c.get_user_points(account("alice.near")), 0);
    assert_eq!(c.get_user_points(account("bob.near")), 0);
    assert_eq!(c.pending_withdrawal(request.token).unwrap().amount(), 100);

    let own = Context::continuation(account("alice.near"), account("ledger.near"), false);
    let settled = c.resolve_withdraw(&own, request.token, account("alice.near"), 100);
    assert_eq!(settled, Ok(Settlement::Compensated));
    assert_eq!(c.get_user_points(account("alice.near")), 100);
}

#[test]
fn relay_cannot_take_ownership_with_the_owners_signature() {
    let mut c = contract();
    assert_eq!(c.get_owner(), account("owner.near"));
    let relayed =
        Context::call(account("exploit.near"), account("owner.near"), account("ledger.near"), 0);
    assert_eq!(c.set_owner(&relayed, account("eve.near")), Err(Error::Unauthorized));
    assert_eq!(c.get_owner(), account("owner.near"));

    let direct = Context::call(account("owner.near"), account("owner.near"), account("ledger.near"), 0);
    assert_eq!(c.set_owner(&direct, account("eve.near")), Ok(()));
    assert_eq!(c.get_owner(), account("eve.near"));
}

#[test]
fn stranger_cannot_pause() {
    let mut c = contract();
    assert_eq!(c.get_data(), Ok("Hello World!".to_string()));
    assert_eq!(c.pub_toggle_pause(&call("eve.near", 0)), Err(Error::Unauthorized));
    assert!(!c.get_pause_status());
    assert_eq!(c.get_data(), Ok("Hello World!".to_string()));
    let relayed =
        Context::call(account("eve.near"), account("owner.near"), account("ledger.near"), 0);
    assert_eq!(c.pub_toggle_pause(&relayed), Err(Error::Unauthorized));
    assert!(!c.get_pause_status());
}

#[test]
fn pause_switch() {
    let mut c = contract();
    assert_eq!(c.when_not_paused(), Ok(()));
    c.toggle_pause();
    assert!(c.get_pause_status());
    assert_eq!(c.when_not_paused(), Err(Error::Paused));
    assert_eq!(c.get_data(), Err(Error::Paused));
    c.toggle_pause();
    assert!(!c.get_pause_status());
    assert_eq!(c.get_data(), Ok("Hello World!".to_string()));
    c.pause();
    c.pause();
    assert!(c.get_pause_status());
    c.unpause();
    c.unpause();
    assert!(!c.get_pause_status());
}

#[test]
fn pausing_does_not_touch_points() {
    let mut c = contract();
    c.buy_points(&call("alice.near", 50)).unwrap();
    c.pub_toggle_pause(&call("owner.near", 0)).unwrap();
    assert_eq!(c.get_user_points(account("alice.near")), 100);
    assert_eq!(c.get_owner(), account("owner.near"));
}

#[test]
fn account_names() {
    let alice = account("alice.near");
    assert_eq!(alice.as_str(), "alice.near");
    assert_eq!(alice.clone(), alice);
    assert_ne!(alice, account("alice.nea"));
    assert_ne!(alice, account("Alice.near"));
}

use access_control::decimal::decimal_string;
use access_control::jars::{
    even_jars, jar_storage_key, jar_storage_key_at, timestamp_storage_key,
};
use access_control::notebook::{draft_note, entry_after, get_note, get_notes, next_note_number};
use access_control::storage::{storage_refund, STORAGE_BYTE_COST};
use access_control::{AccountId, MoneyJar, NoteError, PostedNote};

fn account(name: &str) -> AccountId {
    AccountId::new(name.to_string())
}

fn note(id: u64, title: &str, body: &str) -> PostedNote {
    PostedNote::new(title.to_string(), body.to_string(), Some(id))
}

fn three_notes() -> Vec<PostedNote> {
    vec![note(0, "title", "body"), note(1, "title2", "body2"), note(2, "title3", "body3")]
}

#[test]
fn decimal_of_small_and_large_numbers() {
    assert_eq!(decimal_string(0), "0");
    assert_eq!(decimal_string(7), "7");
    assert_eq!(decimal_string(10), "10");
    assert_eq!(decimal_string(12345), "12345");
    assert_eq!(decimal_string(1000), "1000");
    assert_eq!(decimal_string(u128::MAX), "340282366920938463463374607431768211455");
    assert_eq!(decimal_string(u128::MAX), u128::MAX.to_string());
}

#[test]
fn jar_key_is_number_then_account() {
    assert_eq!(jar_storage_key(11, &account("account_id")), "11account_id");
    assert_eq!(jar_storage_key(0, &account("alice.near")), "0alice.near");
}

#[test]
fn jar_keys_of_two_users_can_coincide() {
    let first = jar_storage_key(11, &account("account_id"));
    let second = jar_storage_key(1, &account("1account_id"));
    assert_eq!(first, second);
}

#[test]
fn jar_keys_with_time() {
    assert_eq!(timestamp_storage_key(1700000000000), "1700000000000");
    assert_eq!(timestamp_storage_key(0), "0");
    assert_eq!(
        jar_storage_key_at(11, &account("account_id"), 1700000000000),
        "11account_id1700000000000"
    );
}

#[test]
fn even_jars_keeps_even_amounts_in_order() {
    let jars = vec![
        MoneyJar::new(2, 11),
        MoneyJar::new(7, 1),
        MoneyJar::new(0, 5),
        MoneyJar::new(9, 6),
        MoneyJar::new(2_000_000_000_000_000_000_000_000, 3),
    ];
    assert_eq!(
        even_jars(&jars),
        vec![
            MoneyJar::new(2, 11),
            MoneyJar::new(0, 5),
            MoneyJar::new(2_000_000_000_000_000_000_000_000, 3)
        ]
    );
    assert_eq!(even_jars(&vec![MoneyJar::new(7, 1)]), vec![]);
    assert_eq!(even_jars(&vec![]), vec![]);
}

#[test]
fn money_jar_fields() {
    let jar = MoneyJar::new(6, 1);
    assert_eq!(jar.amount, 6);
    assert_eq!(jar.id, 1);
    assert_eq!(jar, MoneyJar { amount: 6, id: 1 });
}

#[test]
fn storage_price_per_byte() {
    assert_eq!(STORAGE_BYTE_COST, 10_000_000_000_000_000_000);
}

#[test]
fn refund_is_deposit_less_storage_price() {
    let one_near: u128 = 1_000_000_000_000_000_000_000_000;
    assert_eq!(
        storage_refund(Some(one_near), 100, 200),
        Ok(Some(999_000_000_000_000_000_000_000))
    );
    assert_eq!(storage_refund(Some(one_near), 100, 100), Ok(Some(one_near)));
    assert_eq!(storage_refund(Some(10_000_000_000_000_000_001), 7, 8), Ok(Some(1)));
}

#[test]
fn refund_of_nothing_is_none() {
    assert_eq!(storage_refund(Some(10_000_000_000_000_000_000), 7, 8), Ok(None));
    assert_eq!(storage_refund(Some(0), 7, 7), Ok(None));
    assert_eq!(storage_refund(None, 7, 7), Ok(None));
}

#[test]
fn deposit_below_storage_price_is_refused() {
    assert_eq!(
        storage_refund(Some(9_999_999_999_999_999_999), 7, 8),
        Err(NoteError::NotEnoughDeposit)
    );
    assert_eq!(storage_refund(None, 0, 1), Err(NoteError::NotEnoughDeposit));
    assert_eq!(storage_refund(Some(u128::MAX), 0, u64::MAX), Ok(Some(
        u128::MAX - 10_000_000_000_000_000_000u128 * (u64::MAX as u128)
    )));
}

#[test]
fn notes_are_numbered_from_zero() {
    assert_eq!(next_note_number(None), 0);
    assert_eq!(next_note_number(Some(4)), 4);
    let first = draft_note("title".to_string(), "body".to_string(), None);
    assert_eq!(first, PostedNote::new("title".to_string(), "body".to_string(), Some(0)));
    let fifth = draft_note("title".to_string(), "body".to_string(), Some(4));
    assert_eq!(fifth.id, Some(4));
    assert_eq!(entry_after(0), Some(1));
    assert_eq!(entry_after(4), Some(5));
}

#[test]
fn posted_note_fields_and_equality() {
    let posted = PostedNote::new("title".to_string(), "body".to_string(), Some(3));
    assert_eq!(posted.title, "title");
    assert_eq!(posted.body, "body");
    assert_eq!(posted.id, Some(3));
    assert_eq!(posted.clone(), posted);
    assert_ne!(posted, PostedNote::new("title".to_string(), "body".to_string(), None));
    assert_ne!(posted, PostedNote::new("title".to_string(), "body".to_string(), Some(4)));
    assert_ne!(posted, PostedNote::new("title2".to_string(), "body".to_string(), Some(3)));
    assert_ne!(posted, PostedNote::new("title".to_string(), "body2".to_string(), Some(3)));
}

#[test]
fn note_is_found_by_its_number() {
    let notes = three_notes();
    assert_eq!(get_note(Some(&notes), 1, Some(3)), Ok(&notes[1]));
    assert_eq!(get_note(Some(&notes), 0, Some(3)), Ok(&notes[0]));
    assert_eq!(get_note(Some(&notes), 2, Some(3)), Ok(&notes[2]));
}

#[test]
fn first_note_of_a_number_is_found() {
    let notes = vec![note(5, "a", "x"), note(5, "b", "y")];
    assert_eq!(get_note(Some(&notes), 5, Some(6)).unwrap().title, "a");
}

#[test]
fn note_beyond_the_numbers_does_not_exist() {
    let notes = three_notes();
    assert_eq!(get_note(Some(&notes), 4, Some(3)), Err(NoteError::NoteDoesNotExist));
    assert_eq!(get_note(Some(&notes), 1, None), Err(NoteError::NoteDoesNotExist));
    assert_eq!(get_note(None, 1, None), Err(NoteError::NoteDoesNotExist));
}

#[test]
fn note_that_is_missing_is_no_entry() {
    let notes = three_notes();
    assert_eq!(get_note(Some(&notes), 3, Some(3)), Err(NoteError::NoEntry));
    assert_eq!(get_note(None, 0, None), Err(NoteError::NoEntry));
    assert_eq!(get_note(None, 2, Some(3)), Err(NoteError::NoEntry));
    let unnumbered = vec![PostedNote::new("t".to_string(), "b".to_string(), None)];
    assert_eq!(get_note(Some(&unnumbered), 0, Some(1)), Err(NoteError::NoEntry));
}

#[test]
fn notes_by_the_page() {
    let notes = three_notes();
    assert_eq!(get_notes(Some(&notes), None, None), Ok(vec![&notes[0], &notes[1], &notes[2]]));
    assert_eq!(get_notes(Some(&notes), Some(1), None), Ok(vec![&notes[1], &notes[2]]));
    assert_eq!(get_notes(Some(&notes), Some(1), Some(1)), Ok(vec![&notes[1]]));
    assert_eq!(get_notes(Some(&notes), None, Some(2)), Ok(vec![&notes[0], &notes[1]]));
    assert_eq!(get_notes(Some(&notes), Some(0), Some(0)), Ok(vec![]));
    assert_eq!(get_notes(Some(&notes), Some(3), Some(5)), Ok(vec![]));
    assert_eq!(get_notes(Some(&notes), Some(u32::MAX), Some(u32::MAX)), Ok(vec![]));
    assert_eq!(get_notes(Some(&notes), Some(2), Some(u32::MAX)), Ok(vec![&notes[2]]));
    assert_eq!(get_notes(Some(&vec![]), None, None), Ok(vec![]));
}

#[test]
fn notes_of_a_user_without_notes_are_no_entry() {
    assert_eq!(get_notes(None, None, None), Err(NoteError::NoEntry));
    assert_eq!(get_notes(None, Some(1), Some(1)), Err(NoteError::NoEntry));
}

#[test]
fn note_error_messages() {
    assert_eq!(NoteError::NotEnoughDeposit.message(), "not enough attached deposit");
    assert_eq!(NoteError::NoteDoesNotExist.message(), "Note does not exist");
    assert_eq!(NoteError::NoEntry.message(), "no entry");
}

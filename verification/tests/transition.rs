use greeting_ledger::record::{decode, encode};
use greeting_ledger::{handle, AccountHandle, GreetingAccount, TransitionError};

fn record(a: u32, b: u32, res: u32) -> GreetingAccount {
    GreetingAccount { a, b, res }
}

fn account(authority: &[u8], data: Vec<u8>) -> AccountHandle {
    AccountHandle { authority: authority.to_vec(), is_writable: true, data }
}

#[test]
fn test_sanity() {
    let authority: Vec<u8> = vec![0u8; 32];
    let mut accounts = vec![account(&authority, encode(&record(0, 0, 0)))];

    let stored = decode(&accounts[0].data).unwrap();
    assert_eq!(stored.a, 0);
    assert_eq!(stored.b, 0);

    let payload = encode(&record(1, 0, 0));
    handle(&authority, &mut accounts, &payload).unwrap();
    assert_eq!(decode(&accounts[0].data).unwrap().a, 1);

    let payload = encode(&record(1, 2, 0));
    handle(&authority, &mut accounts, &payload).unwrap();
    assert_eq!(decode(&accounts[0].data).unwrap().b, 2);
}

#[test]
fn scenario_end_to_end() {
    let authority: Vec<u8> = vec![9u8, 9, 9];
    let mut accounts = vec![account(&authority, encode(&record(0, 0, 0)))];
    assert_eq!(decode(&accounts[0].data).unwrap(), record(0, 0, 0));

    // the payload's `res` field is ignored and overwritten
    let payload = encode(&record(1, 0, 0));
    assert_eq!(handle(&authority, &mut accounts, &payload), Ok(()));
    assert_eq!(decode(&accounts[0].data).unwrap(), record(1, 0, 1));

    let payload = encode(&record(1, 2, 0));
    assert_eq!(handle(&authority, &mut accounts, &payload), Ok(()));
    assert_eq!(decode(&accounts[0].data).unwrap(), record(1, 2, 3));
}

#[test]
fn round_trip_record() {
    let r = record(5, 7, 99);
    assert_eq!(decode(&encode(&r)), Some(r));
    let r = record(u32::MAX, 0, u32::MAX);
    assert_eq!(decode(&encode(&r)), Some(r));
}

#[test]
fn wire_layout_exact() {
    let bytes = encode(&record(1, 2, 3));
    assert_eq!(bytes, vec![1, 0, 0, 0, 2, 0, 0, 0, 3, 0, 0, 0]);
    let bytes = encode(&record(0x0403_0201, 0, 0));
    assert_eq!(bytes, vec![1, 2, 3, 4, 0, 0, 0, 0, 0, 0, 0, 0]);
}

#[test]
fn wire_layout_matches_borsh() {
    // the account layout is the one borsh gives three consecutive u32 fields
    let mut expected = borsh::to_vec(&0xdead_beefu32).unwrap();
    expected.extend(borsh::to_vec(&7u32).unwrap());
    expected.extend(borsh::to_vec(&0xffff_ffffu32).unwrap());
    assert_eq!(encode(&record(0xdead_beef, 7, 0xffff_ffff)), expected);
}

#[test]
fn decode_rejects_wrong_length() {
    assert_eq!(decode(&[]), None);
    assert_eq!(decode(&[0u8; 4]), None);
    assert_eq!(decode(&[0u8; 11]), None);
    assert_eq!(decode(&[0u8; 13]), None);
    assert_eq!(decode(&[0u8; 12]), Some(record(0, 0, 0)));
}

#[test]
fn total_is_wrapping_sum() {
    assert_eq!(record(3, 4, 0).total(), 7);
    assert_eq!(record(u32::MAX, 2, 0).total(), 1);
    assert_eq!(record(u32::MAX, u32::MAX, 0).total(), u32::MAX - 1);
}

#[test]
fn stored_total_wraps_on_overflow() {
    let authority: Vec<u8> = vec![1u8];
    let mut accounts = vec![account(&authority, encode(&record(0, 0, 0)))];
    let payload = encode(&record(u32::MAX, 2, 0));
    assert_eq!(handle(&authority, &mut accounts, &payload), Ok(()));
    assert_eq!(decode(&accounts[0].data).unwrap(), record(u32::MAX, 2, 1));
}

#[test]
fn missing_account_rejected() {
    let authority: Vec<u8> = vec![1u8];
    let mut accounts: Vec<AccountHandle> = Vec::new();
    let payload = encode(&record(1, 2, 0));
    assert_eq!(
        handle(&authority, &mut accounts, &payload),
        Err(TransitionError::MissingAccount)
    );
    assert!(accounts.is_empty());
}

#[test]
fn malformed_payload_rejected() {
    let authority: Vec<u8> = vec![1u8];
    let before = encode(&record(4, 5, 9));
    let mut accounts = vec![account(&authority, before.clone())];
    let payload: Vec<u8> = vec![1, 2, 3, 4, 5];
    assert_eq!(
        handle(&authority, &mut accounts, &payload),
        Err(TransitionError::DecodePayload)
    );
    assert_eq!(accounts[0].data, before);
}

#[test]
fn wrong_owner_rejected_buffer_untouched() {
    let executing: Vec<u8> = vec![1u8, 2, 3];
    let before = encode(&record(4, 5, 9));
    let mut accounts = vec![account(&[1u8, 2, 4], before.clone())];
    let payload = encode(&record(7, 8, 0));
    assert_eq!(
        handle(&executing, &mut accounts, &payload),
        Err(TransitionError::WrongOwner)
    );
    assert_eq!(accounts[0].data, before);
    assert_eq!(accounts[0].authority, vec![1u8, 2, 4]);
}

#[test]
fn malformed_account_state_rejected() {
    let authority: Vec<u8> = vec![0u8; 32];
    // a four-byte buffer, too short for a record
    let before: Vec<u8> = vec![0u8; 4];
    let mut accounts = vec![account(&authority, before.clone())];
    let payload = encode(&record(1, 0, 0));
    assert_eq!(
        handle(&authority, &mut accounts, &payload),
        Err(TransitionError::DecodeAccountState)
    );
    assert_eq!(accounts[0].data, before);
}

#[test]
fn reapplying_same_payload_is_idempotent() {
    let authority: Vec<u8> = vec![5u8];
    let mut accounts = vec![account(&authority, encode(&record(10, 20, 30)))];
    let payload = encode(&record(100, 200, 0));
    assert_eq!(handle(&authority, &mut accounts, &payload), Ok(()));
    let after_once = accounts[0].data.clone();
    assert_eq!(handle(&authority, &mut accounts, &payload), Ok(()));
    assert_eq!(accounts[0].data, after_once);
    assert_eq!(decode(&after_once).unwrap(), record(100, 200, 300));
}

#[test]
fn only_first_account_is_touched() {
    let authority: Vec<u8> = vec![5u8];
    let second_before = encode(&record(8, 8, 16));
    let mut accounts = vec![
        account(&authority, encode(&record(0, 0, 0))),
        account(&authority, second_before.clone()),
    ];
    let payload = encode(&record(2, 3, 0));
    assert_eq!(handle(&authority, &mut accounts, &payload), Ok(()));
    assert_eq!(decode(&accounts[0].data).unwrap(), record(2, 3, 5));
    assert_eq!(accounts[1].data, second_before);
}

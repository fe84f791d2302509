use vote::address::derive_address;
use vote::errors::VoteError;
use vote::process::{process, process_with_address, AccountView, VoteEffect};
use vote::record::VoteAccountData;

fn vote_payload(name: &str) -> Vec<u8> {
    let mut payload = vec![1u8, name.len() as u8];
    payload.extend_from_slice(name.as_bytes());
    payload
}

fn caller(signer: bool) -> AccountView {
    AccountView { key: [1u8; 32], is_signer: signer, lamports: 100_000_000_000, data: vec![] }
}

fn system_account() -> AccountView {
    AccountView { key: [0u8; 32], is_signer: false, lamports: 1, data: vec![] }
}

fn fresh_slot(key: [u8; 32]) -> AccountView {
    AccountView { key, is_signer: false, lamports: 0, data: vec![] }
}

#[test]
fn basic_fail() {
    let result = process(&[], &[]);
    assert!(result.is_err());
}

#[test]
fn vote_once() {
    let name = "onkel.sol";
    let (key, _) = derive_address(name.as_bytes()).unwrap();
    let accounts = vec![caller(true), fresh_slot(key), system_account()];

    let result = process(&vote_payload(name), &accounts);
    assert!(result.is_ok());

    let record = match result.unwrap() {
        VoteEffect::Create { lamports, space, record, .. } => {
            assert_eq!(lamports, 500_000_000);
            assert_eq!(space, 64);
            record
        }
        VoteEffect::Update { .. } => panic!("first vote must create the record"),
    };
    let vote_account_data = VoteAccountData::decode(&record).unwrap();
    assert_eq!(vote_account_data.name, name.as_bytes());
    assert_eq!(vote_account_data.votes, 1);
}

#[test]
fn vote_twice() {
    let name = "onkel.sol";
    let (key, _) = derive_address(name.as_bytes()).unwrap();
    let mut slot = fresh_slot(key);
    let accounts = vec![caller(true), slot.clone(), system_account()];

    let result = process(&vote_payload(name), &accounts);
    assert!(result.is_ok());

    let record = match result.unwrap() {
        VoteEffect::Create { lamports, record, .. } => {
            slot.lamports = lamports;
            record
        }
        VoteEffect::Update { .. } => panic!("first vote must create the record"),
    };
    let vote_account_data = VoteAccountData::decode(&record).unwrap();
    assert_eq!(vote_account_data.name, name.as_bytes());
    assert_eq!(vote_account_data.votes, 1);

    slot.data = record;
    let accounts = vec![caller(true), slot, system_account()];
    let result = process(&vote_payload(name), &accounts);
    assert!(result.is_ok());

    let record = match result.unwrap() {
        VoteEffect::Update { record } => record,
        VoteEffect::Create { .. } => panic!("second vote must update the record"),
    };
    let vote_account_data = VoteAccountData::decode(&record).unwrap();
    assert_eq!(vote_account_data.name, name.as_bytes());
    assert_eq!(vote_account_data.votes, 2);
}

#[test]
fn derivation_is_deterministic() {
    let first = derive_address(b"onkel.sol");
    let second = derive_address(b"onkel.sol");
    assert_eq!(first.is_some(), second.is_some());
    let (key_a, bump_a) = first.unwrap();
    let (key_b, bump_b) = second.unwrap();
    assert_eq!(key_a, key_b);
    assert_eq!(bump_a, bump_b);
}

#[test]
fn derivation_depends_on_the_name() {
    let (key_a, _) = derive_address(b"alpha").unwrap();
    let (key_b, _) = derive_address(b"beta").unwrap();
    assert_ne!(key_a, key_b);
}

#[test]
fn address_mismatch_is_rejected() {
    let name = "onkel.sol";
    let accounts = vec![caller(true), fresh_slot([7u8; 32]), system_account()];
    let derived = Some(([9u8; 32], 255u8));
    let result = process_with_address(&vote_payload(name), &accounts, derived);
    assert_eq!(result.unwrap_err(), VoteError::AddressMismatch);
}

#[test]
fn unauthorized_caller_is_rejected() {
    let name = "onkel.sol";
    let (key, _) = derive_address(name.as_bytes()).unwrap();
    let accounts = vec![caller(false), fresh_slot(key), system_account()];
    let result = process(&vote_payload(name), &accounts);
    assert_eq!(result.unwrap_err(), VoteError::UnauthorizedCaller);
}

#[test]
fn missing_accounts_are_rejected() {
    let name = "onkel.sol";
    let accounts = vec![caller(true), fresh_slot([7u8; 32])];
    let result = process(&vote_payload(name), &accounts);
    assert_eq!(result.unwrap_err(), VoteError::MissingAccounts);
}

#[test]
fn empty_payload_is_rejected() {
    let accounts = vec![caller(true), fresh_slot([7u8; 32]), system_account()];
    let result = process(&[], &accounts);
    assert_eq!(result.unwrap_err(), VoteError::MalformedInstruction);
}

#[test]
fn unknown_discriminator_is_rejected() {
    let accounts = vec![caller(true), fresh_slot([7u8; 32]), system_account()];
    let result = process(&[2u8, 1u8, b'a'], &accounts);
    assert_eq!(result.unwrap_err(), VoteError::MalformedInstruction);
}

#[test]
fn truncated_name_is_rejected() {
    let accounts = vec![caller(true), fresh_slot([7u8; 32]), system_account()];
    let result = process(&[1u8, 5u8, b'a'], &accounts);
    assert_eq!(result.unwrap_err(), VoteError::MalformedInstruction);
}

#[test]
fn invalid_utf8_name_is_rejected() {
    let accounts = vec![caller(true), fresh_slot([7u8; 32]), system_account()];
    let result = process(&[1u8, 1u8, 0xffu8], &accounts);
    assert_eq!(result.unwrap_err(), VoteError::MalformedInstruction);
}

#[test]
fn oversized_name_is_rejected() {
    let name = "a".repeat(55);
    let accounts = vec![caller(true), fresh_slot([7u8; 32]), system_account()];
    let result = process(&vote_payload(&name), &accounts);
    assert_eq!(result.unwrap_err(), VoteError::MalformedInstruction);
}

#[test]
fn over_seed_length_name_fails_derivation() {
    let name = "a".repeat(40);
    let (key, _) = derive_address(b"short").unwrap();
    let accounts = vec![caller(true), fresh_slot(key), system_account()];
    let result = process(&vote_payload(&name), &accounts);
    assert_eq!(result.unwrap_err(), VoteError::DerivationFailed);
}

#[test]
fn malformed_storage_is_rejected() {
    let name = "onkel.sol";
    let key = [7u8; 32];
    let mut slot = fresh_slot(key);
    slot.data = vec![0xffu8; 64];
    let accounts = vec![caller(true), slot, system_account()];
    let derived = Some((key, 254u8));
    let result = process_with_address(&vote_payload(name), &accounts, derived);
    assert_eq!(result.unwrap_err(), VoteError::MalformedAccountData);
}

#[test]
fn wrong_sized_storage_is_rejected() {
    let name = "onkel.sol";
    let key = [7u8; 32];
    let mut slot = fresh_slot(key);
    slot.data = vec![0u8; 63];
    slot.lamports = 500_000_000;
    let accounts = vec![caller(true), slot, system_account()];
    let derived = Some((key, 254u8));
    let result = process_with_address(&vote_payload(name), &accounts, derived);
    assert_eq!(result.unwrap_err(), VoteError::MalformedAccountData);
}

#[test]
fn largest_fitting_name_creates() {
    let name = "n".repeat(54);
    let key = [7u8; 32];
    let accounts = vec![caller(true), fresh_slot(key), system_account()];
    let derived = Some((key, 253u8));
    let result = process_with_address(&vote_payload(&name), &accounts, derived);
    let record = match result.unwrap() {
        VoteEffect::Create { record, .. } => record,
        VoteEffect::Update { .. } => panic!("first vote must create the record"),
    };
    assert_eq!(record.len(), 64);
    let decoded = VoteAccountData::decode(&record).unwrap();
    assert_eq!(decoded.name, name.as_bytes());
    assert_eq!(decoded.votes, 1);
}

#[test]
fn counter_wraps_at_maximum() {
    let name = "onkel.sol";
    let key = [7u8; 32];
    let full = VoteAccountData { name: name.as_bytes().to_vec(), votes: u64::MAX };
    let mut slot = fresh_slot(key);
    slot.data = full.encode();
    slot.lamports = 500_000_000;
    let accounts = vec![caller(true), slot, system_account()];
    let result = process_with_address(&vote_payload(name), &accounts, Some((key, 252u8)));
    let record = match result.unwrap() {
        VoteEffect::Update { record } => record,
        VoteEffect::Create { .. } => panic!("an initialized slot must take the update path"),
    };
    let decoded = VoteAccountData::decode(&record).unwrap();
    assert_eq!(decoded.name, name.as_bytes());
    assert_eq!(decoded.votes, 0);
}

#[test]
fn record_encoding_is_exact() {
    let record = VoteAccountData { name: b"ab".to_vec(), votes: 0x0102030405060708 };
    let bytes = record.encode();
    let mut expected = vec![2u8, b'a', b'b', 0u8];
    expected.extend_from_slice(&[0x08, 0x07, 0x06, 0x05, 0x04, 0x03, 0x02, 0x01]);
    expected.resize(64, 0u8);
    assert_eq!(bytes, expected);
}

#[test]
fn record_round_trips() {
    let record = VoteAccountData { name: b"onkel.sol".to_vec(), votes: 41 };
    let decoded = VoteAccountData::decode(&record.encode()).unwrap();
    assert_eq!(decoded.name, b"onkel.sol".to_vec());
    assert_eq!(decoded.votes, 41);
}

#[test]
fn decode_rejects_out_of_bounds_name_length() {
    let mut data = vec![0u8; 64];
    data[0] = 55;
    let result = VoteAccountData::decode(&data);
    assert_eq!(result.unwrap_err(), VoteError::MalformedAccountData);
}

#[test]
fn decode_rejects_empty_buffer() {
    let result = VoteAccountData::decode(&[]);
    assert_eq!(result.unwrap_err(), VoteError::MalformedAccountData);
}

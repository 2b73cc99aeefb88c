//! Code hashes, and what replies of the node mean.

use rex_sim::code::{code_hash, is_acceptable_code, Bytecode};
use rex_sim::error::SimError;
use rex_sim::primitives::{Address, B256, U256};
use rex_sim::rpc::{
    accepted_code_by_hash, code_address, get_account, get_block_hash, get_block_number,
    get_code_by_hash, get_storage,
};

/// Keccak-256 of the bytes of "abc".
const KECCAK_ABC: B256 = B256 {
    hi: 0x4e03657aea45a94fc7d47ba826c8d667,
    lo: 0xc0d1e6e33a64a036ec44f58fa12d6c45,
};

const KECCAK_EMPTY: B256 = B256 {
    hi: 0xc5d2460186f7233c927e7db2dcc703c0,
    lo: 0xe500b653ca82273b7bfad8045d85a470,
};

fn hash(n: u64) -> B256 {
    B256 { hi: 0, lo: n as u128 }
}

fn addr(n: u64) -> Address {
    Address { hi: 0, lo: n as u128 }
}

fn delegation(version: u8) -> Vec<u8> {
    let mut raw = vec![0xef, 0x01, version];
    raw.extend_from_slice(&[7; 20]);
    raw
}

#[test]
fn code_hashes() {
    assert_eq!(code_hash(&vec![]), KECCAK_EMPTY);
    assert_eq!(code_hash(&b"abc".to_vec()), KECCAK_ABC);
}

#[test]
fn acceptable_code_is_what_the_interpreter_takes() {
    let samples = [
        (vec![], true),
        (vec![0x60, 0x00], true),
        (vec![0xef], true),
        (vec![0xef, 0x00, 0x01], true),
        (vec![0xef, 0x01], false),
        (vec![0xef, 0x01, 0x00], false),
        (delegation(0), true),
        (delegation(1), false),
    ];
    for (raw, acceptable) in samples {
        assert_eq!(is_acceptable_code(&raw), acceptable, "{:?}", raw);
        match Bytecode::new_raw_checked(raw.clone()) {
            Some(code) => {
                assert!(acceptable);
                assert_eq!(code.original_bytes(), raw);
            }
            None => assert!(!acceptable),
        }
    }
    assert!(Bytecode::new_raw(vec![1]) == Bytecode::new_raw(vec![1]));
    assert!(Bytecode::new_raw(vec![1]) != Bytecode::new_raw(vec![1, 0]));
    assert!(Bytecode::new_raw(vec![1]) != Bytecode::new_raw(vec![2]));
}

#[test]
fn account_replies() {
    let info = get_account(Ok((U256::from_u64(5), 6, b"abc".to_vec()))).unwrap().unwrap();
    assert_eq!(info.balance, U256::from_u64(5));
    assert_eq!(info.nonce, 6);
    assert_eq!(info.code_hash, KECCAK_ABC);
    assert!(info.code.is_none());
    assert!(info.account_id.is_none());

    let plain = get_account(Ok((U256::from_u64(0), 0, vec![]))).unwrap().unwrap();
    assert_eq!(plain.code_hash, KECCAK_EMPTY);

    match get_account(Err("refused".to_string())) {
        Err(SimError::Rpc(message)) => assert_eq!(message, "refused"),
        _ => panic!("expected the node's words"),
    }
}

#[test]
fn code_needs_an_address() {
    assert_eq!(code_address(hash(1), Some(addr(2))).unwrap(), addr(2));
    assert!(matches!(
        code_address(hash(1), None),
        Err(SimError::MissingAddressHint { code_hash }) if code_hash == hash(1)
    ));
}

#[test]
fn code_has_the_hash_asked_for() {
    let code = get_code_by_hash(KECCAK_ABC, addr(2), Ok(b"abc".to_vec())).unwrap();
    assert_eq!(code.original_bytes(), b"abc".to_vec());

    match get_code_by_hash(hash(1), addr(2), Ok(b"abc".to_vec())) {
        Err(SimError::CodeHashMismatch { address, expected, actual }) => {
            assert_eq!(address, addr(2));
            assert_eq!(expected, hash(1));
            assert_eq!(actual, KECCAK_ABC);
        }
        _ => panic!("expected a mismatch"),
    }

    assert!(matches!(
        get_code_by_hash(hash(1), addr(2), Err("late".to_string())),
        Err(SimError::Rpc(message)) if message == "late"
    ));
    assert!(get_code_by_hash(KECCAK_EMPTY, addr(2), Ok(vec![])).is_ok());
}

#[test]
fn code_that_the_interpreter_refuses() {
    let bad = delegation(1);
    let bad_hash = code_hash(&bad);
    assert!(accepted_code_by_hash(bad_hash, addr(2), Ok(bad.clone())).is_none());
    assert!(matches!(
        accepted_code_by_hash(hash(1), addr(2), Ok(bad)),
        Some(Err(SimError::CodeHashMismatch { actual, .. })) if actual == bad_hash
    ));
    let good = delegation(0);
    let code = accepted_code_by_hash(code_hash(&good), addr(2), Ok(good.clone()));
    assert_eq!(code.unwrap().unwrap().original_bytes(), good);
}

#[test]
fn other_replies() {
    assert_eq!(get_storage(Ok(U256::from_u64(3))).unwrap(), U256::from_u64(3));
    assert!(matches!(get_storage(Err("x".to_string())), Err(SimError::Rpc(_))));
    assert_eq!(get_block_hash(5, Ok(Some(hash(9)))).unwrap(), hash(9));
    assert!(matches!(get_block_hash(5, Ok(None)), Err(SimError::BlockNotFound(5))));
    assert!(matches!(get_block_hash(5, Err("x".to_string())), Err(SimError::Rpc(_))));
    assert_eq!(get_block_number(Ok(8)).unwrap(), 8);
    assert!(matches!(get_block_number(Err("x".to_string())), Err(SimError::Rpc(_))));
}

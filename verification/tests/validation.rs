//! The continuity verdicts.

use rex_sim::primitives::B256;
use rex_sim::validation::{
    validate_cache, validate_chain_committed, validate_chain_reorged, BlockInfo, CacheValidation,
    CommitValidation, CurrentState, ReorgValidation,
};

fn hash(n: u64) -> B256 {
    B256 { hi: 0, lo: n as u128 }
}

#[test]
fn initial_state_accepts_any() {
    let current = CurrentState::initial();
    let first = BlockInfo {
        number: 100,
        hash: hash(100),
        parent_hash: hash(99),
    };

    let result = validate_chain_committed(current, first, Vec::new());
    assert_eq!(result, CommitValidation::AcceptAny);
    assert!(result.is_acceptable());
}

#[test]
fn stale_state_accepts_any() {
    let current = CurrentState {
        block: 50,
        block_hash: hash(50),
        stale: true,
    };
    let first = BlockInfo {
        number: 100,
        hash: hash(100),
        parent_hash: hash(99),
    };

    let result = validate_chain_committed(current, first, Vec::new());
    assert_eq!(result, CommitValidation::AcceptAny);
    assert!(result.is_acceptable());
}

#[test]
fn perfect_continuity_is_valid() {
    let current = CurrentState {
        block: 100,
        block_hash: hash(100),
        stale: false,
    };

    let first = BlockInfo {
        number: 101,
        hash: hash(101),
        parent_hash: hash(100),
    };

    let result = validate_chain_committed(current, first, Vec::new());
    assert_eq!(result, CommitValidation::Valid);
    assert!(result.is_acceptable());
}

#[test]
fn perfect_continuity_wrong_parent_hash() {
    let current = CurrentState {
        block: 100,
        block_hash: hash(100),
        stale: false,
    };

    let first = BlockInfo {
        number: 101,
        hash: hash(101),
        parent_hash: hash(999),
    };

    let result = validate_chain_committed(current, first, Vec::new());

    assert_eq!(
        result,
        CommitValidation::Gap {
            expected: 101,
            got: 101
        }
    );
    assert!(!result.is_acceptable());
}

#[test]
fn overlap_with_match_is_valid() {
    let current = CurrentState {
        block: 100,
        block_hash: hash(100),
        stale: false,
    };

    let first = BlockInfo {
        number: 98,
        hash: hash(98),
        parent_hash: hash(97),
    };
    let chain_blocks = vec![
        (98, hash(98)),
        (99, hash(99)),
        (100, hash(100)),
        (101, hash(101)),
    ];

    let result = validate_chain_committed(current, first, chain_blocks);
    assert_eq!(result, CommitValidation::Valid);
    assert!(result.is_acceptable());
}

#[test]
fn overlap_without_match_is_invalid() {
    let current = CurrentState {
        block: 100,
        block_hash: hash(100),
        stale: false,
    };

    let first = BlockInfo {
        number: 98,
        hash: hash(98),
        parent_hash: hash(97),
    };
    let chain_blocks = vec![
        (98, hash(98)),
        (99, hash(99)),
        (100, hash(9999)),
        (101, hash(101)),
    ];

    let result = validate_chain_committed(current, first, chain_blocks);
    assert_eq!(result, CommitValidation::OverlapMismatch);
    assert!(!result.is_acceptable());
}

#[test]
fn gap_is_detected() {
    let current = CurrentState {
        block: 100,
        block_hash: hash(100),
        stale: false,
    };

    let first = BlockInfo {
        number: 105,
        hash: hash(105),
        parent_hash: hash(104),
    };

    let result = validate_chain_committed(current, first, Vec::new());
    assert_eq!(
        result,
        CommitValidation::Gap {
            expected: 101,
            got: 105
        }
    );
    assert!(!result.is_acceptable());
}

#[test]
fn same_block_different_hash_detected() {
    let current = CurrentState {
        block: 100,
        block_hash: hash(100),
        stale: false,
    };

    let first = BlockInfo {
        number: 100,
        hash: hash(9999),
        parent_hash: hash(99),
    };
    let chain_blocks = vec![(100, hash(9999))];

    let result = validate_chain_committed(current, first, chain_blocks);
    assert_eq!(result, CommitValidation::OverlapMismatch);
    assert!(!result.is_acceptable());
}

#[test]
fn validation_initial_state_accepts_any() {
    let current = CurrentState::initial();
    let old_tip = BlockInfo {
        number: 100,
        hash: hash(100),
        parent_hash: hash(99),
    };

    let result = validate_chain_reorged(current, old_tip, Vec::new());
    assert_eq!(result, ReorgValidation::AcceptAny);
    assert!(result.is_acceptable());
}

#[test]
fn perfect_match_is_valid() {
    let current = CurrentState {
        block: 100,
        block_hash: hash(100),
        stale: false,
    };

    let old_tip = BlockInfo {
        number: 100,
        hash: hash(100),
        parent_hash: hash(99),
    };

    let result = validate_chain_reorged(current, old_tip, Vec::new());
    assert_eq!(result, ReorgValidation::Valid);
    assert!(result.is_acceptable());
}

#[test]
fn our_state_in_old_chain_is_valid() {
    let current = CurrentState {
        block: 98,
        block_hash: hash(98),
        stale: false,
    };

    let old_tip = BlockInfo {
        number: 100,
        hash: hash(100),
        parent_hash: hash(99),
    };
    let old_chain = vec![(98, hash(98)), (99, hash(99)), (100, hash(100))];

    let result = validate_chain_reorged(current, old_tip, old_chain);
    assert_eq!(result, ReorgValidation::Valid);
    assert!(result.is_acceptable());
}

#[test]
fn mismatch_is_detected() {
    let current = CurrentState {
        block: 100,
        block_hash: hash(100),
        stale: false,
    };

    let old_tip = BlockInfo {
        number: 98,
        hash: hash(98),
        parent_hash: hash(97),
    };
    let old_chain = vec![
        (95, hash(95)),
        (96, hash(96)),
        (97, hash(97)),
        (98, hash(98)),
    ];

    let result = validate_chain_reorged(current, old_tip, old_chain);
    assert_eq!(result, ReorgValidation::Mismatch);
    assert!(!result.is_acceptable());
}

#[test]
fn same_block_different_hash_is_mismatch() {
    let current = CurrentState {
        block: 100,
        block_hash: hash(100),
        stale: false,
    };

    let old_tip = BlockInfo {
        number: 100,
        hash: hash(9999),
        parent_hash: hash(99),
    };
    let old_chain = vec![(100, hash(9999))];

    let result = validate_chain_reorged(current, old_tip, old_chain);
    assert_eq!(result, ReorgValidation::Mismatch);
    assert!(!result.is_acceptable());
}

#[test]
fn empty_cache_is_valid() {
    let result = validate_cache(hash(100), true, hash(200));
    assert_eq!(result, CacheValidation::Empty);
}

#[test]
fn matching_hash_is_valid() {
    let result = validate_cache(hash(100), false, hash(100));
    assert_eq!(result, CacheValidation::Valid);
}

#[test]
fn mismatched_hash_is_stale() {
    let result = validate_cache(hash(100), false, hash(200));
    assert_eq!(result, CacheValidation::Stale);
}

#[test]
fn zero_hash_cache_with_entries_is_stale() {
    let result = validate_cache(B256::zero(), false, hash(100));
    assert_eq!(result, CacheValidation::Stale);
}

//! File names of captured notifications.

use rex_sim::artifacts::{
    commit_file_name, list_commit_blocks, list_reorgs, parse_commit_name, parse_reorg_name,
    reorg_file_name, revert_file_name,
};

fn names(list: &[&str]) -> Vec<String> {
    list.iter().map(|name| name.to_string()).collect()
}

#[test]
fn test_list_commit_blocks() {
    let dir = names(&[
        "commit_103_103.bincode",
        "reorg_99_100_to_99_101.bincode",
        "commit_101_101.bincode",
        "revert_7_9.bincode",
        "commit_102_102.bincode",
    ]);
    let blocks = list_commit_blocks(&dir);
    assert!(!blocks.is_empty());
    for window in blocks.windows(2) {
        assert!(window[0] < window[1]);
    }
    assert_eq!(blocks, vec![101, 102, 103]);
}

#[test]
fn file_names_are_as_written() {
    assert_eq!(commit_file_name(0), "commit_0_0.bincode");
    assert_eq!(commit_file_name(21_000_000), "commit_21000000_21000000.bincode");
    assert_eq!(
        commit_file_name(u64::MAX),
        "commit_18446744073709551615_18446744073709551615.bincode"
    );
    assert_eq!(reorg_file_name(9, 10, 9, 11), "reorg_9_10_to_9_11.bincode");
    assert_eq!(revert_file_name(100, 205), "revert_100_205.bincode");
}

#[test]
fn file_names_read_back() {
    for block in [0, 1, 9, 10, 99, 100, 12_345_678_901, u64::MAX] {
        assert_eq!(parse_commit_name(&commit_file_name(block)), Some(block));
        assert_eq!(
            parse_reorg_name(&reorg_file_name(block, 2, 3, block)),
            Some((block, 2, 3, block))
        );
    }
    assert_eq!(parse_commit_name(&revert_file_name(1, 2)), None);
    assert_eq!(parse_reorg_name(&commit_file_name(1)), None);
}

#[test]
fn odd_commit_names() {
    assert_eq!(parse_commit_name("commit_12.bincode"), None);
    assert_eq!(parse_commit_name("commit_12_.bincode"), Some(12));
    assert_eq!(parse_commit_name("commit_12_x_y.bincode"), Some(12));
    assert_eq!(parse_commit_name("commit_+12_12.bincode"), Some(12));
    assert_eq!(parse_commit_name("commit_-12_12.bincode"), None);
    assert_eq!(parse_commit_name("commit_+_12.bincode"), None);
    assert_eq!(parse_commit_name("commit__12.bincode"), None);
    assert_eq!(parse_commit_name("commit_012_12.bincode"), Some(12));
    assert_eq!(parse_commit_name("commit_12_12.bin"), None);
    assert_eq!(parse_commit_name("Commit_12_12.bincode"), None);
    assert_eq!(parse_commit_name("commit_18446744073709551616_0.bincode"), None);
    assert_eq!(parse_commit_name("commit_1\u{0662}_0.bincode"), None);
    assert_eq!(parse_commit_name(""), None);
}

#[test]
fn odd_reorg_names() {
    assert_eq!(parse_reorg_name("reorg_1_2_to_3_4.bincode"), Some((1, 2, 3, 4)));
    assert_eq!(parse_reorg_name("reorg_1_2_to_3_4_to_5_6.bincode"), None);
    assert_eq!(parse_reorg_name("reorg_1_2_3_to_3_4.bincode"), None);
    assert_eq!(parse_reorg_name("reorg_1_to_3_4.bincode"), None);
    assert_eq!(parse_reorg_name("reorg_1_2_to_3_x.bincode"), None);
    assert_eq!(parse_reorg_name("reorg_.bincode"), None);
    assert_eq!(parse_reorg_name("reorg_1_2_to_3_4"), None);
}

#[test]
fn listings_are_sorted_and_keep_duplicates() {
    let dir = names(&[
        "reorg_9_10_to_9_11.bincode",
        "reorg_9_10_to_9_10.bincode",
        "reorg_10_1_to_1_1.bincode",
        "notes.txt",
        "commit_7_7.bincode",
        "commit_7_8.bincode",
        "commit_10_10.bincode",
    ]);
    assert_eq!(list_commit_blocks(&dir), vec![7, 7, 10]);
    assert_eq!(
        list_reorgs(&dir),
        vec![(9, 10, 9, 10), (9, 10, 9, 11), (10, 1, 1, 1)]
    );
    assert_eq!(list_commit_blocks(&vec![]), Vec::<u64>::new());
}

use cometkeys::error::KeygenError;
use cometkeys::groups::{enumerate_slots, parse_count, parse_groups, split_text};
use cometkeys::naming::{compose_peer_address, secret_name, validator_dir_name};
use cometkeys::text::{decimal_string, hex_string};

fn group_pairs(text: &str, default: usize) -> Vec<(String, usize)> {
    parse_groups(text, default)
        .unwrap()
        .into_iter()
        .map(|g| (g.name, g.count))
        .collect()
}

#[test]
fn parse_mixed_groups_with_default() {
    let groups = parse_groups("a,b:3,c:0", 2).unwrap();
    let pairs: Vec<(String, usize)> = groups.iter().map(|g| (g.name.clone(), g.count)).collect();
    assert_eq!(
        pairs,
        vec![("a".to_string(), 2), ("b".to_string(), 3), ("c".to_string(), 0)]
    );
    let slots = enumerate_slots(&groups);
    let tuples: Vec<(String, usize)> = slots.iter().map(|s| (s.group.clone(), s.index)).collect();
    assert_eq!(
        tuples,
        vec![
            ("a".to_string(), 0),
            ("a".to_string(), 1),
            ("b".to_string(), 0),
            ("b".to_string(), 1),
            ("b".to_string(), 2),
        ]
    );
}

#[test]
fn enumeration_length_is_sum_of_counts() {
    let groups = parse_groups("x:4,y,z:1,w:0", 3).unwrap();
    let total: usize = groups.iter().map(|g| g.count).sum();
    assert_eq!(total, 8);
    let slots = enumerate_slots(&groups);
    assert_eq!(slots.len(), 8);
    assert_eq!(slots[0].group, "x");
    assert_eq!(slots[3].index, 3);
    assert_eq!(slots[4].group, "y");
    assert_eq!(slots[6].index, 2);
    assert_eq!(slots[7].group, "z");
    assert_eq!(slots[7].index, 0);
}

#[test]
fn empty_specification_is_one_unnamed_group() {
    assert_eq!(group_pairs("", 2), vec![(String::new(), 2)]);
}

#[test]
fn count_between_first_and_second_colon() {
    assert_eq!(group_pairs("a:3:7", 2), vec![("a".to_string(), 3)]);
}

#[test]
fn count_with_plus_sign() {
    assert_eq!(group_pairs("a:+4", 2), vec![("a".to_string(), 4)]);
}

#[test]
fn malformed_counts_are_rejected() {
    for text in ["a:x", "a:", "a:-1", "a,b:2x", "a:+", "a:99999999999999999999999"] {
        assert_eq!(parse_groups(text, 2).err(), Some(KeygenError::InvalidGroupCount), "{}", text);
    }
}

#[test]
fn parse_count_values() {
    assert_eq!(parse_count("0"), Some(0));
    assert_eq!(parse_count("026656"), Some(26656));
    assert_eq!(parse_count("18446744073709551615"), Some(usize::MAX));
    assert_eq!(parse_count("18446744073709551616"), None);
    assert_eq!(parse_count(""), None);
    assert_eq!(parse_count(" 1"), None);
}

#[test]
fn split_keeps_empty_pieces() {
    assert_eq!(split_text(",a,,b,", ','), vec!["", "a", "", "b", ""]);
    assert_eq!(split_text("abc", ','), vec!["abc"]);
}

#[test]
fn peer_address_layout() {
    assert_eq!(
        compose_peer_address("abc123", "val", 0, "ns", "svc.local", 26656),
        "abc123@val-p2p-0.ns.svc.local:26656"
    );
}

#[test]
fn secret_and_directory_names() {
    assert_eq!(secret_name("sentry", 12), "sentry-node-key-12");
    assert_eq!(validator_dir_name("v", 0), "v0");
    assert_eq!(validator_dir_name("val-", 105), "val-105");
}

#[test]
fn decimal_and_hex_rendering() {
    assert_eq!(decimal_string(0), "0");
    assert_eq!(decimal_string(1234567890), "1234567890");
    assert_eq!(decimal_string(u64::MAX), "18446744073709551615");
    assert_eq!(hex_string(&[0x00, 0x0f, 0xa5, 0xff]), "000fa5ff");
    assert_eq!(hex_string(&[]), "");
}

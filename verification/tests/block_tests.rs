use powchain::block::Block;
use powchain::block::hash_meets_difficulty;
use powchain::digits::push_dec_i32;
use powchain::digits::push_dec_u64;

#[test]
fn hash_is_deterministic() {
    let a = Block::calculate_hash("0", 1634322000000, 42, "payload");
    let b = Block::calculate_hash("0", 1634322000000, 42, "payload");
    assert_eq!(a, b);
}

#[test]
fn hash_known_value() {
    // SHA-256 of the concatenation "0" + "0" + "0" + "abc" = "000abc".
    let h = Block::calculate_hash("0", 0, 0, "abc");
    assert_eq!(h, "3a9f1c78530f91b8660d76d323a54cbf67b6d309f1a5f4791ca27dfd37cfee89");
}

#[test]
fn hash_negative_nonce() {
    // SHA-256 of "" + "0" + "-123" + "" = "0-123".
    let h = Block::calculate_hash("", 0, -123, "");
    assert_eq!(h, "77f65a7b14c75a2bf0d5de70f97ebbac47ad075d8c9e98dfcf192d0880230996");
}

#[test]
fn hash_is_64_hex_chars() {
    let h = Block::calculate_hash("prev", 123, 4, "data");
    assert_eq!(h.len(), 64);
    assert!(h.chars().all(|c| c.is_ascii_hexdigit()));
}

#[test]
fn new_block_fields() {
    let b = Block::new("G", "0", 1);
    assert_eq!(b.data, "G");
    assert_eq!(b.previous_hash, "0");
    assert_eq!(b.timestamp, 1);
    assert_eq!(b.nonce, 0);
    assert_eq!(b.hash, Block::calculate_hash("0", 1, 0, "G"));
    assert_eq!(b.hash, b.hash());
}

#[test]
fn mine_zero_difficulty_keeps_nonce() {
    let mut b = Block::new("Z", "0", 7);
    let found = b.mine_block(0);
    assert!(found);
    assert_eq!(b.nonce, 0);
    assert_eq!(b.hash, Block::calculate_hash("0", 7, 0, "Z"));
}

#[test]
fn mine_difficulty_one() {
    let mut b = Block::new("solo", "0", 5);
    let found = b.mine_block(1);
    assert!(found);
    assert_eq!(b.nonce, 10);
    assert_eq!(b.hash, "09e4b51332af7401a6bf47c828b9b7d5c5976b9427aedc912aa09bbff22223a2");
    assert!(b.hash.starts_with('0'));
    assert_eq!(b.hash, b.hash());
}

#[test]
fn mine_difficulty_two() {
    let mut b = Block::new("G", "0", 1);
    let found = b.mine_block(2);
    assert!(found);
    assert_eq!(b.nonce, 307);
    assert_eq!(b.hash, "00bd47ed69d723d65b8d07de9f1187b19628cc19bda8fafc723e0fd60e9049f6");
    assert!(b.hash.starts_with("00"));
    // The fields that enter the digest, other than the nonce, are untouched.
    assert_eq!(b.data, "G");
    assert_eq!(b.previous_hash, "0");
    assert_eq!(b.timestamp, 1);
}

#[test]
fn difficulty_predicate() {
    assert!(hash_meets_difficulty("00ab", 2));
    assert!(hash_meets_difficulty("abc", 0));
    assert!(hash_meets_difficulty("", 0));
    assert!(!hash_meets_difficulty("0a", 2));
    assert!(!hash_meets_difficulty("a0", 1));
    // A string shorter than the difficulty can never meet it.
    assert!(!hash_meets_difficulty("0", 5));
}

#[test]
fn decimal_u64_rendering() {
    let mut s = String::new();
    push_dec_u64(&mut s, 0);
    assert_eq!(s, "0");
    let mut s = String::new();
    push_dec_u64(&mut s, 1234567890);
    assert_eq!(s, "1234567890");
    let mut s = String::new();
    push_dec_u64(&mut s, u64::MAX);
    assert_eq!(s, "18446744073709551615");
}

#[test]
fn decimal_i32_rendering() {
    let mut s = String::new();
    push_dec_i32(&mut s, 0);
    assert_eq!(s, "0");
    let mut s = String::new();
    push_dec_i32(&mut s, -123);
    assert_eq!(s, "-123");
    let mut s = String::new();
    push_dec_i32(&mut s, i32::MIN);
    assert_eq!(s, "-2147483648");
    let mut s = String::from("x");
    push_dec_i32(&mut s, 45);
    assert_eq!(s, "x45");
}

use blockchain::decimal::{render_decimal, render_signed};
use blockchain::digest::{calculate_hash, can_digest, meets_difficulty, DIGEST_LEN, MAX_TEXT_LEN};
use blockchain::transaction::{serialize_transactions, Transaction};

#[test]
fn render_decimal_matches_std() {
    assert_eq!(render_decimal(0), "0");
    assert_eq!(render_decimal(7), "7");
    assert_eq!(render_decimal(10), "10");
    assert_eq!(render_decimal(1234567890), "1234567890");
    assert_eq!(render_decimal(4294967295), "4294967295");
    assert_eq!(render_decimal(u64::MAX), u64::MAX.to_string());
}

#[test]
fn render_signed_matches_std() {
    assert_eq!(render_signed(0), "0");
    assert_eq!(render_signed(-1), "-1");
    assert_eq!(render_signed(1700000000), "1700000000");
    assert_eq!(render_signed(i64::MAX), "9223372036854775807");
    assert_eq!(render_signed(i64::MIN), "-9223372036854775808");
}

#[test]
fn calculate_hash_exact_digests() {
    assert_eq!(
        calculate_hash(0, 0, "", "0", 0),
        "9af15b336e6a9619928537df30b2e6a2376569fcf9d7e773eccede65606529a0"
    );
    assert_eq!(
        calculate_hash(1, 1700000000, "Alice-Bob-10", "abc", 7),
        "2c997e2844032a2ef4c244d505e96f5978f3bafdd2fac76696ae9e591d26157c"
    );
    assert_eq!(
        calculate_hash(3, -42, "a-b-1", "ff", 9),
        "329f3b253d0831c0810af914cdf6a4d714a319040e15cc5bd86e1d1d5cf9790a"
    );
}

#[test]
fn calculate_hash_is_lowercase_hex_of_256_bits() {
    let h = calculate_hash(12, 99, "data", "prev", 3);
    assert_eq!(h.len(), DIGEST_LEN);
    assert_eq!(h.len(), 64);
    assert!(h.chars().all(|c| c.is_ascii_digit() || ('a'..='f').contains(&c)));
}

#[test]
fn calculate_hash_twice_gives_the_same() {
    let a = calculate_hash(4, 1700000000, "x-y-2.5", "00ab", 17);
    let b = calculate_hash(4, 1700000000, "x-y-2.5", "00ab", 17);
    assert_eq!(a, b);
}

#[test]
fn calculate_hash_depends_on_each_field() {
    let base = calculate_hash(4, 1700000000, "x-y-2.5", "00ab", 17);
    assert_ne!(base, calculate_hash(5, 1700000000, "x-y-2.5", "00ab", 17));
    assert_ne!(base, calculate_hash(4, 1700000001, "x-y-2.5", "00ab", 17));
    assert_ne!(base, calculate_hash(4, 1700000000, "x-y-2.6", "00ab", 17));
    assert_ne!(base, calculate_hash(4, 1700000000, "x-y-2.5", "00ac", 17));
    assert_ne!(base, calculate_hash(4, 1700000000, "x-y-2.5", "00ab", 18));
}

#[test]
fn calculate_hash_has_no_delimiters() {
    // Index 1 with timestamp 23 and index 12 with timestamp 3 digest the same text.
    assert_eq!(calculate_hash(1, 23, "", "0", 0), calculate_hash(12, 3, "", "0", 0));
}

#[test]
fn meets_difficulty_counts_leading_zeros() {
    assert!(meets_difficulty("abc", 0));
    assert!(meets_difficulty("", 0));
    assert!(!meets_difficulty("", 1));
    assert!(meets_difficulty("0abc", 1));
    assert!(!meets_difficulty("0abc", 2));
    assert!(meets_difficulty("00bc", 2));
    assert!(!meets_difficulty("a00", 1));
    assert!(meets_difficulty("000", 3));
    assert!(!meets_difficulty("000", 4));
    assert!(!meets_difficulty("0000", 255));
}

#[test]
fn serialize_empty_list_is_empty_text() {
    assert_eq!(serialize_transactions(&vec![]), "");
}

#[test]
fn serialize_one_transaction() {
    let txs = vec![Transaction::new("Alice", "Bob", "10")];
    assert_eq!(serialize_transactions(&txs), "Alice-Bob-10");
}

#[test]
fn serialize_joins_with_semicolons_in_order() {
    let txs = vec![
        Transaction::new("Alice", "Bob", "10"),
        Transaction::new("Bob", "Charlie", "5"),
        Transaction::new("Charlie", "Alice", "0.5"),
    ];
    assert_eq!(serialize_transactions(&txs), "Alice-Bob-10;Bob-Charlie-5;Charlie-Alice-0.5");
}

#[test]
fn transaction_canonical_text() {
    let tx = Transaction::new("Alice", "Bob", &format!("{}", 10.0f32));
    assert_eq!(tx.sender, "Alice");
    assert_eq!(tx.receiver, "Bob");
    assert_eq!(tx.amount, "10");
    assert_eq!(tx.canonical_text(), "Alice-Bob-10");
    let tx = Transaction::new("", "", "");
    assert_eq!(tx.canonical_text(), "--");
}

#[test]
fn can_digest_ordinary_texts() {
    assert_eq!(MAX_TEXT_LEN, 1u64 << 58);
    assert!(can_digest("", ""));
    assert!(can_digest("Alice-Bob-10;Bob-Charlie-5", "0"));
    let long = "x".repeat(100_000);
    assert!(can_digest(&long, &long));
    assert_eq!(calculate_hash(0, 0, &long, "", 0).len(), 64);
}

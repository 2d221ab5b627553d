use blockchain::nonce::{decimal_text, NANOS_DIGITS, NANOS_PER_SEC};
use blockchain::Node;

#[test]
fn decimal_text_of_single_digits() {
    let expected = ["0", "1", "2", "3", "4", "5", "6", "7", "8", "9"];
    for (n, text) in expected.iter().enumerate() {
        assert_eq!(decimal_text(n as u64), *text);
    }
}

#[test]
fn decimal_text_has_no_leading_zeros() {
    assert_eq!(decimal_text(10), "10");
    assert_eq!(decimal_text(100), "100");
    assert_eq!(decimal_text(1_000_000_007), "1000000007");
    assert_eq!(decimal_text(200_000_000), "200000000");
}

#[test]
fn decimal_text_of_the_largest_values() {
    assert_eq!(decimal_text(999_999_999), "999999999");
    assert_eq!(decimal_text(u64::MAX), "18446744073709551615");
}

#[test]
fn decimal_text_agrees_with_std() {
    let mut n: u64 = 1;
    for _ in 0..60 {
        assert_eq!(decimal_text(n), n.to_string());
        assert_eq!(decimal_text(n - 1), (n - 1).to_string());
        n = n.wrapping_mul(3).wrapping_add(7) % 1_000_000_000_000_000_007;
    }
}

#[test]
fn clock_reading_has_at_most_nine_digits() {
    assert_eq!(NANOS_PER_SEC, 1_000_000_000);
    assert_eq!(NANOS_DIGITS, 9);
    assert_eq!(decimal_text((NANOS_PER_SEC - 1) as u64).len() as u64, NANOS_DIGITS);
}

#[test]
fn first_node_uses_some_clock_reading_as_nonce() {
    let node = Node::new("hello");
    let same_value = Node::with_nonce("", "hello");
    assert_eq!(node.value, same_value.value);
    assert_eq!(node.hash.len(), same_value.hash.len());
    assert_ne!(node.hash, same_value.hash);
}

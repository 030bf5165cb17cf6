use shaggy::chance::choose_index;
use shaggy::text::{remove_occurrences, contains, decimal, eq_ignore_ascii_case, pad2, parse_u64, parse_user_id, signed_decimal, trim};

#[test]
fn trimming() {
    assert_eq!(trim("  a b \t\n"), "a b");
    assert_eq!(trim("\u{3000}x\u{a0}"), "x");
    assert_eq!(trim("   "), "");
    assert_eq!(trim(""), "");
}

#[test]
fn decimals() {
    assert_eq!(decimal(0), "0");
    assert_eq!(decimal(1234567890), "1234567890");
    assert_eq!(decimal(u64::MAX), "18446744073709551615");
    assert_eq!(signed_decimal(-42), "-42");
    assert_eq!(signed_decimal(i64::MIN), "-9223372036854775808");
    assert_eq!(pad2(7), "07");
}

#[test]
fn user_ids() {
    assert_eq!(parse_user_id(" 123456789012345678 \n"), Some(123456789012345678));
    assert_eq!(parse_user_id("+5"), Some(5));
    assert_eq!(parse_user_id("18446744073709551616"), None);
    assert_eq!(parse_user_id("12a"), None);
    assert_eq!(parse_user_id(""), None);
    assert_eq!(parse_user_id("0"), None);
    assert_eq!(parse_user_id(" +00 "), None);
    assert_eq!(parse_u64("18446744073709551615"), Some(u64::MAX));
}

#[test]
fn substring_search() {
    assert!(contains("hello world", "o w"));
    assert!(contains("abc", ""));
    assert!(!contains("ab", "abc"));
    assert!(eq_ignore_ascii_case("TimeZone", "timezone"));
}

#[test]
fn random_position_in_range() {
    assert_eq!(choose_index(0), None);
    for _ in 0..20 {
        assert!(choose_index(3).unwrap() < 3);
    }
}

#[test]
fn removing_every_occurrence() {
    assert_eq!(remove_occurrences("a<@1>b<@1><@1>", "<@1>"), "ab");
    assert_eq!(remove_occurrences("aaa", "aa"), "a");
    assert_eq!(remove_occurrences("abc", ""), "abc");
}

use shaggy::moderation::{
    no_warnings_message, parse_color, unescape_newlines, warning_chunks, warning_notice, warnings_header,
};

#[test]
fn notice_trims_reason() {
    assert_eq!(warning_notice(123, "  spamming \n"), "<@123> you have received a warning: spamming");
}

#[test]
fn short_listing_is_one_message() {
    let reasons = vec!["spam".to_string(), "rude".to_string()];
    let header = warnings_header(true, "x#1");
    assert_eq!(header, "Your warnings:\n");
    let chunks = warning_chunks(&header, &reasons);
    assert_eq!(chunks, vec!["Your warnings:\n".to_string(), "1. spam\n2. rude\nTotal: 2".to_string()]);
}

#[test]
fn long_listing_is_split() {
    let reason = "r".repeat(700);
    let reasons = vec![reason.clone(), reason.clone(), reason.clone()];
    let chunks = warning_chunks("Warnings for x:\n", &reasons);
    let line = |i: usize| format!("{}. {}\n", i, reason);
    assert_eq!(
        chunks,
        vec![
            "Warnings for x:\n".to_string(),
            format!("{}{}", line(1), line(2)),
            format!("{}Total: 3", line(3)),
        ]
    );
}

#[test]
fn empty_listing_has_only_total() {
    let chunks = warning_chunks("Your warnings:\n", &Vec::new());
    assert_eq!(chunks, vec!["Your warnings:\nTotal: 0".to_string()]);
}

#[test]
fn headers_and_empty_replies() {
    assert_eq!(warnings_header(false, "sam#0001"), "Warnings for sam#0001:\n");
    assert_eq!(no_warnings_message(true, "x"), "You have no warnings.");
    assert_eq!(no_warnings_message(false, "sam"), "sam has no warnings.");
}

#[test]
fn colours_in_hex() {
    assert_eq!(parse_color("#FF0000"), Some(0xFF0000));
    assert_eq!(parse_color("00ff00"), Some(0x00FF00));
    assert_eq!(parse_color("#+1a"), Some(0x1A));
    assert_eq!(parse_color("FFFFFFFF"), Some(0xFFFF_FFFF));
    assert_eq!(parse_color("100000000"), None);
    assert_eq!(parse_color("#"), None);
    assert_eq!(parse_color(""), None);
    assert_eq!(parse_color("#GG0000"), None);
    assert_eq!(parse_color("-1"), None);
    assert_eq!(parse_color("+"), None);
}

#[test]
fn written_line_breaks_become_real() {
    assert_eq!(unescape_newlines("a\\nb\\\\nc"), "a\nb\\\nc");
    assert_eq!(unescape_newlines("no breaks"), "no breaks");
    assert_eq!(unescape_newlines("\\"), "\\");
}

#[test]
fn listing_split_counts_bytes() {
    // 650 two-byte characters: 1300 bytes but 650 characters per reason.
    let reason = "é".repeat(650);
    let reasons = vec![reason.clone(), reason.clone()];
    let chunks = warning_chunks("H\n", &reasons);
    assert_eq!(
        chunks,
        vec!["H\n".to_string(), format!("1. {}\n", reason), format!("2. {}\nTotal: 2", reason)]
    );
}

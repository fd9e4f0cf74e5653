use tx_analyzer::text::{safe_truncate, DISPLAY_WIDTH};

#[test]
fn truncate_short_is_identity() {
    assert_eq!(safe_truncate("0x1234", 10), "0x1234");
}

#[test]
fn truncate_exact_width_is_identity() {
    assert_eq!(safe_truncate("0123456789", 10), "0123456789");
}

#[test]
fn truncate_long_keeps_width() {
    let cut = safe_truncate("0xabcdef0123456789", 10);
    assert_eq!(cut, "0xabcdef01");
    assert_eq!(cut.chars().count(), 10);
}

#[test]
fn truncate_counts_characters_not_bytes() {
    let cut = safe_truncate("0x1234…abcd", 10);
    assert_eq!(cut, "0x1234…abc");
    assert_eq!(cut.chars().count(), 10);
    assert_eq!(cut.len(), 12);
}

#[test]
fn truncate_many_wide_characters() {
    let cut = safe_truncate("ééééééééééééé", 3);
    assert_eq!(cut, "ééé");
}

#[test]
fn truncate_empty() {
    assert_eq!(safe_truncate("", 10), "");
}

#[test]
fn truncate_to_zero() {
    assert_eq!(safe_truncate("abc", 0), "");
}

#[test]
fn display_width_is_ten() {
    assert_eq!(DISPLAY_WIDTH, 10);
}

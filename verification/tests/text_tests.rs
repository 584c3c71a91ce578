use immersion_ledger::text::extract_api_url;
use immersion_ledger::text::format_with_commas;
use immersion_ledger::text::is_blank;
use immersion_ledger::text::parse_u64;
use immersion_ledger::text::str_eq;

#[test]
fn commas_group_digits_in_threes() {
    assert_eq!(format_with_commas(0), "0");
    assert_eq!(format_with_commas(100), "100");
    assert_eq!(format_with_commas(1000), "1,000");
    assert_eq!(format_with_commas(999999), "999,999");
    assert_eq!(format_with_commas(1234567), "1,234,567");
    assert_eq!(format_with_commas(600000), "600,000");
    assert_eq!(format_with_commas(2147483647), "2,147,483,647");
}

#[test]
fn negative_counts_keep_the_sign_in_front() {
    assert_eq!(format_with_commas(-1), "-1");
    assert_eq!(format_with_commas(-100), "-100");
    assert_eq!(format_with_commas(-1234), "-1,234");
    assert_eq!(format_with_commas(-1234567), "-1,234,567");
}

#[test]
fn parse_u64_accepts_decimal_identifiers() {
    assert_eq!(parse_u64("0"), Some(0));
    assert_eq!(parse_u64("251239170058616833"), Some(251239170058616833));
    assert_eq!(parse_u64("+42"), Some(42));
    assert_eq!(parse_u64("18446744073709551615"), Some(u64::MAX));
}

#[test]
fn parse_u64_rejects_garbage_and_overflow() {
    assert_eq!(parse_u64(""), None);
    assert_eq!(parse_u64("+"), None);
    assert_eq!(parse_u64("12a"), None);
    assert_eq!(parse_u64("-5"), None);
    assert_eq!(parse_u64("18446744073709551616"), None);
    assert_eq!(parse_u64(" 12"), None);
}

#[test]
fn blankness_covers_whitespace_only_notes() {
    assert!(is_blank(""));
    assert!(is_blank("   \t\r\n"));
    assert!(is_blank("\u{3000}\u{00A0}"));
    assert!(!is_blank(" a "));
    assert!(!is_blank("note"));
}

#[test]
fn api_url_is_cut_from_the_first_parentheses() {
    let field = "[Game Report](https://kotobaweb.com/dashboard/5f1a2b)";
    assert_eq!(
        extract_api_url(field).as_deref(),
        Some("https://kotobaweb.com/api/5f1a2b")
    );
}

#[test]
fn api_url_rewrites_every_dashboard_segment() {
    let field = "(dashboard/dashboard)";
    assert_eq!(extract_api_url(field).as_deref(), Some("api/api"));
}

#[test]
fn api_url_requires_ordered_parentheses() {
    assert_eq!(extract_api_url("no parens"), None);
    assert_eq!(extract_api_url(") before ("), None);
    assert_eq!(extract_api_url("only (open"), None);
}

#[test]
fn empty_url_between_parentheses_is_allowed() {
    assert_eq!(extract_api_url("()").as_deref(), Some(""));
}

#[test]
fn str_eq_compares_contents() {
    assert!(str_eq("平民", "平民"));
    assert!(!str_eq("平民", "男爵"));
    assert!(str_eq("", ""));
}

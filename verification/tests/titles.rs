use fintwind::fork_title::{next_response_fork_title, numbered_title_suffix};
use fintwind::lines::{decimal_of, parse_decimal};
use fintwind::text::trim;
use fintwind::turns::compact_driver_error;
use fintwind::version::parse_cli_version;

#[test]
fn response_fork_titles_advance_one_numbered_sequence() {
    assert_eq!(next_response_fork_title("Fix the bug", &vec!["Fix the bug"]), "Fix the bug (2)");
    assert_eq!(
        next_response_fork_title("Fix the bug", &vec!["Fix the bug", "Fix the bug (2)", "Fix the bug (4)"]),
        "Fix the bug (5)"
    );
    assert_eq!(
        next_response_fork_title("Fix the bug (2)", &vec!["Fix the bug", "Fix the bug (2)"]),
        "Fix the bug (3)"
    );
    assert_eq!(next_response_fork_title("Plan (2026)", &vec!["Plan (2026)"]), "Plan (2026) (2)");
}

#[test]
fn numbered_suffixes_are_read_back() {
    assert_eq!(numbered_title_suffix("Fix (12)"), Some(("Fix", 12)));
    assert_eq!(numbered_title_suffix("Fix (x)"), None);
    assert_eq!(numbered_title_suffix("Fix"), None);
}

#[test]
fn parses_common_cli_version_banners() {
    assert_eq!(parse_cli_version("codex-cli 0.45.0\n"), Some("0.45.0".to_owned()));
    assert_eq!(parse_cli_version("2.1.24 (Agent Code)\n"), Some("2.1.24".to_owned()));
    assert_eq!(parse_cli_version("v1.3.0-beta.2"), Some("1.3.0-beta.2".to_owned()));
    assert_eq!(parse_cli_version("\nAmp CLI version 0.9.12\n"), Some("0.9.12".to_owned()));
    assert_eq!(parse_cli_version("not a version"), None);
    assert_eq!(parse_cli_version(""), None);
}

#[test]
fn version_requires_a_dotted_number_not_a_bare_digit() {
    // "2024" alone or a hash must not read as a version.
    assert_eq!(parse_cli_version("build 2024 f3a9c1"), None);
    assert_eq!(parse_cli_version("cursor-agent 2025.09.12-4f8d8e2"), Some("2025.09.12-4f8d8e2".to_owned()));
}

#[test]
fn numbers_are_written_and_read() {
    assert_eq!(decimal_of(0), "0");
    assert_eq!(decimal_of(1840), "1840");
    assert_eq!(parse_decimal("1840", u64::MAX), Some(1840));
    assert_eq!(parse_decimal("+7", 10), Some(7));
    assert_eq!(parse_decimal("11", 10), None);
    assert_eq!(parse_decimal("", 10), None);
    assert_eq!(trim("  a b\n"), "a b");
}

#[test]
fn errors_of_drivers_are_told_in_short() {
    assert_eq!(compact_driver_error("1\n2\n3\n4\n5\n6\n7\n8"), "1\n2\n3\n4\n5\n6\n…");
    let long = compact_driver_error(&"x".repeat(2_000));
    assert_eq!(long.chars().count(), 800);
    assert!(long.ends_with('…'));
}

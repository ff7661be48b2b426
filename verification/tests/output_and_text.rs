use shelly::output::{create_output_file, file_expired, format_output, safe_cmd_prefix,
    MAX_AGE_SECS};
use shelly::testing::evaluate_test;
use shelly::text::{i32_to_string, parse_selection, strip_ansi_codes, trim_str, u64_to_string};

#[test]
fn output_format_is_exact() {
    assert_eq!(format_output("out\n", "err\n", 0),
        "Exit Code: 0\n\n=== STDOUT ===\nout\n\n\n=== STDERR ===\nerr\n");
    assert_eq!(format_output("", "", -1),
        "Exit Code: -1\n\n=== STDOUT ===\n\n\n=== STDERR ===\n");
}

#[test]
fn decimal_rendering_is_exact() {
    assert_eq!(u64_to_string(0), "0");
    assert_eq!(u64_to_string(1234), "1234");
    assert_eq!(u64_to_string(u64::MAX), "18446744073709551615");
    assert_eq!(i32_to_string(-5), "-5");
    assert_eq!(i32_to_string(7), "7");
    assert_eq!(i32_to_string(i32::MIN), "-2147483648");
}

#[test]
fn output_file_name_sanitizes_command() {
    assert_eq!(create_output_file("/tmp/shelly", "echo hi!", 99),
        "/tmp/shelly/echohi-99.txt");
    assert_eq!(safe_cmd_prefix("cargo build --release --all-features"), "cargobuild--releas");
    assert_eq!(safe_cmd_prefix("a_b-c.d/e"), "a_b-cde");
}

#[test]
fn stale_files_are_those_older_than_a_day() {
    assert!(!file_expired(MAX_AGE_SECS, 0));
    assert!(file_expired(MAX_AGE_SECS + 1, 0));
    assert!(!file_expired(100, 200));
}

#[test]
fn strip_ansi_removes_color_codes() {
    assert_eq!(strip_ansi_codes("\u{1b}[31mred\u{1b}[0m"), "red");
    assert_eq!(strip_ansi_codes("plain"), "plain");
    assert_eq!(strip_ansi_codes("a\u{1b}Xbc"), "abc");
    assert_eq!(strip_ansi_codes("end\u{1b}"), "end");
    assert_eq!(strip_ansi_codes("\u{1b}[1;32m  agent-one  \u{1b}[0m"), "  agent-one  ");
}

#[test]
fn trim_removes_surrounding_whitespace() {
    assert_eq!(trim_str("  hi there \n"), "hi there");
    assert_eq!(trim_str("   "), "");
    assert_eq!(trim_str("x"), "x");
    assert_eq!(trim_str("\u{a0}x\u{a0}"), "x");
}

#[test]
fn unterminated_escape_sequence_is_swallowed() {
    assert_eq!(strip_ansi_codes("\u{1b}[12"), "");
    assert_eq!(strip_ansi_codes("ab\u{1b}[12"), "ab");
}

#[test]
fn singleton_range_selects_one_index() {
    assert_eq!(parse_selection("1-1", 5).unwrap(), vec![0]);
}

#[test]
fn selection_accepts_numbers_and_ranges() {
    assert_eq!(parse_selection("1,3", 5).unwrap(), vec![0, 2]);
    assert_eq!(parse_selection("1-3", 5).unwrap(), vec![0, 1, 2]);
    assert_eq!(parse_selection(" 2 , 4 ", 5).unwrap(), vec![1, 3]);
    assert_eq!(parse_selection("2-2,1", 5).unwrap(), vec![0, 1]);
    assert_eq!(parse_selection("1,1,1", 5).unwrap(), vec![0]);
    assert_eq!(parse_selection("3-1", 5).unwrap(), Vec::<usize>::new());
    assert_eq!(parse_selection("+2", 5).unwrap(), vec![1]);
}

#[test]
fn selection_rejects_malformed_and_out_of_range_parts() {
    assert!(parse_selection("0", 5).is_err());
    assert!(parse_selection("6", 5).is_err());
    assert!(parse_selection("abc", 5).is_err());
    assert!(parse_selection("1-2-3", 5).is_err());
    assert!(parse_selection("", 5).is_err());
    assert!(parse_selection("1,", 5).is_err());
    assert!(parse_selection("184467440737095516151", 5).is_err());
}

#[test]
fn test_judgement_compares_trimmed_summaries() {
    let pass = evaluate_test("case-one", " ok\n", "ok");
    assert!(pass.passed);
    assert_eq!(pass.name, "case-one");
    assert_eq!(pass.expected, " ok\n");
    assert_eq!(pass.actual, "ok");

    let fail = evaluate_test("case-two", "expected", "different");
    assert!(!fail.passed);
}

use heco::output_parser::{parse_log_type, strip_repeated_prefix, LogType};

const PREFIXES: &[(LogType, &[&str])] = &[
    (LogType::Warning, &["WARN:", "warning:"]),
    (LogType::Error, &["ERROR:", "error:"]),
];

#[test]
fn parses_warning_prefixes() {
    let parsed = parse_log_type("WARN: something happened", PREFIXES);
    assert_eq!(
        parsed,
        Some((LogType::Warning, "something happened".to_string()))
    );
}

#[test]
fn parses_error_prefixes() {
    let parsed = parse_log_type("error: build failed", PREFIXES);
    assert_eq!(parsed, Some((LogType::Error, "build failed".to_string())));
}

#[test]
fn strips_repeated_tool_prefix() {
    let stripped = strip_repeated_prefix("ohpm ohpm WARN: duplicate", "ohpm ");
    assert_eq!(stripped, "WARN: duplicate");
}

#[test]
fn first_matching_prefix_in_table_order_wins() {
    let table: &[(LogType, &[&str])] = &[
        (LogType::Warning, &["WARN:"]),
        (LogType::Error, &["WARN: fatal"]),
    ];
    assert_eq!(
        parse_log_type("  WARN: fatal thing  ", table),
        Some((LogType::Warning, "fatal thing".to_string()))
    );
}

#[test]
fn unmatched_line_gives_none() {
    assert_eq!(parse_log_type("info: all good", PREFIXES), None);
    assert_eq!(parse_log_type("", PREFIXES), None);
}

#[test]
fn strip_repeated_prefix_keeps_line_without_prefix() {
    assert_eq!(strip_repeated_prefix("WARN: x", "ohpm "), "WARN: x");
    assert_eq!(strip_repeated_prefix("ohpm    ohpm", "ohpm "), "ohpm");
}

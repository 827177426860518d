use heco::hvigor::{
    format_error, format_warning, looks_like_hvigor_status_line, normalize_content_line,
    normalize_warning_content, process_hvigor_line, process_stripped_hvigor_line, should_continue_log_block, should_skip_line,
};
use heco::emit::Emit;
use heco::output_parser::LogType;

#[test]
fn skips_success_summary_lines() {
    assert!(should_skip_line("BUILD SUCCESSFUL in 889 ms"));
    assert!(!should_skip_line("BUILD FAILED in 889 ms"));
}

#[test]
fn trims_finished_prefix() {
    assert_eq!(
        normalize_content_line("Finished :entry:default@BuildJS... after 1 ms"),
        ":entry:default@BuildJS... after 1 ms"
    );
}

#[test]
fn trims_up_to_date_prefix() {
    assert_eq!(
        normalize_content_line("UP-TO-DATE :entry:default@PreBuild..."),
        ":entry:default@PreBuild..."
    );
}

#[test]
fn continues_warning_detail_without_indent() {
    assert!(should_continue_log_block(
        "at /tmp/sample/resources/base/element/float.json",
        Some(LogType::Warning)
    ));
    assert!(should_continue_log_block(
        "but declared again.",
        Some(LogType::Warning)
    ));
}

#[test]
fn continues_unless_line_is_known_status() {
    // Caller is responsible for filtering log-type-prefixed lines before this function.
    assert!(should_continue_log_block(
        "Warning: 'card_content_height' conflict, first declared.",
        Some(LogType::Warning)
    ));
}

#[test]
fn does_not_continue_known_hvigor_status_lines() {
    assert!(looks_like_hvigor_status_line(
        "Finished :phone:default@CompileResource..."
    ));
    assert!(looks_like_hvigor_status_line(
        ":phone:default@CompileArkTS... after 12 s"
    ));
    assert!(!should_continue_log_block(
        "Finished :phone:default@CompileResource... after 468 ms",
        Some(LogType::Warning)
    ));
}

#[test]
fn strips_redundant_warning_prefix_from_content() {
    assert_eq!(
        normalize_warning_content("Warning: 'card_content_height' conflict, first declared."),
        "'card_content_height' conflict, first declared."
    );
    assert_eq!(
        anstream::adapter::strip_str(&format_warning(
            "Warning: 'card_content_height' conflict, first declared."
        ))
        .to_string(),
        "warning: 'card_content_height' conflict, first declared."
    );
}

#[test]
fn warning_and_error_labels_are_styled() {
    assert_eq!(format_warning("x"), "\x1b[1m\x1b[33mwarning\x1b[39m\x1b[0m: x");
    assert_eq!(format_error("boom"), "\x1b[1m\x1b[31merror\x1b[39m\x1b[0m: boom");
}

#[test]
fn no_continuation_without_an_open_block() {
    assert!(!should_continue_log_block("but declared again.", None));
    assert!(!should_continue_log_block("   ", Some(LogType::Error)));
}

#[test]
fn hvigor_warning_opens_a_block_and_detail_continues_it() {
    let (state, emit) = process_hvigor_line(None, "WARN: ArkTS:WARN File: a.ets:1:1", 0, true, "Compiling");
    assert_eq!(state, Some(LogType::Warning));
    assert_eq!(emit, Emit::BarLine("\x1b[1m\x1b[33mwarning\x1b[39m\x1b[0m: a.ets:1:1".to_string()));
    let (state, emit) = process_hvigor_line(state, "  the detail  ", 0, true, "Compiling");
    assert_eq!(state, Some(LogType::Warning));
    assert_eq!(emit, Emit::BarLine("the detail".to_string()));
    let (state, emit) = process_hvigor_line(state, "Finished :entry:default@Build... after 1 ms", 0, true, "Compiling");
    assert_eq!(state, None);
    assert_eq!(
        emit,
        Emit::Status("Compiling".to_string(), ":entry:default@Build... after 1 ms".to_string())
    );
}

#[test]
fn hvigor_block_header_loses_its_prefix_and_ends_the_block() {
    let (state, emit) = process_hvigor_line(Some(LogType::Error), "> hvigor > hvigor  Finished :a", 0, true, "Syncing");
    assert_eq!(state, None);
    assert_eq!(emit, Emit::Status("Syncing".to_string(), ":a".to_string()));
}

#[test]
fn hvigor_summary_is_left_out_and_verbose_lines_go_straight_out() {
    let (state, emit) = process_hvigor_line(Some(LogType::Warning), "BUILD SUCCESSFUL in 2 s", 0, true, "Compiling");
    assert_eq!(state, Some(LogType::Warning));
    assert_eq!(emit, Emit::Nothing);
    let (state, emit) = process_hvigor_line(None, "\x1b[32mline\r\n", 2, false, "Compiling");
    assert_eq!(state, None);
    assert_eq!(emit, Emit::Direct("line".to_string()));
    let (_, emit) = process_hvigor_line(None, "ERROR: x", 0, false, "Compiling");
    assert_eq!(emit, Emit::Nothing);
}

#[test]
fn hvigor_stripped_line_is_handled_as_given() {
    let (state, emit) = process_stripped_hvigor_line(None, "ERROR: ArkTS:ERROR bad", 0, true, "Compiling");
    assert_eq!(state, Some(LogType::Error));
    assert_eq!(emit, Emit::BarLine("\x1b[1m\x1b[31merror\x1b[39m\x1b[0m: bad".to_string()));
    let (state, emit) = process_stripped_hvigor_line(None, "  UP-TO-DATE :entry:compile  ", 1, true, "Syncing");
    assert_eq!(state, None);
    assert_eq!(emit, Emit::Status("Syncing".to_string(), "UP-TO-DATE :entry:compile".to_string()));
}

#[test]
fn hvigor_escapes_are_removed_before_a_line_is_read() {
    let (state, emit) = process_hvigor_line(None, "\x1b[31mERROR:\x1b[0m broken", 0, true, "Compiling");
    assert_eq!(state, Some(LogType::Error));
    assert_eq!(emit, Emit::BarLine("\x1b[1m\x1b[31merror\x1b[39m\x1b[0m: broken".to_string()));
}

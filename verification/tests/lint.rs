use heco::emit::Emit;
use heco::lint::{
    codelinter_args, is_lint_info_line, lint_check_path, parse_lint_config_path,
    parse_lint_progress, parse_lint_status_line, process_lint_line, process_stripped_lint_line,
    lint_plan, sanitize_lint_line,
};
use heco::output_parser::LogType;
use heco::project::{Project, ProjectError};

#[test]
fn parses_active_product_line_as_status() {
    assert_eq!(
        parse_lint_status_line("Currently active product: default"),
        Some(("Using", "product default".to_string()))
    );
}

#[test]
fn parses_config_file_line_as_status() {
    assert_eq!(
        parse_lint_status_line(
            "The configuration file /path/to/code-linter.json5 in the project is in use."
        ),
        Some(("Using", "config /path/to/code-linter.json5".to_string()))
    );
}

#[test]
fn ignores_unrelated_status_lines() {
    assert_eq!(
        parse_lint_status_line("CodeLinter found some defects in your code."),
        None
    );
}

#[test]
fn progress_lines_give_capped_percent_and_message() {
    assert_eq!(
        parse_lint_progress("Working... [=====     ] 50%"),
        Some((50, "running lint checks".to_string()))
    );
    assert_eq!(
        parse_lint_progress("  Finished... [==========] 100 % "),
        Some((100, "lint finished".to_string()))
    );
    assert_eq!(
        parse_lint_progress("Checking... [] 250%"),
        Some((100, "running lint checks".to_string()))
    );
    assert_eq!(parse_lint_progress("Other... [==] 5%"), None);
    assert_eq!(parse_lint_progress("Working... [==] x%"), None);
    assert_eq!(parse_lint_progress("Working... [==] 5"), None);
    assert_eq!(parse_lint_progress("Working... 5%"), None);
}

#[test]
fn config_path_and_info_lines() {
    assert_eq!(
        parse_lint_config_path("The configuration file  a b  in the project is in use."),
        Some("a b")
    );
    assert_eq!(parse_lint_config_path("The configuration file x"), None);
    assert!(is_lint_info_line("No defects found in your code."));
    assert!(!is_lint_info_line("No defects found in your code"));
}

#[test]
fn empty_product_is_not_a_status() {
    assert_eq!(parse_lint_status_line("Currently active product:   "), None);
}

#[test]
fn codelinter_arguments() {
    assert_eq!(
        codelinter_args("/x/index.js", true, Some("default"), "entry"),
        vec!["/x/index.js", "--fix", "-p", "default", "entry"]
    );
    assert_eq!(codelinter_args("/x/index.js", false, None, "."), vec!["/x/index.js"]);
    assert_eq!(codelinter_args("/x/index.js", false, None, ""), vec!["/x/index.js"]);
    assert_eq!(lint_check_path(Some("")), ".");
    assert_eq!(lint_check_path(None), ".");
    assert_eq!(lint_check_path(Some("entry/src")), "entry/src");
}

#[test]
fn lint_lines_are_classified() {
    assert_eq!(sanitize_lint_line("\x1b[31m  a\r\nb  "), "ab");
    let (s, e) = process_lint_line(None, "warning: bad thing", 0, false, true);
    assert_eq!(s, Some(LogType::Warning));
    assert_eq!(e, Emit::Direct("warning: bad thing".to_string()));
    let (s, e) = process_lint_line(s, "   at file.ets", 0, false, true);
    assert_eq!(s, Some(LogType::Warning));
    assert_eq!(e, Emit::Direct("at file.ets".to_string()));
    let (s, e) = process_lint_line(s, "other", 0, false, true);
    assert_eq!(s, None);
    assert_eq!(e, Emit::Direct("other".to_string()));
    let (_, e) = process_lint_line(None, "Working... [=] 7%", 0, false, true);
    assert_eq!(e, Emit::Progress(7, "running lint checks".to_string()));
    let (_, e) = process_lint_line(None, "Working... [=] 7%", 0, false, false);
    assert_eq!(e, Emit::Nothing);
    let (_, e) = process_lint_line(None, "Currently active product: p", 0, false, true);
    assert_eq!(e, Emit::Status("Using".to_string(), "product p".to_string()));
    let (_, e) = process_lint_line(None, "No defects found in your code.", 0, false, true);
    assert_eq!(e, Emit::Nothing);
    let (_, e) = process_lint_line(None, "error: x", 0, true, true);
    assert_eq!(e, Emit::Nothing);
    let (_, e) = process_lint_line(None, "error: x", 2, true, true);
    assert_eq!(e, Emit::Direct("error: x".to_string()));
}

#[test]
fn lint_stripped_line_keeps_an_indented_detail_in_its_block() {
    let (state, emit) = process_stripped_lint_line(Some(LogType::Error), "  \x1b[2mat b.ets", "  at b.ets", 0, false, true);
    assert_eq!(state, Some(LogType::Error));
    assert_eq!(emit, Emit::Direct("at b.ets".to_string()));
    let (state, emit) = process_stripped_lint_line(Some(LogType::Error), "\x1b[2m  at b.ets", "  at b.ets", 0, false, true);
    assert_eq!(state, None);
    assert_eq!(emit, Emit::Direct("at b.ets".to_string()));
}

#[test]
fn lint_runs_the_known_products_up_to_the_first_unknown_one() {
    let p = Project { root: "/p".to_string(), modules: vec![], products: vec!["default".to_string(), "pro".to_string()] };
    assert_eq!(lint_plan(&None, &p), (vec![None], None));
    let some = Some(vec!["pro".to_string(), "x".to_string(), "default".to_string()]);
    assert_eq!(
        lint_plan(&some, &p),
        (vec![Some("pro".to_string())], Some(ProjectError::UnknownProduct("x".to_string())))
    );
    let all = Some(vec!["default".to_string(), "pro".to_string()]);
    assert_eq!(lint_plan(&all, &p), (vec![Some("default".to_string()), Some("pro".to_string())], None));
    assert_eq!(lint_plan(&Some(vec![]), &p), (vec![], None));
}

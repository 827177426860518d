//! Handling of `ohpm install` output.
use crate::emit::{Emit, EmitView};
use crate::hvigor::ToolError;
use crate::hvigor::strs_view;
use crate::output_parser::{
    log_type_of, parse_log_type, strip_repeated, strip_repeated_prefix, table_view, LogType,
};
use crate::style::{ansi_stripped, bold_red, bold_yellow, paint_bold_red, paint_bold_yellow, strip_ansi};
use crate::text::{concat3, has_prefix, strings_view, is_whitespace, is_ws, owned, starts_with, trim, trim_str};
use vstd::prelude::*;

verus! {

/// The warning and error prefixes of `ohpm` output, in the order in which
/// they are tried.
pub open spec fn ohpm_log_prefixes() -> Seq<(LogType, Seq<Seq<char>>)> {
    seq![
        (LogType::Warning, seq!["WARN:"@, "warning:"@, "ohpm WARN:"@]),
        (LogType::Error, seq!["ERROR:"@, "ERR!"@, "error:"@]),
    ]
}

/// The closing summary line of `ohpm install`.
pub open spec fn is_success_line(content: Seq<char>) -> bool {
    has_prefix(content, "install completed in "@)
}

/// Whether a line is the closing summary of `ohpm install`, which is left out.
pub fn should_skip_success_line(content: &str) -> (b: bool)
    ensures
        b == is_success_line(content@),
{
    starts_with(content, "install completed in ")
}

/// A line of `ohpm` output starts with whitespace.
pub open spec fn indented(raw: Seq<char>) -> bool {
    raw.len() > 0 && is_ws(raw[0])
}

/// Where a line goes that is printed even in quiet mode: straight to
/// standard error when quiet or without a bar, else above the bar.
pub open spec fn routed(quiet: bool, has_bar: bool, line: Seq<char>) -> EmitView {
    if !quiet && has_bar {
        EmitView::BarLine(line)
    } else {
        EmitView::Direct(line)
    }
}

/// How one line of `ohpm install` output is handled, given the kind of the
/// diagnostic block it may continue (`last`), quiet mode and whether a status
/// bar is shown; the result is the new block kind and what is printed. The
/// line's escape sequences are removed first (see `ohpm_stripped_line`).
pub open spec fn ohpm_line(last: Option<LogType>, raw: Seq<char>, quiet: bool, has_bar: bool) -> (
    Option<LogType>,
    EmitView,
) {
    ohpm_stripped_line(last, raw, ansi_stripped(raw), quiet, has_bar)
}

/// How line `raw` of `ohpm install` output is handled, given `processed`,
/// the line without its escape sequences.
///
/// Blank lines are left out. Then the line's repeated `ohpm ` tool prefixes
/// go, and the closing summary is left out. A warning or error is printed as
/// `warning: ...` or `error: ...` with a styled label and opens a block,
/// even in quiet mode. When `raw` is indented inside a block, the line is
/// printed as it came, escapes removed. Any other line ends the block and is
/// printed unless quiet.
pub open spec fn ohpm_stripped_line(
    last: Option<LogType>,
    raw: Seq<char>,
    processed: Seq<char>,
    quiet: bool,
    has_bar: bool,
) -> (Option<LogType>, EmitView) {
    if trim(processed).len() == 0 {
        (last, EmitView::Nothing)
    } else {
        let content = strip_repeated(trim(processed), "ohpm "@);
        if is_success_line(content) {
            (last, EmitView::Nothing)
        } else {
            match log_type_of(content, ohpm_log_prefixes()) {
                Some((LogType::Warning, c)) => (
                    Some(LogType::Warning),
                    routed(quiet, has_bar, bold_yellow("warning"@) + ": "@ + c),
                ),
                Some((LogType::Error, c)) => (
                    Some(LogType::Error),
                    routed(quiet, has_bar, bold_red("error"@) + ": "@ + c),
                ),
                None => if indented(raw) && last is Some {
                    (last, routed(quiet, has_bar, processed))
                } else if quiet {
                    (None, EmitView::Nothing)
                } else {
                    (None, routed(quiet, has_bar, content))
                },
            }
        }
    }
}

/// Puts a line where `routed` says.
fn route(quiet: bool, has_bar: bool, line: String) -> (e: Emit)
    ensures
        e@ == routed(quiet, has_bar, line@),
{
    if !quiet && has_bar {
        Emit::BarLine(line)
    } else {
        Emit::Direct(line)
    }
}

/// Classifies a line by the warning and error prefixes of `ohpm`.
fn parse_ohpm_log_type(line: &str) -> (r: Option<(LogType, String)>)
    ensures
        match log_type_of(line@, ohpm_log_prefixes()) {
            Some((k, c)) => r matches Some((k2, c2)) && k2 == k && c2@ == c,
            None => r is None,
        },
{
    let warnings: [&str; 3] = ["WARN:", "warning:", "ohpm WARN:"];
    let errors: [&str; 3] = ["ERROR:", "ERR!", "error:"];
    let table: [(LogType, &[&str]); 2] = [
        (LogType::Warning, warnings.as_slice()),
        (LogType::Error, errors.as_slice()),
    ];
    let t = table.as_slice();
    assert(table_view(t@) =~= ohpm_log_prefixes()) by {
        assert(strs_view(t@[0].1@) =~= ohpm_log_prefixes()[0].1);
        assert(strs_view(t@[1].1@) =~= ohpm_log_prefixes()[1].1);
    }
    parse_log_type(line, t)
}

/// Handles one line of `ohpm install` output (see `ohpm_line`).
pub fn process_ohpm_line(last_log_type: Option<LogType>, raw_line: &str, quiet: bool, has_bar: bool) -> (r: (
    Option<LogType>,
    Emit,
))
    ensures
        (r.0, r.1@) == ohpm_line(last_log_type, raw_line@, quiet, has_bar),
{
    let processed = strip_ansi(raw_line);
    process_stripped_ohpm_line(last_log_type, raw_line, processed.as_str(), quiet, has_bar)
}

/// Handles line `raw_line` of `ohpm install` output, given the line without
/// its escape sequences (see `ohpm_stripped_line`).
pub fn process_stripped_ohpm_line(
    last_log_type: Option<LogType>,
    raw_line: &str,
    processed: &str,
    quiet: bool,
    has_bar: bool,
) -> (r: (Option<LogType>, Emit))
    ensures
        (r.0, r.1@) == ohpm_stripped_line(last_log_type, raw_line@, processed@, quiet, has_bar),
{
    let trimmed = trim_str(processed);
    if trimmed.unicode_len() == 0 {
        return (last_log_type, Emit::Nothing);
    }
    proof {
        reveal_strlit("ohpm ");
    }
    let content_line = strip_repeated_prefix(trimmed, "ohpm ");
    if should_skip_success_line(content_line) {
        return (last_log_type, Emit::Nothing);
    }
    match parse_ohpm_log_type(content_line) {
        Some((LogType::Warning, content)) => {
            let label = paint_bold_yellow("warning");
            let out = concat3(label.as_str(), ": ", content.as_str());
            (Some(LogType::Warning), route(quiet, has_bar, out))
        },
        Some((LogType::Error, content)) => {
            let label = paint_bold_red("error");
            let out = concat3(label.as_str(), ": ", content.as_str());
            (Some(LogType::Error), route(quiet, has_bar, out))
        },
        None => {
            let indented = raw_line.unicode_len() > 0 && is_whitespace(raw_line.get_char(0));
            if indented && last_log_type.is_some() {
                (last_log_type, route(quiet, has_bar, owned(processed)))
            } else if quiet {
                (None, Emit::Nothing)
            } else {
                (None, route(quiet, has_bar, owned(content_line)))
            }
        },
    }
}

/// Checks that the tools of `ohpm install` were found, in the order
/// `ohpm`, SDK, `node`; the first missing one is the error.
pub fn require_ohpm_tools(ohpm: Option<String>, sdk: Option<String>, node: Option<String>) -> (r: Result<
    (String, String, String),
    ToolError,
>)
    ensures
        ohpm is None ==> r == Err::<(String, String, String), ToolError>(ToolError::OhpmNotFound),
        ohpm is Some && sdk is None ==> r == Err::<(String, String, String), ToolError>(
            ToolError::SdkNotFound,
        ),
        ohpm is Some && sdk is Some && node is None ==> r == Err::<(String, String, String), ToolError>(
            ToolError::NodeNotFound,
        ),
        ohpm is Some && sdk is Some && node is Some ==> r == Ok::<(String, String, String), ToolError>(
            (ohpm.unwrap(), sdk.unwrap(), node.unwrap()),
        ),
{
    let o = match ohpm {
        Some(o) => o,
        None => return Err(ToolError::OhpmNotFound),
    };
    let s = match sdk {
        Some(s) => s,
        None => return Err(ToolError::SdkNotFound),
    };
    let n = match node {
        Some(n) => n,
        None => return Err(ToolError::NodeNotFound),
    };
    Ok((o, s, n))
}

/// The arguments of `ohpm` that install all dependencies.
pub fn ohpm_install_args() -> (r: Vec<String>)
    ensures
        strings_view(r@) == seq!["install"@, "--all"@],
{
    let mut v: Vec<String> = Vec::new();
    v.push(owned("install"));
    v.push(owned("--all"));
    assert(strings_view(v@) =~= seq!["install"@, "--all"@]);
    v
}


/// In quiet mode `ohpm` output never reaches the status bar: a line is
/// either left out or, when it is a diagnostic or its detail, written
/// straight out; and nothing but a status bar line or such a direct line is
/// ever printed.
pub proof fn lemma_ohpm_quiet(last: Option<LogType>, raw: Seq<char>, quiet: bool, has_bar: bool)
    ensures
        ({
            let (next, out) = ohpm_line(last, raw, quiet, has_bar);
            &&& quiet ==> (out is Nothing || out is Direct)
            &&& !(out is Status) && !(out is Progress)
            &&& !has_bar ==> !(out is BarLine)
            &&& out is Nothing ==> next == last || (quiet && next is None)
        }),
{
}

} // verus!

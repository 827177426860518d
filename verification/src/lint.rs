//! `heco lint`: the arguments of `codelinter` and the handling of its output.
use crate::emit::{Emit, EmitView};
use crate::hvigor::strs_view;
use crate::numeric::{parse_usize, unsigned_at_most};
use crate::output_parser::{log_type_of, parse_log_type, table_view, LogType};
use crate::project::{Project, ProjectError, ProjectErrorView};
use crate::style::{ansi_stripped, strip_ansi};
use crate::text::{
    concat2, find_char, opt_str_view, has_prefix, has_suffix, index_of, is_whitespace, is_ws, owned,
    remove_line_breaks, starts_with, str_eq, strip_prefix, strip_suffix, trim, trim_str,
    without_line_breaks,
};
use vstd::prelude::*;

verus! {

/// Arguments of `heco lint`.
pub struct LintArgs {
    /// Fix the issues that can be fixed automatically.
    pub fix: bool,
    /// The products to check.
    pub products: Option<Vec<String>>,
    pub quiet: bool,
}

/// The warning and error prefixes of `codelinter` output, in order.
pub open spec fn lint_log_prefixes() -> Seq<(LogType, Seq<Seq<char>>)> {
    seq![
        (LogType::Warning, seq!["warning:"@, "Warning:"@, "WARN:"@]),
        (LogType::Error, seq!["error:"@, "Error:"@, "ERROR:"@]),
    ]
}

/// A line of `codelinter` output without escapes and line breaks, trimmed.
pub open spec fn sanitized(line: Seq<char>) -> Seq<char> {
    trim(without_line_breaks(ansi_stripped(line)))
}

/// Removes escapes and line breaks from a line of `codelinter` output and
/// trims it.
pub fn sanitize_lint_line(line: &str) -> (r: String)
    ensures
        r@ == sanitized(line@),
{
    let stripped = strip_ansi(line);
    let cleaned = remove_line_breaks(stripped.as_str());
    owned(trim_str(cleaned.as_str()))
}

/// The progress that a progress line of `codelinter` reports: a line of the
/// form `<word>... [<bar>] <n>%` whose first word is `Working...`,
/// `Finished...` or `Checking...`. The percentage is capped at 100; the
/// message says whether the check has finished.
pub open spec fn lint_progress(line: Seq<char>) -> Option<(usize, Seq<char>)> {
    let t = trim(line);
    match index_of(t, '[') {
        None => None,
        Some(start) => match index_of(t.skip(start + 1), ']') {
            None => None,
            Some(k) => {
                let pt = trim(t.skip(start + 1 + k + 1));
                if !has_suffix(pt, "%"@) {
                    None
                } else {
                    match unsigned_at_most(trim(pt.take(pt.len() - 1)), usize::MAX as nat) {
                        None => None,
                        Some(p) => {
                            let prefix = trim(t.take(start));
                            if !(has_prefix(prefix, "Working..."@) || has_prefix(
                                prefix,
                                "Finished..."@,
                            ) || has_prefix(prefix, "Checking..."@)) {
                                None
                            } else {
                                Some(
                                    (
                                        if p < 100 {
                                            p as usize
                                        } else {
                                            100usize
                                        },
                                        if has_prefix(prefix, "Finished..."@) {
                                            "lint finished"@
                                        } else {
                                            "running lint checks"@
                                        },
                                    ),
                                )
                            }
                        },
                    }
                }
            },
        },
    }
}

/// Reads a progress line of `codelinter` (see `lint_progress`).
pub fn parse_lint_progress(line: &str) -> (r: Option<(usize, String)>)
    ensures
        match lint_progress(line@) {
            Some((p, m)) => r matches Some((p2, m2)) && p2 == p && m2@ == m,
            None => r is None,
        },
{
    let trimmed = trim_str(line);
    let n = trimmed.unicode_len();
    let start = match find_char(trimmed, '[') {
        Some(i) => i,
        None => return None,
    };
    proof {
        crate::text::lemma_index_of_bounds(trimmed@, '[');
    }
    let after = trimmed.substring_char(start + 1, n);
    assert(after@ =~= trimmed@.skip(start + 1));
    let k = match find_char(after, ']') {
        Some(k) => k,
        None => return None,
    };
    proof {
        crate::text::lemma_index_of_bounds(after@, ']');
    }
    let bar_end = start + 1 + k;
    let rest = trimmed.substring_char(bar_end + 1, n);
    assert(rest@ =~= trimmed@.skip(bar_end + 1));
    let percent_text = trim_str(rest);
    let digits = match strip_suffix(percent_text, "%") {
        Some(d) => d,
        None => return None,
    };
    proof {
        reveal_strlit("%");
    }
    let percent = match parse_usize(trim_str(digits)) {
        Some(p) => p,
        None => return None,
    };
    let head = trimmed.substring_char(0, start);
    assert(head@ =~= trimmed@.take(start as int));
    let prefix = trim_str(head);
    if !starts_with(prefix, "Working...") && !starts_with(prefix, "Finished...") && !starts_with(
        prefix,
        "Checking...",
    ) {
        return None;
    }
    let message = if starts_with(prefix, "Finished...") {
        owned("lint finished")
    } else {
        owned("running lint checks")
    };
    let capped = if percent < 100 {
        percent
    } else {
        100
    };
    Some((capped, message))
}

/// The closing line of a check that found nothing.
pub open spec fn is_info_line(line: Seq<char>) -> bool {
    line == "No defects found in your code."@
}

/// Whether a line is the closing line of a check that found nothing.
pub fn is_lint_info_line(line: &str) -> (b: bool)
    ensures
        b == is_info_line(line@),
{
    str_eq(line, "No defects found in your code.")
}

/// The configuration file that a line of `codelinter` output names: the
/// text between `The configuration file ` and ` in the project is in use.`,
/// trimmed.
pub open spec fn lint_config_path(line: Seq<char>) -> Option<Seq<char>> {
    let p = "The configuration file "@;
    let q = " in the project is in use."@;
    if has_prefix(line, p) && has_suffix(line.skip(p.len() as int), q) {
        let rest = line.skip(p.len() as int);
        Some(trim(rest.take(rest.len() - q.len())))
    } else {
        None
    }
}

/// Reads the configuration file from a line of `codelinter` output.
pub fn parse_lint_config_path(line: &str) -> (r: Option<&str>)
    ensures
        match lint_config_path(line@) {
            Some(p) => r matches Some(q) && q@ == p,
            None => r is None,
        },
{
    let rest = match strip_prefix(line, "The configuration file ") {
        Some(r) => r,
        None => return None,
    };
    let path = match strip_suffix(rest, " in the project is in use.") {
        Some(p) => p,
        None => return None,
    };
    Some(trim_str(path))
}

/// The status line that a line of `codelinter` output stands for: the active
/// product, or the configuration file in use, both as `Using`.
pub open spec fn lint_status(line: Seq<char>) -> Option<(Seq<char>, Seq<char>)> {
    let t = trim(line);
    let p = "Currently active product:"@;
    if has_prefix(t, p) && trim(t.skip(p.len() as int)).len() > 0 {
        Some(("Using"@, "product "@ + trim(t.skip(p.len() as int))))
    } else {
        match lint_config_path(t) {
            Some(path) => Some(("Using"@, "config "@ + path)),
            None => None,
        }
    }
}

/// Turns a line of `codelinter` output into a status line, if it is one.
pub fn parse_lint_status_line(line: &str) -> (r: Option<(&'static str, String)>)
    ensures
        match lint_status(line@) {
            Some((v, d)) => r matches Some((v2, d2)) && v2@ == v && d2@ == d,
            None => r is None,
        },
{
    let trimmed = trim_str(line);
    if let Some(product) = strip_prefix(trimmed, "Currently active product:") {
        let product = trim_str(product);
        if product.unicode_len() != 0 {
            return Some(("Using", concat2("product ", product)));
        }
    }
    if let Some(path) = parse_lint_config_path(trimmed) {
        return Some(("Using", concat2("config ", path)));
    }
    None
}

/// Classifies a line by the warning and error prefixes of `codelinter`.
fn parse_lint_log_type(line: &str) -> (r: Option<(LogType, String)>)
    ensures
        match log_type_of(line@, lint_log_prefixes()) {
            Some((k, c)) => r matches Some((k2, c2)) && k2 == k && c2@ == c,
            None => r is None,
        },
{
    let warnings: [&str; 3] = ["warning:", "Warning:", "WARN:"];
    let errors: [&str; 3] = ["error:", "Error:", "ERROR:"];
    let table: [(LogType, &[&str]); 2] = [
        (LogType::Warning, warnings.as_slice()),
        (LogType::Error, errors.as_slice()),
    ];
    let t = table.as_slice();
    assert(table_view(t@) =~= lint_log_prefixes()) by {
        assert(strs_view(t@[0].1@) =~= lint_log_prefixes()[0].1);
        assert(strs_view(t@[1].1@) =~= lint_log_prefixes()[1].1);
    }
    parse_log_type(line, t)
}

/// How one line of `codelinter` output is handled, given the kind of the
/// diagnostic block it may continue (`last`), the verbosity, quiet mode and
/// whether a status bar is shown; the result is the new block kind and what
/// is printed. The line's escape sequences are removed first (see
/// `lint_stripped_line`).
pub open spec fn lint_line(
    last: Option<LogType>,
    raw: Seq<char>,
    verbose: u8,
    quiet: bool,
    has_bar: bool,
) -> (Option<LogType>, EmitView) {
    lint_stripped_line(last, raw, ansi_stripped(raw), verbose, quiet, has_bar)
}

/// How line `raw` of `codelinter` output is handled, given `stripped`, the
/// line without its escape sequences.
///
/// The line is sanitised: `stripped` without line breaks, trimmed. From
/// verbosity 2 on, every non-blank sanitised line is printed as it is. In
/// quiet mode nothing is printed. Else the sanitised line: a progress line
/// moves the bar (when there is one); a status line is shown as such; the
/// closing "no defects" line is left out; a warning or error is printed as
/// `warning: ...` or `error: ...` and opens a block; any other line is
/// printed, and ends the block unless `raw` is indented within one.
pub open spec fn lint_stripped_line(
    last: Option<LogType>,
    raw: Seq<char>,
    stripped: Seq<char>,
    verbose: u8,
    quiet: bool,
    has_bar: bool,
) -> (Option<LogType>, EmitView) {
    let cleaned = trim(without_line_breaks(stripped));
    if verbose >= 2 {
        (last, if cleaned.len() == 0 { EmitView::Nothing } else { EmitView::Direct(cleaned) })
    } else if quiet || cleaned.len() == 0 {
        (last, EmitView::Nothing)
    } else {
        match lint_progress(cleaned) {
            Some((p, m)) => (last, if has_bar { EmitView::Progress(p, m) } else { EmitView::Nothing }),
            None => match lint_status(cleaned) {
                Some((v, d)) => (last, EmitView::Status(v, d)),
                None => if is_info_line(cleaned) {
                    (last, EmitView::Nothing)
                } else {
                    match log_type_of(cleaned, lint_log_prefixes()) {
                        Some((LogType::Warning, c)) => (
                            Some(LogType::Warning),
                            EmitView::Direct("warning: "@ + c),
                        ),
                        Some((LogType::Error, c)) => (
                            Some(LogType::Error),
                            EmitView::Direct("error: "@ + c),
                        ),
                        None => if raw.len() > 0 && is_ws(raw[0]) && last is Some {
                            (last, EmitView::Direct(cleaned))
                        } else {
                            (None, EmitView::Direct(cleaned))
                        },
                    }
                },
            },
        }
    }
}

/// Handles one line of `codelinter` output (see `lint_line`).
pub fn process_lint_line(
    last_log_type: Option<LogType>,
    raw_line: &str,
    verbose: u8,
    quiet: bool,
    has_bar: bool,
) -> (r: (Option<LogType>, Emit))
    ensures
        (r.0, r.1@) == lint_line(last_log_type, raw_line@, verbose, quiet, has_bar),
{
    let stripped = strip_ansi(raw_line);
    process_stripped_lint_line(last_log_type, raw_line, stripped.as_str(), verbose, quiet, has_bar)
}

/// Handles line `raw_line` of `codelinter` output, given the line without
/// its escape sequences (see `lint_stripped_line`).
pub fn process_stripped_lint_line(
    last_log_type: Option<LogType>,
    raw_line: &str,
    stripped: &str,
    verbose: u8,
    quiet: bool,
    has_bar: bool,
) -> (r: (Option<LogType>, Emit))
    ensures
        (r.0, r.1@) == lint_stripped_line(last_log_type, raw_line@, stripped@, verbose, quiet, has_bar),
{
    let cleaned = owned(trim_str(remove_line_breaks(stripped).as_str()));
    if verbose >= 2 {
        if cleaned.as_str().unicode_len() == 0 {
            return (last_log_type, Emit::Nothing);
        }
        return (last_log_type, Emit::Direct(cleaned));
    }
    if quiet || cleaned.as_str().unicode_len() == 0 {
        return (last_log_type, Emit::Nothing);
    }
    if let Some((percent, message)) = parse_lint_progress(cleaned.as_str()) {
        if has_bar {
            return (last_log_type, Emit::Progress(percent, message));
        }
        return (last_log_type, Emit::Nothing);
    }
    if let Some((verb, description)) = parse_lint_status_line(cleaned.as_str()) {
        return (last_log_type, Emit::Status(owned(verb), description));
    }
    if is_lint_info_line(cleaned.as_str()) {
        return (last_log_type, Emit::Nothing);
    }
    match parse_lint_log_type(cleaned.as_str()) {
        Some((LogType::Warning, content)) => (
            Some(LogType::Warning),
            Emit::Direct(concat2("warning: ", content.as_str())),
        ),
        Some((LogType::Error, content)) => (
            Some(LogType::Error),
            Emit::Direct(concat2("error: ", content.as_str())),
        ),
        None => {
            let indented = raw_line.unicode_len() > 0 && is_whitespace(raw_line.get_char(0));
            if indented && last_log_type.is_some() {
                (last_log_type, Emit::Direct(cleaned))
            } else {
                (None, Emit::Direct(cleaned))
            }
        },
    }
}

/// The arguments given to `node` to run `codelinter`: the script, `--fix`
/// when fixing, `-p <product>` for a product, and the path to check unless
/// it is empty or `.`.
pub open spec fn codelinter_argv(
    script: Seq<char>,
    fix: bool,
    product: Option<Seq<char>>,
    check_path: Seq<char>,
) -> Seq<Seq<char>> {
    seq![script] + (if fix { seq!["--fix"@] } else { Seq::empty() }) + (match product {
        Some(p) => seq!["-p"@, p],
        None => Seq::empty(),
    }) + (if check_path.len() != 0 && check_path != "."@ {
        seq![check_path]
    } else {
        Seq::empty()
    })
}

/// The strings of a vector of strings, as plain values.
pub open spec fn strings_view(v: Seq<String>) -> Seq<Seq<char>> {
    v.map_values(|s: String| s@)
}

/// Builds the arguments that run `codelinter` (see `codelinter_argv`).
pub fn codelinter_args(script: &str, fix: bool, product: Option<&str>, check_path: &str) -> (r: Vec<
    String,
>)
    ensures
        strings_view(r@) == codelinter_argv(script@, fix, opt_str_view(product), check_path@),
{
    let mut args: Vec<String> = Vec::new();
    args.push(owned(script));
    if fix {
        args.push(owned("--fix"));
    }
    if let Some(p) = product {
        args.push(owned("-p"));
        args.push(owned(p));
    }
    if check_path.unicode_len() != 0 && !str_eq(check_path, ".") {
        args.push(owned(check_path));
    }
    assert(strings_view(args@) =~= codelinter_argv(
        script@,
        fix,
        opt_str_view(product),
        check_path@,
    ));
    args
}

/// The path that `heco lint` checks: the working directory relative to the
/// project root, or `.` for the root itself or outside the project.
pub open spec fn check_path_of(relative: Option<Seq<char>>) -> Seq<char> {
    match relative {
        Some(r) => if r.len() == 0 || r == "."@ {
            "."@
        } else {
            r
        },
        None => "."@,
    }
}

/// Chooses the path to check from the working directory relative to the
/// project root (`None` when it lies outside the project).
pub fn lint_check_path(relative: Option<&str>) -> (r: String)
    ensures
        r@ == check_path_of(opt_str_view(relative)),
{
    match relative {
        Some(r) => if r.unicode_len() == 0 || str_eq(r, ".") {
            owned(".")
        } else {
            owned(r)
        },
        None => owned("."),
    }
}


/// The progress that a `codelinter` progress line reports is at most 100.
pub proof fn lemma_lint_progress_capped(line: Seq<char>)
    ensures
        lint_progress(line) matches Some((p, _)) ==> p <= 100,
{
}

/// In quiet mode, below verbosity 2, `codelinter` output prints nothing and
/// leaves the diagnostic block as it was; a progress line only ever moves a
/// bar that is shown.
pub proof fn lemma_lint_quiet(last: Option<LogType>, raw: Seq<char>, verbose: u8, has_bar: bool, quiet: bool)
    ensures
        ({
            let (next, out) = lint_line(last, raw, verbose, quiet, has_bar);
            &&& quiet && verbose < 2 ==> next == last && out is Nothing
            &&& out is Progress ==> has_bar
            &&& !(out is BarLine)
        }),
{
}


/// The position of the first of `ps` that the project's products lack.
pub open spec fn first_unknown(ps: Seq<Seq<char>>, products: Seq<Seq<char>>) -> Option<int>
    decreases ps.len(),
{
    if ps.len() == 0 {
        None
    } else if !products.contains(ps[0]) {
        Some(0)
    } else {
        match first_unknown(ps.drop_first(), products) {
            Some(i) => Some(i + 1),
            None => None,
        }
    }
}

/// The runs of `codelinter` that `heco lint` makes, each for a product or
/// for none, and the error it ends with. Without products: one run for no
/// product. With products: one run for each product in turn up to the
/// first that the project lacks, which is then refused.
pub open spec fn lint_runs(products: Option<Seq<Seq<char>>>, project_products: Seq<Seq<char>>) -> (
    Seq<Option<Seq<char>>>,
    Option<ProjectErrorView>,
) {
    match products {
        None => (seq![None], None),
        Some(ps) => match first_unknown(ps, project_products) {
            Some(i) => (
                ps.take(i).map_values(|p: Seq<char>| Some(p)),
                Some(ProjectErrorView::UnknownProduct(ps[i])),
            ),
            None => (ps.map_values(|p: Seq<char>| Some(p)), None),
        },
    }
}

/// Runs as plain values.
pub open spec fn runs_view(v: Seq<Option<String>>) -> Seq<Option<Seq<char>>> {
    v.map_values(|o: Option<String>| crate::text::opt_string_view(o))
}

/// Plans the runs of `heco lint` (see `lint_runs`).
pub fn lint_plan(products: &Option<Vec<String>>, project: &Project) -> (r: (
    Vec<Option<String>>,
    Option<ProjectError>,
))
    ensures
        runs_view(r.0@) == lint_runs(
            match products {
                Some(v) => Some(strings_view(v@)),
                None => None,
            },
            project@.products,
        ).0,
        match lint_runs(
            match products {
                Some(v) => Some(strings_view(v@)),
                None => None,
            },
            project@.products,
        ).1 {
            Some(e) => r.1 matches Some(f) && f@ == e,
            None => r.1 is None,
        },
{
    let mut runs: Vec<Option<String>> = Vec::new();
    let ps = match products {
        None => {
            runs.push(None);
            assert(runs_view(runs@) =~= seq![None::<Seq<char>>]);
            return (runs, None);
        },
        Some(ps) => ps,
    };
    let ghost pv = strings_view(ps@);
    let ghost some = |p: Seq<char>| Some(p);
    let mut i: usize = 0;
    assert(pv.skip(0) =~= pv);
    while i < ps.len()
        invariant
            i <= ps@.len(),
            products matches Some(v) && v@ == ps@,
            pv == strings_view(ps@),
            pv.len() == ps@.len(),
            some == (|p: Seq<char>| Some(p)),
            runs_view(runs@) == pv.take(i as int).map_values(some),
            forall|k: int| 0 <= k < i ==> project@.products.contains(#[trigger] pv[k]),
            first_unknown(pv, project@.products) == (match first_unknown(pv.skip(i as int), project@.products) {
                Some(k) => Some(k + i),
                None => None::<int>,
            }),
        decreases ps.len() - i,
    {
        assert(pv.skip(i as int)[0] == pv[i as int]);
        match project.validate_product(ps[i].as_str()) {
            Err(e) => {
                assert(first_unknown(pv.skip(i as int), project@.products) == Some(0int));
                assert(first_unknown(pv, project@.products) == Some(i as int));
                assert(e@ == ProjectErrorView::UnknownProduct(pv[i as int]));
                return (runs, Some(e));
            },
            Ok(()) => {},
        }
        let ghost before = runs_view(runs@);
        runs.push(Some(owned(ps[i].as_str())));
        assert(runs_view(runs@) =~= before.push(Some(pv[i as int])));
        assert(pv.take(i + 1).map_values(some) =~= pv.take(i as int).map_values(some).push(Some(pv[i as int])));
        assert(pv.skip(i as int).drop_first() =~= pv.skip(i + 1));
        i = i + 1;
    }
    assert(pv.skip(i as int) =~= Seq::<Seq<char>>::empty());
    assert(pv.take(i as int) =~= pv);
    (runs, None)
}


/// A `codelinter` line printed after the label `label`.
pub open spec fn labelled_direct(out: EmitView, label: Seq<char>) -> bool {
    out matches EmitView::Direct(t) && has_prefix(t, label)
}

/// A diagnostic of `codelinter` is printed with the label of its kind: a
/// line that opens an error block is printed as `error: ...`, one that
/// opens a warning block as `warning: ...`; and a line that the prefix
/// table reads as an error or a warning (and that is no progress, status or
/// closing line) is printed with that label and the text after the prefix.
pub proof fn lemma_lint_labels(
    last: Option<LogType>,
    raw: Seq<char>,
    stripped: Seq<char>,
    verbose: u8,
    has_bar: bool,
)
    requires
        verbose < 2,
    ensures
        ({
            let (next, out) = lint_stripped_line(last, raw, stripped, verbose, false, has_bar);
            let cleaned = trim(without_line_breaks(stripped));
            &&& next == Some(LogType::Error) && last != Some(LogType::Error) ==> labelled_direct(
                out,
                "error: "@,
            )
            &&& next == Some(LogType::Warning) && last != Some(LogType::Warning) ==> labelled_direct(
                out,
                "warning: "@,
            )
            &&& (cleaned.len() > 0 && lint_progress(cleaned) is None && lint_status(cleaned) is None
                && !is_info_line(cleaned)) ==> match log_type_of(cleaned, lint_log_prefixes()) {
                Some((LogType::Error, c)) => next == Some(LogType::Error) && out
                    == EmitView::Direct("error: "@ + c),
                Some((LogType::Warning, c)) => next == Some(LogType::Warning) && out
                    == EmitView::Direct("warning: "@ + c),
                None => true,
            }
        }),
{
    let cleaned = trim(without_line_breaks(stripped));
    reveal_strlit("error: ");
    reveal_strlit("warning: ");
    match log_type_of(cleaned, lint_log_prefixes()) {
        Some((_, c)) => {
            assert(("error: "@ + c).take(7) =~= "error: "@);
            assert(("warning: "@ + c).take(9) =~= "warning: "@);
        },
        None => {},
    }
}

} // verus!

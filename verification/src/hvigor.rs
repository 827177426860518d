//! Handling of `hvigor` output and the command lines given to `hvigor`.
use crate::build_args::{module_spec, vec_view, BuildArgs, BuildArgsView};
use crate::emit::{Emit, EmitView};
use crate::project::{
    first_module, lemma_first_module, module_names, ModuleType, ModuleView, Project, ProjectError,
    ProjectErrorView, ProjectView,
};
use crate::output_parser::{log_type_of, parse_log_type, table_view, LogType};
use crate::paths::{paths_equal, same_path, Platform};
use crate::style::{
    ansi_stripped, bold_red, bold_yellow, paint_bold_red, paint_bold_yellow, paint_red, red, strip_ansi,
};
use crate::text::{
    concat2, concat3, has_prefix, opt_string_view, owned, str_eq, remove_line_breaks, starts_with, strip_all_prefix, strip_prefix,
    trim, trim_start, trim_start_matches, trim_start_str, trim_str, without_line_breaks,
};
use vstd::prelude::*;

verus! {

/// The warning and error prefixes of `hvigor` output, in the order in which
/// they are tried.
pub open spec fn hvigor_log_prefixes() -> Seq<(LogType, Seq<Seq<char>>)> {
    seq![
        (
            LogType::Warning,
            seq![
                "WARN: WARN: ArkTS:WARN File:"@,
                "WARN: ArkTS:WARN File:"@,
                "WARN: ArkTS:WARN"@,
                "ArkTS:WARN File:"@,
                "Warning:"@,
                "WARN:"@,
                "ArkTS:WARN"@,
            ],
        ),
        (LogType::Error, seq!["ERROR: ArkTS:ERROR"@, "ERROR:"@]),
    ]
}

/// Lines that start with one of these are left out.
pub open spec fn skipped_prefixes() -> Seq<Seq<char>> {
    seq!["BUILD SUCCESSFUL"@]
}

/// Prefixes of task status lines, removed before a status line is shown.
pub open spec fn trimmed_prefixes() -> Seq<Seq<char>> {
    seq!["Finished "@, "UP-TO-DATE "@]
}

/// A prefix that repeats the kind of a warning and is removed from it.
pub open spec fn warning_trimmed_prefixes() -> Seq<Seq<char>> {
    seq!["Warning:"@]
}

/// The prefix of a block header line of `hvigor`.
pub open spec fn block_header() -> Seq<char> {
    "> hvigor "@
}

/// `s` starts with one of `ps`.
pub open spec fn any_prefix(s: Seq<char>, ps: Seq<Seq<char>>) -> bool {
    exists|i: int| 0 <= i < ps.len() && has_prefix(s, #[trigger] ps[i])
}

/// What is left of `s` after the first of `ps` that it starts with.
pub open spec fn first_prefix_rest(s: Seq<char>, ps: Seq<Seq<char>>) -> Option<Seq<char>>
    decreases ps.len(),
{
    if ps.len() == 0 {
        None
    } else if has_prefix(s, ps[0]) {
        Some(s.skip(ps[0].len() as int))
    } else {
        first_prefix_rest(s, ps.drop_first())
    }
}

/// The prefixes of a slice of strings, as plain values.
pub open spec fn strs_view(ps: Seq<&str>) -> Seq<Seq<char>> {
    ps.map_values(|p: &str| p@)
}

/// Whether `content` starts with one of `prefixes`.
pub fn starts_with_any(content: &str, prefixes: &[&str]) -> (b: bool)
    ensures
        b == any_prefix(content@, strs_view(prefixes@)),
{
    let ghost ps = strs_view(prefixes@);
    let mut i: usize = 0;
    while i < prefixes.len()
        invariant
            i <= prefixes@.len(),
            ps == strs_view(prefixes@),
            forall|k: int| 0 <= k < i ==> !has_prefix(content@, #[trigger] ps[k]),
        decreases prefixes.len() - i,
    {
        if starts_with(content, prefixes[i]) {
            assert(has_prefix(content@, ps[i as int]));
            return true;
        }
        i = i + 1;
    }
    false
}

/// The rest of `content` after the first of `prefixes` that it starts with.
pub fn trim_known_prefix_from_set<'a>(content: &'a str, prefixes: &[&str]) -> (r: Option<&'a str>)
    ensures
        match first_prefix_rest(content@, strs_view(prefixes@)) {
            Some(t) => r matches Some(u) && u@ == t,
            None => r is None,
        },
{
    let ghost ps = strs_view(prefixes@);
    let mut i: usize = 0;
    assert(ps.skip(0) =~= ps);
    while i < prefixes.len()
        invariant
            i <= prefixes@.len(),
            ps == strs_view(prefixes@),
            first_prefix_rest(content@, ps) == first_prefix_rest(content@, ps.skip(i as int)),
        decreases prefixes.len() - i,
    {
        assert(ps.skip(i as int)[0] == prefixes@[i as int]@);
        if let Some(rest) = strip_prefix(content, prefixes[i]) {
            return Some(rest);
        }
        assert(ps.skip(i as int).drop_first() =~= ps.skip(i + 1));
        i = i + 1;
    }
    assert(ps.skip(i as int) =~= Seq::<Seq<char>>::empty());
    None
}

/// `hvigor` output lines that are left out: the build summary.
pub open spec fn skips_line(content: Seq<char>) -> bool {
    any_prefix(content, skipped_prefixes())
}

/// A line that reports the state of a task.
pub open spec fn is_status_line(content: Seq<char>) -> bool {
    any_prefix(content, trimmed_prefixes()) || has_prefix(content, ":"@)
}

/// A line that goes on with the warning or error before it.
pub open spec fn continues_block(content: Seq<char>, last: Option<LogType>) -> bool {
    last is Some && trim(content).len() > 0 && !is_status_line(trim(content))
}

/// `s` without the first of `ps` that it starts with, if any.
pub open spec fn without_first_prefix(s: Seq<char>, ps: Seq<Seq<char>>) -> Seq<char> {
    match first_prefix_rest(s, ps) {
        Some(t) => t,
        None => s,
    }
}

/// A task status line as shown: without its status word, trimmed.
pub open spec fn normalized_content(content: Seq<char>) -> Seq<char> {
    trim(without_first_prefix(content, trimmed_prefixes()))
}

/// The text of a warning as shown: without a repeated `Warning:`, trimmed.
pub open spec fn normalized_warning(content: Seq<char>) -> Seq<char> {
    match first_prefix_rest(trim(content), warning_trimmed_prefixes()) {
        Some(t) => trim(t),
        None => trim(content),
    }
}

/// A warning as shown: a bold yellow `warning`, a colon and the text.
pub open spec fn warning_line(content: Seq<char>) -> Seq<char> {
    bold_yellow("warning"@) + ": "@ + normalized_warning(content)
}

/// An error as shown: a bold red `error`, a colon and the text.
pub open spec fn error_line(content: Seq<char>) -> Seq<char> {
    bold_red("error"@) + ": "@ + content
}

/// Whether a line of `hvigor` output is the build summary that is left out.
pub fn should_skip_line(content: &str) -> (b: bool)
    ensures
        b == skips_line(content@),
{
    let prefixes: [&str; 1] = ["BUILD SUCCESSFUL"];
    assert(strs_view(prefixes@) =~= skipped_prefixes());
    starts_with_any(content, prefixes.as_slice())
}

/// Whether a line reports the state of a task (`Finished ...`,
/// `UP-TO-DATE ...` or `:module:task...`).
pub fn looks_like_hvigor_status_line(content: &str) -> (b: bool)
    ensures
        b == is_status_line(content@),
{
    let prefixes: [&str; 2] = ["Finished ", "UP-TO-DATE "];
    assert(strs_view(prefixes@) =~= trimmed_prefixes());
    starts_with_any(content, prefixes.as_slice()) || starts_with(content, ":")
}

/// Whether a line continues the warning or error block before it: there is
/// such a block, and the line is neither blank nor a task status line.
pub fn should_continue_log_block(content: &str, last_log_type: Option<LogType>) -> (b: bool)
    ensures
        b == continues_block(content@, last_log_type),
{
    if last_log_type.is_none() {
        return false;
    }
    let trimmed = trim_str(content);
    trimmed.unicode_len() != 0 && !looks_like_hvigor_status_line(trimmed)
}

/// A task status line without its `Finished ` or `UP-TO-DATE ` word, trimmed.
pub fn normalize_content_line(content: &str) -> (r: String)
    ensures
        r@ == normalized_content(content@),
{
    let prefixes: [&str; 2] = ["Finished ", "UP-TO-DATE "];
    assert(strs_view(prefixes@) =~= trimmed_prefixes());
    let rest = match trim_known_prefix_from_set(content, prefixes.as_slice()) {
        Some(r) => r,
        None => content,
    };
    owned(trim_str(rest))
}

/// The text of a warning without a leading `Warning:`, trimmed.
pub fn normalize_warning_content(content: &str) -> (r: String)
    ensures
        r@ == normalized_warning(content@),
{
    let prefixes: [&str; 1] = ["Warning:"];
    assert(strs_view(prefixes@) =~= warning_trimmed_prefixes());
    match trim_known_prefix_from_set(trim_str(content), prefixes.as_slice()) {
        Some(r) => owned(trim_str(r)),
        None => owned(trim_str(content)),
    }
}

/// A warning line: `warning` in bold yellow, `: ` and the normalised text.
pub fn format_warning(content: &str) -> (r: String)
    ensures
        r@ == warning_line(content@),
{
    let label = paint_bold_yellow("warning");
    let text = normalize_warning_content(content);
    concat3(label.as_str(), ": ", text.as_str())
}

/// An error line: `error` in bold red, `: ` and the text.
pub fn format_error(content: &str) -> (r: String)
    ensures
        r@ == error_line(content@),
{
    let label = paint_bold_red("error");
    concat3(label.as_str(), ": ", content)
}

/// How one line of `hvigor` output is handled, given the kind of the
/// diagnostic block it may continue (`last`), the verbosity, whether a status
/// bar is shown and the verb of the running step. The result is the new
/// block kind and what is printed. The line's escape sequences are removed
/// first (see `hvigor_stripped_line`).
pub open spec fn hvigor_line(
    last: Option<LogType>,
    raw: Seq<char>,
    verbose: u8,
    has_bar: bool,
    verb: Seq<char>,
) -> (Option<LogType>, EmitView) {
    hvigor_stripped_line(last, ansi_stripped(raw), verbose, has_bar, verb)
}

/// How one line of `hvigor` output is handled once its escape sequences are
/// removed (`p0`).
///
/// From verbosity 2 on, every non-blank line is printed as it is, without
/// line breaks. Without a status bar nothing is printed. Else: a
/// `> hvigor ` block header loses that prefix and ends the block; the build
/// summary is left out; a warning or error line is printed in its styled
/// form and opens a block; a line that continues a block is printed
/// trimmed; any other line is a status line.
pub open spec fn hvigor_stripped_line(
    last: Option<LogType>,
    p0: Seq<char>,
    verbose: u8,
    has_bar: bool,
    verb: Seq<char>,
) -> (Option<LogType>, EmitView) {
    if verbose >= 2 {
        let t = trim(without_line_breaks(p0));
        (last, if t.len() == 0 { EmitView::Nothing } else { EmitView::Direct(t) })
    } else if !has_bar {
        (last, EmitView::Nothing)
    } else {
        if trim(p0).len() == 0 {
            (last, EmitView::Nothing)
        } else {
            let header = has_prefix(trim(p0), block_header());
            let p = if header {
                trim_start(strip_all_prefix(p0, block_header()))
            } else {
                p0
            };
            let state = if header {
                None
            } else {
                last
            };
            if skips_line(p) {
                (state, EmitView::Nothing)
            } else {
                match log_type_of(trim(p), hvigor_log_prefixes()) {
                    Some((LogType::Warning, c)) => (
                        Some(LogType::Warning),
                        EmitView::BarLine(warning_line(c)),
                    ),
                    Some((LogType::Error, c)) => (
                        Some(LogType::Error),
                        EmitView::BarLine(error_line(c)),
                    ),
                    None => if continues_block(p, state) {
                        (state, EmitView::BarLine(trim(p)))
                    } else {
                        (None, EmitView::Status(verb, normalized_content(p)))
                    },
                }
            }
        }
    }
}

/// The diagnostic block of `hvigor` output: a warning or error opens a block
/// of its kind; a status line closes it; in verbose mode or without a bar
/// the block stays as it was; a skipped or blank line leaves it alone
/// (unless it was a block header).
pub proof fn lemma_hvigor_block(
    last: Option<LogType>,
    raw: Seq<char>,
    verbose: u8,
    has_bar: bool,
    verb: Seq<char>,
)
    ensures
        ({
            let (next, out) = hvigor_line(last, raw, verbose, has_bar, verb);
            &&& (verbose >= 2 || !has_bar) ==> next == last
            &&& !has_bar && verbose < 2 ==> out is Nothing
            &&& out is Status ==> next is None && out->Status_0 == verb
            &&& out is Direct ==> verbose >= 2
            &&& out is Progress ==> false
        }),
{
}

/// Classifies a line by the warning and error prefixes of `hvigor`.
fn parse_hvigor_log_type(line: &str) -> (r: Option<(LogType, String)>)
    ensures
        match log_type_of(line@, hvigor_log_prefixes()) {
            Some((k, c)) => r matches Some((k2, c2)) && k2 == k && c2@ == c,
            None => r is None,
        },
{
    let warnings: [&str; 7] = [
        "WARN: WARN: ArkTS:WARN File:",
        "WARN: ArkTS:WARN File:",
        "WARN: ArkTS:WARN",
        "ArkTS:WARN File:",
        "Warning:",
        "WARN:",
        "ArkTS:WARN",
    ];
    let errors: [&str; 2] = ["ERROR: ArkTS:ERROR", "ERROR:"];
    let table: [(LogType, &[&str]); 2] = [
        (LogType::Warning, warnings.as_slice()),
        (LogType::Error, errors.as_slice()),
    ];
    let t = table.as_slice();
    assert(table_view(t@) =~= hvigor_log_prefixes()) by {
        assert(strs_view(t@[0].1@) =~= hvigor_log_prefixes()[0].1);
        assert(strs_view(t@[1].1@) =~= hvigor_log_prefixes()[1].1);
    }
    parse_log_type(line, t)
}

/// Handles one line of `hvigor` output (see `hvigor_line`): returns the new
/// kind of the open diagnostic block and what to print.
pub fn process_hvigor_line(
    last_log_type: Option<LogType>,
    raw_line: &str,
    verbose: u8,
    has_bar: bool,
    verb: &str,
) -> (r: (Option<LogType>, Emit))
    ensures
        (r.0, r.1@) == hvigor_line(last_log_type, raw_line@, verbose, has_bar, verb@),
{
    if verbose < 2 && !has_bar {
        return (last_log_type, Emit::Nothing);
    }
    let stripped = strip_ansi(raw_line);
    process_stripped_hvigor_line(last_log_type, stripped.as_str(), verbose, has_bar, verb)
}

/// Handles one line of `hvigor` output whose escape sequences are already
/// removed (see `hvigor_stripped_line`).
pub fn process_stripped_hvigor_line(
    last_log_type: Option<LogType>,
    stripped: &str,
    verbose: u8,
    has_bar: bool,
    verb: &str,
) -> (r: (Option<LogType>, Emit))
    ensures
        (r.0, r.1@) == hvigor_stripped_line(last_log_type, stripped@, verbose, has_bar, verb@),
{
    if verbose >= 2 {
        let cleaned = remove_line_breaks(stripped);
        let trimmed = trim_str(cleaned.as_str());
        if trimmed.unicode_len() == 0 {
            return (last_log_type, Emit::Nothing);
        }
        return (last_log_type, Emit::Direct(owned(trimmed)));
    }
    if !has_bar {
        return (last_log_type, Emit::Nothing);
    }
    if trim_str(stripped).unicode_len() == 0 {
        return (last_log_type, Emit::Nothing);
    }
    let mut last = last_log_type;
    let is_block_header = starts_with(trim_str(stripped), "> hvigor ");
    let processed: String = if is_block_header {
        last = None;
        owned(trim_start_str(trim_start_matches(stripped, "> hvigor ")))
    } else {
        owned(stripped)
    };
    if should_skip_line(processed.as_str()) {
        return (last, Emit::Nothing);
    }
    match parse_hvigor_log_type(trim_str(processed.as_str())) {
        Some((LogType::Warning, content)) => (
            Some(LogType::Warning),
            Emit::BarLine(format_warning(content.as_str())),
        ),
        Some((LogType::Error, content)) => (
            Some(LogType::Error),
            Emit::BarLine(format_error(content.as_str())),
        ),
        None => {
            if should_continue_log_block(processed.as_str(), last) {
                (last, Emit::BarLine(owned(trim_str(processed.as_str()))))
            } else {
                (None, Emit::Status(owned(verb), normalize_content_line(processed.as_str())))
            }
        },
    }
}

/// Why no `hvigor` command line can be built.
#[derive(Debug, PartialEq, Eq)]
pub enum BuildError {
    /// More than one product was given together with modules.
    OneProductWithModules,
    /// The project refuses a product or a target.
    Project(ProjectError),
    /// The project has no module of this name; the names of its modules.
    ModuleNotFound(String, Vec<String>),
    /// The project was not read from the directory being built.
    RootMismatch,
}

/// `BuildError` as plain values.
pub enum BuildErrorView {
    OneProductWithModules,
    Project(ProjectErrorView),
    ModuleNotFound(Seq<char>, Seq<Seq<char>>),
    RootMismatch,
}

impl View for BuildError {
    type V = BuildErrorView;

    open spec fn view(&self) -> BuildErrorView {
        match self {
            BuildError::OneProductWithModules => BuildErrorView::OneProductWithModules,
            BuildError::Project(e) => BuildErrorView::Project(e@),
            BuildError::ModuleNotFound(m, a) => BuildErrorView::ModuleNotFound(m@, vec_view(a@)),
            BuildError::RootMismatch => BuildErrorView::RootMismatch,
        }
    }
}

/// The message of a build error: a refused product or target as the
/// project words it; an unknown module in red with the list of the
/// project's modules, one per indented line.
pub open spec fn build_error_text(e: BuildErrorView) -> Seq<char> {
    match e {
        BuildErrorView::OneProductWithModules => "only one product is allowed when using --modules parameter"@,
        BuildErrorView::Project(p) => crate::project::project_error_text(p),
        BuildErrorView::ModuleNotFound(m, a) => "error: module '"@ + red(m)
            + "' not found in project\n\nAvailable modules:\n  "@ + joined(a, "\n  "@),
        BuildErrorView::RootMismatch => "project root mismatch"@,
    }
}

impl BuildError {
    /// The message shown for the error (see `build_error_text`).
    pub fn message(&self) -> (r: String)
        ensures
            r@ == build_error_text(self@),
    {
        match self {
            BuildError::OneProductWithModules => owned(
                "only one product is allowed when using --modules parameter",
            ),
            BuildError::Project(p) => p.message(),
            BuildError::ModuleNotFound(m, a) => {
                let mut r = concat2("error: module '", paint_red(m.as_str()).as_str());
                r.append("' not found in project\n\nAvailable modules:\n  ");
                r.append(join_strings(a, "\n  ").as_str());
                r
            },
            BuildError::RootMismatch => owned("project root mismatch"),
        }
    }
}

/// The `hvigor` task that assembles a module of kind `t`.
pub open spec fn task_for(t: ModuleType) -> Seq<char> {
    match t {
        ModuleType::Har => "assembleHar"@,
        ModuleType::Shared => "assembleHsp"@,
        _ => "assembleHap"@,
    }
}

/// Some module is of a kind that `pred` accepts.
pub open spec fn has_kind(ms: Seq<ModuleView>, pred: spec_fn(ModuleType) -> bool) -> bool {
    exists|i: int| 0 <= i < ms.len() && pred(#[trigger] ms[i].module_type)
}

/// Kinds built as a HAP.
pub open spec fn is_hap_kind() -> spec_fn(ModuleType) -> bool {
    |t: ModuleType| t == ModuleType::Entry || t == ModuleType::Feature
}

/// Kinds built as a HSP.
pub open spec fn is_hsp_kind() -> spec_fn(ModuleType) -> bool {
    |t: ModuleType| t == ModuleType::Shared
}

/// Kinds built as a HAR.
pub open spec fn is_har_kind() -> spec_fn(ModuleType) -> bool {
    |t: ModuleType| t == ModuleType::Har
}

/// The tasks that build all modules: one per kind present, HAP, HSP, HAR in
/// this order; `assembleHap` for a project without modules.
pub open spec fn all_module_tasks(ms: Seq<ModuleView>) -> Seq<Seq<char>> {
    if ms.len() == 0 {
        seq!["assembleHap"@]
    } else {
        (if has_kind(ms, is_hap_kind()) {
            seq!["assembleHap"@]
        } else {
            Seq::empty()
        }) + (if has_kind(ms, is_hsp_kind()) {
            seq!["assembleHsp"@]
        } else {
            Seq::empty()
        }) + (if has_kind(ms, is_har_kind()) {
            seq!["assembleHar"@]
        } else {
            Seq::empty()
        })
    }
}

/// The tasks that build module `name` (all modules when empty), checking
/// its target if one is given.
pub open spec fn module_tasks(name: Seq<char>, target: Option<Seq<char>>, p: ProjectView) -> Result<
    Seq<Seq<char>>,
    BuildErrorView,
> {
    if name.len() > 0 {
        match first_module(p.modules, name) {
            Some(i) => match target {
                Some(t) => if p.modules[i].targets.contains(t) {
                    Ok(seq![task_for(p.modules[i].module_type)])
                } else {
                    Err(BuildErrorView::Project(ProjectErrorView::UnknownTarget(name, t)))
                },
                None => Ok(seq![task_for(p.modules[i].module_type)]),
            },
            None => Err(BuildErrorView::ModuleNotFound(name, module_names(p.modules))),
        }
    } else {
        Ok(all_module_tasks(p.modules))
    }
}

/// The tasks of several modules in turn; the first failure decides.
pub open spec fn tasks_of_modules(ps: Seq<(Seq<char>, Option<Seq<char>>)>, p: ProjectView) -> Result<
    Seq<Seq<char>>,
    BuildErrorView,
>
    decreases ps.len(),
{
    if ps.len() == 0 {
        Ok(Seq::empty())
    } else {
        match module_tasks(ps[0].0, ps[0].1, p) {
            Err(e) => Err(e),
            Ok(t) => match tasks_of_modules(ps.drop_first(), p) {
                Err(e) => Err(e),
                Ok(rest) => Ok(t + rest),
            },
        }
    }
}

/// The distinct tasks of `all`, in ascending order. Every task is one of
/// `assembleHap` < `assembleHar` < `assembleHsp`.
pub open spec fn sorted_distinct_tasks(all: Seq<Seq<char>>) -> Seq<Seq<char>> {
    (if all.contains("assembleHap"@) {
        seq!["assembleHap"@]
    } else {
        Seq::empty()
    }) + (if all.contains("assembleHar"@) {
        seq!["assembleHar"@]
    } else {
        Seq::empty()
    }) + (if all.contains("assembleHsp"@) {
        seq!["assembleHsp"@]
    } else {
        Seq::empty()
    })
}

/// `parts` joined with `sep` between them.
pub open spec fn joined(parts: Seq<Seq<char>>, sep: Seq<char>) -> Seq<char>
    decreases parts.len(),
{
    if parts.len() == 0 {
        Seq::empty()
    } else if parts.len() == 1 {
        parts[0]
    } else {
        joined(parts.drop_last(), sep) + sep + parts.last()
    }
}

/// `-p product=<p>` for a product, nothing without one.
pub open spec fn product_flag(product: Option<Seq<char>>) -> Seq<Seq<char>> {
    match product {
        Some(x) => seq!["-p"@, "product="@ + x],
        None => Seq::empty(),
    }
}

/// The arguments for the modules: their tasks, `-p module=<names>` when
/// modules are named, and the product flag.
pub open spec fn modules_part(
    modules: Option<Seq<Seq<char>>>,
    product: Option<Seq<char>>,
    p: ProjectView,
) -> Result<Seq<Seq<char>>, BuildErrorView> {
    match modules {
        None => Ok(Seq::empty()),
        Some(ms) => {
            let parsed = ms.map_values(|m: Seq<char>| module_spec(m));
            let tasks = if parsed.len() == 0 {
                module_tasks(Seq::empty(), None, p)
            } else {
                match tasks_of_modules(parsed, p) {
                    Ok(all) => Ok(sorted_distinct_tasks(all) + seq![
                        "-p"@,
                        "module="@ + joined(
                            parsed.map_values(|x: (Seq<char>, Option<Seq<char>>)| x.0),
                            ","@,
                        ),
                    ]),
                    Err(e) => Err(e),
                }
            };
            match tasks {
                Ok(t) => Ok(t + product_flag(product)),
                Err(e) => Err(e),
            }
        },
    }
}

/// The product chosen for the build: the first one given, which the project
/// must have; more than one is refused when modules are given too.
pub open spec fn chosen_product(a: BuildArgsView, p: ProjectView) -> Result<
    Option<Seq<char>>,
    BuildErrorView,
> {
    match a.products {
        Some(ps) => if ps.len() > 0 {
            if a.modules is Some && ps.len() > 1 {
                Err(BuildErrorView::OneProductWithModules)
            } else if !p.products.contains(ps[0]) {
                Err(BuildErrorView::Project(ProjectErrorView::UnknownProduct(ps[0])))
            } else {
                Ok(Some(ps[0]))
            }
        } else {
            Ok(None)
        },
        None => Ok(None),
    }
}

/// The `hvigor` arguments of a build: `assembleApp` with the product flag
/// when only products are given; the module part when modules are given;
/// then `-p buildMode=debug|release` and `--no-daemon`.
pub open spec fn build_command(a: BuildArgsView, p: ProjectView) -> Result<
    Seq<Seq<char>>,
    BuildErrorView,
> {
    match chosen_product(a, p) {
        Err(e) => Err(e),
        Ok(product) => {
            let head = if a.products is Some && a.modules is None {
                seq!["assembleApp"@] + product_flag(product)
            } else {
                Seq::empty()
            };
            match modules_part(a.modules, product, p) {
                Err(e) => Err(e),
                Ok(mid) => Ok(head + mid + seq![
                    "-p"@,
                    "buildMode="@ + (if a.release {
                        "release"@
                    } else {
                        "debug"@
                    }),
                    "--no-daemon"@,
                ]),
            }
        },
    }
}

/// A result of string vectors as plain values.
pub open spec fn strings_result_view(r: Result<Vec<String>, BuildError>) -> Result<
    Seq<Seq<char>>,
    BuildErrorView,
> {
    match r {
        Ok(v) => Ok(vec_view(v@)),
        Err(e) => Err(e@),
    }
}

/// The names of the modules of a project.
fn project_module_names(project: &Project) -> (r: Vec<String>)
    ensures
        vec_view(r@) == module_names(project@.modules),
{
    let mut out: Vec<String> = Vec::new();
    let mut i: usize = 0;
    while i < project.modules.len()
        invariant
            i <= project.modules@.len(),
            vec_view(out@) == module_names(project@.modules).take(i as int),
        decreases project.modules.len() - i,
    {
        out.push(owned(project.modules[i].name.as_str()));
        assert(module_names(project@.modules).take(i + 1) =~= module_names(project@.modules).take(
            i as int,
        ).push(project@.modules[i as int].name));
        assert(vec_view(out@) =~= vec_view(out@.drop_last()).push(out@.last()@));
        i = i + 1;
    }
    assert(module_names(project@.modules).take(i as int) =~= module_names(project@.modules));
    out
}

/// The tasks that build all modules of `project` (see `all_module_tasks`).
fn all_tasks(project: &Project) -> (r: Vec<String>)
    ensures
        vec_view(r@) == all_module_tasks(project@.modules),
{
    let ghost ms = project@.modules;
    if project.modules.len() == 0 {
        let mut v: Vec<String> = Vec::new();
        v.push(owned("assembleHap"));
        assert(vec_view(v@) =~= seq!["assembleHap"@]);
        return v;
    }
    let mut has_hap = false;
    let mut has_hsp = false;
    let mut has_har = false;
    let mut i: usize = 0;
    while i < project.modules.len()
        invariant
            i <= project.modules@.len(),
            ms == project@.modules,
            ms.len() == project.modules@.len(),
            has_hap == exists|k: int| 0 <= k < i && is_hap_kind()(#[trigger] ms[k].module_type),
            has_hsp == exists|k: int| 0 <= k < i && is_hsp_kind()(#[trigger] ms[k].module_type),
            has_har == exists|k: int| 0 <= k < i && is_har_kind()(#[trigger] ms[k].module_type),
        decreases project.modules.len() - i,
    {
        let t = project.modules[i].module_type;
        assert(ms[i as int].module_type == t);
        match t {
            ModuleType::Entry | ModuleType::Feature => {
                has_hap = true;
            },
            ModuleType::Shared => {
                has_hsp = true;
            },
            ModuleType::Har => {
                has_har = true;
            },
        }
        i = i + 1;
    }
    let mut tasks: Vec<String> = Vec::new();
    if has_hap {
        tasks.push(owned("assembleHap"));
    }
    if has_hsp {
        tasks.push(owned("assembleHsp"));
    }
    if has_har {
        tasks.push(owned("assembleHar"));
    }
    assert(vec_view(tasks@) =~= all_module_tasks(ms));
    tasks
}

/// The `hvigor` tasks that build module `module_name`, or every module when
/// it is empty (see `module_tasks`).
pub fn resolve_tasks(module_name: &str, target_name: &Option<String>, project: &Project) -> (r:
    Result<Vec<String>, BuildError>)
    ensures
        strings_result_view(r) == module_tasks(module_name@, opt_string_view(*target_name), project@),
{
    if module_name.unicode_len() != 0 {
        match project.find_module(module_name) {
            Some(m) => {
                proof {
                    lemma_first_module(project@.modules, module_name@);
                }
                if let Some(target) = target_name {
                    if let Err(e) = project.validate_target(module_name, target.as_str()) {
                        return Err(BuildError::Project(e));
                    }
                }
                let task = match m.module_type {
                    ModuleType::Har => owned("assembleHar"),
                    ModuleType::Shared => owned("assembleHsp"),
                    _ => owned("assembleHap"),
                };
                let mut v: Vec<String> = Vec::new();
                v.push(task);
                assert(vec_view(v@) =~= seq![task@]);
                return Ok(v);
            },
            None => {
                let available = project_module_names(project);
                return Err(BuildError::ModuleNotFound(owned(module_name), available));
            },
        }
    }
    Ok(all_tasks(project))
}

/// `parts` joined with `sep` (see `joined`).
pub fn join_strings(parts: &Vec<String>, sep: &str) -> (r: String)
    ensures
        r@ == joined(vec_view(parts@), sep@),
{
    let mut out = String::new();
    let mut i: usize = 0;
    while i < parts.len()
        invariant
            i <= parts@.len(),
            out@ == joined(vec_view(parts@).take(i as int), sep@),
        decreases parts.len() - i,
    {
        let ghost before = vec_view(parts@).take(i as int);
        if i != 0 {
            out.append(sep);
        }
        out.append(parts[i].as_str());
        proof {
            let after = vec_view(parts@).take(i + 1);
            assert(after.drop_last() =~= before);
            if i == 0 {
                assert(before =~= Seq::<Seq<char>>::empty());
            }
        }
        i = i + 1;
    }
    assert(vec_view(parts@).take(i as int) =~= vec_view(parts@));
    out
}

/// Appends the strings of `src` to `dst`.
fn append_all(dst: &mut Vec<String>, src: Vec<String>)
    ensures
        vec_view(final(dst)@) == vec_view(old(dst)@) + vec_view(src@),
{
    let ghost start = vec_view(dst@);
    let mut k: usize = 0;
    while k < src.len()
        invariant
            k <= src@.len(),
            vec_view(dst@) == start + vec_view(src@).take(k as int),
        decreases src.len() - k,
    {
        let ghost prev = dst@;
        dst.push(owned(src[k].as_str()));
        assert(vec_view(src@).take(k + 1) =~= vec_view(src@).take(k as int).push(src@[k as int]@));
        assert(vec_view(dst@) =~= vec_view(prev).push(src@[k as int]@));
        k = k + 1;
    }
    assert(vec_view(src@).take(k as int) =~= vec_view(src@));
}

/// A parsed module argument as plain values.
pub open spec fn parsed_view(v: Seq<(String, Option<String>)>) -> Seq<(Seq<char>, Option<Seq<char>>)> {
    v.map_values(|x: (String, Option<String>)| crate::build_args::module_target_view(x))
}

/// The tasks of the parsed modules in turn (see `tasks_of_modules`).
fn collect_module_tasks(parsed: &Vec<(String, Option<String>)>, project: &Project) -> (r: Result<
    Vec<String>,
    BuildError,
>)
    ensures
        strings_result_view(r) == tasks_of_modules(parsed_view(parsed@), project@),
{
    let ghost pv = parsed_view(parsed@);
    let mut acc: Vec<String> = Vec::new();
    let mut i: usize = 0;
    assert(pv.skip(0) =~= pv);
    while i < parsed.len()
        invariant
            i <= parsed@.len(),
            pv == parsed_view(parsed@),
            tasks_of_modules(pv, project@) == (match tasks_of_modules(pv.skip(i as int), project@) {
                Ok(rest) => Ok(vec_view(acc@) + rest),
                Err(e) => Err(e),
            }),
        decreases parsed.len() - i,
    {
        let (module_name, target_name) = &parsed[i];
        assert(pv.skip(i as int)[0] == pv[i as int]);
        assert(pv.skip(i as int).drop_first() =~= pv.skip(i + 1));
        match resolve_tasks(module_name.as_str(), target_name, project) {
            Ok(tasks) => {
                let ghost t = vec_view(tasks@);
                let ghost before = vec_view(acc@);
                append_all(&mut acc, tasks);
                proof {
                    match tasks_of_modules(pv.skip(i + 1), project@) {
                        Ok(rest) => {
                            assert(before + (t + rest) =~= vec_view(acc@) + rest);
                        },
                        Err(e) => {},
                    }
                }
            },
            Err(e) => {
                return Err(e);
            },
        }
        i = i + 1;
    }
    assert(pv.skip(i as int) =~= Seq::<(Seq<char>, Option<Seq<char>>)>::empty());
    assert(vec_view(acc@) + Seq::<Seq<char>>::empty() =~= vec_view(acc@));
    Ok(acc)
}

/// The distinct tasks of `all` in ascending order (see
/// `sorted_distinct_tasks`).
fn sort_dedup_tasks(all: &Vec<String>) -> (r: Vec<String>)
    ensures
        vec_view(r@) == sorted_distinct_tasks(vec_view(all@)),
{
    let mut out: Vec<String> = Vec::new();
    if crate::project::contains_string(all, "assembleHap") {
        out.push(owned("assembleHap"));
    }
    if crate::project::contains_string(all, "assembleHar") {
        out.push(owned("assembleHar"));
    }
    if crate::project::contains_string(all, "assembleHsp") {
        out.push(owned("assembleHsp"));
    }
    assert(vec_view(out@) =~= sorted_distinct_tasks(vec_view(all@)));
    out
}

/// The module names of parsed module arguments.
fn parsed_names(parsed: &Vec<(String, Option<String>)>) -> (r: Vec<String>)
    ensures
        vec_view(r@) == parsed_view(parsed@).map_values(
            |x: (Seq<char>, Option<Seq<char>>)| x.0,
        ),
{
    let ghost names = parsed_view(parsed@).map_values(|x: (Seq<char>, Option<Seq<char>>)| x.0);
    let mut out: Vec<String> = Vec::new();
    let mut i: usize = 0;
    while i < parsed.len()
        invariant
            i <= parsed@.len(),
            names == parsed_view(parsed@).map_values(|x: (Seq<char>, Option<Seq<char>>)| x.0),
            vec_view(out@) == names.take(i as int),
        decreases parsed.len() - i,
    {
        out.push(owned(parsed[i].0.as_str()));
        assert(names.take(i + 1) =~= names.take(i as int).push(names[i as int]));
        assert(vec_view(out@) =~= vec_view(out@.drop_last()).push(out@.last()@));
        i = i + 1;
    }
    assert(names.take(i as int) =~= names);
    out
}

/// `-p product=<p>` for a product (see `product_flag`).
fn product_args(product: &Option<String>) -> (r: Vec<String>)
    ensures
        vec_view(r@) == product_flag(opt_string_view(*product)),
{
    let mut v: Vec<String> = Vec::new();
    if let Some(p) = product {
        v.push(owned("-p"));
        v.push(concat2("product=", p.as_str()));
    }
    assert(vec_view(v@) =~= product_flag(opt_string_view(*product)));
    v
}

impl BuildArgs {
    /// The product chosen for the build (see `chosen_product`).
    fn choose_product(&self, project: &Project) -> (r: Result<Option<String>, BuildError>)
        ensures
            match chosen_product(self@, project@) {
                Ok(p) => r matches Ok(q) && opt_string_view(q) == p,
                Err(e) => r matches Err(f) && f@ == e,
            },
    {
        if let Some(products) = &self.products {
            if products.len() != 0 {
                if self.modules.is_some() && products.len() > 1 {
                    return Err(BuildError::OneProductWithModules);
                }
                let p = products[0].as_str();
                if let Err(e) = project.validate_product(p) {
                    return Err(BuildError::Project(e));
                }
                return Ok(Some(owned(p)));
            }
        }
        Ok(None)
    }

    /// The arguments for the modules (see `modules_part`).
    fn module_args(&self, product: &Option<String>, project: &Project) -> (r: Result<
        Vec<String>,
        BuildError,
    >)
        ensures
            strings_result_view(r) == modules_part(
                self@.modules,
                opt_string_view(*product),
                project@,
            ),
    {
        if self.modules.is_none() {
            let v: Vec<String> = Vec::new();
            assert(vec_view(v@) =~= Seq::<Seq<char>>::empty());
            return Ok(v);
        }
        let parsed = match self.parse_modules() {
            Some(v) => v,
            None => Vec::new(),
        };
        assert(parsed_view(parsed@) =~= self@.modules.unwrap().map_values(
            |m: Seq<char>| module_spec(m),
        ));
        let mut args: Vec<String>;
        if parsed.len() == 0 {
            proof {
                reveal_strlit("");
            }
            assert(""@ =~= Seq::<char>::empty());
            let none: Option<String> = None;
            match resolve_tasks("", &none, project) {
                Ok(tasks) => {
                    args = tasks;
                },
                Err(e) => {
                    return Err(e);
                },
            }
        } else {
            match collect_module_tasks(&parsed, project) {
                Ok(all) => {
                    args = sort_dedup_tasks(&all);
                    let names = parsed_names(&parsed);
                    let joined_names = join_strings(&names, ",");
                    args.push(owned("-p"));
                    args.push(concat2("module=", joined_names.as_str()));
                    assert(vec_view(args@) =~= sorted_distinct_tasks(vec_view(all@)) + seq![
                        "-p"@,
                        "module="@ + joined(vec_view(names@), ","@),
                    ]);
                },
                Err(e) => {
                    return Err(e);
                },
            }
        }
        append_all(&mut args, product_args(product));
        Ok(args)
    }

    /// The arguments given to `hvigorw.js` for this build of `project` (see
    /// `build_command`).
    pub fn to_command_args(&self, project: &Project) -> (r: Result<Vec<String>, BuildError>)
        ensures
            strings_result_view(r) == build_command(self@, project@),
    {
        let product = match self.choose_product(project) {
            Ok(p) => p,
            Err(e) => {
                return Err(e);
            },
        };
        let mut args: Vec<String> = Vec::new();
        if self.products.is_some() && self.modules.is_none() {
            args.push(owned("assembleApp"));
            assert(vec_view(args@) =~= seq!["assembleApp"@]);
            append_all(&mut args, product_args(&product));
        }
        assert(vec_view(args@) == (if self@.products is Some && self@.modules is None {
            seq!["assembleApp"@] + product_flag(opt_string_view(product))
        } else {
            Seq::<Seq<char>>::empty()
        }));
        match self.module_args(&product, project) {
            Ok(mid) => {
                append_all(&mut args, mid);
            },
            Err(e) => {
                return Err(e);
            },
        }
        let mode = if self.release {
            "release"
        } else {
            "debug"
        };
        let mut tail: Vec<String> = Vec::new();
        tail.push(owned("-p"));
        tail.push(concat2("buildMode=", mode));
        tail.push(owned("--no-daemon"));
        assert(vec_view(tail@) =~= seq![
            "-p"@,
            "buildMode="@ + (if self.release {
                "release"@
            } else {
                "debug"@
            }),
            "--no-daemon"@,
        ]);
        append_all(&mut args, tail);
        Ok(args)
    }
}

/// Arguments of `heco clean`.
pub struct CleanArgs {
    /// The module to clean; the whole project without one.
    pub module: Option<String>,
    pub quiet: bool,
}

/// A tool of the installation that a step needs and lacks.
#[derive(Debug, PartialEq, Eq)]
pub enum ToolError {
    NodeNotFound,
    HvigorwNotFound,
    SdkNotFound,
    JavaNotFound,
    OhpmNotFound,
}

/// The message of a missing tool.
pub open spec fn tool_error_text(e: ToolError) -> Seq<char> {
    match e {
        ToolError::NodeNotFound => "未找到 Node 路径"@,
        ToolError::HvigorwNotFound => "未找到 hvigorw.js 路径"@,
        ToolError::SdkNotFound => "未找到 SDK 路径"@,
        ToolError::JavaNotFound => "未找到 Java 路径，请确保 JAVA_HOME 环境变量已设置或 Java 在 PATH 中"@,
        ToolError::OhpmNotFound => "未找到 ohpm 路径"@,
    }
}

impl ToolError {
    /// The message shown for the error (see `tool_error_text`).
    pub fn message(&self) -> (r: &'static str)
        ensures
            r@ == tool_error_text(*self),
    {
        match self {
            ToolError::NodeNotFound => "未找到 Node 路径",
            ToolError::HvigorwNotFound => "未找到 hvigorw.js 路径",
            ToolError::SdkNotFound => "未找到 SDK 路径",
            ToolError::JavaNotFound => "未找到 Java 路径，请确保 JAVA_HOME 环境变量已设置或 Java 在 PATH 中",
            ToolError::OhpmNotFound => "未找到 ohpm 路径",
        }
    }
}

/// The tools that an `hvigor` step needs: `node`, `hvigorw.js`, the SDK and,
/// for sync and build, Java.
pub struct HvigorTools {
    pub node: String,
    pub hvigorw_js: String,
    pub sdk: String,
    pub java: Option<String>,
}

/// Checks that the tools an `hvigor` step needs were found, in the order
/// `node`, `hvigorw.js`, SDK, Java (Java only when `needs_java`); the first
/// missing one is the error.
pub fn require_hvigor_tools(
    node: Option<String>,
    hvigorw_js: Option<String>,
    sdk: Option<String>,
    java: Option<String>,
    needs_java: bool,
) -> (r: Result<HvigorTools, ToolError>)
    ensures
        node is None ==> r == Err::<HvigorTools, ToolError>(ToolError::NodeNotFound),
        node is Some && hvigorw_js is None ==> r == Err::<HvigorTools, ToolError>(
            ToolError::HvigorwNotFound,
        ),
        node is Some && hvigorw_js is Some && sdk is None ==> r == Err::<HvigorTools, ToolError>(
            ToolError::SdkNotFound,
        ),
        node is Some && hvigorw_js is Some && sdk is Some && needs_java && java is None ==> r
            == Err::<HvigorTools, ToolError>(ToolError::JavaNotFound),
        node is Some && hvigorw_js is Some && sdk is Some && (!needs_java || java is Some) ==> (r matches Ok(t) && t.node == node.unwrap() && t.hvigorw_js == hvigorw_js.unwrap()
            && t.sdk == sdk.unwrap() && t.java == (if needs_java {
            java
        } else {
            None
        })),
{
    let node = match node {
        Some(n) => n,
        None => return Err(ToolError::NodeNotFound),
    };
    let hvigorw_js = match hvigorw_js {
        Some(h) => h,
        None => return Err(ToolError::HvigorwNotFound),
    };
    let sdk = match sdk {
        Some(s) => s,
        None => return Err(ToolError::SdkNotFound),
    };
    let java = if needs_java {
        match java {
            Some(j) => Some(j),
            None => return Err(ToolError::JavaNotFound),
        }
    } else {
        None
    };
    Ok(HvigorTools { node, hvigorw_js, sdk, java })
}

/// The arguments given to `node` to sync a project: the script, `--sync`,
/// the product (the project's first, else `default`) and fixed options.
pub open spec fn sync_argv(script: Seq<char>, products: Seq<Seq<char>>) -> Seq<Seq<char>> {
    seq![
        script,
        "--sync"@,
        "-p"@,
        "product="@ + (if products.len() > 0 {
            products[0]
        } else {
            "default"@
        }),
        "--analyze=normal"@,
        "--parallel"@,
        "--incremental"@,
        "--no-daemon"@,
    ]
}

/// Builds the arguments that sync a project (see `sync_argv`).
pub fn sync_args(hvigorw_js: &str, project: &Project) -> (r: Vec<String>)
    ensures
        vec_view(r@) == sync_argv(hvigorw_js@, project@.products),
{
    let product = if project.products.len() > 0 {
        project.products[0].as_str()
    } else {
        "default"
    };
    let mut v: Vec<String> = Vec::new();
    v.push(owned(hvigorw_js));
    v.push(owned("--sync"));
    v.push(owned("-p"));
    v.push(concat2("product=", product));
    v.push(owned("--analyze=normal"));
    v.push(owned("--parallel"));
    v.push(owned("--incremental"));
    v.push(owned("--no-daemon"));
    assert(vec_view(v@) =~= sync_argv(hvigorw_js@, project@.products));
    v
}

/// Accepts a project that was read from `root`, the directory being built,
/// as `Path`'s `==` compares them.
pub fn check_project_root(pl: Platform, project: &Project, root: &str) -> (r: Result<(), BuildError>)
    ensures
        same_path(pl, project@.root, root@) ==> r is Ok,
        !same_path(pl, project@.root, root@) ==> r == Err::<(), BuildError>(BuildError::RootMismatch),
{
    if paths_equal(pl, project.root.as_str(), root) {
        Ok(())
    } else {
        Err(BuildError::RootMismatch)
    }
}

/// The arguments given to `node` to build in directory `root`: the script,
/// then the build arguments (see `build_command`); refused when the project
/// was not read from `root`.
pub fn build_args_for(pl: Platform, hvigorw_js: &str, args: &BuildArgs, project: &Project, root: &str) -> (r:
    Result<Vec<String>, BuildError>)
    ensures
        !same_path(pl, project@.root, root@) ==> (r matches Err(f) && f@ == BuildErrorView::RootMismatch),
        same_path(pl, project@.root, root@) ==> match build_command(args@, project@) {
            Ok(a) => r matches Ok(v) && vec_view(v@) == seq![hvigorw_js@] + a,
            Err(e) => r matches Err(f) && f@ == e,
        },
{
    if let Err(e) = check_project_root(pl, project, root) {
        return Err(e);
    }
    match args.to_command_args(project) {
        Ok(a) => {
            let mut v: Vec<String> = Vec::new();
            v.push(owned(hvigorw_js));
            assert(vec_view(v@) =~= seq![hvigorw_js@]);
            append_all(&mut v, a);
            Ok(v)
        },
        Err(e) => Err(e),
    }
}

/// The arguments given to `node` to clean: the script, `clean`,
/// `--no-daemon`, and `-p module=<m>` for one module.
pub open spec fn clean_argv(script: Seq<char>, module: Option<Seq<char>>) -> Seq<Seq<char>> {
    seq![script, "clean"@, "--no-daemon"@] + match module {
        Some(m) => seq!["-p"@, "module="@ + m],
        None => Seq::empty(),
    }
}

/// Builds the arguments that clean a project (see `clean_argv`).
pub fn clean_args(hvigorw_js: &str, args: &CleanArgs) -> (r: Vec<String>)
    ensures
        vec_view(r@) == clean_argv(hvigorw_js@, opt_string_view(args.module)),
{
    let mut v: Vec<String> = Vec::new();
    v.push(owned(hvigorw_js));
    v.push(owned("clean"));
    v.push(owned("--no-daemon"));
    if let Some(m) = &args.module {
        v.push(owned("-p"));
        v.push(concat2("module=", m.as_str()));
    }
    assert(vec_view(v@) =~= clean_argv(hvigorw_js@, opt_string_view(args.module)));
    v
}


/// The task of a named module is the one for its kind: an entry or a
/// feature module is assembled as a HAP, a shared module as a HSP and a
/// library as a HAR; this is the task under which building every module
/// counts that kind.
pub proof fn lemma_named_module_task(name: Seq<char>, target: Option<Seq<char>>, p: ProjectView)
    requires
        name.len() > 0,
        first_module(p.modules, name) is Some,
        target matches Some(t) ==> p.modules[first_module(p.modules, name).unwrap()].targets.contains(
            t,
        ),
    ensures
        ({
            let m = p.modules[first_module(p.modules, name).unwrap()];
            let r = module_tasks(name, target, p);
            &&& (m.module_type == ModuleType::Entry || m.module_type == ModuleType::Feature) ==> r
                == Ok::<Seq<Seq<char>>, BuildErrorView>(seq!["assembleHap"@])
            &&& m.module_type == ModuleType::Shared ==> r == Ok::<Seq<Seq<char>>, BuildErrorView>(
                seq!["assembleHsp"@],
            )
            &&& m.module_type == ModuleType::Har ==> r == Ok::<Seq<Seq<char>>, BuildErrorView>(
                seq!["assembleHar"@],
            )
            &&& r matches Ok(ts) && all_module_tasks(seq![m]) == ts
        }),
{
    let m = p.modules[first_module(p.modules, name).unwrap()];
    let one = seq![m];
    assert(one[0] == m);
    if m.module_type == ModuleType::Entry || m.module_type == ModuleType::Feature {
        assert(has_kind(one, is_hap_kind()));
        assert(!has_kind(one, is_hsp_kind()));
        assert(!has_kind(one, is_har_kind()));
    } else if m.module_type == ModuleType::Shared {
        assert(!has_kind(one, is_hap_kind()));
        assert(has_kind(one, is_hsp_kind()));
        assert(!has_kind(one, is_har_kind()));
    } else {
        assert(!has_kind(one, is_hap_kind()));
        assert(!has_kind(one, is_hsp_kind()));
        assert(has_kind(one, is_har_kind()));
    }
    assert(all_module_tasks(one) =~= seq![task_for(m.module_type)]);
}


/// Building one named module (without a target or a product) runs the task
/// of its kind for that module in the build mode: `assembleHap` for an
/// entry or feature module, `assembleHsp` for a shared one, `assembleHar`
/// for a library.
pub proof fn lemma_single_module_command(a: BuildArgsView, p: ProjectView)
    requires
        a.modules is Some,
        a.modules.unwrap().len() == 1,
        crate::text::index_of(a.modules.unwrap()[0], '@') is None,
        a.modules.unwrap()[0].len() > 0,
        first_module(p.modules, a.modules.unwrap()[0]) is Some,
        a.products is None,
    ensures
        ({
            let name = a.modules.unwrap()[0];
            let t = p.modules[first_module(p.modules, name).unwrap()].module_type;
            let task = if t == ModuleType::Har {
                "assembleHar"@
            } else if t == ModuleType::Shared {
                "assembleHsp"@
            } else {
                "assembleHap"@
            };
            let mode = if a.release {
                "release"@
            } else {
                "debug"@
            };
            build_command(a, p) == Ok::<Seq<Seq<char>>, BuildErrorView>(
                seq![task, "-p"@, "module="@ + name, "-p"@, "buildMode="@ + mode, "--no-daemon"@],
            )
        }),
{
    let ms = a.modules.unwrap();
    let name = ms[0];
    lemma_named_module_task(name, None, p);
    let parsed = ms.map_values(|m: Seq<char>| module_spec(m));
    assert(parsed[0] == (name, None::<Seq<char>>));
    assert(parsed.len() == 1);
    lemma_first_module(p.modules, name);
    let t = task_for(p.modules[first_module(p.modules, name).unwrap()].module_type);
    assert(module_tasks(name, None, p) == Ok::<Seq<Seq<char>>, BuildErrorView>(seq![t]));
    assert(parsed.drop_first() =~= Seq::<(Seq<char>, Option<Seq<char>>)>::empty());
    assert(tasks_of_modules(parsed.drop_first(), p) == Ok::<Seq<Seq<char>>, BuildErrorView>(
        Seq::empty(),
    ));
    assert(tasks_of_modules(parsed, p) == Ok::<Seq<Seq<char>>, BuildErrorView>(seq![t] + Seq::empty()));
    assert(seq![t] + Seq::<Seq<char>>::empty() =~= seq![t]);
    let names = parsed.map_values(|x: (Seq<char>, Option<Seq<char>>)| x.0);
    assert(names =~= seq![name]);
    assert(joined(names, ","@) == name);
    reveal_strlit("assembleHap");
    reveal_strlit("assembleHar");
    reveal_strlit("assembleHsp");
    assert(seq![t][0] == t);
    assert(seq![t].contains(t));
    assert(sorted_distinct_tasks(seq![t]) =~= seq![t]) by {
        assert(seq![t][0] == t);
        assert("assembleHap"@ != "assembleHar"@) by {
            assert("assembleHap"@[10] != "assembleHar"@[10]);
        }
        assert("assembleHap"@ != "assembleHsp"@) by {
            assert("assembleHap"@[9] != "assembleHsp"@[9]);
        }
        assert("assembleHar"@ != "assembleHsp"@) by {
            assert("assembleHar"@[9] != "assembleHsp"@[9]);
        }
    }
    let mode = if a.release {
        "release"@
    } else {
        "debug"@
    };
    assert(Seq::<Seq<char>>::empty() + (seq![t] + seq!["-p"@, "module="@ + name] + Seq::<Seq<char>>::empty())
        + seq!["-p"@, "buildMode="@ + mode, "--no-daemon"@] =~= seq![
        t,
        "-p"@,
        "module="@ + name,
        "-p"@,
        "buildMode="@ + mode,
        "--no-daemon"@,
    ]);
}


/// A line printed above the status bar that begins with `label`.
pub open spec fn labelled_bar_line(out: EmitView, label: Seq<char>) -> bool {
    out matches EmitView::BarLine(t) && has_prefix(t, label)
}

/// A `> hvigor ` block header never continues the diagnostic block before
/// it: after such a line no block is open, unless the line itself is a
/// warning or an error, which then opens a block of its own kind and is
/// printed with that kind's label; nothing from it is printed as detail of
/// the earlier block.
pub proof fn lemma_block_header_ends_block(last: Option<LogType>, p0: Seq<char>, verbose: u8, verb: Seq<char>)
    requires
        verbose < 2,
        has_prefix(trim(p0), "> hvigor "@),
    ensures
        ({
            let (next, out) = hvigor_stripped_line(last, p0, verbose, true, verb);
            let warn = bold_yellow("warning"@) + ": "@;
            let err = bold_red("error"@) + ": "@;
            &&& next is None || (next == Some(LogType::Warning) && labelled_bar_line(out, warn)) || (
            next == Some(LogType::Error) && labelled_bar_line(out, err))
            &&& out is BarLine ==> labelled_bar_line(out, warn) || labelled_bar_line(out, err)
        }),
{
    let (next, out) = hvigor_stripped_line(last, p0, verbose, true, verb);
    let warn = bold_yellow("warning"@) + ": "@;
    let err = bold_red("error"@) + ": "@;
    assert(trim(p0).len() > 0) by {
        reveal_strlit("> hvigor ");
    }
    let p = trim_start(strip_all_prefix(p0, block_header()));
    match log_type_of(trim(p), hvigor_log_prefixes()) {
        Some((LogType::Warning, c)) => {
            assert((warn + normalized_warning(c)).take(warn.len() as int) =~= warn);
            assert(warning_line(c) =~= warn + normalized_warning(c));
        },
        Some((LogType::Error, c)) => {
            assert((err + c).take(err.len() as int) =~= err);
            assert(error_line(c) =~= err + c);
        },
        None => {},
    }
}

} // verus!

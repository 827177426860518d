//! `heco emulator`: its arguments, the command line that starts an
//! emulator, and what the emulator's answers mean.
use crate::paths::Platform;
use crate::text::{
    chars_of, concat2, contains, has_infix, lines_of, owned, strings_view, text_lines, trim, trim_str,
};
use vstd::prelude::*;

verus! {

/// Arguments of `heco emulator`.
pub struct EmulatorArgs {
    pub command: EmulatorCommands,
}

/// The subcommands of `heco emulator`.
pub enum EmulatorCommands {
    /// Start an emulator instance.
    Start(StartArgs),
    /// Stop a running emulator.
    Stop(StopArgs),
    /// List all available emulators.
    List(ListArgs),
}

/// Arguments of `heco emulator start`.
pub struct StartArgs {
    /// Name of the emulator to start.
    pub name: String,
}

/// Arguments of `heco emulator stop`.
pub struct StopArgs {
    /// Name of the emulator to stop.
    pub name: String,
    /// Force stop: kill the emulator's process.
    pub force: bool,
}

/// Arguments of `heco emulator list`.
pub struct ListArgs {}

/// Why an emulator cannot be handled.
#[derive(Debug, PartialEq, Eq)]
pub enum EmulatorError {
    /// The configured installation has no emulator.
    BinaryNotFound,
    /// No directory of emulator instances was found.
    InstancePathNotFound,
    /// No directory of system images was found.
    ImageRootNotFound,
}

/// The message of an emulator that cannot be handled.
pub open spec fn emulator_error_text(e: EmulatorError) -> Seq<char> {
    match e {
        EmulatorError::BinaryNotFound => "Could not find Emulator binary. Please ensure DevEco Studio is installed and configured in heco env."@,
        EmulatorError::InstancePathNotFound => "Could not find emulator instance path. Please configure it via 'heco env'"@,
        EmulatorError::ImageRootNotFound => "Could not find emulator image root. Please configure it via 'heco env'"@,
    }
}

impl EmulatorError {
    /// The message shown for the error (see `emulator_error_text`).
    pub fn message(&self) -> (r: &'static str)
        ensures
            r@ == emulator_error_text(*self),
    {
        match self {
            EmulatorError::BinaryNotFound => "Could not find Emulator binary. Please ensure DevEco Studio is installed and configured in heco env.",
            EmulatorError::InstancePathNotFound => "Could not find emulator instance path. Please configure it via 'heco env'",
            EmulatorError::ImageRootNotFound => "Could not find emulator image root. Please configure it via 'heco env'",
        }
    }
}

/// The emulator binary, if the configured installation has one
/// (`emulator_path` is where it was found, if anywhere).
pub fn find_emulator_binary(emulator_path: Option<String>) -> (r: Result<String, EmulatorError>)
    ensures
        match emulator_path {
            Some(p) => r matches Ok(q) && q@ == p@,
            None => r == Err::<String, EmulatorError>(EmulatorError::BinaryNotFound),
        },
{
    match emulator_path {
        Some(p) => Ok(p),
        None => Err(EmulatorError::BinaryNotFound),
    }
}

/// The arguments that start emulator `name`: `-hvd <name> -path <instances>
/// -imageRoot <images>`; refused without either directory, the instances
/// first.
pub open spec fn start_argv(name: Seq<char>, instance: Option<Seq<char>>, image_root: Option<Seq<char>>) -> Result<
    Seq<Seq<char>>,
    EmulatorError,
> {
    match instance {
        None => Err(EmulatorError::InstancePathNotFound),
        Some(i) => match image_root {
            None => Err(EmulatorError::ImageRootNotFound),
            Some(r) => Ok(seq!["-hvd"@, name, "-path"@, i, "-imageRoot"@, r]),
        },
    }
}

/// Builds the arguments that start an emulator (see `start_argv`).
pub fn start_command_args(name: &str, instance: Option<&str>, image_root: Option<&str>) -> (r: Result<
    Vec<String>,
    EmulatorError,
>)
    ensures
        match start_argv(name@, crate::text::opt_str_view(instance), crate::text::opt_str_view(image_root)) {
            Ok(a) => r matches Ok(v) && strings_view(v@) == a,
            Err(e) => r == Err::<Vec<String>, EmulatorError>(e),
        },
{
    let i = match instance {
        Some(i) => i,
        None => return Err(EmulatorError::InstancePathNotFound),
    };
    let root = match image_root {
        Some(r) => r,
        None => return Err(EmulatorError::ImageRootNotFound),
    };
    let mut v: Vec<String> = Vec::new();
    v.push(owned("-hvd"));
    v.push(owned(name));
    v.push(owned("-path"));
    v.push(owned(i));
    v.push(owned("-imageRoot"));
    v.push(owned(root));
    assert(strings_view(v@) =~= seq!["-hvd"@, name@, "-path"@, i@, "-imageRoot"@, root@]);
    Ok(v)
}

/// How the emulator is run for a subcommand: the binary, its arguments,
/// and for how many seconds at most its answer is awaited (`None`: until
/// it exits).
pub struct EmulatorRun {
    pub program: String,
    pub args: Vec<String>,
    pub timeout_secs: Option<u64>,
}

/// A character with a meaning of its own in a regular expression.
pub open spec fn is_regex_meta(c: char) -> bool {
    c == '\\' || c == '.' || c == '^' || c == '$' || c == '|' || c == '?' || c == '*' || c == '+'
        || c == '(' || c == ')' || c == '[' || c == ']' || c == '{' || c == '}'
}

/// One character as it stands in a pattern: a backslash before a
/// character with a regular-expression meaning; a quote doubled when the
/// pattern goes inside a single-quoted PowerShell string (`quote`).
pub open spec fn escaped_char(c: char, quote: bool) -> Seq<char> {
    if is_regex_meta(c) {
        seq!['\\', c]
    } else if quote && c == '\'' {
        seq!['\'', '\'']
    } else {
        seq![c]
    }
}

/// `s` with each character escaped (see `escaped_char`).
pub open spec fn escaped(s: Seq<char>, quote: bool) -> Seq<char>
    decreases s.len(),
{
    if s.len() == 0 {
        Seq::empty()
    } else {
        escaped(s.drop_last(), quote) + escaped_char(s.last(), quote)
    }
}

/// The regular expression that finds the process of emulator `name` by
/// its command line: `-hvd <name>`, then a blank or the end.
pub open spec fn instance_pattern(name: Seq<char>, quote: bool) -> Seq<char> {
    "-hvd "@ + escaped(name, quote) + "( |$)"@
}

/// The command that kills the process of emulator `name` (a forced stop):
/// on macOS `pkill -9 -f -- <pattern>`; on Windows PowerShell stops every
/// `Emulator.exe` process whose command line matches the pattern.
pub open spec fn kill_command(pl: Platform, name: Seq<char>) -> (Seq<char>, Seq<Seq<char>>) {
    if pl == Platform::MacOs {
        ("pkill"@, seq!["-9"@, "-f"@, "--"@, instance_pattern(name, false)])
    } else {
        (
            "powershell"@,
            seq![
                "-NoProfile"@,
                "-Command"@,
                "Get-CimInstance Win32_Process | Where-Object { $_.Name -eq 'Emulator.exe' -and $_.CommandLine -match '"@
                    + instance_pattern(name, true)
                    + "' } | ForEach-Object { Stop-Process -Id $_.ProcessId -Force }"@,
            ],
        )
    }
}

/// Escapes a name for a pattern (see `escaped`).
pub fn escape_pattern(name: &str, quote: bool) -> (r: String)
    ensures
        r@ == escaped(name@, quote),
{
    let v = chars_of(name);
    let n = name.unicode_len();
    let mut out = String::new();
    let mut i: usize = 0;
    while i < n
        invariant
            i <= n,
            n == name@.len(),
            v@ == name@,
            out@ == escaped(name@.take(i as int), quote),
        decreases n - i,
    {
        let c = v[i];
        assert(name@.take(i + 1).drop_last() =~= name@.take(i as int));
        assert(name@.take(i + 1).last() == c);
        let one = name.substring_char(i, i + 1);
        assert(one@ =~= seq![c]);
        if c == '\\' || c == '.' || c == '^' || c == '$' || c == '|' || c == '?' || c == '*' || c
            == '+' || c == '(' || c == ')' || c == '[' || c == ']' || c == '{' || c == '}' {
            proof {
                reveal_strlit("\\");
            }
            out.append("\\");
            out.append(one);
        } else if quote && c == '\'' {
            proof {
                reveal_strlit("''");
            }
            out.append("''");
        } else {
            out.append(one);
        }
        assert(out@ =~= escaped(name@.take(i as int), quote) + escaped_char(c, quote));
        i = i + 1;
    }
    assert(name@.take(n as int) =~= name@);
    out
}

/// Builds the command of a forced stop (see `kill_command`).
pub fn kill_command_args(pl: Platform, name: &str) -> (r: (String, Vec<String>))
    ensures
        (r.0@, strings_view(r.1@)) == kill_command(pl, name@),
{
    let mut v: Vec<String> = Vec::new();
    if pl == Platform::MacOs {
        let pattern = concat2("-hvd ", escape_pattern(name, false).as_str());
        let mut pattern = pattern;
        pattern.append("( |$)");
        v.push(owned("-9"));
        v.push(owned("-f"));
        v.push(owned("--"));
        v.push(pattern);
        assert(strings_view(v@) =~= kill_command(pl, name@).1);
        (owned("pkill"), v)
    } else {
        let mut script = owned(
            "Get-CimInstance Win32_Process | Where-Object { $_.Name -eq 'Emulator.exe' -and $_.CommandLine -match '",
        );
        let esc = escape_pattern(name, true);
        let ghost head = script@;
        script.append("-hvd ");
        script.append(esc.as_str());
        script.append("( |$)");
        script.append("' } | ForEach-Object { Stop-Process -Id $_.ProcessId -Force }");
        assert(script@ =~= head + instance_pattern(name@, true)
            + "' } | ForEach-Object { Stop-Process -Id $_.ProcessId -Force }"@);
        v.push(owned("-NoProfile"));
        v.push(owned("-Command"));
        v.push(script);
        assert(strings_view(v@) =~= kill_command(pl, name@).1);
        (owned("powershell"), v)
    }
}

/// What `heco emulator` runs, given the platform and where the emulator
/// binary, the instances and the system images were found: the binary must
/// exist; `start` runs `start_argv` and waits two seconds for an answer;
/// `stop` runs `-stop <name>`, or with `force` kills the emulator's process
/// (`kill_command`); `list` runs `-list`; each but `start` until it exits.
pub open spec fn emulator_run(
    pl: Platform,
    command: EmulatorCommands,
    binary: Option<Seq<char>>,
    instance: Option<Seq<char>>,
    image_root: Option<Seq<char>>,
) -> Result<(Seq<char>, Seq<Seq<char>>, Option<u64>), EmulatorError> {
    match binary {
        None => Err(EmulatorError::BinaryNotFound),
        Some(b) => match command {
            EmulatorCommands::Start(a) => match start_argv(a.name@, instance, image_root) {
                Ok(argv) => Ok((b, argv, Some(2u64))),
                Err(e) => Err(e),
            },
            EmulatorCommands::Stop(a) => if a.force {
                let (p, argv) = kill_command(pl, a.name@);
                Ok((p, argv, None))
            } else {
                Ok((b, seq!["-stop"@, a.name@], None))
            },
            EmulatorCommands::List(_) => Ok((b, seq!["-list"@], None)),
        },
    }
}

/// Chooses how to run the emulator for a subcommand (see `emulator_run`).
pub fn handle_emulator(
    pl: Platform,
    args: &EmulatorArgs,
    binary: Option<String>,
    instance: Option<String>,
    image_root: Option<String>,
) -> (r: Result<EmulatorRun, EmulatorError>)
    ensures
        match emulator_run(
            pl,
            args.command,
            crate::text::opt_string_view(binary),
            crate::text::opt_string_view(instance),
            crate::text::opt_string_view(image_root),
        ) {
            Ok((p, a, t)) => r matches Ok(run) && run.program@ == p && strings_view(run.args@) == a
                && run.timeout_secs == t,
            Err(e) => r == Err::<EmulatorRun, EmulatorError>(e),
        },
{
    let program = match find_emulator_binary(binary) {
        Ok(p) => p,
        Err(e) => {
            return Err(e);
        },
    };
    match &args.command {
        EmulatorCommands::Start(a) => {
            let inst: Option<&str> = match &instance {
                Some(i) => Some(i.as_str()),
                None => None,
            };
            let images: Option<&str> = match &image_root {
                Some(i) => Some(i.as_str()),
                None => None,
            };
            let argv = match start_command_args(a.name.as_str(), inst, images) {
                Ok(v) => v,
                Err(e) => {
                    return Err(e);
                },
            };
            Ok(EmulatorRun { program, args: argv, timeout_secs: Some(2) })
        },
        EmulatorCommands::Stop(a) => {
            if a.force {
                let (kill, argv) = kill_command_args(pl, a.name.as_str());
                return Ok(EmulatorRun { program: kill, args: argv, timeout_secs: None });
            }
            let mut v: Vec<String> = Vec::new();
            v.push(owned("-stop"));
            v.push(owned(a.name.as_str()));
            assert(strings_view(v@) =~= seq!["-stop"@, a.name@]);
            Ok(EmulatorRun { program, args: v, timeout_secs: None })
        },
        EmulatorCommands::List(_) => {
            let mut v: Vec<String> = Vec::new();
            v.push(owned("-list"));
            assert(strings_view(v@) =~= seq!["-list"@]);
            Ok(EmulatorRun { program, args: v, timeout_secs: None })
        },
    }
}

/// What starting an emulator came to.
#[derive(Debug, PartialEq, Eq)]
pub enum StartOutcome {
    /// The emulator started.
    Started,
    /// It was running already.
    AlreadyRunning,
    /// It failed; the trimmed output says why.
    Failed(String),
}

/// The emulator reports that the instance already runs.
pub open spec fn says_running(out: Seq<char>) -> bool {
    has_infix(out, "already exist"@) || has_infix(out, "already running"@)
}

/// Reads the answer of the emulator to a start, from whether it exited
/// successfully and its output: a report that it already runs counts as
/// such either way; else success starts it, and failure comes with the
/// trimmed output.
pub fn classify_start(success: bool, output: &str) -> (r: StartOutcome)
    ensures
        says_running(output@) ==> r is AlreadyRunning,
        !says_running(output@) && success ==> r is Started,
        !says_running(output@) && !success ==> (r matches StartOutcome::Failed(m) && m@ == trim(
            output@,
        )),
{
    if contains(output, "already exist") || contains(output, "already running") {
        StartOutcome::AlreadyRunning
    } else if success {
        StartOutcome::Started
    } else {
        StartOutcome::Failed(owned(trim_str(output)))
    }
}

/// What stopping an emulator came to.
#[derive(Debug, PartialEq, Eq)]
pub enum StopOutcome {
    /// The emulator stopped.
    Stopped,
    /// It was not running.
    AlreadyStopped,
    /// It failed; the error output says why.
    Failed(String),
}

/// The emulator reports that the instance does not run.
pub open spec fn says_stopped(err: Seq<char>) -> bool {
    has_infix(err, "not running"@) || has_infix(err, "stopped"@)
}

/// Reads the answer of the emulator to a stop: success stops it; else an
/// error output that says it is not running is no failure.
pub fn classify_stop(success: bool, stderr: &str) -> (r: StopOutcome)
    ensures
        success ==> r is Stopped,
        !success && says_stopped(stderr@) ==> r is AlreadyStopped,
        !success && !says_stopped(stderr@) ==> (r matches StopOutcome::Failed(m) && m@ == stderr@),
{
    if success {
        StopOutcome::Stopped
    } else if contains(stderr, "not running") || contains(stderr, "stopped") {
        StopOutcome::AlreadyStopped
    } else {
        StopOutcome::Failed(owned(stderr))
    }
}

/// The emulators that `Emulator -list` prints: its non-blank lines, trimmed.
pub open spec fn listed_emulators(out: Seq<char>) -> Seq<Seq<char>> {
    text_lines(out).map_values(|l: Seq<char>| trim(l)).filter(|l: Seq<char>| l.len() > 0)
}

/// Reads the emulators from the output of `Emulator -list`.
pub fn parse_emulator_list(out: &str) -> (r: Vec<String>)
    ensures
        strings_view(r@) == listed_emulators(out@),
{
    let lines = lines_of(out);
    let ghost ts = text_lines(out@).map_values(|l: Seq<char>| trim(l));
    let ghost keep = |l: Seq<char>| l.len() > 0;
    let mut names: Vec<String> = Vec::new();
    let mut i: usize = 0;
    proof {
        reveal(Seq::filter);
        assert(ts.take(0) =~= Seq::<Seq<char>>::empty());
    }
    while i < lines.len()
        invariant
            i <= lines@.len(),
            strings_view(lines@) == text_lines(out@),
            ts == text_lines(out@).map_values(|l: Seq<char>| trim(l)),
            keep == (|l: Seq<char>| l.len() > 0),
            strings_view(names@) == ts.take(i as int).filter(keep),
        decreases lines.len() - i,
    {
        let line = trim_str(lines[i].as_str());
        let ghost before = strings_view(names@);
        proof {
            reveal(Seq::filter);
            assert(ts.take(i + 1).drop_last() =~= ts.take(i as int));
            assert(ts.take(i + 1).last() == ts[i as int]);
        }
        if line.unicode_len() != 0 {
            names.push(owned(line));
            assert(strings_view(names@) =~= before.push(ts[i as int]));
        }
        i = i + 1;
    }
    assert(ts.take(i as int) =~= ts);
    names
}


/// Reads the answer of a forced stop: success stops the emulator; a
/// failure without error output found no process, so the emulator was not
/// running; else the error output says why it failed.
pub fn classify_kill(success: bool, stderr: &str) -> (r: StopOutcome)
    ensures
        success ==> r is Stopped,
        !success && trim(stderr@).len() == 0 ==> r is AlreadyStopped,
        !success && trim(stderr@).len() > 0 ==> (r matches StopOutcome::Failed(m) && m@ == stderr@),
{
    if success {
        StopOutcome::Stopped
    } else if trim_str(stderr).unicode_len() == 0 {
        StopOutcome::AlreadyStopped
    } else {
        StopOutcome::Failed(owned(stderr))
    }
}

/// The header that `heco emulator list` prints before it lists.
pub open spec fn list_header() -> Seq<char> {
    "Emulators:"@
}

/// What `heco emulator list` prints after its header: each emulator
/// indented by two blanks, or a note that there is none.
pub open spec fn list_lines(names: Seq<Seq<char>>) -> Seq<Seq<char>> {
    if names.len() == 0 {
        seq!["  No emulators found."@]
    } else {
        names.map_values(|n: Seq<char>| "  "@ + n)
    }
}

/// The header of `heco emulator list` (see `list_header`).
pub fn emulator_list_header() -> (r: String)
    ensures
        r@ == list_header(),
{
    owned("Emulators:")
}

/// The lines of `heco emulator list`, given the emulators that the
/// emulator listed: the header, then `list_lines`.
pub fn handle_list(names: &Vec<String>) -> (r: Vec<String>)
    ensures
        strings_view(r@) == seq![list_header()] + list_lines(strings_view(names@)),
{
    let ghost want = list_lines(strings_view(names@));
    let mut out: Vec<String> = Vec::new();
    out.push(emulator_list_header());
    if names.len() == 0 {
        out.push(owned("  No emulators found."));
        assert(strings_view(out@) =~= seq![list_header()] + want);
        return out;
    }
    let mut i: usize = 0;
    while i < names.len()
        invariant
            i <= names@.len(),
            names@.len() > 0,
            want == strings_view(names@).map_values(|n: Seq<char>| "  "@ + n),
            strings_view(out@) == seq![list_header()] + want.take(i as int),
        decreases names.len() - i,
    {
        let ghost before = strings_view(out@);
        out.push(concat2("  ", names[i].as_str()));
        assert(strings_view(out@) =~= before.push(want[i as int]));
        assert(want.take(i + 1) =~= want.take(i as int).push(want[i as int]));
        i = i + 1;
    }
    assert(want.take(i as int) =~= want);
    out
}

} // verus!

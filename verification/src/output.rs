//! Output settings and the wording of the closing status line.
use crate::text::{concat2, concat3, owned, trim, trim_str};
use vstd::prelude::*;

verus! {

/// The width in which status verbs are right-aligned.
pub const STATUS_WIDTH: usize = 12;

/// How much `heco` prints: quiet mode and the verbosity level.
#[derive(Debug, Clone, Copy, PartialEq, Eq, Structural)]
pub struct OutputSettings {
    pub quiet: bool,
    pub verbose: u8,
}

impl OutputSettings {
    /// Settings that print normally: not quiet, verbosity 0.
    pub fn new() -> (s: OutputSettings)
        ensures
            !s.quiet,
            s.verbose == 0,
    {
        OutputSettings { quiet: false, verbose: 0 }
    }
}

/// Turns quiet mode on or off; the verbosity stays.
pub fn set_quiet(settings: &mut OutputSettings, quiet: bool)
    ensures
        final(settings).quiet == quiet,
        final(settings).verbose == old(settings).verbose,
{
    settings.quiet = quiet;
}

/// Whether quiet mode is on.
pub fn is_quiet(settings: &OutputSettings) -> (b: bool)
    ensures
        b == settings.quiet,
{
    settings.quiet
}

/// Sets the verbosity level; quiet mode stays.
pub fn set_verbose(settings: &mut OutputSettings, level: u8)
    ensures
        final(settings).verbose == level,
        final(settings).quiet == old(settings).quiet,
{
    settings.verbose = level;
}

/// The verbosity level.
pub fn verbose_level(settings: &OutputSettings) -> (l: u8)
    ensures
        l == settings.verbose,
{
    settings.verbose
}

/// How `std::time::Duration`'s `Debug` writes a duration with two decimals
/// (`{:.2?}`): the number in the largest fitting unit and the unit.
pub uninterp spec fn elapsed_text(secs: u64, nanos: u32) -> Seq<char>;

/// Formats `Duration::new(secs, nanos)` with `{:.2?}`. The contract only
/// names the text; the unit selection and rounding of `Duration`'s `Debug`
/// impl are not restated.
#[verifier::external_body]
pub(crate) fn format_elapsed(secs: u64, nanos: u32) -> (r: String)
    requires
        nanos < 1_000_000_000,
    ensures
        r@ == elapsed_text(secs, nanos),
{
    format!("{:.2?}", std::time::Duration::new(secs, nanos))
}

/// The description of the closing `Finished` status line, from the time
/// as written: `in <time>`, or the message followed by ` in <time>` when it
/// is not blank.
pub open spec fn finished_line(message: Seq<char>, time: Seq<char>) -> Seq<char> {
    if trim(message).len() == 0 {
        "in "@ + time
    } else {
        message + " in "@ + time
    }
}

/// The description of the closing `Finished` status line for a step that
/// took `secs` seconds and `nanos` nanoseconds.
pub open spec fn finished_text(message: Seq<char>, secs: u64, nanos: u32) -> Seq<char> {
    finished_line(message, elapsed_text(secs, nanos))
}

/// The description of the `Finished` status line from the time as written
/// (see `finished_line`).
pub fn finished_description(message: &str, time: &str) -> (r: String)
    ensures
        r@ == finished_line(message@, time@),
{
    if trim_str(message).unicode_len() == 0 {
        concat2("in ", time)
    } else {
        concat3(message, " in ", time)
    }
}

/// The description of the `Finished` status line for a step that took
/// `secs` seconds and `nanos` nanoseconds (see `finished_text`).
pub fn finished(message: &str, secs: u64, nanos: u32) -> (r: String)
    requires
        nanos < 1_000_000_000,
    ensures
        r@ == finished_text(message@, secs, nanos),
{
    let time = format_elapsed(secs, nanos);
    finished_description(message, time.as_str())
}

} // verus!

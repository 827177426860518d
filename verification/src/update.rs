//! `heco update`: comparing versions and choosing how to update.
use crate::numeric::{parse_u32, unsigned_at_most};
use crate::text::{contains, has_infix, owned, split_char, split_pieces, strings_view};
use vstd::prelude::*;

verus! {

/// Arguments of `heco update`.
pub struct UpdateArgs {}

/// The number that a version piece writes, 0 when it is not a `u32`.
pub open spec fn piece_value(p: Seq<char>) -> nat {
    match unsigned_at_most(p, u32::MAX as nat) {
        Some(v) => v,
        None => 0,
    }
}

/// The numbers of a version.
pub open spec fn version_numbers(s: Seq<char>) -> Seq<nat> {
    split_pieces(s, '.').map_values(|p: Seq<char>| piece_value(p))
}

/// `latest` is above `current`: at the first position where they differ
/// within the shorter one, `latest` is larger; with no such position,
/// `latest` is longer.
pub open spec fn lex_newer(current: Seq<nat>, latest: Seq<nat>) -> bool
    decreases current.len(),
{
    if current.len() == 0 || latest.len() == 0 {
        latest.len() > current.len()
    } else if latest[0] > current[0] {
        true
    } else if latest[0] < current[0] {
        false
    } else {
        lex_newer(current.drop_first(), latest.drop_first())
    }
}

/// Version `latest` is newer than version `current`.
pub open spec fn version_newer(current: Seq<char>, latest: Seq<char>) -> bool {
    lex_newer(version_numbers(current), version_numbers(latest))
}

/// Whether version `latest` is newer than version `current` (see
/// `version_newer`).
pub fn is_newer_version(current: &str, latest: &str) -> (b: bool)
    ensures
        b == version_newer(current@, latest@),
{
    let current_parts = split_char(current, '.');
    let latest_parts = split_char(latest, '.');
    let ghost cn = version_numbers(current@);
    let ghost ln = version_numbers(latest@);
    let n = if current_parts.len() < latest_parts.len() {
        current_parts.len()
    } else {
        latest_parts.len()
    };
    let mut i: usize = 0;
    assert(cn.skip(0) =~= cn);
    assert(ln.skip(0) =~= ln);
    while i < n
        invariant
            i <= n,
            n <= current_parts@.len(),
            n <= latest_parts@.len(),
            n == current_parts@.len() || n == latest_parts@.len(),
            cn == version_numbers(current@),
            ln == version_numbers(latest@),
            cn.len() == current_parts@.len(),
            ln.len() == latest_parts@.len(),
            strings_view(current_parts@) == split_pieces(current@, '.'),
            strings_view(latest_parts@) == split_pieces(latest@, '.'),
            lex_newer(cn, ln) == lex_newer(cn.skip(i as int), ln.skip(i as int)),
        decreases n - i,
    {
        let curr_num: u32 = match parse_u32(current_parts[i].as_str()) {
            Some(v) => v,
            None => 0,
        };
        let latest_num: u32 = match parse_u32(latest_parts[i].as_str()) {
            Some(v) => v,
            None => 0,
        };
        assert(cn[i as int] == piece_value(current_parts@[i as int]@));
        assert(ln[i as int] == piece_value(latest_parts@[i as int]@));
        assert(cn.skip(i as int)[0] == cn[i as int]);
        assert(ln.skip(i as int)[0] == ln[i as int]);
        if latest_num > curr_num {
            return true;
        } else if latest_num < curr_num {
            return false;
        }
        assert(cn.skip(i as int).drop_first() =~= cn.skip(i + 1));
        assert(ln.skip(i as int).drop_first() =~= ln.skip(i + 1));
        i = i + 1;
    }
    latest_parts.len() > current_parts.len()
}

/// No version is newer than itself.
pub proof fn lemma_not_newer_than_itself(v: Seq<char>)
    ensures
        !version_newer(v, v),
{
    lemma_lex_irreflexive(version_numbers(v));
}

/// No list of numbers is newer than itself.
proof fn lemma_lex_irreflexive(a: Seq<nat>)
    ensures
        !lex_newer(a, a),
    decreases a.len(),
{
    if a.len() > 0 {
        lemma_lex_irreflexive(a.drop_first());
    }
}

/// Of two versions, at most one is newer than the other.
pub proof fn lemma_newer_asymmetric(a: Seq<char>, b: Seq<char>)
    ensures
        !(version_newer(a, b) && version_newer(b, a)),
{
    lemma_lex_asymmetric(version_numbers(a), version_numbers(b));
}

/// Of two lists of numbers, at most one is newer than the other.
proof fn lemma_lex_asymmetric(a: Seq<nat>, b: Seq<nat>)
    ensures
        !(lex_newer(a, b) && lex_newer(b, a)),
    decreases a.len(),
{
    if a.len() > 0 && b.len() > 0 && a[0] == b[0] {
        lemma_lex_asymmetric(a.drop_first(), b.drop_first());
    }
}

/// A version newer than one that is newer than a third is newer than the
/// third.
pub proof fn lemma_newer_transitive(a: Seq<char>, b: Seq<char>, c: Seq<char>)
    requires
        version_newer(a, b),
        version_newer(b, c),
    ensures
        version_newer(a, c),
{
    lemma_lex_transitive(version_numbers(a), version_numbers(b), version_numbers(c));
}

/// Being newer is transitive on lists of numbers.
proof fn lemma_lex_transitive(a: Seq<nat>, b: Seq<nat>, c: Seq<nat>)
    requires
        lex_newer(a, b),
        lex_newer(b, c),
    ensures
        lex_newer(a, c),
    decreases a.len(),
{
    if a.len() > 0 && b.len() > 0 && c.len() > 0 && a[0] == b[0] && b[0] == c[0] {
        lemma_lex_transitive(a.drop_first(), b.drop_first(), c.drop_first());
    }
}

/// How `heco` was installed.
#[derive(Debug, Clone, Copy, PartialEq, Eq, Structural)]
pub enum InstallMethod {
    Cargo,
    Homebrew,
    Winget,
}

/// What `str::to_lowercase` gives for a string.
pub uninterp spec fn lowercased(s: Seq<char>) -> Seq<char>;

/// Calls `str::to_lowercase`. The Unicode case mapping is not restated; the
/// result is named.
#[verifier::external_body]
fn to_lowercase(s: &str) -> (r: String)
    ensures
        r@ == lowercased(s@),
{
    s.to_lowercase()
}

/// The installation method that the path of the running executable, in
/// lower case, points to: a Cargo `bin` directory, Homebrew, or Winget.
pub open spec fn method_of(lower: Seq<char>) -> Option<InstallMethod> {
    if has_infix(lower, ".cargo/bin"@) || has_infix(lower, ".cargo\\bin"@) {
        Some(InstallMethod::Cargo)
    } else if has_infix(lower, "homebrew"@) || has_infix(lower, "linuxbrew"@) || has_infix(
        lower,
        "cellar"@,
    ) {
        Some(InstallMethod::Homebrew)
    } else if has_infix(lower, "windowsapps"@) || has_infix(lower, "winget"@) || has_infix(
        lower,
        "winget\\packages"@,
    ) {
        Some(InstallMethod::Winget)
    } else {
        None
    }
}

/// Works out how `heco` was installed from the path of its executable.
pub fn detect_install_method(exe_path: &str) -> (r: Option<InstallMethod>)
    ensures
        r == method_of(lowercased(exe_path@)),
{
    let lower = to_lowercase(exe_path);
    method_of_lowercase_path(lower.as_str())
}

/// The installation method that a lower-case executable path points to
/// (see `method_of`).
pub fn method_of_lowercase_path(s: &str) -> (r: Option<InstallMethod>)
    ensures
        r == method_of(s@),
{
    if contains(s, ".cargo/bin") || contains(s, ".cargo\\bin") {
        Some(InstallMethod::Cargo)
    } else if contains(s, "homebrew") || contains(s, "linuxbrew") || contains(s, "cellar") {
        Some(InstallMethod::Homebrew)
    } else if contains(s, "windowsapps") || contains(s, "winget") || contains(
        s,
        "winget\\packages",
    ) {
        Some(InstallMethod::Winget)
    } else {
        None
    }
}

/// The program and arguments that update `heco` for an installation method.
pub open spec fn update_command_of(m: InstallMethod) -> (Seq<char>, Seq<Seq<char>>) {
    match m {
        InstallMethod::Cargo => ("cargo"@, seq!["install"@, "heco"@]),
        InstallMethod::Homebrew => ("brew"@, seq!["upgrade"@, "heco"@]),
        InstallMethod::Winget => ("winget"@, seq!["upgrade"@, "HecO-CLI.HecO"@, "-s"@, "winget"@]),
    }
}

/// The command that updates `heco` (see `update_command_of`).
pub fn update_command(m: InstallMethod) -> (r: (String, Vec<String>))
    ensures
        (r.0@, r.1@.map_values(|a: String| a@)) == update_command_of(m),
{
    let mut args: Vec<String> = Vec::new();
    let program = match m {
        InstallMethod::Cargo => {
            args.push(owned("install"));
            args.push(owned("heco"));
            owned("cargo")
        },
        InstallMethod::Homebrew => {
            args.push(owned("upgrade"));
            args.push(owned("heco"));
            owned("brew")
        },
        InstallMethod::Winget => {
            args.push(owned("upgrade"));
            args.push(owned("HecO-CLI.HecO"));
            args.push(owned("-s"));
            args.push(owned("winget"));
            owned("winget")
        },
    };
    assert(args@.map_values(|a: String| a@) =~= update_command_of(m).1);
    (program, args)
}

} // verus!

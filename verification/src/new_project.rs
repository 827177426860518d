//! `heco new`: its arguments and the details of the project to create.
use crate::numeric::{parse_u32, unsigned_at_most};
use crate::paths::{file_name, file_name_of, Platform};
use crate::text::{concat2, owned, strings_view};
use vstd::prelude::*;

verus! {

/// Arguments of `heco new`.
pub struct NewArgs {
    /// Path to create the project at.
    pub path: String,
    /// Project name; the last component of the path when absent.
    pub name: Option<String>,
    pub bundle_name: Option<String>,
    pub api_level: Option<u32>,
}

/// The name of the new project: the one given, else the last component of
/// its path, else the path itself.
pub open spec fn project_name_of(pl: Platform, path: Seq<char>, custom: Option<Seq<char>>) -> Seq<char> {
    match custom {
        Some(n) => n,
        None => match file_name_of(pl, path) {
            Some(f) => f,
            None => path,
        },
    }
}

/// The name of the new project (see `project_name_of`).
pub fn get_project_name(pl: Platform, path: &str, custom_name: &Option<String>) -> (r: String)
    ensures
        r@ == project_name_of(pl, path@, crate::text::opt_string_view(*custom_name)),
{
    if let Some(name) = custom_name {
        return owned(name.as_str());
    }
    match file_name(pl, path) {
        Some(f) => owned(f),
        None => owned(path),
    }
}

/// The API level that an answer to the prompt gives: the number typed, or
/// 22 when it is not one.
pub open spec fn api_level_of(answer: Seq<char>) -> u32 {
    match unsigned_at_most(answer, u32::MAX as nat) {
        Some(v) => v as u32,
        None => 22,
    }
}

/// Reads the API level from an answer to the prompt (see `api_level_of`).
pub fn api_level_from_input(answer: &str) -> (r: u32)
    ensures
        r == api_level_of(answer@),
{
    match parse_u32(answer) {
        Some(v) => v,
        None => 22,
    }
}

/// The summary that `heco new` prints of the project it creates.
pub open spec fn new_summary(path: Seq<char>, name: Seq<char>, bundle: Seq<char>, level: Seq<char>) -> Seq<Seq<char>> {
    seq![
        "Creating new HarmonyOS project:"@,
        "  Project path: "@ + path,
        "  Project name: "@ + name,
        "  Bundle name: "@ + bundle,
        "  API level: "@ + level,
    ]
}

/// Builds the summary of the project to create; `api_level` is the API
/// level in decimal.
pub fn new_project_lines(path: &str, name: &str, bundle_name: &str, api_level: &str) -> (r: Vec<String>)
    ensures
        strings_view(r@) == new_summary(path@, name@, bundle_name@, api_level@),
{
    let mut v: Vec<String> = Vec::new();
    v.push(owned("Creating new HarmonyOS project:"));
    v.push(concat2("  Project path: ", path));
    v.push(concat2("  Project name: ", name));
    v.push(concat2("  Bundle name: ", bundle_name));
    v.push(concat2("  API level: ", api_level));
    assert(strings_view(v@) =~= new_summary(path@, name@, bundle_name@, api_level@));
    v
}

} // verus!

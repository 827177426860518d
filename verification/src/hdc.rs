//! Devices reached through `hdc`: finding the tool, reading its list of
//! targets, and choosing a device's display name.
use crate::text::{
    chars_of, contains, has_infix, has_prefix, is_whitespace, is_ws, lines_of, owned,
    starts_with, str_eq, strings_view, text_lines, trim, trim_str,
};
use vstd::prelude::*;

verus! {

/// Why `hdc` cannot be used.
#[derive(Debug, PartialEq, Eq)]
pub enum HdcError {
    /// No `hdc` binary lies in the configured installation.
    BinaryNotFound,
}

/// The message of an `hdc` that cannot be used.
pub open spec fn hdc_error_text(e: HdcError) -> Seq<char> {
    match e {
        HdcError::BinaryNotFound => "Could not find hdc binary. Please ensure DevEco Studio is installed and configured in heco env."@,
    }
}

impl HdcError {
    /// The message shown for the error (see `hdc_error_text`).
    pub fn message(&self) -> (r: &'static str)
        ensures
            r@ == hdc_error_text(*self),
    {
        match self {
            HdcError::BinaryNotFound => "Could not find hdc binary. Please ensure DevEco Studio is installed and configured in heco env.",
        }
    }
}

/// The `hdc` binary, if the configured installation has one (`hdc_path`
/// is where it was found, if anywhere).
pub fn find_hdc_binary(hdc_path: Option<String>) -> (r: Result<String, HdcError>)
    ensures
        match hdc_path {
            Some(p) => r matches Ok(q) && q@ == p@,
            None => r == Err::<String, HdcError>(HdcError::BinaryNotFound),
        },
{
    match hdc_path {
        Some(p) => Ok(p),
        None => Err(HdcError::BinaryNotFound),
    }
}

/// The first word of a line: up to its first whitespace.
pub open spec fn first_word(s: Seq<char>) -> Seq<char>
    decreases s.len(),
{
    if s.len() == 0 || is_ws(s[0]) {
        Seq::empty()
    } else {
        seq![s[0]] + first_word(s.drop_first())
    }
}

/// The first word of `s` (for a trimmed, non-blank line this is what
/// `split_whitespace().next()` gives).
pub fn first_word_of(s: &str) -> (r: &str)
    ensures
        r@ == first_word(s@),
{
    let v = chars_of(s);
    let mut i: usize = 0;
    assert(s@.skip(0) =~= s@);
    assert(s@.take(0) =~= Seq::<char>::empty());
    while i < v.len() && !is_whitespace(v[i])
        invariant
            v@ == s@,
            i <= v.len(),
            first_word(s@) == s@.take(i as int) + first_word(s@.skip(i as int)),
        decreases v.len() - i,
    {
        assert(s@.skip(i as int).drop_first() =~= s@.skip(i + 1));
        assert(s@.take(i + 1) =~= s@.take(i as int) + seq![s@[i as int]]);
        i = i + 1;
    }
    assert(first_word(s@.skip(i as int)) =~= Seq::<char>::empty());
    assert(s@.take(i as int) =~= s@.subrange(0, i as int));
    s.substring_char(0, i)
}

/// The targets that `hdc list targets` prints: the first word of every
/// line that is neither blank nor `[Empty]`, in order.
pub open spec fn listed_targets(out: Seq<char>) -> Seq<Seq<char>> {
    text_lines(out).filter(|l: Seq<char>| trim(l).len() > 0 && !has_prefix(trim(l), "[Empty]"@)).map_values(
        |l: Seq<char>| first_word(trim(l)),
    )
}

/// Reads the targets from the output of `hdc list targets`.
pub fn parse_targets(out: &str) -> (r: Vec<String>)
    ensures
        strings_view(r@) == listed_targets(out@),
{
    let lines = lines_of(out);
    let ghost ls = text_lines(out@);
    let ghost keep = |l: Seq<char>| trim(l).len() > 0 && !has_prefix(trim(l), "[Empty]"@);
    let mut targets: Vec<String> = Vec::new();
    let mut i: usize = 0;
    proof {
        reveal(Seq::filter);
        assert(ls.take(0) =~= Seq::<Seq<char>>::empty());
    }
    while i < lines.len()
        invariant
            i <= lines@.len(),
            strings_view(lines@) == ls,
            keep == (|l: Seq<char>| trim(l).len() > 0 && !has_prefix(trim(l), "[Empty]"@)),
            strings_view(targets@) == ls.take(i as int).filter(keep).map_values(
                |l: Seq<char>| first_word(trim(l)),
            ),
        decreases lines.len() - i,
    {
        let line = trim_str(lines[i].as_str());
        let ghost before = strings_view(targets@);
        proof {
            reveal(Seq::filter);
            assert(ls.take(i + 1).drop_last() =~= ls.take(i as int));
            assert(ls.take(i + 1).last() == ls[i as int]);
        }
        if line.unicode_len() != 0 && !starts_with(line, "[Empty]") {
            targets.push(owned(first_word_of(line)));
            assert(strings_view(targets@) =~= before.push(first_word(trim(ls[i as int]))));
        }
        i = i + 1;
    }
    assert(ls.take(i as int) =~= ls);
    targets
}

/// The device properties that name a device, in the order they are asked.
#[derive(Debug, Clone, Copy, PartialEq, Eq, Structural)]
pub enum DeviceQuery {
    /// The name of an emulator instance.
    EmulatorName,
    /// The product name of a physical device.
    ProductName,
    /// The product model.
    ProductModel,
}

impl DeviceQuery {
    /// The system parameter that `hdc shell param get` reads for the query.
    pub fn param_key(&self) -> (r: &'static str)
        ensures
            r@ == param_key_of(*self),
    {
        match self {
            DeviceQuery::EmulatorName => "ohos.qemu.hvd.name",
            DeviceQuery::ProductName => "const.product.name",
            DeviceQuery::ProductModel => "const.product.model",
        }
    }
}

/// The system parameter read for each query.
pub open spec fn param_key_of(q: DeviceQuery) -> Seq<char> {
    match q {
        DeviceQuery::EmulatorName => "ohos.qemu.hvd.name"@,
        DeviceQuery::ProductName => "const.product.name"@,
        DeviceQuery::ProductModel => "const.product.model"@,
    }
}

/// The queries, in the order in which they are tried.
pub fn device_queries() -> (r: Vec<DeviceQuery>)
    ensures
        r@ == seq![DeviceQuery::EmulatorName, DeviceQuery::ProductName, DeviceQuery::ProductModel],
{
    let mut v: Vec<DeviceQuery> = Vec::new();
    v.push(DeviceQuery::EmulatorName);
    v.push(DeviceQuery::ProductName);
    v.push(DeviceQuery::ProductModel);
    assert(v@ =~= seq![DeviceQuery::EmulatorName, DeviceQuery::ProductName, DeviceQuery::ProductModel]);
    v
}

/// The name that the answer to a query gives: the trimmed answer, unless it
/// is blank or reports a failure (`fail!`, `not found`); a product name of
/// `emulator` says too little and is passed over.
pub open spec fn accepted_name(q: DeviceQuery, answer: Seq<char>) -> Option<Seq<char>> {
    let t = trim(answer);
    if t.len() == 0 || has_infix(t, "fail!"@) || has_infix(t, "not found"@) || (q
        == DeviceQuery::ProductName && t == "emulator"@) {
        None
    } else {
        Some(t)
    }
}

/// The device name that an answer to a query gives (see `accepted_name`).
pub fn accept_device_name(q: DeviceQuery, answer: &str) -> (r: Option<String>)
    ensures
        crate::text::opt_string_view(r) == accepted_name(q, answer@),
{
    let t = trim_str(answer);
    if t.unicode_len() == 0 || contains(t, "fail!") || contains(t, "not found") || (q
        == DeviceQuery::ProductName && str_eq(t, "emulator")) {
        None
    } else {
        Some(owned(t))
    }
}

/// The name of a device that no query names.
pub fn unknown_device_name() -> (r: String)
    ensures
        r@ == "Unknown Device"@,
{
    owned("Unknown Device")
}

} // verus!

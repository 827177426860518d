//! Recognising warning and error lines in tool output.
use crate::text::{
    has_prefix, lemma_trim_start_len, owned, starts_with, strip_prefix, trim, trim_start,
    trim_start_str, trim_str,
};
use vstd::prelude::*;

verus! {

/// The kind of a diagnostic line.
#[derive(Debug, Clone, Copy, PartialEq, Eq, Hash, Structural)]
pub enum LogType {
    Warning,
    Error,
}

/// A prefix table as plain values: each kind with its prefixes, in order.
pub open spec fn table_view(t: Seq<(LogType, &[&str])>) -> Seq<(LogType, Seq<Seq<char>>)> {
    t.map_values(|e: (LogType, &[&str])| (e.0, e.1@.map_values(|p: &str| p@)))
}

/// The first prefix of `ps` that `line` starts with decides: its kind and the
/// rest of the line after it, trimmed.
pub open spec fn match_group(line: Seq<char>, kind: LogType, ps: Seq<Seq<char>>) -> Option<
    (LogType, Seq<char>),
>
    decreases ps.len(),
{
    if ps.len() == 0 {
        None
    } else if has_prefix(line, ps[0]) {
        Some((kind, trim(line.skip(ps[0].len() as int))))
    } else {
        match_group(line, kind, ps.drop_first())
    }
}

/// The groups are tried in order; within a group its prefixes in order.
pub open spec fn match_table(line: Seq<char>, table: Seq<(LogType, Seq<Seq<char>>)>) -> Option<
    (LogType, Seq<char>),
>
    decreases table.len(),
{
    if table.len() == 0 {
        None
    } else {
        match match_group(line, table[0].0, table[0].1) {
            Some(r) => Some(r),
            None => match_table(line, table.drop_first()),
        }
    }
}

/// What `parse_log_type` gives for `line` and a prefix table: the line is
/// trimmed, then matched against the table.
pub open spec fn log_type_of(line: Seq<char>, table: Seq<(LogType, Seq<Seq<char>>)>) -> Option<
    (LogType, Seq<char>),
> {
    match_table(trim(line), table)
}

/// Classifies a line by the first prefix of `prefixes` that its trimmed form
/// starts with, and returns the kind together with the trimmed remainder.
pub fn parse_log_type(line: &str, prefixes: &[(LogType, &[&str])]) -> (r: Option<(LogType, String)>)
    ensures
        match log_type_of(line@, table_view(prefixes@)) {
            Some((k, c)) => r matches Some((k2, c2)) && k2 == k && c2@ == c,
            None => r is None,
        },
{
    let line_trim = trim_str(line);
    let ghost table = table_view(prefixes@);
    let mut i: usize = 0;
    assert(table.skip(0) =~= table);
    while i < prefixes.len()
        invariant
            i <= prefixes@.len(),
            table == table_view(prefixes@),
            line_trim@ == trim(line@),
            match_table(line_trim@, table) == match_table(line_trim@, table.skip(i as int)),
        decreases prefixes.len() - i,
    {
        let (log_type, variants) = prefixes[i];
        let ghost ps = variants@.map_values(|p: &str| p@);
        assert(table.skip(i as int)[0] == (log_type, ps));
        let mut j: usize = 0;
        assert(ps.skip(0) =~= ps);
        while j < variants.len()
            invariant
                j <= variants@.len(),
                i < prefixes@.len(),
                ps == variants@.map_values(|p: &str| p@),
                table == table_view(prefixes@),
                table.skip(i as int)[0] == (log_type, ps),
                match_table(line_trim@, table) == match_table(line_trim@, table.skip(i as int)),
                line_trim@ == trim(line@),
                match_group(line_trim@, log_type, ps) == match_group(
                    line_trim@,
                    log_type,
                    ps.skip(j as int),
                ),
            decreases variants.len() - j,
        {
            let prefix = variants[j];
            assert(ps.skip(j as int)[0] == prefix@);
            if let Some(rest) = strip_prefix(line_trim, prefix) {
                let content = owned(trim_str(rest));
                assert(match_group(line_trim@, log_type, ps.skip(j as int)) == Some(
                    (log_type, content@),
                ));
                assert(match_table(line_trim@, table.skip(i as int)) == Some(
                    (log_type, content@),
                ));
                return Some((log_type, content));
            }
            assert(ps.skip(j as int).drop_first() =~= ps.skip(j + 1));
            j = j + 1;
        }
        assert(ps.skip(j as int) =~= Seq::<Seq<char>>::empty());
        assert(table.skip(i as int).drop_first() =~= table.skip(i + 1));
        i = i + 1;
    }
    assert(table.skip(i as int) =~= Seq::<(LogType, Seq<Seq<char>>)>::empty());
    None
}

/// Removing `p` from the front of `s` again and again, each time together
/// with the whitespace that follows it.
pub open spec fn strip_repeated(s: Seq<char>, p: Seq<char>) -> Seq<char>
    decreases s.len(),
{
    if p.len() > 0 && has_prefix(s, p) {
        proof {
            lemma_trim_start_len(s.skip(p.len() as int));
        }
        strip_repeated(trim_start(s.skip(p.len() as int)), p)
    } else {
        s
    }
}

/// Removes `prefix` from the front of `line` as long as it is there, with
/// the whitespace after each occurrence.
pub fn strip_repeated_prefix<'a>(line: &'a str, prefix: &str) -> (r: &'a str)
    requires
        prefix@.len() > 0,
    ensures
        r@ == strip_repeated(line@, prefix@),
        !has_prefix(r@, prefix@),
{
    let mut cur = line;
    while starts_with(cur, prefix)
        invariant
            prefix@.len() > 0,
            strip_repeated(line@, prefix@) == strip_repeated(cur@, prefix@),
        decreases cur@.len(),
    {
        let rest = match strip_prefix(cur, prefix) {
            Some(r) => r,
            None => cur,
        };
        proof {
            lemma_trim_start_len(rest@);
        }
        cur = trim_start_str(rest);
    }
    cur
}

} // verus!

//! File system paths as text, for the two platforms that DevEco Studio runs
//! on: joining a path with a component, and telling whether two paths name
//! the same place component by component.
use crate::text::{chars_of, concat2, concat3, owned};
use vstd::prelude::*;

verus! {

/// The platform whose path rules apply.
#[derive(Debug, Clone, Copy, PartialEq, Eq, Structural)]
pub enum Platform {
    MacOs,
    Windows,
}

/// A character that separates path components on `pl`.
pub open spec fn is_sep(pl: Platform, c: char) -> bool {
    c == '/' || (pl == Platform::Windows && c == '\\')
}

/// The separator that joining inserts on `pl`.
pub open spec fn main_sep(pl: Platform) -> Seq<char> {
    if pl == Platform::Windows {
        seq!['\\']
    } else {
        seq!['/']
    }
}

/// An ASCII letter.
pub open spec fn is_ascii_alpha(c: char) -> bool {
    ('a' <= c && c <= 'z') || ('A' <= c && c <= 'Z')
}

/// A Windows path that starts with a drive, such as `C:`.
pub open spec fn has_drive(pl: Platform, s: Seq<char>) -> bool {
    pl == Platform::Windows && s.len() >= 2 && is_ascii_alpha(s[0]) && s[1] == ':'
}

/// `PathBuf::push` of a component `comp` onto `base`: an absolute component
/// (rooted on macOS, with a drive on Windows) replaces the base; on Windows
/// a rooted component keeps the drive of the base; else the component is
/// appended, with a separator unless the base is empty, ends with a
/// separator or is a bare drive.
pub open spec fn join_path(pl: Platform, base: Seq<char>, comp: Seq<char>) -> Seq<char> {
    if pl == Platform::MacOs && comp.len() > 0 && is_sep(pl, comp[0]) {
        comp
    } else if has_drive(pl, comp) {
        comp
    } else if pl == Platform::Windows && comp.len() > 0 && is_sep(pl, comp[0]) {
        if has_drive(pl, base) {
            base.take(2) + comp
        } else {
            comp
        }
    } else if base.len() == 0 || is_sep(pl, base.last()) || (has_drive(pl, base) && base.len()
        == 2) {
        base + comp
    } else {
        base + main_sep(pl) + comp
    }
}

/// `base` joined with each of `comps` in turn.
pub open spec fn join_all(pl: Platform, base: Seq<char>, comps: Seq<Seq<char>>) -> Seq<char>
    decreases comps.len(),
{
    if comps.len() == 0 {
        base
    } else {
        join_path(pl, join_all(pl, base, comps.drop_last()), comps.last())
    }
}

/// Joins a path with a component (see `join_path`).
pub fn join(pl: Platform, base: &str, comp: &str) -> (r: String)
    ensures
        r@ == join_path(pl, base@, comp@),
{
    let b = chars_of(base);
    let c = chars_of(comp);
    let comp_rooted = c.len() > 0 && (c[0] == '/' || (pl == Platform::Windows && c[0] == '\\'));
    let base_drive = pl == Platform::Windows && b.len() >= 2 && (('a' <= b[0] && b[0] <= 'z') || (
    'A' <= b[0] && b[0] <= 'Z')) && b[1] == ':';
    let comp_drive = pl == Platform::Windows && c.len() >= 2 && (('a' <= c[0] && c[0] <= 'z') || (
    'A' <= c[0] && c[0] <= 'Z')) && c[1] == ':';
    if pl == Platform::MacOs && comp_rooted {
        return owned(comp);
    }
    if comp_drive {
        return owned(comp);
    }
    if pl == Platform::Windows && comp_rooted {
        if base_drive {
            assert(base@.take(2) =~= base@.subrange(0, 2));
            return concat2(base.substring_char(0, 2), comp);
        }
        return owned(comp);
    }
    let n = b.len();
    if n == 0 || b[n - 1] == '/' || (pl == Platform::Windows && b[n - 1] == '\\') || (base_drive
        && n == 2) {
        return concat2(base, comp);
    }
    let sep = if pl == Platform::Windows {
        "\\"
    } else {
        "/"
    };
    proof {
        reveal_strlit("\\");
        reveal_strlit("/");
    }
    concat3(base, sep, comp)
}

/// Joins a path with each of `comps` in turn.
pub fn join_many(pl: Platform, base: &str, comps: &[&str]) -> (r: String)
    ensures
        r@ == join_all(pl, base@, comps@.map_values(|c: &str| c@)),
{
    let ghost cv = comps@.map_values(|c: &str| c@);
    let mut cur = owned(base);
    let mut i: usize = 0;
    assert(cv.take(0) =~= Seq::<Seq<char>>::empty());
    while i < comps.len()
        invariant
            i <= comps@.len(),
            cv == comps@.map_values(|c: &str| c@),
            cur@ == join_all(pl, base@, cv.take(i as int)),
        decreases comps.len() - i,
    {
        let next = join(pl, cur.as_str(), comps[i]);
        assert(cv.take(i + 1).drop_last() =~= cv.take(i as int));
        cur = next;
        i = i + 1;
    }
    assert(cv.take(i as int) =~= cv);
    cur
}

/// The state of reading a path from left to right: the finished components
/// and the component being read.
pub open spec fn scan_parts(pl: Platform, s: Seq<char>) -> (Seq<Seq<char>>, Seq<char>)
    decreases s.len(),
{
    if s.len() == 0 {
        (Seq::empty(), Seq::empty())
    } else {
        let (done, cur) = scan_parts(pl, s.drop_last());
        if is_sep(pl, s.last()) {
            (if kept_part(cur) {
                done.push(cur)
            } else {
                done
            }, Seq::empty())
        } else {
            (done, cur.push(s.last()))
        }
    }
}

/// A component that counts when comparing paths: not empty and not `.`.
pub open spec fn kept_part(p: Seq<char>) -> bool {
    p.len() > 0 && p != seq!['.']
}

/// The named components of a path: its maximal runs of non-separators, apart
/// from `.`.
pub open spec fn path_parts(pl: Platform, s: Seq<char>) -> Seq<Seq<char>> {
    let (done, cur) = scan_parts(pl, s);
    if kept_part(cur) {
        done.push(cur)
    } else {
        done
    }
}

/// The path starts at the root.
pub open spec fn is_rooted(pl: Platform, s: Seq<char>) -> bool {
    s.len() > 0 && is_sep(pl, s[0])
}

/// A relative path that starts with the component `.`.
pub open spec fn starts_at_cur_dir(pl: Platform, s: Seq<char>) -> bool {
    s.len() > 0 && s[0] == '.' && (s.len() == 1 || is_sep(pl, s[1]))
}

/// Two paths have the same components, as `Path`'s `==` compares them:
/// whether they start at the root or at `.`, and their named components.
/// Drive and UNC prefixes are compared as part of the first component.
pub open spec fn same_path(pl: Platform, a: Seq<char>, b: Seq<char>) -> bool {
    &&& is_rooted(pl, a) == is_rooted(pl, b)
    &&& starts_at_cur_dir(pl, a) == starts_at_cur_dir(pl, b)
    &&& path_parts(pl, a) == path_parts(pl, b)
}

/// Whether a run of characters is a kept component.
fn is_kept(v: &Vec<char>, from: usize, to: usize) -> (b: bool)
    requires
        from <= to <= v.len(),
    ensures
        b == kept_part(v@.subrange(from as int, to as int)),
{
    if to == from {
        return false;
    }
    if to == from + 1 && v[from] == '.' {
        assert(v@.subrange(from as int, to as int) =~= seq!['.']);
        return false;
    }
    proof {
        let sub = v@.subrange(from as int, to as int);
        assert(sub.len() == to - from);
        if sub == seq!['.'] {
            assert(sub.len() == 1);
            assert(sub[0] == v@[from as int]);
        }
    }
    true
}

/// The named components of a path (see `path_parts`), as character
/// positions: each pair is the start and end of one component.
fn parts_of(pl: Platform, v: &Vec<char>) -> (r: Vec<(usize, usize)>)
    ensures
        r@.len() == path_parts(pl, v@).len(),
        forall|k: int|
            #![trigger r@[k]]
            0 <= k < r@.len() ==> r@[k].0 <= r@[k].1 <= v@.len() && v@.subrange(
                r@[k].0 as int,
                r@[k].1 as int,
            ) == path_parts(pl, v@)[k],
{
    let mut out: Vec<(usize, usize)> = Vec::new();
    let mut start: usize = 0;
    let mut i: usize = 0;
    while i < v.len()
        invariant
            start <= i <= v.len(),
            scan_parts(pl, v@.take(i as int)).1 == v@.subrange(start as int, i as int),
            out@.len() == scan_parts(pl, v@.take(i as int)).0.len(),
            forall|k: int|
                #![trigger out@[k]]
                0 <= k < out@.len() ==> out@[k].0 <= out@[k].1 <= v@.len() && v@.subrange(
                    out@[k].0 as int,
                    out@[k].1 as int,
                ) == scan_parts(pl, v@.take(i as int)).0[k],
        decreases v.len() - i,
    {
        assert(v@.take(i + 1).drop_last() =~= v@.take(i as int));
        assert(v@.take(i + 1).last() == v@[i as int]);
        let c = v[i];
        let ghost old_out = out@;
        let ghost old_done = scan_parts(pl, v@.take(i as int)).0;
        if c == '/' || (pl == Platform::Windows && c == '\\') {
            if is_kept(v, start, i) {
                out.push((start, i));
                assert forall|k: int| #![trigger out@[k]]
                    0 <= k < out@.len() implies out@[k].0 <= out@[k].1 <= v@.len() && v@.subrange(
                    out@[k].0 as int,
                    out@[k].1 as int,
                ) == scan_parts(pl, v@.take(i + 1)).0[k] by {
                    if k < old_out.len() {
                        assert(out@[k] == old_out[k]);
                    }
                }
            }
            start = i + 1;
            assert(v@.subrange(start as int, i + 1) =~= Seq::<char>::empty());
        } else {
            assert(v@.subrange(start as int, i + 1) =~= v@.subrange(start as int, i as int).push(
                c,
            ));
        }
        i = i + 1;
    }
    assert(v@.take(i as int) =~= v@);
    let ghost old_out = out@;
    if is_kept(v, start, i) {
        out.push((start, i));
        assert forall|k: int| #![trigger out@[k]]
            0 <= k < out@.len() implies out@[k].0 <= out@[k].1 <= v@.len() && v@.subrange(
            out@[k].0 as int,
            out@[k].1 as int,
        ) == path_parts(pl, v@)[k] by {
            if k < old_out.len() {
                assert(out@[k] == old_out[k]);
            }
        }
    }
    out
}

/// Whether two runs of characters are equal.
fn same_run(a: &Vec<char>, af: usize, at: usize, b: &Vec<char>, bf: usize, bt: usize) -> (r: bool)
    requires
        af <= at <= a.len(),
        bf <= bt <= b.len(),
    ensures
        r == (a@.subrange(af as int, at as int) == b@.subrange(bf as int, bt as int)),
{
    if at - af != bt - bf {
        proof {
            if a@.subrange(af as int, at as int) == b@.subrange(bf as int, bt as int) {
                assert(a@.subrange(af as int, at as int).len() == b@.subrange(
                    bf as int,
                    bt as int,
                ).len());
            }
        }
        return false;
    }
    let mut k: usize = 0;
    while k < at - af
        invariant
            af <= at <= a.len(),
            bf <= bt <= b.len(),
            at - af == bt - bf,
            k <= at - af,
            forall|m: int|
                0 <= m < k ==> #[trigger] a@.subrange(af as int, at as int)[m] == b@.subrange(
                    bf as int,
                    bt as int,
                )[m],
        decreases at - af - k,
    {
        if a[af + k] != b[bf + k] {
            assert(a@.subrange(af as int, at as int)[k as int] != b@.subrange(
                bf as int,
                bt as int,
            )[k as int]);
            return false;
        }
        k = k + 1;
    }
    assert(a@.subrange(af as int, at as int) =~= b@.subrange(bf as int, bt as int));
    true
}

/// Whether two paths name the same place (see `same_path`).
pub fn paths_equal(pl: Platform, a: &str, b: &str) -> (r: bool)
    ensures
        r == same_path(pl, a@, b@),
{
    let va = chars_of(a);
    let vb = chars_of(b);
    let rooted_a = va.len() > 0 && (va[0] == '/' || (pl == Platform::Windows && va[0] == '\\'));
    let rooted_b = vb.len() > 0 && (vb[0] == '/' || (pl == Platform::Windows && vb[0] == '\\'));
    if rooted_a != rooted_b {
        return false;
    }
    let cur_a = va.len() > 0 && va[0] == '.' && (va.len() == 1 || va[1] == '/' || (pl
        == Platform::Windows && va[1] == '\\'));
    let cur_b = vb.len() > 0 && vb[0] == '.' && (vb.len() == 1 || vb[1] == '/' || (pl
        == Platform::Windows && vb[1] == '\\'));
    if cur_a != cur_b {
        return false;
    }
    let pa = parts_of(pl, &va);
    let pb = parts_of(pl, &vb);
    let ghost xa = path_parts(pl, a@);
    let ghost xb = path_parts(pl, b@);
    if pa.len() != pb.len() {
        return false;
    }
    let mut k: usize = 0;
    while k < pa.len()
        invariant
            k <= pa@.len(),
            pa@.len() == pb@.len(),
            pa@.len() == xa.len(),
            pb@.len() == xb.len(),
            va@ == a@,
            vb@ == b@,
            xa == path_parts(pl, a@),
            xb == path_parts(pl, b@),
            forall|m: int|
                #![trigger pa@[m]]
                0 <= m < pa@.len() ==> pa@[m].0 <= pa@[m].1 <= va@.len() && va@.subrange(
                    pa@[m].0 as int,
                    pa@[m].1 as int,
                ) == xa[m],
            forall|m: int|
                #![trigger pb@[m]]
                0 <= m < pb@.len() ==> pb@[m].0 <= pb@[m].1 <= vb@.len() && vb@.subrange(
                    pb@[m].0 as int,
                    pb@[m].1 as int,
                ) == xb[m],
            forall|m: int| 0 <= m < k ==> xa[m] == xb[m],
        decreases pa.len() - k,
    {
        let (af, at) = pa[k];
        let (bf, bt) = pb[k];
        if !same_run(&va, af, at, &vb, bf, bt) {
            return false;
        }
        k = k + 1;
    }
    assert(xa =~= xb);
    true
}

/// `Path::file_name`: the last component when it is a name, not `..`; a
/// drive such as `C:` on Windows is no name.
pub open spec fn file_name_of(pl: Platform, s: Seq<char>) -> Option<Seq<char>> {
    let body = if has_drive(pl, s) {
        s.skip(2)
    } else {
        s
    };
    let parts = path_parts(pl, body);
    if parts.len() > 0 && parts.last() != seq!['.', '.'] {
        Some(parts.last())
    } else {
        None
    }
}

/// The last component of a path, when it is a name (see `file_name_of`).
pub fn file_name<'a>(pl: Platform, s: &'a str) -> (r: Option<&'a str>)
    ensures
        crate::text::opt_str_view(r) == file_name_of(pl, s@),
{
    let v = chars_of(s);
    let n = v.len();
    let drive = pl == Platform::Windows && n >= 2 && (('a' <= v[0] && v[0] <= 'z') || ('A' <= v[0]
        && v[0] <= 'Z')) && v[1] == ':';
    let body = if drive {
        s.substring_char(2, n)
    } else {
        s
    };
    assert(drive ==> body@ =~= s@.skip(2));
    let w = chars_of(body);
    let parts = parts_of(pl, &w);
    if parts.len() == 0 {
        return None;
    }
    let k = parts.len() - 1;
    let (a, b) = parts[k];
    assert(a <= b && b <= w@.len());
    assert(w@.subrange(a as int, b as int) == path_parts(pl, w@)[k as int]);
    let last = body.substring_char(a, b);
    assert(last@ == w@.subrange(a as int, b as int));
    if b - a == 2 && w[a] == '.' && w[a + 1] == '.' {
        assert(last@ =~= seq!['.', '.']);
        return None;
    }
    proof {
        if last@ == seq!['.', '.'] {
            assert(last@.len() == 2);
            assert(last@[0] == w@[a as int]);
            assert(last@[1] == w@[a + 1]);
        }
    }
    Some(last)
}

/// `p` lies at or below `base`, comparing components as `Path::starts_with`
/// does: both rooted or neither, both starting at `.` or neither, and the
/// named components of `base` begin those of `p`.
pub open spec fn path_under(pl: Platform, p: Seq<char>, base: Seq<char>) -> bool {
    &&& is_rooted(pl, p) == is_rooted(pl, base)
    &&& starts_at_cur_dir(pl, p) == starts_at_cur_dir(pl, base)
    &&& path_parts(pl, base).len() <= path_parts(pl, p).len()
    &&& path_parts(pl, p).take(path_parts(pl, base).len() as int) == path_parts(pl, base)
}

/// Whether `p` lies at or below `base` (see `path_under`).
pub fn path_starts_with(pl: Platform, p: &str, base: &str) -> (r: bool)
    ensures
        r == path_under(pl, p@, base@),
{
    let va = chars_of(p);
    let vb = chars_of(base);
    let rooted_a = va.len() > 0 && (va[0] == '/' || (pl == Platform::Windows && va[0] == '\\'));
    let rooted_b = vb.len() > 0 && (vb[0] == '/' || (pl == Platform::Windows && vb[0] == '\\'));
    if rooted_a != rooted_b {
        return false;
    }
    let cur_a = va.len() > 0 && va[0] == '.' && (va.len() == 1 || va[1] == '/' || (pl
        == Platform::Windows && va[1] == '\\'));
    let cur_b = vb.len() > 0 && vb[0] == '.' && (vb.len() == 1 || vb[1] == '/' || (pl
        == Platform::Windows && vb[1] == '\\'));
    if cur_a != cur_b {
        return false;
    }
    let pa = parts_of(pl, &va);
    let pb = parts_of(pl, &vb);
    let ghost xa = path_parts(pl, p@);
    let ghost xb = path_parts(pl, base@);
    if pb.len() > pa.len() {
        return false;
    }
    let mut k: usize = 0;
    while k < pb.len()
        invariant
            k <= pb@.len(),
            pb@.len() <= pa@.len(),
            pa@.len() == xa.len(),
            pb@.len() == xb.len(),
            va@ == p@,
            vb@ == base@,
            xa == path_parts(pl, p@),
            xb == path_parts(pl, base@),
            forall|m: int|
                #![trigger pa@[m]]
                0 <= m < pa@.len() ==> pa@[m].0 <= pa@[m].1 <= va@.len() && va@.subrange(
                    pa@[m].0 as int,
                    pa@[m].1 as int,
                ) == xa[m],
            forall|m: int|
                #![trigger pb@[m]]
                0 <= m < pb@.len() ==> pb@[m].0 <= pb@[m].1 <= vb@.len() && vb@.subrange(
                    pb@[m].0 as int,
                    pb@[m].1 as int,
                ) == xb[m],
            forall|m: int| 0 <= m < k ==> xa[m] == xb[m],
        decreases pb.len() - k,
    {
        let (af, at) = pa[k];
        let (bf, bt) = pb[k];
        if !same_run(&va, af, at, &vb, bf, bt) {
            assert(xa.take(xb.len() as int)[k as int] == xa[k as int]);
            return false;
        }
        k = k + 1;
    }
    assert(xa.take(xb.len() as int) =~= xb);
    true
}

} // verus!

//! Character-level string operations with their specifications.
//!
//! Every operation here works on the `char` view of a string (`s@`), which is
//! how `str` methods such as `trim` and `starts_with` behave for the string
//! patterns used in this crate.
use vstd::prelude::*;

verus! {

/// `char::is_whitespace`: the Unicode `White_Space` property.
pub open spec fn is_ws(c: char) -> bool {
    ||| ('\u{9}' <= c && c <= '\u{d}')
    ||| c == ' '
    ||| c == '\u{85}'
    ||| c == '\u{a0}'
    ||| c == '\u{1680}'
    ||| ('\u{2000}' <= c && c <= '\u{200a}')
    ||| c == '\u{2028}'
    ||| c == '\u{2029}'
    ||| c == '\u{202f}'
    ||| c == '\u{205f}'
    ||| c == '\u{3000}'
}

/// `str::trim_start`: drop leading whitespace.
pub open spec fn trim_start(s: Seq<char>) -> Seq<char>
    decreases s.len(),
{
    if s.len() > 0 && is_ws(s[0]) {
        trim_start(s.drop_first())
    } else {
        s
    }
}

/// `str::trim_end`: drop trailing whitespace.
pub open spec fn trim_end(s: Seq<char>) -> Seq<char>
    decreases s.len(),
{
    if s.len() > 0 && is_ws(s.last()) {
        trim_end(s.drop_last())
    } else {
        s
    }
}

/// `str::trim`: drop leading and trailing whitespace.
pub open spec fn trim(s: Seq<char>) -> Seq<char> {
    trim_end(trim_start(s))
}

/// `s` begins with `p`.
pub open spec fn has_prefix(s: Seq<char>, p: Seq<char>) -> bool {
    p.len() <= s.len() && s.take(p.len() as int) == p
}

/// `s` ends with `p`.
pub open spec fn has_suffix(s: Seq<char>, p: Seq<char>) -> bool {
    p.len() <= s.len() && s.skip(s.len() - p.len()) == p
}

/// `p` occurs in `s` starting at position `i`.
pub open spec fn occurs_at(s: Seq<char>, p: Seq<char>, i: int) -> bool {
    0 <= i && i + p.len() <= s.len() && s.subrange(i, i + p.len() as int) == p
}

/// `p` occurs somewhere in `s`.
pub open spec fn has_infix(s: Seq<char>, p: Seq<char>) -> bool {
    exists|i: int| occurs_at(s, p, i)
}

/// The position of the first `c` in `s`, if any.
pub open spec fn index_of(s: Seq<char>, c: char) -> Option<int>
    decreases s.len(),
{
    if s.len() == 0 {
        None
    } else if s[0] == c {
        Some(0)
    } else {
        match index_of(s.drop_first(), c) {
            Some(i) => Some(i + 1),
            None => None,
        }
    }
}

/// `str::trim_start_matches` with a string pattern: remove `p` from the front
/// as often as it is there.
pub open spec fn strip_all_prefix(s: Seq<char>, p: Seq<char>) -> Seq<char>
    decreases s.len(),
{
    if p.len() > 0 && has_prefix(s, p) {
        strip_all_prefix(s.skip(p.len() as int), p)
    } else {
        s
    }
}

/// `s` without any of the characters `\r` and `\n`.
pub open spec fn without_line_breaks(s: Seq<char>) -> Seq<char> {
    s.filter(no_break())
}

/// `index_of` finds the first occurrence, and `None` means there is none.
pub proof fn lemma_index_of_bounds(s: Seq<char>, c: char)
    ensures
        index_of(s, c) matches Some(i) ==> 0 <= i < s.len() && s[i] == c
            && forall|k: int| 0 <= k < i ==> s[k] != c,
        index_of(s, c) is None ==> forall|k: int| 0 <= k < s.len() ==> s[k] != c,
    decreases s.len(),
{
    if s.len() > 0 {
        lemma_index_of_bounds(s.drop_first(), c);
        if s[0] != c {
            assert forall|k: int| 1 <= k < s.len() implies s[k] == s.drop_first()[k - 1] by {}
        }
    }
}

/// The characters of `s`, in order.
pub fn chars_of(s: &str) -> (v: Vec<char>)
    ensures
        v@ == s@,
{
    let mut v: Vec<char> = Vec::new();
    for c in it: s.chars()
        invariant
            v@ == it.seq().take(it.index() as int),
    {
        v.push(c);
    }
    v
}

/// `char::is_whitespace`.
pub fn is_whitespace(c: char) -> (b: bool)
    ensures
        b == is_ws(c),
{
    ('\u{9}' <= c && c <= '\u{d}') || c == ' ' || c == '\u{85}' || c == '\u{a0}' || c
        == '\u{1680}' || ('\u{2000}' <= c && c <= '\u{200a}') || c == '\u{2028}' || c
        == '\u{2029}' || c == '\u{202f}' || c == '\u{205f}' || c == '\u{3000}'
}

/// Number of leading whitespace characters of `v` from position `from` on.
fn leading_ws_end(v: &Vec<char>, from: usize) -> (i: usize)
    requires
        from <= v.len(),
    ensures
        from <= i <= v.len(),
        trim_start(v@.skip(from as int)) == v@.skip(i as int),
{
    let mut i = from;
    while i < v.len()
        invariant
            from <= i <= v.len(),
            trim_start(v@.skip(from as int)) == trim_start(v@.skip(i as int)),
        decreases v.len() - i,
    {
        if !is_whitespace(v[i]) {
            return i;
        }
        assert(v@.skip(i as int).drop_first() =~= v@.skip(i + 1));
        i = i + 1;
    }
    assert(v@.skip(i as int) =~= Seq::<char>::empty());
    i
}

/// Position just after the last non-whitespace character of `v[..to]`.
fn trailing_ws_start(v: &Vec<char>, to: usize) -> (j: usize)
    requires
        to <= v.len(),
    ensures
        j <= to,
        trim_end(v@.take(to as int)) == v@.take(j as int),
{
    let mut j = to;
    while j > 0
        invariant
            j <= to <= v.len(),
            trim_end(v@.take(to as int)) == trim_end(v@.take(j as int)),
        decreases j,
    {
        if !is_whitespace(v[j - 1]) {
            return j;
        }
        assert(v@.take(j as int).drop_last() =~= v@.take(j - 1));
        j = j - 1;
    }
    j
}

/// Trailing whitespace from position `n` on does not change `trim_end`.
proof fn lemma_trim_end_suffix_ws(t: Seq<char>, n: int)
    requires
        0 <= n <= t.len(),
        forall|k: int| n <= k < t.len() ==> is_ws(#[trigger] t[k]),
    ensures
        trim_end(t) == trim_end(t.take(n)),
    decreases t.len() - n,
{
    if t.len() > n {
        assert(is_ws(t.last()));
        let t2 = t.drop_last();
        assert forall|k: int| n <= k < t2.len() implies is_ws(#[trigger] t2[k]) by {
            assert(t2[k] == t[k]);
        }
        lemma_trim_end_suffix_ws(t2, n);
        assert(t2.take(n) =~= t.take(n));
    } else {
        assert(t.take(n) =~= t);
    }
}

/// `str::trim`.
pub fn trim_str(s: &str) -> (r: &str)
    ensures
        r@ == trim(s@),
{
    let v = chars_of(s);
    let n = v.len();
    let i = leading_ws_end(&v, 0);
    assert(v@.skip(0) =~= v@);
    let j = trailing_ws_start(&v, n);
    assert(v@.take(n as int) =~= v@);
    // trim_start(s) = s[i..]; trim_end(s[i..]) = s[i..max(i,j)]
    let e = if j < i {
        i
    } else {
        j
    };
    proof {
        lemma_trim_combine(v@, i as int, j as int);
    }
    s.substring_char(i, e)
}

/// `trim` as a subrange, from where `trim_start` and `trim_end` cut.
proof fn lemma_trim_combine(s: Seq<char>, i: int, j: int)
    requires
        0 <= i <= s.len(),
        0 <= j <= s.len(),
        trim_start(s) == s.skip(i),
        trim_end(s) == s.take(j),
    ensures
        trim(s) == s.subrange(i, if j < i { i } else { j }),
{
    lemma_trim_start_shape(s, i);
    lemma_trim_end_shape(s, j);
    let e = if j < i {
        i
    } else {
        j
    };
    // every char in [e, len) is whitespace; s[e-1] is not whitespace if e > i
    assert forall|k: int| e <= k < s.len() implies is_ws(#[trigger] s[k]) by {}
    lemma_trim_end_suffix_ws(s.skip(i), e - i);
    assert(s.skip(i).take(e - i) =~= s.subrange(i, e));
    if e > i {
        assert(j == e);
        assert(!is_ws(s[e - 1]));
        assert(s.subrange(i, e).last() == s[e - 1]);
    } else {
        assert(s.subrange(i, e) =~= Seq::<char>::empty());
    }
}

/// `trim_start(s) == s.skip(i)` exactly when the first `i` characters are
/// whitespace and the next one, if any, is not.
pub proof fn lemma_trim_start_shape(s: Seq<char>, i: int)
    requires
        0 <= i <= s.len(),
        trim_start(s) == s.skip(i),
    ensures
        forall|k: int| 0 <= k < i ==> is_ws(#[trigger] s[k]),
        i < s.len() ==> !is_ws(s[i]),
    decreases s.len(),
{
    if s.len() > 0 && is_ws(s[0]) {
        let t = s.drop_first();
        // trim_start(t) == s.skip(i); must have i >= 1 since trim_start(t).len() <= t.len()
        lemma_trim_start_len(t);
        assert(i >= 1);
        assert(t.skip(i - 1) =~= s.skip(i));
        lemma_trim_start_shape(t, i - 1);
        assert forall|k: int| 0 <= k < i implies is_ws(#[trigger] s[k]) by {
            if k > 0 {
                assert(s[k] == t[k - 1]);
            }
        }
        if i < s.len() {
            assert(s[i] == t[i - 1]);
        }
    } else {
        assert(s.skip(i).len() == s.len());
        assert(i == 0);
    }
}

/// `trim_start` drops a prefix.
pub proof fn lemma_trim_start_len(s: Seq<char>)
    ensures
        trim_start(s).len() <= s.len(),
        exists|i: int| 0 <= i <= s.len() && trim_start(s) == s.skip(i),
    decreases s.len(),
{
    if s.len() > 0 && is_ws(s[0]) {
        let t = s.drop_first();
        lemma_trim_start_len(t);
        let i = choose|i: int| 0 <= i <= t.len() && trim_start(t) == t.skip(i);
        assert(t.skip(i) =~= s.skip(i + 1));
    } else {
        assert(s.skip(0) =~= s);
    }
}

/// `trim_end(s) == s.take(j)` exactly when the characters from `j` on are
/// whitespace and the one before, if any, is not.
pub proof fn lemma_trim_end_shape(s: Seq<char>, j: int)
    requires
        0 <= j <= s.len(),
        trim_end(s) == s.take(j),
    ensures
        forall|k: int| j <= k < s.len() ==> is_ws(#[trigger] s[k]),
        j > 0 ==> !is_ws(s[j - 1]),
    decreases s.len(),
{
    if s.len() > 0 && is_ws(s.last()) {
        let t = s.drop_last();
        lemma_trim_end_len(t);
        assert(j < s.len());
        assert(t.take(j) =~= s.take(j));
        lemma_trim_end_shape(t, j);
        assert forall|k: int| j <= k < s.len() implies is_ws(#[trigger] s[k]) by {
            if k < s.len() - 1 {
                assert(s[k] == t[k]);
            }
        }
        if j > 0 {
            assert(s[j - 1] == t[j - 1]);
        }
    } else {
        assert(s.take(j).len() == s.len());
        assert(j == s.len());
    }
}

/// `trim_end` drops a suffix.
pub proof fn lemma_trim_end_len(s: Seq<char>)
    ensures
        trim_end(s).len() <= s.len(),
        exists|j: int| 0 <= j <= s.len() && trim_end(s) == s.take(j),
    decreases s.len(),
{
    if s.len() > 0 && is_ws(s.last()) {
        let t = s.drop_last();
        lemma_trim_end_len(t);
        let j = choose|j: int| 0 <= j <= t.len() && trim_end(t) == t.take(j);
        assert(t.take(j) =~= s.take(j));
    } else {
        assert(s.take(s.len() as int) =~= s);
    }
}

/// `str::trim_start`.
pub fn trim_start_str(s: &str) -> (r: &str)
    ensures
        r@ == trim_start(s@),
{
    let v = chars_of(s);
    let n = v.len();
    let i = leading_ws_end(&v, 0);
    assert(v@.skip(0) =~= v@);
    assert(v@.skip(i as int) =~= v@.subrange(i as int, n as int));
    s.substring_char(i, n)
}

/// Does `v` hold `p` at position `at`?
fn matches_at(v: &Vec<char>, p: &Vec<char>, at: usize) -> (b: bool)
    requires
        at <= v.len(),
    ensures
        b == occurs_at(v@, p@, at as int),
{
    if p.len() > v.len() - at {
        return false;
    }
    let mut k: usize = 0;
    while k < p.len()
        invariant
            at + p.len() <= v.len(),
            k <= p.len(),
            forall|m: int| 0 <= m < k ==> v@[at + m] == p@[m],
        decreases p.len() - k,
    {
        if v[at + k] != p[k] {
            assert(v@.subrange(at as int, at + p.len())[k as int] != p@[k as int]);
            return false;
        }
        k = k + 1;
    }
    assert(v@.subrange(at as int, at + p.len()) =~= p@);
    true
}

/// `str::starts_with` with a string pattern.
pub fn starts_with(s: &str, p: &str) -> (b: bool)
    ensures
        b == has_prefix(s@, p@),
{
    let v = chars_of(s);
    let w = chars_of(p);
    let b = matches_at(&v, &w, 0);
    proof {
        if p@.len() <= s@.len() {
            assert(s@.subrange(0, p@.len() as int) =~= s@.take(p@.len() as int));
        }
    }
    b
}

/// `str::ends_with` with a string pattern.
pub fn ends_with(s: &str, p: &str) -> (b: bool)
    ensures
        b == has_suffix(s@, p@),
{
    let v = chars_of(s);
    let w = chars_of(p);
    if w.len() > v.len() {
        return false;
    }
    let b = matches_at(&v, &w, v.len() - w.len());
    proof {
        assert(s@.subrange(s@.len() - p@.len(), s@.len() as int) =~= s@.skip(
            s@.len() - p@.len(),
        ));
    }
    b
}

/// `str::strip_prefix` with a string pattern.
pub fn strip_prefix<'a>(s: &'a str, p: &str) -> (r: Option<&'a str>)
    ensures
        r is Some <==> has_prefix(s@, p@),
        r matches Some(t) ==> t@ == s@.skip(p@.len() as int),
{
    if starts_with(s, p) {
        let n = s.unicode_len();
        let m = p.unicode_len();
        assert(s@.skip(m as int) =~= s@.subrange(m as int, n as int));
        Some(s.substring_char(m, n))
    } else {
        None
    }
}

/// `str::strip_suffix` with a string pattern.
pub fn strip_suffix<'a>(s: &'a str, p: &str) -> (r: Option<&'a str>)
    ensures
        r is Some <==> has_suffix(s@, p@),
        r matches Some(t) ==> t@ == s@.take(s@.len() - p@.len()),
{
    if ends_with(s, p) {
        let n = s.unicode_len();
        let m = p.unicode_len();
        assert(s@.take(n - m) =~= s@.subrange(0, (n - m) as int));
        Some(s.substring_char(0, n - m))
    } else {
        None
    }
}

/// `str::contains` with a string pattern.
pub fn contains(s: &str, p: &str) -> (b: bool)
    ensures
        b == has_infix(s@, p@),
{
    let v = chars_of(s);
    let w = chars_of(p);
    let n = v.len();
    let mut i: usize = 0;
    while i < n
        invariant
            v@ == s@,
            w@ == p@,
            n == v.len(),
            i <= n,
            forall|k: int| 0 <= k < i ==> !occurs_at(s@, p@, k),
        decreases n - i,
    {
        if matches_at(&v, &w, i) {
            return true;
        }
        i = i + 1;
    }
    if matches_at(&v, &w, n) {
        return true;
    }
    assert forall|k: int| !occurs_at(s@, p@, k) by {
        if 0 <= k && k + p@.len() <= s@.len() {
            assert(k <= n);
        }
    }
    false
}

/// The position of the first `c` in `s`, counted in characters.
pub fn find_char(s: &str, c: char) -> (r: Option<usize>)
    ensures
        r matches Some(i) ==> index_of(s@, c) == Some(i as int),
        r is None ==> index_of(s@, c) is None,
{
    let v = chars_of(s);
    let mut i: usize = 0;
    assert(s@.skip(0) =~= s@);
    while i < v.len()
        invariant
            v@ == s@,
            i <= v.len(),
            index_of(s@, c) == (match index_of(s@.skip(i as int), c) {
                Some(k) => Some(k + i),
                None => None,
            }),
        decreases v.len() - i,
    {
        if v[i] == c {
            return Some(i);
        }
        assert(s@.skip(i as int).drop_first() =~= s@.skip(i + 1));
        i = i + 1;
    }
    None
}

/// `str::trim_start_matches` with a non-empty string pattern.
pub fn trim_start_matches<'a>(s: &'a str, p: &str) -> (r: &'a str)
    ensures
        r@ == strip_all_prefix(s@, p@),
{
    let v = chars_of(s);
    let w = chars_of(p);
    let n = v.len();
    if w.len() == 0 {
        assert(s@.subrange(0, n as int) =~= s@);
        return s.substring_char(0, n);
    }
    let mut i: usize = 0;
    let mut go = true;
    assert(s@.skip(0) =~= s@);
    while go && i < n
        invariant
            v@ == s@,
            w@ == p@,
            n == v.len(),
            w.len() > 0,
            i <= n,
            strip_all_prefix(s@, p@) == strip_all_prefix(s@.skip(i as int), p@),
            !go ==> !has_prefix(s@.skip(i as int), p@),
        decreases n - i + (if go { 1int } else { 0int }),
    {
        if matches_at(&v, &w, i) {
            proof {
                let t = s@.skip(i as int);
                assert(t.take(p@.len() as int) =~= s@.subrange(i as int, i + p@.len()));
                assert(t.skip(p@.len() as int) =~= s@.skip(i + p@.len()));
            }
            i = i + w.len();
        } else {
            proof {
                let t = s@.skip(i as int);
                if has_prefix(t, p@) {
                    assert(t.take(p@.len() as int) =~= s@.subrange(i as int, i + p@.len()));
                }
            }
            go = false;
        }
    }
    proof {
        if i == n {
            assert(s@.skip(i as int) =~= Seq::<char>::empty());
        }
    }
    assert(s@.skip(i as int) =~= s@.subrange(i as int, n as int));
    s.substring_char(i, n)
}

/// An owned copy of `s`.
pub fn owned(s: &str) -> (r: String)
    ensures
        r@ == s@,
{
    String::from_str(s)
}

/// `a` followed by `b`, as a new string.
pub fn concat2(a: &str, b: &str) -> (r: String)
    ensures
        r@ == a@ + b@,
{
    let mut r = String::from_str(a);
    r.append(b);
    r
}

/// `a`, `b` and `c` in sequence, as a new string.
pub fn concat3(a: &str, b: &str, c: &str) -> (r: String)
    ensures
        r@ == a@ + b@ + c@,
{
    let mut r = String::from_str(a);
    r.append(b);
    r.append(c);
    r
}

/// Two strings hold the same characters.
pub fn str_eq(a: &str, b: &str) -> (r: bool)
    ensures
        r == (a@ == b@),
{
    let v = chars_of(a);
    let w = chars_of(b);
    if v.len() != w.len() {
        return false;
    }
    let r = matches_at(&v, &w, 0);
    assert(a@.subrange(0, b@.len() as int) =~= a@);
    r
}

/// A character that `without_line_breaks` removes.
pub open spec fn is_line_break(c: char) -> bool {
    c == '\r' || c == '\n'
}

/// The filter that keeps everything but line breaks.
pub open spec fn no_break() -> spec_fn(char) -> bool {
    |c: char| !is_line_break(c)
}

/// A text without line breaks is its own filter.
proof fn lemma_filter_keeps_all(s: Seq<char>)
    requires
        forall|k: int| 0 <= k < s.len() ==> !is_line_break(#[trigger] s[k]),
    ensures
        s.filter(no_break()) == s,
    decreases s.len(),
{
    reveal(Seq::filter);
    if s.len() > 0 {
        let t = s.drop_last();
        assert forall|k: int| 0 <= k < t.len() implies !is_line_break(#[trigger] t[k]) by {
            assert(t[k] == s[k]);
        }
        lemma_filter_keeps_all(t);
        assert(!is_line_break(s.last()));
        assert(t.push(s.last()) =~= s);
    }
}

/// Appending a line break leaves the filter unchanged.
proof fn lemma_filter_drops_break(s: Seq<char>, c: char)
    requires
        is_line_break(c),
    ensures
        s.push(c).filter(no_break()) == s.filter(no_break()),
{
    reveal(Seq::filter);
    assert(s.push(c).drop_last() =~= s);
}

/// The filter of a range without line breaks is the range itself.
proof fn lemma_filter_chunk(s: Seq<char>, a: int, b: int)
    requires
        0 <= a <= b <= s.len(),
        forall|k: int| a <= k < b ==> !is_line_break(#[trigger] s[k]),
    ensures
        s.take(b).filter(no_break()) == s.take(a).filter(no_break()) + s.subrange(a, b),
{
    let chunk = s.subrange(a, b);
    assert forall|k: int| 0 <= k < chunk.len() implies !is_line_break(#[trigger] chunk[k]) by {
        assert(chunk[k] == s[a + k]);
    }
    lemma_filter_keeps_all(chunk);
    assert(s.take(b) =~= s.take(a) + chunk);
    Seq::filter_distributes_over_add(s.take(a), chunk, no_break());
}

/// `s` with every `\r` and `\n` removed.
pub fn remove_line_breaks(s: &str) -> (r: String)
    ensures
        r@ == without_line_breaks(s@),
{
    let v = chars_of(s);
    let n = v.len();
    let mut r = String::new();
    let mut start: usize = 0;
    let mut i: usize = 0;
    assert(s@.take(0).filter(no_break()) =~= Seq::<char>::empty());
    while i < n
        invariant
            v@ == s@,
            n == v.len(),
            start <= i <= n,
            r@ == s@.take(start as int).filter(no_break()),
            forall|k: int| start <= k < i ==> !is_line_break(#[trigger] s@[k]),
        decreases n - i,
    {
        if v[i] == '\r' || v[i] == '\n' {
            proof {
                lemma_filter_chunk(s@, start as int, i as int);
                lemma_filter_drops_break(s@.take(i as int), s@[i as int]);
                assert(s@.take(i as int).push(s@[i as int]) =~= s@.take(i + 1));
            }
            r.append(s.substring_char(start, i));
            start = i + 1;
        }
        i = i + 1;
    }
    proof {
        lemma_filter_chunk(s@, start as int, n as int);
        assert(s@.take(n as int) =~= s@);
    }
    r.append(s.substring_char(start, n));
    r
}

/// An optional string as a plain value.
pub open spec fn opt_str_view(o: Option<&str>) -> Option<Seq<char>> {
    match o {
        Some(s) => Some(s@),
        None => None,
    }
}

/// An optional owned string as a plain value.
pub open spec fn opt_string_view(o: Option<String>) -> Option<Seq<char>> {
    match o {
        Some(s) => Some(s@),
        None => None,
    }
}

/// Reading `s` from left to right, split at `sep`: the finished pieces and
/// the piece being read.
pub open spec fn split_scan(s: Seq<char>, sep: char) -> (Seq<Seq<char>>, Seq<char>)
    decreases s.len(),
{
    if s.len() == 0 {
        (Seq::empty(), Seq::empty())
    } else {
        let (done, cur) = split_scan(s.drop_last(), sep);
        if s.last() == sep {
            (done.push(cur), Seq::empty())
        } else {
            (done, cur.push(s.last()))
        }
    }
}

/// `str::split(sep)`: the pieces between the separators, empty ones
/// included.
pub open spec fn split_pieces(s: Seq<char>, sep: char) -> Seq<Seq<char>> {
    split_scan(s, sep).0.push(split_scan(s, sep).1)
}

/// Strings as plain values.
pub open spec fn strings_view(v: Seq<String>) -> Seq<Seq<char>> {
    v.map_values(|p: String| p@)
}

/// Splits `s` at every `sep` (see `split_pieces`).
pub fn split_char(s: &str, sep: char) -> (r: Vec<String>)
    ensures
        strings_view(r@) == split_pieces(s@, sep),
{
    let v = chars_of(s);
    let n = v.len();
    let mut out: Vec<String> = Vec::new();
    let mut start: usize = 0;
    let mut i: usize = 0;
    assert(s@.take(0) =~= Seq::<char>::empty());
    while i < n
        invariant
            v@ == s@,
            n == v.len(),
            start <= i <= n,
            split_scan(s@.take(i as int), sep).1 == s@.subrange(start as int, i as int),
            strings_view(out@) == split_scan(s@.take(i as int), sep).0,
        decreases n - i,
    {
        assert(s@.take(i + 1).drop_last() =~= s@.take(i as int));
        assert(s@.take(i + 1).last() == s@[i as int]);
        if v[i] == sep {
            let ghost before = strings_view(out@);
            out.push(owned(s.substring_char(start, i)));
            assert(strings_view(out@) =~= before.push(s@.subrange(start as int, i as int)));
            start = i + 1;
            assert(s@.subrange(start as int, i + 1) =~= Seq::<char>::empty());
        } else {
            assert(s@.subrange(start as int, i + 1) =~= s@.subrange(start as int, i as int).push(
                v[i as int],
            ));
        }
        i = i + 1;
    }
    assert(s@.take(n as int) =~= s@);
    let ghost before = strings_view(out@);
    out.push(owned(s.substring_char(start, n)));
    assert(strings_view(out@) =~= before.push(s@.subrange(start as int, n as int)));
    out
}

/// A line without the `\r` of a `\r\n` line end.
pub open spec fn without_cr(p: Seq<char>) -> Seq<char> {
    if p.len() > 0 && p.last() == '\r' {
        p.drop_last()
    } else {
        p
    }
}

/// `str::lines`: the lines of `s`, split at `\n`, each without a final
/// `\r`, and without an empty piece after a final line break.
pub open spec fn text_lines(s: Seq<char>) -> Seq<Seq<char>> {
    let ps = split_pieces(s, '\n');
    let qs = if ps.last().len() == 0 {
        ps.drop_last()
    } else {
        ps
    };
    qs.map_values(|p: Seq<char>| without_cr(p))
}

/// The lines of `s` (see `text_lines`).
pub fn lines_of(s: &str) -> (r: Vec<String>)
    ensures
        strings_view(r@) == text_lines(s@),
{
    let pieces = split_char(s, '\n');
    let ghost ps = split_pieces(s@, '\n');
    assert(ps.len() >= 1);
    assert(pieces@.len() == ps.len());
    let m = if pieces[pieces.len() - 1].as_str().unicode_len() == 0 {
        pieces.len() - 1
    } else {
        pieces.len()
    };
    let ghost qs = ps.take(m as int);
    assert(qs =~= (if ps.last().len() == 0 {
        ps.drop_last()
    } else {
        ps
    }));
    let mut out: Vec<String> = Vec::new();
    let mut i: usize = 0;
    while i < m
        invariant
            i <= m <= pieces@.len(),
            strings_view(pieces@) == ps,
            qs == ps.take(m as int),
            strings_view(out@) == qs.take(i as int).map_values(|p: Seq<char>| without_cr(p)),
        decreases m - i,
    {
        let p = pieces[i].as_str();
        let n = p.unicode_len();
        let line = if n > 0 && p.get_char(n - 1) == '\r' {
            assert(p@.drop_last() =~= p@.subrange(0, n - 1));
            p.substring_char(0, n - 1)
        } else {
            p
        };
        let ghost before = strings_view(out@);
        out.push(owned(line));
        assert(strings_view(out@) =~= before.push(without_cr(ps[i as int])));
        assert(qs.take(i + 1).map_values(|p: Seq<char>| without_cr(p)) =~= qs.take(i as int).map_values(|p: Seq<char>| without_cr(p)).push(without_cr(qs[i as int])));
        i = i + 1;
    }
    assert(qs.take(m as int) =~= qs);
    out
}

} // verus!

//! `heco env`: adding, removing and listing DevEco Studio installations.
use crate::config::{
    distinct_keys, entries_view, lemma_studio_map_dom, lemma_studio_map_value, studio_map, Config,
    ConfigView, DevEcoConfig, StudioEntry,
};
use crate::paths::{join_all, join_many, join_path, paths_equal, same_path, Platform};
use crate::style::{
    bold_green, cyan, dimmed, paint_bold_green, paint_cyan, paint_dimmed, paint_yellow, yellow,
};
use crate::text::{chars_of, concat2, has_prefix, opt_str_view, owned, str_eq, strip_prefix};
use vstd::prelude::*;

verus! {

/// Arguments of `heco env`.
pub struct EnvArgs {
    pub command: EnvCommands,
}

/// The subcommands of `heco env`.
pub enum EnvCommands {
    /// Add a DevEco Studio path, optionally as the default.
    Add { path: String, default: bool },
    /// Remove installations by path, API version or exact version.
    Remove { target: String },
    /// List the configured installations.
    List,
}

/// A path as typed by the user, with a leading `~` standing for the home
/// directory (left as it is when there is none).
pub open spec fn expanded(pl: Platform, path: Seq<char>, home: Option<Seq<char>>) -> Seq<char> {
    if path == seq!['~'] {
        match home {
            Some(h) => h,
            None => path,
        }
    } else if has_prefix(path, seq!['~', '/']) {
        match home {
            Some(h) => join_path(pl, h, path.skip(2)),
            None => path,
        }
    } else {
        path
    }
}

/// Expands a leading `~` of a path (see `expanded`).
pub fn expand_path(pl: Platform, path: &str, home: Option<&str>) -> (r: String)
    ensures
        r@ == expanded(pl, path@, opt_str_view(home)),
{
    proof {
        reveal_strlit("~");
        reveal_strlit("~/");
    }
    assert("~"@ =~= seq!['~']);
    assert("~/"@ =~= seq!['~', '/']);
    if str_eq(path, "~") {
        return match home {
            Some(h) => owned(h),
            None => owned(path),
        };
    }
    if let Some(stripped) = strip_prefix(path, "~/") {
        return match home {
            Some(h) => crate::paths::join(pl, h, stripped),
            None => owned(path),
        };
    }
    owned(path)
}

/// The file that records the SDK versions of an installation.
pub open spec fn sdk_pkg_file(pl: Platform, root: Seq<char>) -> Seq<char> {
    join_all(
        pl,
        root,
        if pl == Platform::MacOs {
            seq!["Contents"@, "sdk"@, "default"@, "sdk-pkg.json"@]
        } else {
            seq!["sdk"@, "default"@, "sdk-pkg.json"@]
        },
    )
}

/// The path of `sdk-pkg.json` in an installation.
pub fn sdk_pkg_path(pl: Platform, root: &str) -> (r: String)
    ensures
        r@ == sdk_pkg_file(pl, root@),
{
    let mac: [&str; 4] = ["Contents", "sdk", "default", "sdk-pkg.json"];
    let win: [&str; 3] = ["sdk", "default", "sdk-pkg.json"];
    assert(mac@.map_values(|c: &str| c@) =~= seq!["Contents"@, "sdk"@, "default"@, "sdk-pkg.json"@]);
    assert(win@.map_values(|c: &str| c@) =~= seq!["sdk"@, "default"@, "sdk-pkg.json"@]);
    if pl == Platform::MacOs {
        join_many(pl, root, mac.as_slice())
    } else {
        join_many(pl, root, win.as_slice())
    }
}

/// The file that records the version of DevEco Studio itself.
pub open spec fn product_info_file(pl: Platform, root: Seq<char>) -> Seq<char> {
    join_all(
        pl,
        root,
        if pl == Platform::MacOs {
            seq!["Contents"@, "Resources"@, "product-info.json"@]
        } else {
            seq!["product-info.json"@]
        },
    )
}

/// The path of `product-info.json` in an installation.
pub fn product_info_path(pl: Platform, root: &str) -> (r: String)
    ensures
        r@ == product_info_file(pl, root@),
{
    let mac: [&str; 3] = ["Contents", "Resources", "product-info.json"];
    let win: [&str; 1] = ["product-info.json"];
    assert(mac@.map_values(|c: &str| c@) =~= seq!["Contents"@, "Resources"@, "product-info.json"@]);
    assert(win@.map_values(|c: &str| c@) =~= seq!["product-info.json"@]);
    if pl == Platform::MacOs {
        join_many(pl, root, mac.as_slice())
    } else {
        join_many(pl, root, win.as_slice())
    }
}

/// Replacing the entry at `i` by one with the same API version sets that
/// version in the map.
proof fn lemma_studio_map_update(es: Seq<StudioEntry>, i: int, e: StudioEntry)
    requires
        distinct_keys(es),
        0 <= i < es.len(),
        es[i].0 == e.0,
    ensures
        studio_map(es.update(i, e)) == studio_map(es).insert(e.0, e.1),
    decreases es.len(),
{
    let u = es.update(i, e);
    if i == es.len() - 1 {
        assert(u.drop_last() =~= es.drop_last());
        assert(studio_map(u) =~= studio_map(es).insert(e.0, e.1));
    } else {
        let t = es.drop_last();
        assert(distinct_keys(t)) by {
            assert forall|a: int, b: int|
                0 <= a < t.len() && 0 <= b < t.len() && a != b implies #[trigger] t[a].0
                != #[trigger] t[b].0 by {
                assert(t[a] == es[a] && t[b] == es[b]);
            }
        }
        lemma_studio_map_update(t, i, e);
        assert(u.drop_last() =~= t.update(i, e));
        assert(es[i].0 != es.last().0);
        assert(studio_map(u) =~= studio_map(es).insert(e.0, e.1));
    }
}

impl Config {
    /// Records an installation for an API version, replacing the one
    /// recorded for it before, and makes it the default if asked.
    pub fn add_deveco_studio(
        &mut self,
        api_version: String,
        path: String,
        version: String,
        make_default: bool,
    )
        requires
            distinct_keys(old(self)@.studios),
        ensures
            distinct_keys(final(self)@.studios),
            studio_map(final(self)@.studios) == studio_map(old(self)@.studios).insert(
                api_version@,
                (path@, version@),
            ),
            final(self)@.default == (if make_default {
                Some(path@)
            } else {
                old(self)@.default
            }),
            final(self)@.resolved == old(self)@.resolved,
    {
        let ghost es = self@.studios;
        let ghost e: StudioEntry = (api_version@, (path@, version@));
        if make_default {
            self.default_deveco_studio = Some(owned(path.as_str()));
        }
        assert(self@.studios == es);
        match self.find_studio(api_version.as_str()) {
            Some(i) => {
                proof {
                    lemma_studio_map_update(es, i as int, e);
                }
                self.deveco_studios.set(i, (api_version, DevEcoConfig { path, version }));
                assert(self@.studios =~= es.update(i as int, e));
                assert forall|a: int, b: int|
                    0 <= a < self@.studios.len() && 0 <= b < self@.studios.len() && a != b implies #[trigger] self@.studios[a].0
                    != #[trigger] self@.studios[b].0 by {
                    assert(self@.studios[a].0 == es[a].0);
                    assert(self@.studios[b].0 == es[b].0);
                }
            },
            None => {
                assert(forall|k: int| 0 <= k < es.len() ==> #[trigger] es[k].0 != api_version@);
                self.deveco_studios.push((api_version, DevEcoConfig { path, version }));
                assert(self@.studios =~= es.push(e));
                assert(self@.studios.drop_last() =~= es);
                assert forall|a: int, b: int|
                    0 <= a < self@.studios.len() && 0 <= b < self@.studios.len() && a != b implies #[trigger] self@.studios[a].0
                    != #[trigger] self@.studios[b].0 by {
                    if a < es.len() {
                        assert(self@.studios[a] == es[a]);
                    }
                    if b < es.len() {
                        assert(self@.studios[b] == es[b]);
                    }
                }
            },
        }
    }
}

/// An installation entry that `heco env remove <target>` removes: its API
/// version, its version or its path is the target as typed, or its path is
/// the same place as the target with `~` expanded.
pub open spec fn removes_entry(pl: Platform, e: StudioEntry, target: Seq<char>, expanded_target: Seq<
    char,
>) -> bool {
    e.0 == target || e.1.1 == target || e.1.0 == target || same_path(pl, e.1.0, expanded_target)
}

/// The filter of `removes_entry`.
pub open spec fn removal(pl: Platform, target: Seq<char>, expanded_target: Seq<char>) -> spec_fn(
    StudioEntry,
) -> bool {
    |e: StudioEntry| removes_entry(pl, e, target, expanded_target)
}

/// The filter that keeps what `removal` does not take.
pub open spec fn retention(pl: Platform, target: Seq<char>, expanded_target: Seq<char>) -> spec_fn(
    StudioEntry,
) -> bool {
    |e: StudioEntry| !removes_entry(pl, e, target, expanded_target)
}

/// Some removed entry lies at the default path.
pub open spec fn default_removed(pl: Platform, default: Option<Seq<char>>, removed: Seq<StudioEntry>) -> bool {
    match default {
        Some(d) => exists|i: int| 0 <= i < removed.len() && same_path(pl, d, #[trigger] removed[i].1.0),
        None => false,
    }
}

impl Config {
    /// Removes every installation that `target` names (see
    /// `removes_entry`), and the default when it lies at a removed path.
    /// Returns the removed entries in their order.
    pub fn remove_deveco_studios(&mut self, pl: Platform, target: &str, expanded_target: &str) -> (r:
        Vec<(String, DevEcoConfig)>)
        requires
            distinct_keys(old(self)@.studios),
        ensures
            final(self)@.studios == old(self)@.studios.filter(
                retention(pl, target@, expanded_target@),
            ),
            entries_view(r@) == old(self)@.studios.filter(removal(pl, target@, expanded_target@)),
            final(self)@.default == (if default_removed(pl, old(self)@.default, entries_view(r@)) {
                None
            } else {
                old(self)@.default
            }),
            final(self)@.resolved == old(self)@.resolved,
            distinct_keys(final(self)@.studios),
    {
        let ghost es = self@.studios;
        let ghost keep = retention(pl, target@, expanded_target@);
        let ghost take = removal(pl, target@, expanded_target@);
        let mut kept: Vec<(String, DevEcoConfig)> = Vec::new();
        let mut removed: Vec<(String, DevEcoConfig)> = Vec::new();
        let n = self.deveco_studios.len();
        let mut clear_default = false;
        let mut i: usize = 0;
        proof {
            reveal(Seq::filter);
            assert(es.take(0) =~= Seq::<StudioEntry>::empty());
        }
        while i < n
            invariant
                n == self.deveco_studios@.len(),
                i <= n,
                entries_view(self.deveco_studios@) == es,
                entries_view(kept@) == es.take(i as int).filter(keep),
                entries_view(removed@) == es.take(i as int).filter(take),
                keep == retention(pl, target@, expanded_target@),
                take == removal(pl, target@, expanded_target@),
                clear_default == default_removed(pl, self@.default, entries_view(removed@)),
                self@.default == old(self)@.default,
                self@.resolved == old(self)@.resolved,
            decreases n - i,
        {
            let (api, cfg) = &self.deveco_studios[i];
            let ghost e = es[i as int];
            assert(e == (api@, (cfg.path@, cfg.version@)));
            let hit = str_eq(api.as_str(), target) || str_eq(cfg.version.as_str(), target)
                || str_eq(cfg.path.as_str(), target) || paths_equal(
                pl,
                cfg.path.as_str(),
                expanded_target,
            );
            assert(hit == removes_entry(pl, e, target@, expanded_target@));
            let entry = (
                owned(api.as_str()),
                DevEcoConfig { path: owned(cfg.path.as_str()), version: owned(cfg.version.as_str()) },
            );
            proof {
                reveal(Seq::filter);
                assert(es.take(i + 1).drop_last() =~= es.take(i as int));
                assert(es.take(i + 1).last() == e);
            }
            if hit {
                let ghost before = entries_view(removed@);
                let matches_default = match &self.default_deveco_studio {
                    Some(d) => paths_equal(pl, d.as_str(), cfg.path.as_str()),
                    None => false,
                };
                removed.push(entry);
                assert(entries_view(removed@) =~= before.push(e));
                proof {
                    lemma_default_removed_push(pl, self@.default, before, e);
                }
                clear_default = clear_default || matches_default;
            } else {
                let ghost before = entries_view(kept@);
                kept.push(entry);
                assert(entries_view(kept@) =~= before.push(e));
            }
            i = i + 1;
        }
        assert(es.take(i as int) =~= es);
        if clear_default {
            self.default_deveco_studio = None;
        }
        self.deveco_studios = kept;
        proof {
            assert forall|a: int, b: int|
                0 <= a < self@.studios.len() && 0 <= b < self@.studios.len() && a != b implies #[trigger] self@.studios[a].0
                != #[trigger] self@.studios[b].0 by {
                lemma_filter_distinct(es, keep);
            }
        }
        removed
    }
}

/// `default_removed` after one more removed entry.
proof fn lemma_default_removed_push(
    pl: Platform,
    default: Option<Seq<char>>,
    before: Seq<StudioEntry>,
    e: StudioEntry,
)
    ensures
        default_removed(pl, default, before.push(e)) == (default_removed(pl, default, before) || (
        match default {
            Some(d) => same_path(pl, d, e.1.0),
            None => false,
        })),
{
    let after = before.push(e);
    if let Some(d) = default {
        if default_removed(pl, default, before) {
            let k = choose|k: int| 0 <= k < before.len() && same_path(pl, d, #[trigger] before[k].1.0);
            assert(after[k] == before[k]);
        }
        if same_path(pl, d, e.1.0) {
            assert(after[before.len() as int] == e);
        }
        if default_removed(pl, default, after) {
            let k = choose|k: int| 0 <= k < after.len() && same_path(pl, d, #[trigger] after[k].1.0);
            if k < before.len() {
                assert(after[k] == before[k]);
            } else {
                assert(after[k] == e);
            }
        }
    }
}

/// Filtering keeps API versions distinct.
pub proof fn lemma_filter_distinct(es: Seq<StudioEntry>, p: spec_fn(StudioEntry) -> bool)
    requires
        distinct_keys(es),
    ensures
        distinct_keys(es.filter(p)),
    decreases es.len(),
{
    reveal(Seq::filter);
    if es.len() > 0 {
        let t = es.drop_last();
        assert(distinct_keys(t)) by {
            assert forall|a: int, b: int|
                0 <= a < t.len() && 0 <= b < t.len() && a != b implies #[trigger] t[a].0
                != #[trigger] t[b].0 by {
                assert(t[a] == es[a] && t[b] == es[b]);
            }
        }
        lemma_filter_distinct(t, p);
        let f = t.filter(p);
        if p(es.last()) {
            let g = f.push(es.last());
            assert forall|a: int, b: int|
                0 <= a < g.len() && 0 <= b < g.len() && a != b implies #[trigger] g[a].0
                != #[trigger] g[b].0 by {
                if a == f.len() || b == f.len() {
                    let k = if a == f.len() {
                        b
                    } else {
                        a
                    };
                    t.lemma_filter_contains_rev(p, f[k]);
                    let j = choose|j: int| 0 <= j < t.len() && t[j] == f[k];
                    assert(es[j] == t[j]);
                    assert(es[j].0 != es[es.len() - 1].0);
                }
            }
        }
    }
}

/// After a removal no remaining installation is named by the target.
pub proof fn lemma_removal_leaves_no_match(
    pl: Platform,
    es: Seq<StudioEntry>,
    target: Seq<char>,
    expanded_target: Seq<char>,
)
    ensures
        forall|i: int|
            0 <= i < es.filter(retention(pl, target, expanded_target)).len() ==> !removes_entry(
                pl,
                #[trigger] es.filter(retention(pl, target, expanded_target))[i],
                target,
                expanded_target,
            ),
{
    let f = es.filter(retention(pl, target, expanded_target));
    assert forall|i: int| 0 <= i < f.len() implies !removes_entry(
        pl,
        #[trigger] f[i],
        target,
        expanded_target,
    ) by {
        es.lemma_filter_pred(retention(pl, target, expanded_target), i);
    }
}

/// An installation added for an API version and then removed by that
/// version is no longer configured for it.
pub proof fn lemma_add_then_remove(
    pl: Platform,
    added: Seq<StudioEntry>,
    api_version: Seq<char>,
    expanded_target: Seq<char>,
)
    ensures
        !studio_map(added.filter(retention(pl, api_version, expanded_target))).contains_key(
            api_version,
        ),
{
    let f = added.filter(retention(pl, api_version, expanded_target));
    lemma_studio_map_dom(f, api_version);
    lemma_removal_leaves_no_match(pl, added, api_version, expanded_target);
    if studio_map(f).contains_key(api_version) {
        let i = choose|i: int| 0 <= i < f.len() && #[trigger] f[i].0 == api_version;
        assert(!removes_entry(pl, f[i], api_version, expanded_target));
    }
}

/// Removal keeps every installation that the target does not name, in
/// order, and only those.
pub proof fn lemma_removal_keeps_others(
    pl: Platform,
    es: Seq<StudioEntry>,
    target: Seq<char>,
    expanded_target: Seq<char>,
    e: StudioEntry,
)
    requires
        es.contains(e),
        !removes_entry(pl, e, target, expanded_target),
    ensures
        es.filter(retention(pl, target, expanded_target)).contains(e),
{
    let i = choose|i: int| 0 <= i < es.len() && es[i] == e;
    es.lemma_filter_contains(retention(pl, target, expanded_target), i);
}

/// A line of the listing of `heco env list`.
#[derive(Debug, PartialEq, Eq)]
pub enum ListLine {
    /// A configured installation: API version, path, version, whether it is
    /// the one that applies, whether it is the default.
    Entry(String, String, String, bool, bool),
    /// An installation that was found without being configured; marked when
    /// it is the one that applies.
    Auto(String, bool),
    /// Nothing configured or found.
    NoneFound,
}

/// `ListLine` as plain values.
pub enum ListLineView {
    Entry(Seq<char>, Seq<char>, Seq<char>, bool, bool),
    Auto(Seq<char>, bool),
    NoneFound,
}

impl View for ListLine {
    type V = ListLineView;

    open spec fn view(&self) -> ListLineView {
        match self {
            ListLine::Entry(a, p, v, r, d) => ListLineView::Entry(a@, p@, v@, *r, *d),
            ListLine::Auto(p, m) => ListLineView::Auto(p@, *m),
            ListLine::NoneFound => ListLineView::NoneFound,
        }
    }
}

/// `s` without the slashes at its end.
pub open spec fn without_trailing_slashes(s: Seq<char>) -> Seq<char>
    decreases s.len(),
{
    if s.len() > 0 && s.last() == '/' {
        without_trailing_slashes(s.drop_last())
    } else {
        s
    }
}

/// `str::trim_end_matches('/')`.
pub fn trim_trailing_slashes(s: &str) -> (r: &str)
    ensures
        r@ == without_trailing_slashes(s@),
{
    let v = chars_of(s);
    let mut j = v.len();
    assert(s@.take(j as int) =~= s@);
    while j > 0 && v[j - 1] == '/'
        invariant
            j <= v@.len(),
            v@ == s@,
            without_trailing_slashes(s@) == without_trailing_slashes(s@.take(j as int)),
        decreases j,
    {
        assert(s@.take(j as int).drop_last() =~= s@.take(j - 1));
        j = j - 1;
    }
    assert(s@.take(j as int) =~= s@.subrange(0, j as int));
    s.substring_char(0, j)
}

/// An entry lies at path `p`.
pub open spec fn listed_at(pl: Platform, es: Seq<StudioEntry>, p: Seq<char>) -> bool {
    exists|i: int| 0 <= i < es.len() && same_path(pl, #[trigger] es[i].1.0, p)
}

/// An entry lies at path `p`, comparing the text without trailing slashes.
pub open spec fn listed_as_text(es: Seq<StudioEntry>, p: Seq<char>) -> bool {
    exists|i: int|
        0 <= i < es.len() && without_trailing_slashes(#[trigger] es[i].1.0)
            == without_trailing_slashes(p)
}

/// The line for one configured installation.
pub open spec fn entry_line(pl: Platform, c: ConfigView, resolved: Option<Seq<char>>, e: StudioEntry) -> ListLineView {
    ListLineView::Entry(
        e.0,
        e.1.0,
        e.1.1,
        match resolved {
            Some(r) => same_path(pl, r, e.1.0),
            None => false,
        },
        match c.default {
            Some(d) => same_path(pl, d, e.1.0),
            None => false,
        },
    )
}

/// The listing of `heco env list`, from the configuration file, the
/// installation that applies and the one found at a usual place.
///
/// Without configured installations: the one that applies, marked, or a
/// note that there is none. Else every configured installation in order,
/// with whether it applies and whether it is the default; then the one that
/// applies, marked, when it is not configured; or else the one found at a
/// usual place, unmarked, when no configured path has its text.
pub open spec fn env_listing(
    pl: Platform,
    c: ConfigView,
    resolved: Option<Seq<char>>,
    auto_detected: Option<Seq<char>>,
) -> Seq<ListLineView> {
    if c.studios.len() == 0 {
        match resolved {
            Some(r) => seq![ListLineView::Auto(r, true)],
            None => seq![ListLineView::NoneFound],
        }
    } else {
        let entries = c.studios.map_values(|e: StudioEntry| entry_line(pl, c, resolved, e));
        let tail = match resolved {
            Some(r) => if !listed_at(pl, c.studios, r) {
                seq![ListLineView::Auto(r, true)]
            } else {
                match auto_detected {
                    Some(a) => if !listed_as_text(c.studios, a) {
                        seq![ListLineView::Auto(a, false)]
                    } else {
                        Seq::empty()
                    },
                    None => Seq::empty(),
                }
            },
            None => Seq::empty(),
        };
        entries + tail
    }
}

/// Lines as plain values.
pub open spec fn lines_view(v: Seq<ListLine>) -> Seq<ListLineView> {
    v.map_values(|l: ListLine| l@)
}

/// Whether `c` has an entry at path `p`.
fn is_listed_at(pl: Platform, c: &Config, p: &str) -> (b: bool)
    ensures
        b == listed_at(pl, c@.studios, p@),
{
    let mut i: usize = 0;
    while i < c.deveco_studios.len()
        invariant
            i <= c.deveco_studios@.len(),
            forall|k: int| 0 <= k < i ==> !same_path(pl, #[trigger] c@.studios[k].1.0, p@),
        decreases c.deveco_studios.len() - i,
    {
        if paths_equal(pl, c.deveco_studios[i].1.path.as_str(), p) {
            assert(same_path(pl, c@.studios[i as int].1.0, p@));
            return true;
        }
        i = i + 1;
    }
    false
}

/// Whether `c` has an entry whose path has the text of `p`, trailing
/// slashes aside.
fn is_listed_as_text(c: &Config, p: &str) -> (b: bool)
    ensures
        b == listed_as_text(c@.studios, p@),
{
    let pt = trim_trailing_slashes(p);
    let mut i: usize = 0;
    while i < c.deveco_studios.len()
        invariant
            i <= c.deveco_studios@.len(),
            pt@ == without_trailing_slashes(p@),
            forall|k: int|
                0 <= k < i ==> without_trailing_slashes(#[trigger] c@.studios[k].1.0)
                    != without_trailing_slashes(p@),
        decreases c.deveco_studios.len() - i,
    {
        if str_eq(trim_trailing_slashes(c.deveco_studios[i].1.path.as_str()), pt) {
            assert(without_trailing_slashes(c@.studios[i as int].1.0) == without_trailing_slashes(
                p@,
            ));
            return true;
        }
        i = i + 1;
    }
    false
}

/// Builds the listing of `heco env list` (see `env_listing`).
pub fn list_entries(pl: Platform, c: &Config, resolved: Option<&str>, auto_detected: Option<&str>) -> (r:
    Vec<ListLine>)
    ensures
        lines_view(r@) == env_listing(pl, c@, opt_str_view(resolved), opt_str_view(auto_detected)),
{
    let mut out: Vec<ListLine> = Vec::new();
    if c.deveco_studios.len() == 0 {
        match resolved {
            Some(r) => out.push(ListLine::Auto(owned(r), true)),
            None => out.push(ListLine::NoneFound),
        }
        assert(lines_view(out@) =~= env_listing(
            pl,
            c@,
            opt_str_view(resolved),
            opt_str_view(auto_detected),
        ));
        return out;
    }
    let ghost entries = c@.studios.map_values(
        |e: StudioEntry| entry_line(pl, c@, opt_str_view(resolved), e),
    );
    let mut i: usize = 0;
    while i < c.deveco_studios.len()
        invariant
            i <= c.deveco_studios@.len(),
            entries == c@.studios.map_values(
                |e: StudioEntry| entry_line(pl, c@, opt_str_view(resolved), e),
            ),
            lines_view(out@) == entries.take(i as int),
        decreases c.deveco_studios.len() - i,
    {
        let (api, cfg) = &c.deveco_studios[i];
        let is_resolved = match resolved {
            Some(r) => paths_equal(pl, r, cfg.path.as_str()),
            None => false,
        };
        let is_default = match &c.default_deveco_studio {
            Some(d) => paths_equal(pl, d.as_str(), cfg.path.as_str()),
            None => false,
        };
        let ghost before = lines_view(out@);
        out.push(
            ListLine::Entry(
                owned(api.as_str()),
                owned(cfg.path.as_str()),
                owned(cfg.version.as_str()),
                is_resolved,
                is_default,
            ),
        );
        assert(entries.take(i + 1) =~= entries.take(i as int).push(entries[i as int]));
        assert(lines_view(out@) =~= before.push(out@.last()@));
        i = i + 1;
    }
    assert(entries.take(i as int) =~= entries);
    let ghost head = lines_view(out@);
    match resolved {
        Some(r) => {
            if !is_listed_at(pl, c, r) {
                out.push(ListLine::Auto(owned(r), true));
            } else if let Some(a) = auto_detected {
                if !is_listed_as_text(c, a) {
                    out.push(ListLine::Auto(owned(a), false));
                }
            }
        },
        None => {},
    }
    assert(lines_view(out@) =~= env_listing(
        pl,
        c@,
        opt_str_view(resolved),
        opt_str_view(auto_detected),
    ));
    out
}


/// The version of DevEco Studio itself as shown after the SDK version:
/// ` v` and the version in cyan, nothing when it is unknown.
pub open spec fn app_version_part(app_version: Option<Seq<char>>) -> Seq<char> {
    match app_version {
        Some(v) => " v"@ + cyan(v),
        None => Seq::empty(),
    }
}

/// The SDK version of an installation as shown: `version(api)`, or
/// `unknown` when it cannot be read.
pub open spec fn sdk_part(sdk: Option<(Seq<char>, Seq<char>)>) -> Seq<char> {
    match sdk {
        Some((api, version)) => version + "("@ + api + ")"@,
        None => "unknown"@,
    }
}

/// A line of `heco env list` as printed, given the version of DevEco Studio
/// at the line's path and, for a line of an installation that is not
/// configured, its API and SDK versions as read from it.
///
/// A configured installation: a bold green `*` when it applies (else a
/// blank), its `version(api)` in cyan, the application version, a yellow
/// `default` tag in brackets when it is the default, and its path dimmed.
/// An installation found without being configured: `*` when it applies,
/// its SDK version in cyan, the application version, a yellow `auto` tag
/// and its path dimmed. Nothing found: a dimmed note, indented.
pub open spec fn list_line_text(
    line: ListLineView,
    app_version: Option<Seq<char>>,
    sdk: Option<(Seq<char>, Seq<char>)>,
) -> Seq<char> {
    match line {
        ListLineView::Entry(api, path, version, is_resolved, is_default) => (if is_resolved {
            bold_green("*"@)
        } else {
            " "@
        }) + " "@ + cyan(version + "("@ + api + ")"@) + app_version_part(app_version) + (
        if is_default {
            " ["@ + yellow("default"@) + "]"@
        } else {
            Seq::empty()
        }) + " "@ + dimmed(path),
        ListLineView::Auto(path, marked) => (if marked {
            "*"@
        } else {
            " "@
        }) + " "@ + cyan(sdk_part(sdk)) + app_version_part(app_version) + " ["@ + yellow(
            "auto"@,
        ) + "] "@ + dimmed(path),
        ListLineView::NoneFound => "  "@ + dimmed("No DevEco Studio versions configured or detected."@),
    }
}

/// Writes a line of `heco env list` (see `list_line_text`).
pub fn render_list_line(line: &ListLine, app_version: Option<&str>, sdk: Option<(&str, &str)>) -> (r:
    String)
    ensures
        r@ == list_line_text(
            line@,
            opt_str_view(app_version),
            match sdk {
                Some((a, v)) => Some((a@, v@)),
                None => None,
            },
        ),
{
    let app = match app_version {
        Some(v) => concat2(" v", paint_cyan(v).as_str()),
        None => String::new(),
    };
    assert(app@ == app_version_part(opt_str_view(app_version)));
    match line {
        ListLine::Entry(api, path, version, is_resolved, is_default) => {
            let mut out = if *is_resolved {
                paint_bold_green("*")
            } else {
                owned(" ")
            };
            out.append(" ");
            let mut sdk_text = owned(version.as_str());
            sdk_text.append("(");
            sdk_text.append(api.as_str());
            sdk_text.append(")");
            out.append(paint_cyan(sdk_text.as_str()).as_str());
            out.append(app.as_str());
            if *is_default {
                out.append(" [");
                out.append(paint_yellow("default").as_str());
                out.append("]");
            }
            out.append(" ");
            out.append(paint_dimmed(path.as_str()).as_str());
            out
        },
        ListLine::Auto(path, marked) => {
            let mut out = if *marked {
                owned("*")
            } else {
                owned(" ")
            };
            out.append(" ");
            let sdk_text = match sdk {
                Some((api, version)) => {
                    let mut t = owned(version);
                    t.append("(");
                    t.append(api);
                    t.append(")");
                    t
                },
                None => owned("unknown"),
            };
            out.append(paint_cyan(sdk_text.as_str()).as_str());
            out.append(app.as_str());
            out.append(" [");
            out.append(paint_yellow("auto").as_str());
            out.append("] ");
            out.append(paint_dimmed(path.as_str()).as_str());
            out
        },
        ListLine::NoneFound => concat2(
            "  ",
            paint_dimmed("No DevEco Studio versions configured or detected.").as_str(),
        ),
    }
}


/// The position of the first entry of `es` that lies at path `d`.
pub open spec fn first_at(pl: Platform, d: Seq<char>, es: Seq<StudioEntry>) -> Option<int>
    decreases es.len(),
{
    if es.len() == 0 {
        None
    } else if same_path(pl, d, es[0].1.0) {
        Some(0)
    } else {
        match first_at(pl, d, es.drop_first()) {
            Some(k) => Some(k + 1),
            None => None,
        }
    }
}

/// The position of the first removed entry that lies at the default path:
/// after its removal `heco env remove` says that the default went too.
pub open spec fn default_note_at(pl: Platform, default: Option<Seq<char>>, removed: Seq<StudioEntry>) -> Option<int> {
    match default {
        Some(d) => first_at(pl, d, removed),
        None => None,
    }
}

/// Finds after which removed entry `heco env remove` reports that the
/// default was removed as well (see `default_note_at`), given the default
/// before the removal.
pub fn default_note_index(pl: Platform, default: Option<&str>, removed: &Vec<(String, DevEcoConfig)>) -> (r:
    Option<usize>)
    ensures
        match default_note_at(pl, opt_str_view(default), entries_view(removed@)) {
            Some(i) => r == Some(i as usize),
            None => r is None,
        },
{
    let ghost es = entries_view(removed@);
    let d = match default {
        Some(d) => d,
        None => {
            return None;
        },
    };
    let mut i: usize = 0;
    assert(es.skip(0) =~= es);
    while i < removed.len()
        invariant
            i <= removed@.len(),
            es == entries_view(removed@),
            es.len() == removed@.len(),
            opt_str_view(default) == Some(d@),
            first_at(pl, d@, es) == (match first_at(pl, d@, es.skip(i as int)) {
                Some(k) => Some(k + i),
                None => None::<int>,
            }),
        decreases removed.len() - i,
    {
        assert(es.skip(i as int)[0] == es[i as int]);
        assert(es[i as int].1.0 == removed@[i as int].1.path@);
        if paths_equal(pl, d, removed[i].1.path.as_str()) {
            assert(first_at(pl, d@, es.skip(i as int)) == Some(0int));
            assert(first_at(pl, d@, es) == Some(i as int));
            return Some(i);
        }
        assert(es.skip(i as int).drop_first() =~= es.skip(i + 1));
        i = i + 1;
    }
    assert(es.skip(i as int) =~= Seq::<StudioEntry>::empty());
    None
}

/// `heco env remove` says that the default went too exactly when the
/// removal cleared the default: some removed entry lay at its path.
pub proof fn lemma_default_note_iff_cleared(pl: Platform, default: Option<Seq<char>>, removed: Seq<StudioEntry>)
    ensures
        default_note_at(pl, default, removed) is Some <==> default_removed(pl, default, removed),
        default_note_at(pl, default, removed) matches Some(i) ==> 0 <= i < removed.len()
            && same_path(pl, default.unwrap(), removed[i].1.0),
    decreases removed.len(),
{
    if let Some(d) = default {
        if removed.len() > 0 {
            let t = removed.drop_first();
            lemma_default_note_iff_cleared(pl, default, t);
            if same_path(pl, d, removed[0].1.0) {
                assert(default_removed(pl, default, removed));
            } else {
                if default_removed(pl, default, t) {
                    let k = choose|k: int| 0 <= k < t.len() && same_path(pl, d, #[trigger] t[k].1.0);
                    assert(removed[k + 1] == t[k]);
                }
                if default_removed(pl, default, removed) {
                    let k = choose|k: int| 0 <= k < removed.len() && same_path(pl, d, #[trigger] removed[k].1.0);
                    assert(k > 0);
                    assert(t[k - 1] == removed[k]);
                }
            }
        }
    }
}

} // verus!

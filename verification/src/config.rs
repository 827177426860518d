//! The configuration of `heco`: the DevEco Studio installations it knows,
//! which one applies, and where the tools of that installation lie.
use crate::paths::{join_all, join_many, Platform};
use crate::text::{owned, str_eq};
use vstd::prelude::*;

verus! {

/// A DevEco Studio installation: where it lies and the version of its SDK.
#[derive(Debug)]
pub struct DevEcoConfig {
    pub path: String,
    pub version: String,
}

/// The configuration: the installations by SDK API version, the default
/// installation, and the installation that applies (worked out on loading,
/// never stored).
#[derive(Debug)]
pub struct Config {
    pub deveco_studios: Vec<(String, DevEcoConfig)>,
    pub default_deveco_studio: Option<String>,
    pub resolved_deveco_studio: Option<String>,
}

/// The configuration file: the configuration sits under `env`.
#[derive(Debug)]
pub struct ConfigFile {
    pub env: Option<Config>,
}

/// An installation entry as plain values: API version, path and version.
pub type StudioEntry = (Seq<char>, (Seq<char>, Seq<char>));

/// The entries of a configuration as plain values.
pub open spec fn entries_view(v: Seq<(String, DevEcoConfig)>) -> Seq<StudioEntry> {
    v.map_values(|e: (String, DevEcoConfig)| (e.0@, (e.1.path@, e.1.version@)))
}

/// The installations as a map from API version to path and version; a later
/// entry for the same version wins, as when a map is filled in order.
pub open spec fn studio_map(es: Seq<StudioEntry>) -> Map<Seq<char>, (Seq<char>, Seq<char>)>
    decreases es.len(),
{
    if es.len() == 0 {
        Map::empty()
    } else {
        studio_map(es.drop_last()).insert(es.last().0, es.last().1)
    }
}

/// No API version occurs twice.
pub open spec fn distinct_keys(es: Seq<StudioEntry>) -> bool {
    forall|i: int, j: int|
        0 <= i < es.len() && 0 <= j < es.len() && i != j ==> #[trigger] es[i].0 != #[trigger] es[j].0
}

/// A configuration as plain values.
pub struct ConfigView {
    pub studios: Seq<StudioEntry>,
    pub default: Option<Seq<char>>,
    pub resolved: Option<Seq<char>>,
}

impl View for Config {
    type V = ConfigView;

    open spec fn view(&self) -> ConfigView {
        ConfigView {
            studios: entries_view(self.deveco_studios@),
            default: match self.default_deveco_studio {
                Some(p) => Some(p@),
                None => None,
            },
            resolved: match self.resolved_deveco_studio {
                Some(p) => Some(p@),
                None => None,
            },
        }
    }
}

/// An API version is in the map exactly when some entry has it.
pub proof fn lemma_studio_map_dom(es: Seq<StudioEntry>, k: Seq<char>)
    ensures
        studio_map(es).contains_key(k) <==> exists|i: int| 0 <= i < es.len() && #[trigger] es[i].0 == k,
    decreases es.len(),
{
    if es.len() > 0 {
        lemma_studio_map_dom(es.drop_last(), k);
        if studio_map(es).contains_key(k) && es.last().0 != k {
            let i = choose|i: int| 0 <= i < es.drop_last().len() && #[trigger] es.drop_last()[i].0 == k;
            assert(es[i].0 == k);
        }
        if exists|i: int| 0 <= i < es.len() && #[trigger] es[i].0 == k {
            let i = choose|i: int| 0 <= i < es.len() && #[trigger] es[i].0 == k;
            if i < es.len() - 1 {
                assert(es.drop_last()[i].0 == k);
            }
        }
    }
}

/// With distinct API versions, the map holds each entry's value.
pub proof fn lemma_studio_map_value(es: Seq<StudioEntry>, i: int)
    requires
        distinct_keys(es),
        0 <= i < es.len(),
    ensures
        studio_map(es).contains_key(es[i].0),
        studio_map(es)[es[i].0] == es[i].1,
    decreases es.len(),
{
    if i < es.len() - 1 {
        let t = es.drop_last();
        assert(distinct_keys(t)) by {
            assert forall|a: int, b: int|
                0 <= a < t.len() && 0 <= b < t.len() && a != b implies #[trigger] t[a].0
                != #[trigger] t[b].0 by {
                assert(t[a] == es[a] && t[b] == es[b]);
            }
        }
        lemma_studio_map_value(t, i);
        assert(es[i].0 != es.last().0);
    }
}

impl Config {
    /// The empty configuration.
    pub fn empty() -> (c: Config)
        ensures
            c@.studios.len() == 0,
            c@.default is None,
            c@.resolved is None,
    {
        Config { deveco_studios: Vec::new(), default_deveco_studio: None, resolved_deveco_studio: None }
    }

    /// The position of the entry for an API version.
    pub fn find_studio(&self, api_version: &str) -> (r: Option<usize>)
        ensures
            match r {
                Some(i) => i < self@.studios.len() && self@.studios[i as int].0 == api_version@,
                None => forall|k: int|
                    0 <= k < self@.studios.len() ==> #[trigger] self@.studios[k].0 != api_version@,
            },
    {
        let mut i: usize = 0;
        while i < self.deveco_studios.len()
            invariant
                i <= self.deveco_studios@.len(),
                forall|k: int| 0 <= k < i ==> #[trigger] self@.studios[k].0 != api_version@,
            decreases self.deveco_studios.len() - i,
        {
            if str_eq(self.deveco_studios[i].0.as_str(), api_version) {
                return Some(i);
            }
            i = i + 1;
        }
        None
    }
}

/// The installation that applies: the one configured for the SDK version
/// that the project compiles against, else the default one, else the one
/// found at a usual place.
pub open spec fn resolved_studio(
    c: ConfigView,
    compile_sdk_version: Option<Seq<char>>,
    auto_detected: Option<Seq<char>>,
) -> Option<Seq<char>> {
    match compile_sdk_version {
        Some(v) if studio_map(c.studios).contains_key(v) => Some(studio_map(c.studios)[v].0),
        _ => if c.default is Some {
            c.default
        } else {
            auto_detected
        },
    }
}

impl Config {
    /// The configuration that applies, from what the configuration file holds
    /// (`None` when it cannot be read), the SDK version the project compiles
    /// against and the installation found at a usual place.
    pub fn load(
        file_config: Option<Config>,
        compile_sdk_version: Option<&str>,
        auto_detected: Option<String>,
    ) -> (c: Config)
        requires
            file_config matches Some(f) ==> distinct_keys(f@.studios),
        ensures
            c@.studios == (match file_config {
                Some(f) => f@.studios,
                None => Seq::empty(),
            }),
            c@.default == (match file_config {
                Some(f) => f@.default,
                None => None,
            }),
            c@.resolved == resolved_studio(
                ConfigView { resolved: None, ..c@ },
                crate::text::opt_str_view(compile_sdk_version),
                crate::text::opt_string_view(auto_detected),
            ),
    {
        let mut config = match file_config {
            Some(f) => f,
            None => Config::empty(),
        };
        let ghost cv = config@;
        let mut resolved: Option<String> = None;
        if let Some(version) = compile_sdk_version {
            if let Some(i) = config.find_studio(version) {
                proof {
                    lemma_studio_map_value(cv.studios, i as int);
                }
                resolved = Some(owned(config.deveco_studios[i].1.path.as_str()));
            } else {
                proof {
                    lemma_studio_map_dom(cv.studios, version@);
                }
            }
        }
        if resolved.is_none() {
            resolved = match &config.default_deveco_studio {
                Some(p) => Some(owned(p.as_str())),
                None => auto_detected,
            };
        }
        config.resolved_deveco_studio = resolved;
        config
    }
}

/// A place where a tool may lie: the paths that must all exist, and the path
/// that results when they do.
#[derive(Debug)]
pub struct Candidate {
    pub probes: Vec<String>,
    pub result: String,
}

/// A candidate as plain values.
pub struct CandidateView {
    pub probes: Seq<Seq<char>>,
    pub result: Seq<char>,
}

impl View for Candidate {
    type V = CandidateView;

    open spec fn view(&self) -> CandidateView {
        CandidateView { probes: self.probes@.map_values(|p: String| p@), result: self.result@ }
    }
}

/// Candidates as plain values.
pub open spec fn candidates_view(v: Seq<Candidate>) -> Seq<CandidateView> {
    v.map_values(|c: Candidate| c@)
}

/// A candidate that is the path itself.
pub open spec fn single(p: Seq<char>) -> CandidateView {
    CandidateView { probes: seq![p], result: p }
}

/// The result of the first candidate that is present.
pub open spec fn first_present_result(cs: Seq<CandidateView>, present: Seq<bool>) -> Option<
    Seq<char>,
>
    decreases cs.len(),
{
    if cs.len() == 0 || present.len() == 0 {
        None
    } else if present[0] {
        Some(cs[0].result)
    } else {
        first_present_result(cs.drop_first(), present.drop_first())
    }
}

/// The result of the first candidate whose paths all exist; `present[i]`
/// tells whether those of `cands[i]` do.
pub fn first_present(cands: &Vec<Candidate>, present: &Vec<bool>) -> (r: Option<String>)
    ensures
        crate::text::opt_string_view(r) == first_present_result(candidates_view(cands@), present@),
{
    let ghost cs = candidates_view(cands@);
    let mut i: usize = 0;
    assert(cs.skip(0) =~= cs);
    assert(present@.skip(0) =~= present@);
    while i < cands.len() && i < present.len()
        invariant
            i <= cands@.len(),
            cs == candidates_view(cands@),
            cs.len() == cands@.len(),
            i <= present@.len(),
            first_present_result(cs, present@) == first_present_result(
                cs.skip(i as int),
                present@.skip(i as int),
            ),
        decreases cands.len() - i,
    {
        if present[i] {
            assert(cs.skip(i as int)[0] == cands@[i as int]@);
            return Some(owned(cands[i].result.as_str()));
        }
        assert(cs.skip(i as int).drop_first() =~= cs.skip(i + 1));
        assert(present@.skip(i as int).drop_first() =~= present@.skip(i + 1));
        i = i + 1;
    }
    assert(cs.skip(i as int).len() == 0 || present@.skip(i as int).len() == 0);
    None
}

/// The place of a file inside an installation at `root`, laid out as
/// `mac` on macOS and `win` on Windows; nothing without an installation.
pub open spec fn layout_candidates(
    pl: Platform,
    root: Option<Seq<char>>,
    mac: Seq<Seq<char>>,
    win: Seq<Seq<char>>,
) -> Seq<CandidateView> {
    match root {
        Some(r) => seq![
            single(
                join_all(
                    pl,
                    r,
                    if pl == Platform::MacOs {
                        mac
                    } else {
                        win
                    },
                ),
            ),
        ],
        None => Seq::empty(),
    }
}

/// The components of a slice of strings as plain values.
pub open spec fn comps(v: Seq<&str>) -> Seq<Seq<char>> {
    v.map_values(|c: &str| c@)
}

/// Builds a candidate that is the path itself.
fn single_candidate(p: String) -> (c: Candidate)
    ensures
        c@ == single(p@),
{
    let mut probes: Vec<String> = Vec::new();
    probes.push(owned(p.as_str()));
    let c = Candidate { probes, result: p };
    assert(c@.probes =~= seq![p@]);
    c
}

/// Builds `layout_candidates`.
fn layout(pl: Platform, root: &Option<String>, mac: &[&str], win: &[&str]) -> (r: Vec<Candidate>)
    ensures
        candidates_view(r@) == layout_candidates(
            pl,
            crate::text::opt_string_view(*root),
            comps(mac@),
            comps(win@),
        ),
{
    let mut out: Vec<Candidate> = Vec::new();
    if let Some(r) = root {
        let p = if pl == Platform::MacOs {
            join_many(pl, r.as_str(), mac)
        } else {
            join_many(pl, r.as_str(), win)
        };
        out.push(single_candidate(p));
    }
    assert(candidates_view(out@) =~= layout_candidates(
        pl,
        crate::text::opt_string_view(*root),
        comps(mac@),
        comps(win@),
    ));
    out
}

/// Where `node` lies in an installation.
pub open spec fn node_candidates(pl: Platform, root: Option<Seq<char>>) -> Seq<CandidateView> {
    layout_candidates(
        pl,
        root,
        seq!["Contents"@, "tools"@, "node"@, "bin"@, "node"@],
        seq!["tools"@, "node"@, "node.exe"@],
    )
}

/// Where `hvigorw.js` lies in an installation.
pub open spec fn hvigorw_candidates(pl: Platform, root: Option<Seq<char>>) -> Seq<CandidateView> {
    layout_candidates(
        pl,
        root,
        seq!["Contents"@, "tools"@, "hvigor"@, "bin"@, "hvigorw.js"@],
        seq!["tools"@, "hvigor"@, "bin"@, "hvigorw.js"@],
    )
}

/// Where the SDK lies in an installation.
pub open spec fn sdk_candidates(pl: Platform, root: Option<Seq<char>>) -> Seq<CandidateView> {
    layout_candidates(pl, root, seq!["Contents"@, "sdk"@], seq!["sdk"@])
}

/// Where `ohpm` lies in an installation.
pub open spec fn ohpm_candidates(pl: Platform, root: Option<Seq<char>>) -> Seq<CandidateView> {
    layout_candidates(
        pl,
        root,
        seq!["Contents"@, "tools"@, "ohpm"@, "bin"@, "ohpm"@],
        seq!["tools"@, "ohpm"@, "bin"@, "ohpm.bat"@],
    )
}

/// Where the bundled Java runtime lies in an installation.
pub open spec fn java_candidates(pl: Platform, root: Option<Seq<char>>) -> Seq<CandidateView> {
    layout_candidates(
        pl,
        root,
        seq!["Contents"@, "jbr"@, "Contents"@, "Home"@, "bin"@, "java"@],
        seq!["jbr"@, "bin"@, "java.exe"@],
    )
}

/// Where the emulator lies in an installation.
pub open spec fn emulator_candidates(pl: Platform, root: Option<Seq<char>>) -> Seq<CandidateView> {
    layout_candidates(
        pl,
        root,
        seq!["Contents"@, "tools"@, "emulator"@, "Emulator"@],
        seq!["tools"@, "emulator"@, "Emulator.exe"@],
    )
}

/// Where `codelinter` lies in an installation.
pub open spec fn codelinter_candidates(pl: Platform, root: Option<Seq<char>>) -> Seq<
    CandidateView,
> {
    layout_candidates(
        pl,
        root,
        seq!["Contents"@, "plugins"@, "codelinter"@, "run"@, "index.js"@],
        seq!["plugins"@, "codelinter"@, "run"@, "index.js"@],
    )
}

/// The SDK directory of an installation, as a path.
pub open spec fn sdk_dir(pl: Platform, root: Seq<char>) -> Seq<char> {
    join_all(
        pl,
        root,
        if pl == Platform::MacOs {
            seq!["Contents"@, "sdk"@]
        } else {
            seq!["sdk"@]
        },
    )
}

/// Where `hdc` lies: in the toolchains of the SDK, which must exist too; on
/// Windows also as `hdc.exe`.
pub open spec fn hdc_candidates(pl: Platform, root: Option<Seq<char>>) -> Seq<CandidateView> {
    match root {
        Some(r) => {
            let sdk = sdk_dir(pl, r);
            let tc = seq!["default"@, "openharmony"@, "toolchains"@];
            let hdc = join_all(pl, sdk, tc.push("hdc"@));
            let first = seq![CandidateView { probes: seq![sdk, hdc], result: hdc }];
            if pl == Platform::Windows {
                let exe = join_all(pl, sdk, tc.push("hdc.exe"@));
                first.push(CandidateView { probes: seq![sdk, exe], result: exe })
            } else {
                first
            }
        },
        None => Seq::empty(),
    }
}

/// A candidate whose result must exist together with another path.
fn pair_candidate(first: String, result: String) -> (c: Candidate)
    ensures
        c@ == (CandidateView { probes: seq![first@, result@], result: result@ }),
{
    let mut probes: Vec<String> = Vec::new();
    probes.push(first);
    probes.push(owned(result.as_str()));
    let c = Candidate { probes, result };
    assert(c@.probes =~= seq![first@, result@]);
    c
}

/// A candidate that needs `probe` to exist and results in `result`.
fn probe_candidate(probe: String, result: String) -> (c: Candidate)
    ensures
        c@ == (CandidateView { probes: seq![result@, probe@], result: result@ }),
{
    let mut probes: Vec<String> = Vec::new();
    probes.push(owned(result.as_str()));
    probes.push(probe);
    let c = Candidate { probes, result };
    assert(c@.probes =~= seq![result@, c.probes@[1]@]);
    c
}

impl Config {
    /// Where `node` may lie.
    pub fn node_path(&self, pl: Platform) -> (r: Vec<Candidate>)
        ensures
            candidates_view(r@) == node_candidates(pl, self@.resolved),
    {
        let mac: [&str; 5] = ["Contents", "tools", "node", "bin", "node"];
        let win: [&str; 3] = ["tools", "node", "node.exe"];
        assert(comps(mac@) =~= seq!["Contents"@, "tools"@, "node"@, "bin"@, "node"@]);
        assert(comps(win@) =~= seq!["tools"@, "node"@, "node.exe"@]);
        layout(pl, &self.resolved_deveco_studio, mac.as_slice(), win.as_slice())
    }

    /// Where `hvigorw.js` may lie.
    pub fn hvigorw_js_path(&self, pl: Platform) -> (r: Vec<Candidate>)
        ensures
            candidates_view(r@) == hvigorw_candidates(pl, self@.resolved),
    {
        let mac: [&str; 5] = ["Contents", "tools", "hvigor", "bin", "hvigorw.js"];
        let win: [&str; 4] = ["tools", "hvigor", "bin", "hvigorw.js"];
        assert(comps(mac@) =~= seq!["Contents"@, "tools"@, "hvigor"@, "bin"@, "hvigorw.js"@]);
        assert(comps(win@) =~= seq!["tools"@, "hvigor"@, "bin"@, "hvigorw.js"@]);
        layout(pl, &self.resolved_deveco_studio, mac.as_slice(), win.as_slice())
    }

    /// Where the SDK may lie.
    pub fn sdk_path(&self, pl: Platform) -> (r: Vec<Candidate>)
        ensures
            candidates_view(r@) == sdk_candidates(pl, self@.resolved),
    {
        let mac: [&str; 2] = ["Contents", "sdk"];
        let win: [&str; 1] = ["sdk"];
        assert(comps(mac@) =~= seq!["Contents"@, "sdk"@]);
        assert(comps(win@) =~= seq!["sdk"@]);
        layout(pl, &self.resolved_deveco_studio, mac.as_slice(), win.as_slice())
    }

    /// Where `ohpm` may lie.
    pub fn ohpm_path(&self, pl: Platform) -> (r: Vec<Candidate>)
        ensures
            candidates_view(r@) == ohpm_candidates(pl, self@.resolved),
    {
        let mac: [&str; 5] = ["Contents", "tools", "ohpm", "bin", "ohpm"];
        let win: [&str; 4] = ["tools", "ohpm", "bin", "ohpm.bat"];
        assert(comps(mac@) =~= seq!["Contents"@, "tools"@, "ohpm"@, "bin"@, "ohpm"@]);
        assert(comps(win@) =~= seq!["tools"@, "ohpm"@, "bin"@, "ohpm.bat"@]);
        layout(pl, &self.resolved_deveco_studio, mac.as_slice(), win.as_slice())
    }

    /// Where the bundled Java runtime may lie.
    pub fn java_path(&self, pl: Platform) -> (r: Vec<Candidate>)
        ensures
            candidates_view(r@) == java_candidates(pl, self@.resolved),
    {
        let mac: [&str; 6] = ["Contents", "jbr", "Contents", "Home", "bin", "java"];
        let win: [&str; 3] = ["jbr", "bin", "java.exe"];
        assert(comps(mac@) =~= seq!["Contents"@, "jbr"@, "Contents"@, "Home"@, "bin"@, "java"@]);
        assert(comps(win@) =~= seq!["jbr"@, "bin"@, "java.exe"@]);
        layout(pl, &self.resolved_deveco_studio, mac.as_slice(), win.as_slice())
    }

    /// Where the emulator may lie.
    pub fn emulator_path(&self, pl: Platform) -> (r: Vec<Candidate>)
        ensures
            candidates_view(r@) == emulator_candidates(pl, self@.resolved),
    {
        let mac: [&str; 4] = ["Contents", "tools", "emulator", "Emulator"];
        let win: [&str; 3] = ["tools", "emulator", "Emulator.exe"];
        assert(comps(mac@) =~= seq!["Contents"@, "tools"@, "emulator"@, "Emulator"@]);
        assert(comps(win@) =~= seq!["tools"@, "emulator"@, "Emulator.exe"@]);
        layout(pl, &self.resolved_deveco_studio, mac.as_slice(), win.as_slice())
    }

    /// Where `codelinter` may lie.
    pub fn codelinter_path(&self, pl: Platform) -> (r: Vec<Candidate>)
        ensures
            candidates_view(r@) == codelinter_candidates(pl, self@.resolved),
    {
        let mac: [&str; 5] = ["Contents", "plugins", "codelinter", "run", "index.js"];
        let win: [&str; 4] = ["plugins", "codelinter", "run", "index.js"];
        assert(comps(mac@) =~= seq!["Contents"@, "plugins"@, "codelinter"@, "run"@, "index.js"@]);
        assert(comps(win@) =~= seq!["plugins"@, "codelinter"@, "run"@, "index.js"@]);
        layout(pl, &self.resolved_deveco_studio, mac.as_slice(), win.as_slice())
    }

    /// Where `hdc` may lie.
    pub fn hdc_path(&self, pl: Platform) -> (r: Vec<Candidate>)
        ensures
            candidates_view(r@) == hdc_candidates(pl, self@.resolved),
    {
        let mut out: Vec<Candidate> = Vec::new();
        if let Some(root) = &self.resolved_deveco_studio {
            let mac: [&str; 2] = ["Contents", "sdk"];
            let win: [&str; 1] = ["sdk"];
            let sdk = if pl == Platform::MacOs {
                join_many(pl, root.as_str(), mac.as_slice())
            } else {
                join_many(pl, root.as_str(), win.as_slice())
            };
            assert(comps(mac@) =~= seq!["Contents"@, "sdk"@]);
            assert(comps(win@) =~= seq!["sdk"@]);
            let tc: [&str; 4] = ["default", "openharmony", "toolchains", "hdc"];
            assert(comps(tc@) =~= seq!["default"@, "openharmony"@, "toolchains"@].push("hdc"@));
            let hdc = join_many(pl, sdk.as_str(), tc.as_slice());
            out.push(pair_candidate(owned(sdk.as_str()), hdc));
            if pl == Platform::Windows {
                let tce: [&str; 4] = ["default", "openharmony", "toolchains", "hdc.exe"];
                assert(comps(tce@) =~= seq!["default"@, "openharmony"@, "toolchains"@].push(
                    "hdc.exe"@,
                ));
                let exe = join_many(pl, sdk.as_str(), tce.as_slice());
                out.push(pair_candidate(sdk, exe));
            }
        }
        assert(candidates_view(out@) =~= hdc_candidates(pl, self@.resolved));
        out
    }
}

/// Where emulator instances are deployed: under the home directory on
/// macOS, under the local application data directory on Windows (`base`,
/// empty when unset).
pub open spec fn instance_candidates(pl: Platform, base: Seq<char>) -> Seq<CandidateView> {
    seq![
        single(
            join_all(
                pl,
                base,
                if pl == Platform::MacOs {
                    seq![".Huawei"@, "Emulator"@, "deployed"@]
                } else {
                    seq!["Huawei"@, "Emulator"@, "deployed"@]
                },
            ),
        ),
    ]
}

/// Where the emulator system images lie: `system-images` in the SDK, else
/// the usual SDK directory under the home directory (macOS) or the local
/// application data directory (Windows, `base`), when it holds
/// `system-image`.
pub open spec fn image_root_candidates(pl: Platform, root: Option<Seq<char>>, base: Seq<char>) -> Seq<
    CandidateView,
> {
    let from_sdk = match root {
        Some(r) => {
            let sdk = sdk_dir(pl, r);
            let img = join_all(pl, sdk, seq!["system-images"@]);
            seq![CandidateView { probes: seq![sdk, img], result: img }]
        },
        None => Seq::empty(),
    };
    let dflt = join_all(
        pl,
        base,
        if pl == Platform::MacOs {
            seq!["Library"@, "Huawei"@, "Sdk"@]
        } else {
            seq!["Huawei"@, "Sdk"@]
        },
    );
    from_sdk + seq![
        CandidateView {
            probes: seq![dflt, join_all(pl, dflt, seq!["system-image"@])],
            result: dflt,
        },
    ]
}

/// Where DevEco Studio is usually installed: in `/Applications` or the
/// user's `Applications` on macOS, in `Program Files` on Windows.
pub open spec fn auto_detect_candidates(pl: Platform, home: Option<Seq<char>>) -> Seq<
    CandidateView,
> {
    if pl == Platform::MacOs {
        seq![single("/Applications/DevEco-Studio.app"@)] + match home {
            Some(h) => seq![single(join_all(pl, h, seq!["Applications"@, "DevEco-Studio.app"@]))],
            None => Seq::empty(),
        }
    } else {
        seq![single("C:\\Program Files\\Huawei\\DevEco Studio"@)]
    }
}

impl Config {
    /// Where emulator instances may be deployed; `base` is the home
    /// directory on macOS and the local application data directory on
    /// Windows, empty when unset.
    pub fn get_emulator_instance_path(&self, pl: Platform, base: &str) -> (r: Vec<Candidate>)
        ensures
            candidates_view(r@) == instance_candidates(pl, base@),
    {
        let mac: [&str; 3] = [".Huawei", "Emulator", "deployed"];
        let win: [&str; 3] = ["Huawei", "Emulator", "deployed"];
        assert(comps(mac@) =~= seq![".Huawei"@, "Emulator"@, "deployed"@]);
        assert(comps(win@) =~= seq!["Huawei"@, "Emulator"@, "deployed"@]);
        let p = if pl == Platform::MacOs {
            join_many(pl, base, mac.as_slice())
        } else {
            join_many(pl, base, win.as_slice())
        };
        let mut out: Vec<Candidate> = Vec::new();
        out.push(single_candidate(p));
        assert(candidates_view(out@) =~= instance_candidates(pl, base@));
        out
    }

    /// Where the emulator system images may lie (see
    /// `image_root_candidates`).
    pub fn get_emulator_image_root(&self, pl: Platform, base: &str) -> (r: Vec<Candidate>)
        ensures
            candidates_view(r@) == image_root_candidates(pl, self@.resolved, base@),
    {
        let mut out: Vec<Candidate> = Vec::new();
        if let Some(root) = &self.resolved_deveco_studio {
            let mac: [&str; 2] = ["Contents", "sdk"];
            let win: [&str; 1] = ["sdk"];
            assert(comps(mac@) =~= seq!["Contents"@, "sdk"@]);
            assert(comps(win@) =~= seq!["sdk"@]);
            let sdk = if pl == Platform::MacOs {
                join_many(pl, root.as_str(), mac.as_slice())
            } else {
                join_many(pl, root.as_str(), win.as_slice())
            };
            let img_c: [&str; 1] = ["system-images"];
            assert(comps(img_c@) =~= seq!["system-images"@]);
            let img = join_many(pl, sdk.as_str(), img_c.as_slice());
            out.push(pair_candidate(sdk, img));
        }
        let dmac: [&str; 3] = ["Library", "Huawei", "Sdk"];
        let dwin: [&str; 2] = ["Huawei", "Sdk"];
        assert(comps(dmac@) =~= seq!["Library"@, "Huawei"@, "Sdk"@]);
        assert(comps(dwin@) =~= seq!["Huawei"@, "Sdk"@]);
        let dflt = if pl == Platform::MacOs {
            join_many(pl, base, dmac.as_slice())
        } else {
            join_many(pl, base, dwin.as_slice())
        };
        let probe_c: [&str; 1] = ["system-image"];
        assert(comps(probe_c@) =~= seq!["system-image"@]);
        let probe = join_many(pl, dflt.as_str(), probe_c.as_slice());
        out.push(probe_candidate(probe, dflt));
        assert(candidates_view(out@) =~= image_root_candidates(pl, self@.resolved, base@));
        out
    }

    /// Where DevEco Studio may be installed (see `auto_detect_candidates`).
    pub fn get_auto_detected_deveco_studio(pl: Platform, home: Option<&str>) -> (r: Vec<
        Candidate,
    >)
        ensures
            candidates_view(r@) == auto_detect_candidates(pl, crate::text::opt_str_view(home)),
    {
        let mut out: Vec<Candidate> = Vec::new();
        if pl == Platform::MacOs {
            out.push(single_candidate(owned("/Applications/DevEco-Studio.app")));
            if let Some(h) = home {
                let c: [&str; 2] = ["Applications", "DevEco-Studio.app"];
                assert(comps(c@) =~= seq!["Applications"@, "DevEco-Studio.app"@]);
                out.push(single_candidate(join_many(pl, h, c.as_slice())));
            }
        } else {
            out.push(single_candidate(owned("C:\\Program Files\\Huawei\\DevEco Studio")));
        }
        assert(candidates_view(out@) =~= auto_detect_candidates(
            pl,
            crate::text::opt_str_view(home),
        ));
        out
    }
}


/// The installation that applies: for an SDK version that an entry is
/// configured for, that entry's path; when no entry is configured for the
/// project's SDK version, or there is no SDK version (outside a project),
/// the default when one is set; and only without both the installation
/// found at a usual place.
pub proof fn lemma_resolution_order(
    c: ConfigView,
    compile_sdk_version: Option<Seq<char>>,
    auto_detected: Option<Seq<char>>,
    i: int,
)
    requires
        distinct_keys(c.studios),
    ensures
        (compile_sdk_version matches Some(v) && 0 <= i < c.studios.len() && c.studios[i].0 == v)
            ==> resolved_studio(c, compile_sdk_version, auto_detected) == Some(c.studios[i].1.0),
        (forall|k: int|
            0 <= k < c.studios.len() ==> Some(#[trigger] c.studios[k].0) != compile_sdk_version) ==> (
        c.default is Some ==> resolved_studio(c, compile_sdk_version, auto_detected) == c.default),
        (forall|k: int|
            0 <= k < c.studios.len() ==> Some(#[trigger] c.studios[k].0) != compile_sdk_version) ==> (
        c.default is None ==> resolved_studio(c, compile_sdk_version, auto_detected) == auto_detected),
        resolved_studio(c, compile_sdk_version, auto_detected) != auto_detected ==> resolved_studio(
            c,
            compile_sdk_version,
            auto_detected,
        ) is Some && (resolved_studio(c, compile_sdk_version, auto_detected) == c.default || exists|
            k: int,
        |
            0 <= k < c.studios.len() && resolved_studio(c, compile_sdk_version, auto_detected) == Some(
                #[trigger] c.studios[k].1.0,
            )),
{
    if let Some(v) = compile_sdk_version {
        lemma_studio_map_dom(c.studios, v);
        if 0 <= i < c.studios.len() && c.studios[i].0 == v {
            lemma_studio_map_value(c.studios, i);
        }
        if studio_map(c.studios).contains_key(v) {
            let k = choose|k: int| 0 <= k < c.studios.len() && #[trigger] c.studios[k].0 == v;
            lemma_studio_map_value(c.studios, k);
            assert(Some(c.studios[k].0) == compile_sdk_version);
        }
    }
}

} // verus!

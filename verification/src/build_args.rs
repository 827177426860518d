//! `heco build`: its arguments and the choice of what to build.
use crate::paths::{join, join_path, path_starts_with, path_under, Platform};
use crate::project::{module_names, Module, ModuleType, ModuleView, Project, ProjectView};
use crate::text::{concat2, concat3, find_char, index_of, lemma_index_of_bounds, owned, strings_view};
use vstd::prelude::*;

verus! {

/// Arguments of `heco build`.
pub struct BuildArgs {
    /// Modules to build, each `module` or `module@target`; an empty list
    /// stands for all modules.
    pub modules: Option<Vec<String>>,
    pub debug: bool,
    pub release: bool,
    pub quiet: bool,
    /// Products to build; an empty list stands for all products.
    pub products: Option<Vec<String>>,
}

/// The strings of a vector, as plain values.
pub open spec fn vec_view(v: Seq<String>) -> Seq<Seq<char>> {
    v.map_values(|s: String| s@)
}

/// `BuildArgs` as plain values.
pub struct BuildArgsView {
    pub modules: Option<Seq<Seq<char>>>,
    pub debug: bool,
    pub release: bool,
    pub quiet: bool,
    pub products: Option<Seq<Seq<char>>>,
}

impl View for BuildArgs {
    type V = BuildArgsView;

    open spec fn view(&self) -> BuildArgsView {
        BuildArgsView {
            modules: match self.modules {
                Some(v) => Some(vec_view(v@)),
                None => None,
            },
            debug: self.debug,
            release: self.release,
            quiet: self.quiet,
            products: match self.products {
                Some(v) => Some(vec_view(v@)),
                None => None,
            },
        }
    }
}

/// A module argument split at its first `@` into module and target.
pub open spec fn module_spec(m: Seq<char>) -> (Seq<char>, Option<Seq<char>>) {
    match index_of(m, '@') {
        Some(i) => (m.take(i), Some(m.skip(i + 1))),
        None => (m, None),
    }
}

/// A parsed module argument as plain values.
pub open spec fn module_target_view(p: (String, Option<String>)) -> (Seq<char>, Option<Seq<char>>) {
    (
        p.0@,
        match p.1 {
            Some(t) => Some(t@),
            None => None,
        },
    )
}

/// Splits one module argument (see `module_spec`).
pub fn parse_module_spec(m: &str) -> (r: (String, Option<String>))
    ensures
        module_target_view(r) == module_spec(m@),
{
    match find_char(m, '@') {
        Some(idx) => {
            proof {
                lemma_index_of_bounds(m@, '@');
            }
            let n = m.unicode_len();
            let module_name = owned(m.substring_char(0, idx));
            let target_name = owned(m.substring_char(idx + 1, n));
            assert(m@.subrange(0, idx as int) =~= m@.take(idx as int));
            assert(m@.subrange(idx + 1, n as int) =~= m@.skip(idx + 1));
            (module_name, Some(target_name))
        },
        None => (owned(m), None),
    }
}

impl BuildArgs {
    /// The module arguments, each split into module and target.
    pub fn parse_modules(&self) -> (r: Option<Vec<(String, Option<String>)>>)
        ensures
            match self@.modules {
                Some(ms) => r matches Some(v) && v@.map_values(
                    |p: (String, Option<String>)| module_target_view(p),
                ) == ms.map_values(|m: Seq<char>| module_spec(m)),
                None => r is None,
            },
    {
        match &self.modules {
            Some(modules) => {
                let mut out: Vec<(String, Option<String>)> = Vec::new();
                let mut i: usize = 0;
                while i < modules.len()
                    invariant
                        i <= modules@.len(),
                        out@.len() == i,
                        forall|k: int|
                            0 <= k < i ==> module_target_view(#[trigger] out@[k]) == module_spec(
                                modules@[k]@,
                            ),
                    decreases modules.len() - i,
                {
                    out.push(parse_module_spec(modules[i].as_str()));
                    i = i + 1;
                }
                assert(out@.map_values(|p: (String, Option<String>)| module_target_view(p))
                    =~= vec_view(modules@).map_values(|m: Seq<char>| module_spec(m)));
                Some(out)
            },
            None => None,
        }
    }
}

/// The directory of a module: its source path below the project root.
pub open spec fn module_dir(pl: Platform, root: Seq<char>, m: ModuleView) -> Seq<char> {
    join_path(pl, root, m.src_path)
}

/// The first module whose directory holds `dir`.
pub open spec fn module_at(pl: Platform, p: ProjectView, dir: Seq<char>) -> Option<int>
    decreases p.modules.len(),
{
    if p.modules.len() == 0 {
        None
    } else if path_under(pl, dir, module_dir(pl, p.root, p.modules[0])) {
        Some(0)
    } else {
        match module_at(pl, ProjectView { modules: p.modules.drop_first(), ..p }, dir) {
            Some(i) => Some(i + 1),
            None => None,
        }
    }
}

/// The module whose directory holds `dir`, if any (see `module_at`).
pub fn find_module_by_path<'a>(pl: Platform, project: &'a Project, dir: &str) -> (r: Option<&'a Module>)
    ensures
        match module_at(pl, project@, dir@) {
            Some(i) => r matches Some(m) && m@ == project@.modules[i],
            None => r is None,
        },
{
    let ghost pv = project@;
    let mut i: usize = 0;
    assert(pv.modules.skip(0) =~= pv.modules);
    assert(ProjectView { modules: pv.modules.skip(0), ..pv } == pv);
    while i < project.modules.len()
        invariant
            i <= project.modules@.len(),
            pv == project@,
            pv.modules.len() == project.modules@.len(),
            module_at(pl, pv, dir@) == (match module_at(
                pl,
                ProjectView { modules: pv.modules.skip(i as int), ..pv },
                dir@,
            ) {
                Some(k) => Some(k + i),
                None => None,
            }),
        decreases project.modules.len() - i,
    {
        let m = &project.modules[i];
        let d = join(pl, project.root.as_str(), m.src_path.as_str());
        assert(pv.modules.skip(i as int)[0] == m@);
        if path_starts_with(pl, dir, d.as_str()) {
            return Some(m);
        }
        assert(pv.modules.skip(i as int).drop_first() =~= pv.modules.skip(i + 1));
        i = i + 1;
    }
    assert(pv.modules.skip(i as int) =~= Seq::<ModuleView>::empty());
    None
}

/// How a module was chosen when none was named.
#[derive(Debug, PartialEq, Eq)]
pub enum AutoBuildModule {
    /// The working directory lies in the module.
    ByPath(String),
    /// It is the only entry module, or the only module.
    SingleCandidate(String),
}

/// `AutoBuildModule` as plain values: whether by path, and the name.
pub open spec fn auto_view(a: AutoBuildModule) -> (bool, Seq<char>) {
    match a {
        AutoBuildModule::ByPath(n) => (true, n@),
        AutoBuildModule::SingleCandidate(n) => (false, n@),
    }
}

/// The entry modules.
pub open spec fn is_entry() -> spec_fn(ModuleView) -> bool {
    |m: ModuleView| m.module_type == ModuleType::Entry
}

/// The module built when none is named: the one holding the working
/// directory; else the only entry module; else the only module.
pub open spec fn default_module(pl: Platform, p: ProjectView, dir: Option<Seq<char>>) -> Option<
    (bool, Seq<char>),
> {
    let by_path = match dir {
        Some(d) => module_at(pl, p, d),
        None => None,
    };
    match by_path {
        Some(i) => Some((true, p.modules[i].name)),
        None => {
            let entries = p.modules.filter(is_entry());
            if entries.len() == 1 {
                Some((false, entries[0].name))
            } else if p.modules.len() == 1 {
                Some((false, p.modules[0].name))
            } else {
                None
            }
        },
    }
}

/// Chooses the module to build when none is named (see `default_module`).
pub fn detect_default_build_module(pl: Platform, project: &Project, current_dir: Option<&str>) -> (r:
    Option<AutoBuildModule>)
    ensures
        match default_module(pl, project@, crate::text::opt_str_view(current_dir)) {
            Some(v) => r matches Some(a) && auto_view(a) == v,
            None => r is None,
        },
{
    if let Some(dir) = current_dir {
        if let Some(m) = find_module_by_path(pl, project, dir) {
            proof {
                lemma_module_at_bounds(pl, project@, dir@);
            }
            return Some(AutoBuildModule::ByPath(owned(m.name.as_str())));
        }
    }
    let ghost ms = project@.modules;
    let mut entry_names: Vec<String> = Vec::new();
    let mut i: usize = 0;
    proof {
        reveal(Seq::filter);
        assert(ms.take(0) =~= Seq::<ModuleView>::empty());
    }
    while i < project.modules.len()
        invariant
            i <= project.modules@.len(),
            ms == project@.modules,
            ms.len() == project.modules@.len(),
            strings_view(entry_names@) == ms.take(i as int).filter(is_entry()).map_values(
                |m: ModuleView| m.name,
            ),
        decreases project.modules.len() - i,
    {
        proof {
            reveal(Seq::filter);
            assert(ms.take(i + 1).drop_last() =~= ms.take(i as int));
            assert(ms.take(i + 1).last() == ms[i as int]);
        }
        assert(ms[i as int] == project.modules@[i as int]@);
        if project.modules[i].module_type == ModuleType::Entry {
            let ghost before = strings_view(entry_names@);
            entry_names.push(owned(project.modules[i].name.as_str()));
            assert(strings_view(entry_names@) =~= before.push(ms[i as int].name));
        }
        i = i + 1;
    }
    assert(ms.take(i as int) =~= ms);
    if entry_names.len() == 1 {
        assert(strings_view(entry_names@)[0] == entry_names@[0]@);
        assert(ms.filter(is_entry()).map_values(|m: ModuleView| m.name)[0] == ms.filter(is_entry())[0].name);
        return Some(AutoBuildModule::SingleCandidate(owned(entry_names[0].as_str())));
    }
    if project.modules.len() == 1 {
        assert(ms[0] == project.modules@[0]@);
        return Some(AutoBuildModule::SingleCandidate(owned(project.modules[0].name.as_str())));
    }
    None
}

/// `module_at` names a module of the project.
proof fn lemma_module_at_bounds(pl: Platform, p: ProjectView, dir: Seq<char>)
    ensures
        module_at(pl, p, dir) matches Some(i) ==> 0 <= i < p.modules.len(),
    decreases p.modules.len(),
{
    if p.modules.len() > 0 {
        lemma_module_at_bounds(pl, ProjectView { modules: p.modules.drop_first(), ..p }, dir);
    }
}

/// Why a build cannot go ahead.
#[derive(Debug, PartialEq, Eq)]
pub enum BuildPlanError {
    /// No module was named and none could be chosen.
    NoModulesSpecified,
    /// No product was named and the project has none.
    NoProductsFound,
}

/// The message of a build that cannot go ahead.
pub open spec fn build_plan_error_text(e: BuildPlanError) -> Seq<char> {
    match e {
        BuildPlanError::NoModulesSpecified => "no modules specified. Please specify modules using --modules or --products. (e.g., `heco build --modules entry` or `heco build --products`)"@,
        BuildPlanError::NoProductsFound => "no products found to build"@,
    }
}

impl BuildPlanError {
    /// The message shown for the error (see `build_plan_error_text`).
    pub fn message(&self) -> (r: &'static str)
        ensures
            r@ == build_plan_error_text(*self),
    {
        match self {
            BuildPlanError::NoModulesSpecified => "no modules specified. Please specify modules using --modules or --products. (e.g., `heco build --modules entry` or `heco build --products`)",
            BuildPlanError::NoProductsFound => "no products found to build",
        }
    }
}

/// A copy of a vector of strings.
pub fn copy_strings(v: &Vec<String>) -> (r: Vec<String>)
    ensures
        strings_view(r@) == strings_view(v@),
{
    let mut out: Vec<String> = Vec::new();
    let mut i: usize = 0;
    while i < v.len()
        invariant
            i <= v@.len(),
            strings_view(out@) == strings_view(v@).take(i as int),
        decreases v.len() - i,
    {
        let ghost before = strings_view(out@);
        out.push(owned(v[i].as_str()));
        assert(strings_view(out@) =~= before.push(v@[i as int]@));
        assert(strings_view(v@).take(i + 1) =~= strings_view(v@).take(i as int).push(v@[i as int]@));
        i = i + 1;
    }
    assert(strings_view(v@).take(i as int) =~= strings_view(v@));
    out
}

/// An optional copy of a vector of strings.
fn copy_opt_strings(v: &Option<Vec<String>>) -> (r: Option<Vec<String>>)
    ensures
        match *v {
            Some(x) => r matches Some(y) && strings_view(y@) == strings_view(x@),
            None => r is None,
        },
{
    match v {
        Some(x) => Some(copy_strings(x)),
        None => None,
    }
}

/// The modules to build once the arguments are completed: all modules for
/// an empty list; without modules or products, the chosen module.
pub open spec fn completed_modules(
    a: BuildArgsView,
    p: ProjectView,
    chosen: Option<(bool, Seq<char>)>,
) -> Option<Option<Seq<Seq<char>>>> {
    match a.modules {
        Some(ms) => if ms.len() == 0 {
            Some(Some(module_names(p.modules)))
        } else {
            Some(Some(ms))
        },
        None => if a.products is None {
            match chosen {
                Some(c) => Some(Some(seq![c.1])),
                None => None,
            }
        } else {
            Some(None)
        },
    }
}

/// The names of the modules of a project.
fn all_module_names(project: &Project) -> (r: Vec<String>)
    ensures
        strings_view(r@) == module_names(project@.modules),
{
    let mut out: Vec<String> = Vec::new();
    let mut i: usize = 0;
    while i < project.modules.len()
        invariant
            i <= project.modules@.len(),
            strings_view(out@) == module_names(project@.modules).take(i as int),
        decreases project.modules.len() - i,
    {
        let ghost before = strings_view(out@);
        out.push(owned(project.modules[i].name.as_str()));
        assert(strings_view(out@) =~= before.push(project@.modules[i as int].name));
        assert(module_names(project@.modules).take(i + 1) =~= module_names(project@.modules).take(
            i as int,
        ).push(project@.modules[i as int].name));
        i = i + 1;
    }
    assert(module_names(project@.modules).take(i as int) =~= module_names(project@.modules));
    out
}

impl BuildArgs {
    /// Completes the arguments of a build (see `completed_modules`): the
    /// completed arguments, and how a module was chosen when it was.
    pub fn complete(&self, pl: Platform, project: &Project, current_dir: Option<&str>) -> (r: Result<
        (BuildArgs, Option<AutoBuildModule>),
        BuildPlanError,
    >)
        ensures
            ({
                let chosen = if self@.modules is None && self@.products is None {
                    default_module(pl, project@, crate::text::opt_str_view(current_dir))
                } else {
                    None
                };
                match completed_modules(self@, project@, chosen) {
                    Some(ms) => r matches Ok((b, sel)) && b@ == BuildArgsView { modules: ms, ..self@ }
                        && match chosen {
                        Some(c) => sel matches Some(s) && auto_view(s) == c,
                        None => sel is None,
                    },
                    None => r == Err::<(BuildArgs, Option<AutoBuildModule>), BuildPlanError>(
                        BuildPlanError::NoModulesSpecified,
                    ),
                }
            }),
    {
        let products = copy_opt_strings(&self.products);
        match &self.modules {
            Some(ms) => {
                let modules = if ms.len() == 0 {
                    all_module_names(project)
                } else {
                    copy_strings(ms)
                };
                let b = BuildArgs {
                    modules: Some(modules),
                    debug: self.debug,
                    release: self.release,
                    quiet: self.quiet,
                    products,
                };
                assert(b@ == BuildArgsView { modules: b@.modules, ..self@ });
                Ok((b, None))
            },
            None => {
                if self.products.is_some() {
                    let b = BuildArgs {
                        modules: None,
                        debug: self.debug,
                        release: self.release,
                        quiet: self.quiet,
                        products,
                    };
                    return Ok((b, None));
                }
                match detect_default_build_module(pl, project, current_dir) {
                    Some(sel) => {
                        let name = match &sel {
                            AutoBuildModule::ByPath(n) => owned(n.as_str()),
                            AutoBuildModule::SingleCandidate(n) => owned(n.as_str()),
                        };
                        let mut modules: Vec<String> = Vec::new();
                        modules.push(name);
                        let b = BuildArgs {
                            modules: Some(modules),
                            debug: self.debug,
                            release: self.release,
                            quiet: self.quiet,
                            products,
                        };
                        assert(strings_view(b.modules.unwrap()@) =~= seq![auto_view(sel).1]);
                        Ok((b, Some(sel)))
                    },
                    None => Err(BuildPlanError::NoModulesSpecified),
                }
            },
        }
    }
}

/// The number of steps of a build: sync, dependency install, and one
/// compile per product (all of the project's for an empty list) or one.
pub open spec fn build_step_count(a: BuildArgsView, p: ProjectView) -> int {
    2 + match a.products {
        Some(ps) => if ps.len() == 0 {
            p.products.len() as int
        } else {
            ps.len() as int
        },
        None => 1,
    }
}

/// Counts the steps of a build (see `build_step_count`).
pub fn build_task_count(args: &BuildArgs, project: &Project) -> (r: usize)
    requires
        project@.products.len() + 2 <= usize::MAX,
        args@.products matches Some(ps) ==> ps.len() + 2 <= usize::MAX,
    ensures
        r == build_step_count(args@, project@),
{
    let n = match &args.products {
        Some(ps) => if ps.len() == 0 {
            project.products.len()
        } else {
            ps.len()
        },
        None => 1,
    };
    2 + n
}

/// A compile step of a build: what it says it compiles, and its arguments.
pub struct CompileStep {
    pub description: String,
    pub args: BuildArgs,
}

/// A module argument as shown: `module@target` or `module`.
pub open spec fn shown_module(m: (Seq<char>, Option<Seq<char>>)) -> Seq<char> {
    match m.1 {
        Some(t) => m.0 + "@"@ + t,
        None => m.0,
    }
}

/// The compile steps of a completed build: one for the named modules, for
/// the first product when one is named; else one per product (the
/// project's when none is named), each for that product alone. Each says
/// what it compiles and in which project directory (`root`).
pub open spec fn compile_plan(a: BuildArgsView, p: ProjectView, root: Seq<char>) -> Result<
    Seq<(Seq<char>, BuildArgsView)>,
    BuildPlanError,
> {
    match a.modules {
        Some(ms) => {
            let parsed = ms.map_values(|m: Seq<char>| module_spec(m));
            let shown = if parsed.len() == 0 {
                "project"@
            } else {
                crate::hvigor::joined(parsed.map_values(|m: (Seq<char>, Option<Seq<char>>)| shown_module(m)), ","@)
            };
            let desc = match a.products {
                Some(ps) => if ps.len() > 0 {
                    shown + " for product "@ + ps[0] + " ("@ + root + ")"@
                } else {
                    shown + " ("@ + root + ")"@
                },
                None => shown + " ("@ + root + ")"@,
            };
            Ok(seq![(desc, a)])
        },
        None => match a.products {
            Some(ps) => {
                let targets = if ps.len() == 0 {
                    p.products
                } else {
                    ps
                };
                if targets.len() == 0 {
                    Err(BuildPlanError::NoProductsFound)
                } else {
                    Ok(
                        targets.map_values(
                            |t: Seq<char>|
                                (
                                    "product "@ + t + " ("@ + root + ")"@,
                                    BuildArgsView { modules: None, products: Some(seq![t]), ..a },
                                ),
                        ),
                    )
                }
            },
            None => Err(BuildPlanError::NoModulesSpecified),
        },
    }
}

/// Compile steps as plain values.
pub open spec fn steps_view(v: Seq<CompileStep>) -> Seq<(Seq<char>, BuildArgsView)> {
    v.map_values(|s: CompileStep| (s.description@, s.args@))
}

/// Plans the compile steps of a completed build (see `compile_plan`).
pub fn compile_steps(args: &BuildArgs, project: &Project, root: &str) -> (r: Result<
    Vec<CompileStep>,
    BuildPlanError,
>)
    ensures
        match compile_plan(args@, project@, root@) {
            Ok(s) => r matches Ok(v) && steps_view(v@) == s,
            Err(e) => r == Err::<Vec<CompileStep>, BuildPlanError>(e),
        },
{
    let mut steps: Vec<CompileStep> = Vec::new();
    if let Some(ms) = &args.modules {
        let parsed = match args.parse_modules() {
            Some(v) => v,
            None => Vec::new(),
        };
        let ghost pv = parsed@.map_values(|x: (String, Option<String>)| module_target_view(x));
        assert(pv =~= strings_view(ms@).map_values(|m: Seq<char>| module_spec(m)));
        let shown: String = if parsed.len() == 0 {
            owned("project")
        } else {
            let mut names: Vec<String> = Vec::new();
            let ghost sv = pv.map_values(|m: (Seq<char>, Option<Seq<char>>)| shown_module(m));
            let mut i: usize = 0;
            while i < parsed.len()
                invariant
                    i <= parsed@.len(),
                    pv == parsed@.map_values(|x: (String, Option<String>)| module_target_view(x)),
                    sv == pv.map_values(|m: (Seq<char>, Option<Seq<char>>)| shown_module(m)),
                    strings_view(names@) == sv.take(i as int),
                decreases parsed.len() - i,
            {
                let (m, t) = &parsed[i];
                let item = match t {
                    Some(t) => concat3(m.as_str(), "@", t.as_str()),
                    None => owned(m.as_str()),
                };
                let ghost before = strings_view(names@);
                names.push(item);
                assert(strings_view(names@) =~= before.push(sv[i as int]));
                assert(sv.take(i + 1) =~= sv.take(i as int).push(sv[i as int]));
                i = i + 1;
            }
            assert(sv.take(i as int) =~= sv);
            crate::hvigor::join_strings(&names, ",")
        };
        let mut desc = owned(shown.as_str());
        let mut with_product = false;
        if let Some(ps) = &args.products {
            if ps.len() > 0 {
                desc.append(" for product ");
                desc.append(ps[0].as_str());
                with_product = true;
            }
        }
        desc.append(" (");
        desc.append(root);
        desc.append(")");
        let step_args = BuildArgs {
            modules: copy_opt_strings(&args.modules),
            debug: args.debug,
            release: args.release,
            quiet: args.quiet,
            products: copy_opt_strings(&args.products),
        };
        steps.push(CompileStep { description: desc, args: step_args });
        assert(steps_view(steps@) =~= compile_plan(args@, project@, root@).unwrap());
        return Ok(steps);
    }
    match &args.products {
        Some(ps) => {
            let targets: &Vec<String> = if ps.len() == 0 {
                &project.products
            } else {
                ps
            };
            if targets.len() == 0 {
                return Err(BuildPlanError::NoProductsFound);
            }
            let ghost tv = strings_view(targets@);
            let ghost plan = compile_plan(args@, project@, root@).unwrap();
            let mut i: usize = 0;
            while i < targets.len()
                invariant
                    i <= targets@.len(),
                    tv == strings_view(targets@),
                    args@.modules is None,
                    plan == tv.map_values(
                        |t: Seq<char>|
                            (
                                "product "@ + t + " ("@ + root@ + ")"@,
                                BuildArgsView { modules: None, products: Some(seq![t]), ..args@ },
                            ),
                    ),
                    steps_view(steps@) == plan.take(i as int),
                decreases targets.len() - i,
            {
                let t = targets[i].as_str();
                let mut desc = concat2("product ", t);
                desc.append(" (");
                desc.append(root);
                desc.append(")");
                let mut single: Vec<String> = Vec::new();
                single.push(owned(t));
                let step_args = BuildArgs {
                    modules: None,
                    debug: args.debug,
                    release: args.release,
                    quiet: args.quiet,
                    products: Some(single),
                };
                assert(strings_view(step_args.products.unwrap()@) =~= seq![t@]);
                let ghost before = steps_view(steps@);
                steps.push(CompileStep { description: desc, args: step_args });
                assert(steps_view(steps@) =~= before.push(plan[i as int]));
                assert(plan.take(i + 1) =~= plan.take(i as int).push(plan[i as int]));
                i = i + 1;
            }
            assert(plan.take(i as int) =~= plan);
            Ok(steps)
        },
        None => Err(BuildPlanError::NoModulesSpecified),
    }
}


/// Completed build arguments always have a plan, unless they build the
/// products alone and there are none: `NoModulesSpecified` comes only from
/// `complete`.
pub proof fn lemma_completed_args_have_plan(
    a: BuildArgsView,
    p: ProjectView,
    chosen: Option<(bool, Seq<char>)>,
    root: Seq<char>,
)
    requires
        completed_modules(a, p, chosen) is Some,
    ensures
        ({
            let b = BuildArgsView { modules: completed_modules(a, p, chosen).unwrap(), ..a };
            compile_plan(b, p, root) is Err ==> b.modules is None && compile_plan(b, p, root)
                == Err::<Seq<(Seq<char>, BuildArgsView)>, BuildPlanError>(
                BuildPlanError::NoProductsFound,
            )
        }),
{
}

/// A compile step that builds products alone names exactly one product, so
/// `hvigor` is never refused more than one product for it: its command line
/// is `assembleApp` for that product in the build mode, or the product is
/// unknown to the project.
pub proof fn lemma_product_step_command(a: BuildArgsView, p: ProjectView, root: Seq<char>, i: int)
    requires
        compile_plan(a, p, root) is Ok,
        0 <= i < compile_plan(a, p, root).unwrap().len(),
        compile_plan(a, p, root).unwrap()[i].1.modules is None,
    ensures
        ({
            let s = compile_plan(a, p, root).unwrap()[i].1;
            let mode = if a.release {
                "release"@
            } else {
                "debug"@
            };
            &&& s.products matches Some(ps) && ps.len() == 1
            &&& p.products.contains(s.products.unwrap()[0]) ==> crate::hvigor::build_command(s, p)
                == Ok::<Seq<Seq<char>>, crate::hvigor::BuildErrorView>(
                seq![
                    "assembleApp"@,
                    "-p"@,
                    "product="@ + s.products.unwrap()[0],
                    "-p"@,
                    "buildMode="@ + mode,
                    "--no-daemon"@,
                ],
            )
            &&& !p.products.contains(s.products.unwrap()[0]) ==> crate::hvigor::build_command(s, p)
                == Err::<Seq<Seq<char>>, crate::hvigor::BuildErrorView>(
                crate::hvigor::BuildErrorView::Project(
                    crate::project::ProjectErrorView::UnknownProduct(s.products.unwrap()[0]),
                ),
            )
        }),
{
    let s = compile_plan(a, p, root).unwrap()[i].1;
    let mode = if a.release {
        "release"@
    } else {
        "debug"@
    };
    assert(a.modules is None);
    let t = s.products.unwrap()[0];
    if p.products.contains(t) {
        assert(seq!["assembleApp"@] + crate::hvigor::product_flag(Some(t)) + Seq::<Seq<char>>::empty()
            + seq!["-p"@, "buildMode="@ + mode, "--no-daemon"@] =~= seq![
            "assembleApp"@,
            "-p"@,
            "product="@ + t,
            "-p"@,
            "buildMode="@ + mode,
            "--no-daemon"@,
        ]);
    }
}


/// Completing build arguments keeps what was asked for and refuses only a
/// build that names nothing: named modules stay as named (an empty list
/// stands for every module of the project); a build of products alone goes
/// ahead unchanged, with no module; only without modules and products is a
/// module chosen, and without one the build is refused.
pub proof fn lemma_completion_keeps_requests(a: BuildArgsView, p: ProjectView, chosen: Option<(bool, Seq<char>)>)
    ensures
        a.modules is Some && a.modules.unwrap().len() > 0 ==> completed_modules(a, p, chosen)
            == Some(a.modules),
        a.modules is Some && a.modules.unwrap().len() == 0 ==> completed_modules(a, p, chosen) == Some(
            Some(module_names(p.modules)),
        ),
        a.modules is None && a.products is Some ==> completed_modules(a, p, chosen) == Some(
            None::<Seq<Seq<char>>>,
        ),
        completed_modules(a, p, chosen) is None <==> (a.modules is None && a.products is None
            && chosen is None),
        a.modules is None && a.products is None && chosen is Some ==> completed_modules(a, p, chosen)
            == Some(Some(seq![chosen.unwrap().1])),
{
}

} // verus!

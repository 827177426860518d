//! The HarmonyOS project as read from `build-profile.json5`: its root,
//! modules and products.
use crate::text::{concat3, find_char, index_of, lemma_index_of_bounds, owned, str_eq};
use vstd::prelude::*;

verus! {

/// The kind of a module.
#[derive(Debug, Clone, Copy, PartialEq, Eq, Structural)]
pub enum ModuleType {
    Entry,
    Feature,
    Har,
    Shared,
}

/// A module of the project.
#[derive(Debug)]
pub struct Module {
    pub name: String,
    pub module_type: ModuleType,
    pub targets: Vec<String>,
    pub src_path: String,
}

/// The project: its root directory, modules and products.
#[derive(Debug)]
pub struct Project {
    pub root: String,
    pub modules: Vec<Module>,
    pub products: Vec<String>,
}

/// A module as plain values.
pub struct ModuleView {
    pub name: Seq<char>,
    pub module_type: ModuleType,
    pub targets: Seq<Seq<char>>,
    pub src_path: Seq<char>,
}

/// A project as plain values.
pub struct ProjectView {
    pub root: Seq<char>,
    pub modules: Seq<ModuleView>,
    pub products: Seq<Seq<char>>,
}

impl View for Module {
    type V = ModuleView;

    open spec fn view(&self) -> ModuleView {
        ModuleView {
            name: self.name@,
            module_type: self.module_type,
            targets: self.targets@.map_values(|t: String| t@),
            src_path: self.src_path@,
        }
    }
}

impl View for Project {
    type V = ProjectView;

    open spec fn view(&self) -> ProjectView {
        ProjectView {
            root: self.root@,
            modules: self.modules@.map_values(|m: Module| m@),
            products: self.products@.map_values(|p: String| p@),
        }
    }
}

/// Why a project refuses a product or a target.
#[derive(Debug, PartialEq, Eq)]
pub enum ProjectError {
    /// The project has no product of this name.
    UnknownProduct(String),
    /// The module has no target of this name: the module and the target.
    UnknownTarget(String, String),
    /// The project has no module of this name.
    UnknownModule(String),
}

/// `ProjectError` as plain values.
pub enum ProjectErrorView {
    UnknownProduct(Seq<char>),
    UnknownTarget(Seq<char>, Seq<char>),
    UnknownModule(Seq<char>),
}

impl View for ProjectError {
    type V = ProjectErrorView;

    open spec fn view(&self) -> ProjectErrorView {
        match self {
            ProjectError::UnknownProduct(p) => ProjectErrorView::UnknownProduct(p@),
            ProjectError::UnknownTarget(m, t) => ProjectErrorView::UnknownTarget(m@, t@),
            ProjectError::UnknownModule(m) => ProjectErrorView::UnknownModule(m@),
        }
    }
}

/// The message of a project error.
pub open spec fn project_error_text(e: ProjectErrorView) -> Seq<char> {
    match e {
        ProjectErrorView::UnknownProduct(p) => "product '"@ + p + "' not found in project"@,
        ProjectErrorView::UnknownTarget(m, t) => "target '"@ + t + "' not found in module '"@ + m + "'"@,
        ProjectErrorView::UnknownModule(m) => "module '"@ + m + "' not found in project"@,
    }
}

impl ProjectError {
    /// The message shown for the error (see `project_error_text`).
    pub fn message(&self) -> (r: String)
        ensures
            r@ == project_error_text(self@),
    {
        match self {
            ProjectError::UnknownProduct(p) => concat3("product '", p.as_str(), "' not found in project"),
            ProjectError::UnknownTarget(m, t) => {
                let mut r = concat3("target '", t.as_str(), "' not found in module '");
                r.append(m.as_str());
                r.append("'");
                r
            },
            ProjectError::UnknownModule(m) => concat3("module '", m.as_str(), "' not found in project"),
        }
    }
}

/// The position of the first module named `name`.
pub open spec fn first_module(ms: Seq<ModuleView>, name: Seq<char>) -> Option<int>
    decreases ms.len(),
{
    if ms.len() == 0 {
        None
    } else if ms[0].name == name {
        Some(0)
    } else {
        match first_module(ms.drop_first(), name) {
            Some(i) => Some(i + 1),
            None => None,
        }
    }
}

/// `first_module` finds the first module of the name, and `None` means
/// there is none.
pub proof fn lemma_first_module(ms: Seq<ModuleView>, name: Seq<char>)
    ensures
        first_module(ms, name) matches Some(i) ==> 0 <= i < ms.len() && ms[i].name == name
            && forall|k: int| 0 <= k < i ==> ms[k].name != name,
        first_module(ms, name) is None ==> forall|k: int| 0 <= k < ms.len() ==> ms[k].name != name,
    decreases ms.len(),
{
    if ms.len() > 0 {
        lemma_first_module(ms.drop_first(), name);
        assert forall|k: int| 1 <= k < ms.len() implies ms[k] == ms.drop_first()[k - 1] by {}
    }
}

/// The names of the modules, in order.
pub open spec fn module_names(ms: Seq<ModuleView>) -> Seq<Seq<char>> {
    ms.map_values(|m: ModuleView| m.name)
}

/// Whether `v` holds a string equal to `s`.
pub fn contains_string(v: &Vec<String>, s: &str) -> (b: bool)
    ensures
        b == v@.map_values(|t: String| t@).contains(s@),
{
    let ghost w = v@.map_values(|t: String| t@);
    let mut i: usize = 0;
    while i < v.len()
        invariant
            i <= v@.len(),
            w == v@.map_values(|t: String| t@),
            forall|k: int| 0 <= k < i ==> w[k] != s@,
        decreases v.len() - i,
    {
        if str_eq(v[i].as_str(), s) {
            assert(w[i as int] == s@);
            return true;
        }
        i = i + 1;
    }
    false
}

impl Project {
    /// The first module named `name`.
    pub fn find_module(&self, name: &str) -> (r: Option<&Module>)
        ensures
            match first_module(self@.modules, name@) {
                Some(i) => r matches Some(m) && m@ == self@.modules[i],
                None => r is None,
            },
    {
        let ghost ms = self@.modules;
        let mut i: usize = 0;
        proof {
            lemma_first_module(ms, name@);
        }
        while i < self.modules.len()
            invariant
                i <= self.modules@.len(),
                ms == self@.modules,
                ms.len() == self.modules@.len(),
                first_module(ms, name@) matches Some(j) ==> i <= j,
                first_module(ms, name@) matches Some(j) ==> 0 <= j < ms.len() && ms[j].name
                    == name@,
                first_module(ms, name@) is None ==> forall|k: int|
                    0 <= k < ms.len() ==> ms[k].name != name@,
                forall|k: int| 0 <= k < i ==> ms[k].name != name@,
            decreases self.modules.len() - i,
        {
            assert(ms[i as int] == self.modules@[i as int]@);
            if str_eq(self.modules[i].name.as_str(), name) {
                proof {
                    lemma_first_module(ms, name@);
                }
                return Some(&self.modules[i]);
            }
            i = i + 1;
        }
        None
    }

    /// Accepts a product that the project has.
    pub fn validate_product(&self, product: &str) -> (r: Result<(), ProjectError>)
        ensures
            r is Ok <==> self@.products.contains(product@),
            r matches Err(e) ==> e@ == ProjectErrorView::UnknownProduct(product@),
    {
        if contains_string(&self.products, product) {
            Ok(())
        } else {
            Err(ProjectError::UnknownProduct(owned(product)))
        }
    }

    /// Accepts a target that the first module named `module` has.
    pub fn validate_target(&self, module: &str, target: &str) -> (r: Result<(), ProjectError>)
        ensures
            match first_module(self@.modules, module@) {
                Some(i) => if self@.modules[i].targets.contains(target@) {
                    r is Ok
                } else {
                    r matches Err(e) && e@ == ProjectErrorView::UnknownTarget(module@, target@)
                },
                None => r matches Err(e) && e@ == ProjectErrorView::UnknownModule(module@),
            },
    {
        match self.find_module(module) {
            Some(m) => {
                if contains_string(&m.targets, target) {
                    Ok(())
                } else {
                    Err(ProjectError::UnknownTarget(owned(module), owned(target)))
                }
            },
            None => Err(ProjectError::UnknownModule(owned(module))),
        }
    }
}


/// The API version in a version text of `build-profile.json5`: the text
/// between the first `(` and the first `)` after it, as in `5.0.0(12)`, or
/// the whole text when it has no such brackets.
pub open spec fn api_version_in(text: Seq<char>) -> Seq<char> {
    match index_of(text, '(') {
        Some(o) => match index_of(text.skip(o + 1), ')') {
            Some(k) => text.subrange(o + 1, o + 1 + k),
            None => text,
        },
        None => text,
    }
}

/// Reads the API version from a version text (see `api_version_in`).
pub fn api_version_from(text: &str) -> (r: String)
    ensures
        r@ == api_version_in(text@),
{
    match find_char(text, '(') {
        Some(o) => {
            proof {
                lemma_index_of_bounds(text@, '(');
            }
            let n = text.unicode_len();
            let rest = text.substring_char(o + 1, n);
            assert(rest@ =~= text@.skip(o + 1));
            match find_char(rest, ')') {
                Some(k) => {
                    proof {
                        lemma_index_of_bounds(rest@, ')');
                    }
                    let inner = rest.substring_char(0, k);
                    assert(inner@ =~= text@.subrange(o + 1, o + 1 + k));
                    owned(inner)
                },
                None => owned(text),
            }
        },
        None => owned(text),
    }
}

} // verus!

use heco::build_args::{
    compile_steps, detect_default_build_module, find_module_by_path, AutoBuildModule, BuildArgs,
    BuildPlanError,
};
use heco::hvigor::{
    build_args_for, check_project_root, clean_args, require_hvigor_tools, resolve_tasks, sync_args,
    BuildError, CleanArgs, ToolError,
};
use heco::paths::Platform;
use heco::project::{api_version_from, Module, ModuleType, Project, ProjectError};

fn test_project(root: &str, modules: Vec<Module>) -> Project {
    Project {
        root: root.to_string(),
        modules,
        products: vec!["default".to_string()],
    }
}

fn test_module(name: &str, module_type: ModuleType, src_path: &str) -> Module {
    Module {
        name: name.to_string(),
        module_type,
        targets: vec!["default".to_string()],
        src_path: src_path.to_string(),
    }
}

fn args(modules: Option<Vec<&str>>, products: Option<Vec<&str>>, release: bool) -> BuildArgs {
    BuildArgs {
        modules: modules.map(|v| v.into_iter().map(String::from).collect()),
        debug: !release,
        release,
        quiet: false,
        products: products.map(|v| v.into_iter().map(String::from).collect()),
    }
}

#[test]
fn detects_module_from_nested_subdirectory() {
    let root = "/tmp/heco-build-detect-subdir";
    let project = test_project(
        root,
        vec![
            test_module("entry", ModuleType::Entry, "./entry"),
            test_module("feature", ModuleType::Feature, "./feature"),
        ],
    );
    let nested_dir = format!("{root}/feature/src/main");

    let selection = detect_default_build_module(Platform::MacOs, &project, Some(&nested_dir));

    assert!(matches!(
        selection,
        Some(AutoBuildModule::ByPath(module)) if module == "feature"
    ));
}

#[test]
fn falls_back_to_single_entry_module() {
    let root = "/tmp/heco-build-detect-single-entry";
    let project = test_project(
        root,
        vec![
            test_module("entry", ModuleType::Entry, "./entry"),
            test_module("library", ModuleType::Har, "./library"),
        ],
    );

    let selection = detect_default_build_module(Platform::MacOs, &project, Some(root));

    assert!(matches!(
        selection,
        Some(AutoBuildModule::SingleCandidate(module)) if module == "entry"
    ));
}

#[test]
fn returns_none_when_multiple_modules_are_possible() {
    let root = "/tmp/heco-build-detect-ambiguous";
    let project = test_project(
        root,
        vec![
            test_module("entry", ModuleType::Entry, "./entry"),
            test_module("demo", ModuleType::Entry, "./demo"),
        ],
    );

    let selection = detect_default_build_module(Platform::MacOs, &project, Some(root));

    assert!(selection.is_none());
}

#[test]
fn single_module_project_is_chosen() {
    let project = test_project("/p", vec![test_module("lib", ModuleType::Har, "./lib")]);
    assert_eq!(
        detect_default_build_module(Platform::MacOs, &project, None),
        Some(AutoBuildModule::SingleCandidate("lib".to_string()))
    );
    assert!(find_module_by_path(Platform::MacOs, &project, "/p/lib/").is_some());
    assert!(find_module_by_path(Platform::MacOs, &project, "/p/library").is_none());
    assert!(find_module_by_path(Platform::MacOs, &project, "/p").is_none());
}

fn sample_project() -> Project {
    Project {
        root: "/p".to_string(),
        modules: vec![
            test_module("entry", ModuleType::Entry, "./entry"),
            test_module("lib", ModuleType::Har, "./lib"),
            test_module("shared", ModuleType::Shared, "./shared"),
        ],
        products: vec!["default".to_string(), "pro".to_string()],
    }
}

#[test]
fn command_args_for_products_only() {
    let p = sample_project();
    assert_eq!(
        args(None, Some(vec!["pro"]), true).to_command_args(&p).unwrap(),
        vec!["assembleApp", "-p", "product=pro", "-p", "buildMode=release", "--no-daemon"]
    );
    assert_eq!(
        args(None, Some(vec![]), false).to_command_args(&p).unwrap(),
        vec!["assembleApp", "-p", "buildMode=debug", "--no-daemon"]
    );
}

#[test]
fn command_args_for_modules_sort_and_dedup_tasks() {
    let p = sample_project();
    assert_eq!(
        args(Some(vec!["shared", "entry@default", "lib", "entry"]), Some(vec!["default"]), false)
            .to_command_args(&p)
            .unwrap(),
        vec![
            "assembleHap",
            "assembleHar",
            "assembleHsp",
            "-p",
            "module=shared,entry,lib,entry",
            "-p",
            "product=default",
            "-p",
            "buildMode=debug",
            "--no-daemon"
        ]
    );
    assert_eq!(
        args(Some(vec![]), None, false).to_command_args(&p).unwrap(),
        vec!["assembleHap", "assembleHsp", "assembleHar", "-p", "buildMode=debug", "--no-daemon"]
    );
}

#[test]
fn command_args_errors() {
    let p = sample_project();
    assert_eq!(
        args(Some(vec!["entry"]), Some(vec!["default", "pro"]), false).to_command_args(&p),
        Err(BuildError::OneProductWithModules)
    );
    assert_eq!(
        args(None, Some(vec!["nope"]), false).to_command_args(&p),
        Err(BuildError::Project(ProjectError::UnknownProduct("nope".to_string())))
    );
    assert_eq!(
        args(Some(vec!["missing"]), None, false).to_command_args(&p),
        Err(BuildError::ModuleNotFound(
            "missing".to_string(),
            vec!["entry".to_string(), "lib".to_string(), "shared".to_string()]
        ))
    );
    assert_eq!(
        args(Some(vec!["entry@ohos"]), None, false).to_command_args(&p),
        Err(BuildError::Project(ProjectError::UnknownTarget(
            "entry".to_string(),
            "ohos".to_string()
        )))
    );
}

#[test]
fn tasks_for_projects_and_modules() {
    let p = sample_project();
    assert_eq!(resolve_tasks("lib", &None, &p).unwrap(), vec!["assembleHar"]);
    assert_eq!(resolve_tasks("shared", &None, &p).unwrap(), vec!["assembleHsp"]);
    let empty = Project { root: "/e".to_string(), modules: vec![], products: vec![] };
    assert_eq!(resolve_tasks("", &None, &empty).unwrap(), vec!["assembleHap"]);
}

#[test]
fn sync_and_clean_arguments() {
    let p = sample_project();
    assert_eq!(
        sync_args("/h/hvigorw.js", &p),
        vec![
            "/h/hvigorw.js",
            "--sync",
            "-p",
            "product=default",
            "--analyze=normal",
            "--parallel",
            "--incremental",
            "--no-daemon"
        ]
    );
    let empty = Project { root: "/e".to_string(), modules: vec![], products: vec![] };
    assert_eq!(sync_args("h", &empty)[3], "product=default");
    assert_eq!(
        clean_args("h", &CleanArgs { module: Some("entry".to_string()), quiet: false }),
        vec!["h", "clean", "--no-daemon", "-p", "module=entry"]
    );
    assert_eq!(clean_args("h", &CleanArgs { module: None, quiet: true }), vec!["h", "clean", "--no-daemon"]);
}

#[test]
fn missing_tools_are_reported_in_order() {
    let s = |x: &str| Some(x.to_string());
    assert_eq!(
        require_hvigor_tools(None, None, None, None, true).err(),
        Some(ToolError::NodeNotFound)
    );
    assert_eq!(
        require_hvigor_tools(s("n"), s("h"), None, None, true).err(),
        Some(ToolError::SdkNotFound)
    );
    assert_eq!(
        require_hvigor_tools(s("n"), s("h"), s("s"), None, true).err(),
        Some(ToolError::JavaNotFound)
    );
    let t = require_hvigor_tools(s("n"), s("h"), s("s"), None, false).ok().unwrap();
    assert_eq!((t.node.as_str(), t.hvigorw_js.as_str(), t.sdk.as_str(), t.java), ("n", "h", "s", None));
}

#[test]
fn build_completion_and_plan() {
    let p = sample_project();
    let (done, sel) = args(Some(vec![]), None, false).complete(Platform::MacOs, &p, None).unwrap();
    assert_eq!(done.modules.unwrap(), vec!["entry", "lib", "shared"]);
    assert!(sel.is_none());
    let (done, sel) = args(None, None, false).complete(Platform::MacOs, &p, Some("/p/lib/src")).unwrap();
    assert_eq!(done.modules.as_ref().unwrap(), &vec!["lib".to_string()]);
    assert_eq!(sel, Some(AutoBuildModule::ByPath("lib".to_string())));
    let two = test_project(
        "/q",
        vec![
            test_module("a", ModuleType::Entry, "./a"),
            test_module("b", ModuleType::Entry, "./b"),
        ],
    );
    assert!(matches!(
        args(None, None, false).complete(Platform::MacOs, &two, None),
        Err(BuildPlanError::NoModulesSpecified)
    ));

    let steps = compile_steps(&args(Some(vec!["entry@default", "lib"]), Some(vec!["pro"]), false), &p, "/p").unwrap();
    assert_eq!(steps.len(), 1);
    assert_eq!(steps[0].description, "entry@default,lib for product pro (/p)");
    let steps = compile_steps(&args(None, Some(vec![]), false), &p, "/p").unwrap();
    let descs: Vec<&str> = steps.iter().map(|s| s.description.as_str()).collect();
    assert_eq!(descs, vec!["product default (/p)", "product pro (/p)"]);
    assert_eq!(steps[1].args.products.as_ref().unwrap(), &vec!["pro".to_string()]);
    let none = Project { root: "/e".to_string(), modules: vec![], products: vec![] };
    assert!(matches!(
        compile_steps(&args(None, Some(vec![]), false), &none, "/e"),
        Err(BuildPlanError::NoProductsFound)
    ));
}

#[test]
fn api_version_is_read_from_a_version_text() {
    assert_eq!(api_version_from("5.0.0(12)"), "12");
    assert_eq!(api_version_from("6.0.0(20) Release"), "20");
    assert_eq!(api_version_from("12"), "12");
    assert_eq!(api_version_from("5.0(12"), "5.0(12");
    assert_eq!(api_version_from(")x("), ")x(");
}

#[test]
fn build_is_refused_outside_the_project_root() {
    let p = sample_project();
    let root = p.root.clone();
    assert_eq!(check_project_root(Platform::MacOs, &p, &format!("{root}/")), Ok(()));
    assert_eq!(check_project_root(Platform::MacOs, &p, "/elsewhere"), Err(BuildError::RootMismatch));
    assert_eq!(
        build_args_for(Platform::MacOs, "h.js", &args(None, Some(vec!["pro"]), false), &p, "/elsewhere"),
        Err(BuildError::RootMismatch)
    );
    assert_eq!(
        build_args_for(Platform::MacOs, "h.js", &args(None, Some(vec!["pro"]), false), &p, &root).unwrap(),
        vec!["h.js", "assembleApp", "-p", "product=pro", "-p", "buildMode=debug", "--no-daemon"]
    );
}

#[test]
fn build_and_project_errors_have_messages() {
    assert_eq!(
        BuildError::OneProductWithModules.message(),
        "only one product is allowed when using --modules parameter"
    );
    assert_eq!(
        BuildError::ModuleNotFound("x".to_string(), vec!["entry".to_string(), "lib".to_string()]).message(),
        "error: module '\x1b[31mx\x1b[39m' not found in project\n\nAvailable modules:\n  entry\n  lib"
    );
    assert_eq!(BuildError::RootMismatch.message(), "project root mismatch");
    assert_eq!(
        BuildError::Project(ProjectError::UnknownTarget("entry".to_string(), "ohos".to_string())).message(),
        "target 'ohos' not found in module 'entry'"
    );
    assert_eq!(ProjectError::UnknownProduct("p".to_string()).message(), "product 'p' not found in project");
    assert_eq!(ProjectError::UnknownModule("m".to_string()).message(), "module 'm' not found in project");
}

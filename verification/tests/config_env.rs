use heco::config::{first_present, Candidate, Config, DevEcoConfig};
use heco::env::{
    default_note_index, expand_path, list_entries, product_info_path, render_list_line, sdk_pkg_path,
    trim_trailing_slashes, ListLine,
};
use heco::paths::Platform;

fn studio(api: &str, path: &str, version: &str) -> (String, DevEcoConfig) {
    (api.to_string(), DevEcoConfig { path: path.to_string(), version: version.to_string() })
}

fn config(entries: Vec<(String, DevEcoConfig)>, default: Option<&str>) -> Config {
    Config {
        deveco_studios: entries,
        default_deveco_studio: default.map(String::from),
        resolved_deveco_studio: None,
    }
}

#[test]
fn load_prefers_project_version_then_default_then_auto() {
    let c = config(vec![studio("12", "/a", "5.0"), studio("14", "/b", "5.1")], Some("/d"));
    let loaded = Config::load(Some(c), Some("14"), Some("/auto".to_string()));
    assert_eq!(loaded.resolved_deveco_studio.as_deref(), Some("/b"));
    let c = config(vec![studio("12", "/a", "5.0")], Some("/d"));
    let loaded = Config::load(Some(c), Some("99"), Some("/auto".to_string()));
    assert_eq!(loaded.resolved_deveco_studio.as_deref(), Some("/d"));
    let loaded = Config::load(None, Some("12"), Some("/auto".to_string()));
    assert_eq!(loaded.resolved_deveco_studio.as_deref(), Some("/auto"));
    assert!(loaded.deveco_studios.is_empty());
    let loaded = Config::load(None, None, None);
    assert_eq!(loaded.resolved_deveco_studio, None);
}

#[test]
fn tool_paths_follow_platform_layout() {
    let mut c = config(vec![], None);
    c.resolved_deveco_studio = Some("/Applications/DevEco-Studio.app".to_string());
    let node = c.node_path(Platform::MacOs);
    assert_eq!(node.len(), 1);
    assert_eq!(node[0].result, "/Applications/DevEco-Studio.app/Contents/tools/node/bin/node");
    assert_eq!(node[0].probes, vec![node[0].result.clone()]);
    assert_eq!(
        c.codelinter_path(Platform::MacOs)[0].result,
        "/Applications/DevEco-Studio.app/Contents/plugins/codelinter/run/index.js"
    );
    let hdc = c.hdc_path(Platform::MacOs);
    assert_eq!(hdc.len(), 1);
    assert_eq!(
        hdc[0].probes,
        vec![
            "/Applications/DevEco-Studio.app/Contents/sdk".to_string(),
            "/Applications/DevEco-Studio.app/Contents/sdk/default/openharmony/toolchains/hdc".to_string()
        ]
    );
    c.resolved_deveco_studio = Some("C:\\DevEco".to_string());
    assert_eq!(c.node_path(Platform::Windows)[0].result, "C:\\DevEco\\tools\\node\\node.exe");
    assert_eq!(c.ohpm_path(Platform::Windows)[0].result, "C:\\DevEco\\tools\\ohpm\\bin\\ohpm.bat");
    let hdc = c.hdc_path(Platform::Windows);
    assert_eq!(hdc.len(), 2);
    assert_eq!(hdc[1].result, "C:\\DevEco\\sdk\\default\\openharmony\\toolchains\\hdc.exe");
    c.resolved_deveco_studio = None;
    assert!(c.java_path(Platform::MacOs).is_empty());
    assert!(c.hdc_path(Platform::Windows).is_empty());
}

#[test]
fn emulator_and_auto_detect_candidates() {
    let mut c = config(vec![], None);
    c.resolved_deveco_studio = Some("/D".to_string());
    let inst = c.get_emulator_instance_path(Platform::MacOs, "/Users/me");
    assert_eq!(inst[0].result, "/Users/me/.Huawei/Emulator/deployed");
    let img = c.get_emulator_image_root(Platform::MacOs, "/Users/me");
    assert_eq!(img.len(), 2);
    assert_eq!(img[0].result, "/D/Contents/sdk/system-images");
    assert_eq!(img[1].result, "/Users/me/Library/Huawei/Sdk");
    assert_eq!(img[1].probes[1], "/Users/me/Library/Huawei/Sdk/system-image");
    let auto = Config::get_auto_detected_deveco_studio(Platform::MacOs, Some("/Users/me"));
    assert_eq!(auto.len(), 2);
    assert_eq!(auto[1].result, "/Users/me/Applications/DevEco-Studio.app");
    let auto = Config::get_auto_detected_deveco_studio(Platform::Windows, None);
    assert_eq!(auto[0].result, "C:\\Program Files\\Huawei\\DevEco Studio");
}

#[test]
fn first_present_candidate_wins() {
    let cands = vec![
        Candidate { probes: vec!["a".to_string()], result: "a".to_string() },
        Candidate { probes: vec!["b".to_string()], result: "b".to_string() },
    ];
    assert_eq!(first_present(&cands, &vec![false, true]), Some("b".to_string()));
    assert_eq!(first_present(&cands, &vec![true, true]), Some("a".to_string()));
    assert_eq!(first_present(&cands, &vec![false, false]), None);
}

#[test]
fn add_replaces_and_sets_default() {
    let mut c = config(vec![studio("12", "/a", "5.0")], None);
    c.add_deveco_studio("12".to_string(), "/a2".to_string(), "5.0.1".to_string(), false);
    assert_eq!(c.deveco_studios.len(), 1);
    assert_eq!(c.deveco_studios[0].1.path, "/a2");
    assert_eq!(c.default_deveco_studio, None);
    c.add_deveco_studio("14".to_string(), "/b".to_string(), "5.1".to_string(), true);
    assert_eq!(c.deveco_studios.len(), 2);
    assert_eq!(c.default_deveco_studio.as_deref(), Some("/b"));
}

#[test]
fn remove_by_version_path_or_api_and_clear_default() {
    let mut c = config(
        vec![studio("12", "/a", "5.0"), studio("14", "/b/", "5.1"), studio("15", "/c", "6.0")],
        Some("/b"),
    );
    let removed = c.remove_deveco_studios(Platform::MacOs, "~/b", "/b");
    assert_eq!(removed.len(), 1);
    assert_eq!(removed[0].0, "14");
    assert_eq!(c.default_deveco_studio, None);
    let removed = c.remove_deveco_studios(Platform::MacOs, "5.0", "5.0");
    assert_eq!(removed[0].0, "12");
    let removed = c.remove_deveco_studios(Platform::MacOs, "15", "15");
    assert_eq!(removed.len(), 1);
    assert!(c.deveco_studios.is_empty());
    let removed = c.remove_deveco_studios(Platform::MacOs, "x", "x");
    assert!(removed.is_empty());
}

#[test]
fn add_then_remove_by_api_version_leaves_it_out() {
    let mut c = config(vec![studio("12", "/a", "5.0")], Some("/a"));
    c.add_deveco_studio("14".to_string(), "/b".to_string(), "5.1".to_string(), false);
    c.remove_deveco_studios(Platform::MacOs, "14", "14");
    assert!(c.deveco_studios.iter().all(|(k, _)| k != "14"));
    assert_eq!(c.deveco_studios.len(), 1);
    assert_eq!(c.default_deveco_studio.as_deref(), Some("/a"));
}

#[test]
fn tilde_expansion() {
    assert_eq!(expand_path(Platform::MacOs, "~", Some("/home/u")), "/home/u");
    assert_eq!(expand_path(Platform::MacOs, "~/x/y", Some("/home/u")), "/home/u/x/y");
    assert_eq!(expand_path(Platform::MacOs, "~/x", None), "~/x");
    assert_eq!(expand_path(Platform::MacOs, "/abs", Some("/home/u")), "/abs");
    assert_eq!(expand_path(Platform::MacOs, "~x", Some("/home/u")), "~x");
}

#[test]
fn version_files_of_an_installation() {
    assert_eq!(sdk_pkg_path(Platform::MacOs, "/D"), "/D/Contents/sdk/default/sdk-pkg.json");
    assert_eq!(sdk_pkg_path(Platform::Windows, "C:\\D"), "C:\\D\\sdk\\default\\sdk-pkg.json");
    assert_eq!(product_info_path(Platform::MacOs, "/D"), "/D/Contents/Resources/product-info.json");
}

#[test]
fn listing_marks_resolved_default_and_auto() {
    let c = config(vec![studio("12", "/a", "5.0"), studio("14", "/b", "5.1")], Some("/b"));
    let lines = list_entries(Platform::MacOs, &c, Some("/a/"), Some("/auto"));
    assert_eq!(
        lines,
        vec![
            ListLine::Entry("12".into(), "/a".into(), "5.0".into(), true, false),
            ListLine::Entry("14".into(), "/b".into(), "5.1".into(), false, true),
            ListLine::Auto("/auto".into(), false),
        ]
    );
    let lines = list_entries(Platform::MacOs, &c, Some("/z"), None);
    assert_eq!(lines[2], ListLine::Auto("/z".into(), true));
    let lines = list_entries(Platform::MacOs, &c, Some("/a"), Some("/b/"));
    assert_eq!(lines.len(), 2);
    let empty = config(vec![], None);
    assert_eq!(list_entries(Platform::MacOs, &empty, None, None), vec![ListLine::NoneFound]);
    assert_eq!(
        list_entries(Platform::MacOs, &empty, Some("/r"), None),
        vec![ListLine::Auto("/r".into(), true)]
    );
    assert_eq!(trim_trailing_slashes("/a///"), "/a");
}

#[test]
fn list_lines_render_with_markers_tags_and_versions() {
    let entry = ListLine::Entry("12".into(), "/a".into(), "5.0".into(), true, true);
    assert_eq!(
        render_list_line(&entry, Some("5.0.3"), None),
        "\x1b[1m\x1b[32m*\x1b[39m\x1b[0m \x1b[36m5.0(12)\x1b[39m v\x1b[36m5.0.3\x1b[39m [\x1b[33mdefault\x1b[39m] \x1b[2m/a\x1b[0m"
    );
    let plain = ListLine::Entry("14".into(), "/b".into(), "5.1".into(), false, false);
    assert_eq!(render_list_line(&plain, None, None), "  \x1b[36m5.1(14)\x1b[39m \x1b[2m/b\x1b[0m");
    let auto = ListLine::Auto("/r".into(), false);
    assert_eq!(
        render_list_line(&auto, None, Some(("13", "5.0.1"))),
        "  \x1b[36m5.0.1(13)\x1b[39m [\x1b[33mauto\x1b[39m] \x1b[2m/r\x1b[0m"
    );
    let applied = ListLine::Auto("/r".into(), true);
    assert_eq!(
        render_list_line(&applied, Some("5"), None),
        "* \x1b[36munknown\x1b[39m v\x1b[36m5\x1b[39m [\x1b[33mauto\x1b[39m] \x1b[2m/r\x1b[0m"
    );
    assert_eq!(
        render_list_line(&ListLine::NoneFound, None, None),
        "  \x1b[2mNo DevEco Studio versions configured or detected.\x1b[0m"
    );
}

#[test]
fn default_note_follows_the_first_removed_entry_at_the_default() {
    let removed = vec![studio("12", "/a", "5.0"), studio("13", "/d/", "5.1"), studio("14", "/d", "5.2")];
    assert_eq!(default_note_index(Platform::MacOs, Some("/d"), &removed), Some(1));
    assert_eq!(default_note_index(Platform::MacOs, Some("/x"), &removed), None);
    assert_eq!(default_note_index(Platform::MacOs, None, &removed), None);
}

use heco::commands::{handle_check, handle_run, handle_test, CheckArgs, RunArgs, TestArgs};
use heco::completion::{
    complete_device_values, complete_module_values, completion_guide, detect_shell, GuideShell,
};
use heco::emit::Emit;
use heco::emulator::{
    classify_kill, classify_start, classify_stop, emulator_list_header, escape_pattern,
    find_emulator_binary, handle_emulator, handle_list as emulator_lines, kill_command_args,
    parse_emulator_list, start_command_args, EmulatorArgs, EmulatorCommands, EmulatorError, ListArgs as EmulatorListArgs,
    StartArgs, StartOutcome, StopArgs, StopOutcome,
};
use heco::device::{handle_device, DeviceArgs, DeviceCommands, ListArgs};
use heco::hdc::{
    accept_device_name, device_queries, find_hdc_binary, parse_targets, DeviceQuery, HdcError,
};
use heco::new_project::{api_level_from_input, get_project_name, new_project_lines};
use heco::ohpm::{
    process_ohpm_line, process_stripped_ohpm_line, require_ohpm_tools, should_skip_success_line,
};
use heco::output::{finished, finished_description, is_quiet, set_quiet, set_verbose, verbose_level, OutputSettings};
use heco::output_parser::LogType;
use heco::paths::Platform;
use heco::project::{Module, ModuleType, Project};
use heco::update::{
    detect_install_method, is_newer_version, method_of_lowercase_path, update_command, InstallMethod,
};

#[test]
fn hdc_targets_and_names() {
    assert_eq!(find_hdc_binary(None), Err(HdcError::BinaryNotFound));
    assert_eq!(find_hdc_binary(Some("/h".to_string())), Ok("/h".to_string()));
    assert_eq!(
        parse_targets("127.0.0.1:5555\tdevice\n\n[Empty]\n  ABC123   usb  \r\n"),
        vec!["127.0.0.1:5555", "ABC123"]
    );
    assert_eq!(accept_device_name(DeviceQuery::EmulatorName, " Pixel \n"), Some("Pixel".to_string()));
    assert_eq!(accept_device_name(DeviceQuery::EmulatorName, "get param fail!"), None);
    assert_eq!(accept_device_name(DeviceQuery::ProductName, "emulator"), None);
    assert_eq!(accept_device_name(DeviceQuery::ProductModel, "emulator"), Some("emulator".to_string()));
    assert_eq!(accept_device_name(DeviceQuery::ProductModel, "not found"), None);
    assert_eq!(device_queries()[0].param_key(), "ohos.qemu.hvd.name");
    let list = DeviceArgs { command: DeviceCommands::List(ListArgs {}) };
    assert_eq!(handle_device(&list, &vec![]), vec!["No active devices found."]);
    assert_eq!(
        handle_device(&list, &vec![("Mate".to_string(), "X1".to_string())]),
        vec!["Mate (X1)"]
    );
}

#[test]
fn emulator_commands_and_answers() {
    assert_eq!(find_emulator_binary(None), Err(EmulatorError::BinaryNotFound));
    assert_eq!(
        start_command_args("P", Some("/i"), Some("/r")).unwrap(),
        vec!["-hvd", "P", "-path", "/i", "-imageRoot", "/r"]
    );
    assert_eq!(start_command_args("P", None, Some("/r")), Err(EmulatorError::InstancePathNotFound));
    assert_eq!(start_command_args("P", Some("/i"), None), Err(EmulatorError::ImageRootNotFound));
    assert_eq!(classify_start(false, "instance already running"), StartOutcome::AlreadyRunning);
    assert_eq!(classify_start(true, "ok"), StartOutcome::Started);
    assert_eq!(classify_start(false, "  bad  \n"), StartOutcome::Failed("bad".to_string()));
    assert_eq!(classify_stop(true, "whatever"), StopOutcome::Stopped);
    assert_eq!(classify_stop(false, "emulator not running"), StopOutcome::AlreadyStopped);
    assert_eq!(classify_stop(false, "oops"), StopOutcome::Failed("oops".to_string()));
    assert_eq!(parse_emulator_list("  A \n\n B\n"), vec!["A", "B"]);
}

#[test]
fn ohpm_lines() {
    assert!(should_skip_success_line("install completed in 1s"));
    let (s, e) = process_ohpm_line(None, "ohpm ohpm WARN: old dep", false, true);
    assert_eq!(s, Some(LogType::Warning));
    assert_eq!(e, Emit::BarLine("\x1b[1m\x1b[33mwarning\x1b[39m\x1b[0m: old dep".to_string()));
    let (s, e) = process_ohpm_line(s, "  detail", true, true);
    assert_eq!(s, Some(LogType::Warning));
    assert_eq!(e, Emit::Direct("  detail".to_string()));
    let (s, e) = process_ohpm_line(s, "plain", true, true);
    assert_eq!(s, None);
    assert_eq!(e, Emit::Nothing);
    let (_, e) = process_ohpm_line(None, "ERR! broke", true, true);
    assert_eq!(e, Emit::Direct("\x1b[1m\x1b[31merror\x1b[39m\x1b[0m: broke".to_string()));
    let (_, e) = process_ohpm_line(None, "ohpm install completed in 3s", false, true);
    assert_eq!(e, Emit::Nothing);
    assert!(require_ohpm_tools(None, None, None).is_err());
    let (s, e) = process_stripped_ohpm_line(Some(LogType::Error), "  \x1b[1mfix it", "  fix it", false, false);
    assert_eq!(s, Some(LogType::Error));
    assert_eq!(e, Emit::Direct("  fix it".to_string()));
    let (_, e) = process_ohpm_line(None, "\x1b[33mWARN:\x1b[0m stale", true, true);
    assert_eq!(e, Emit::Direct("\x1b[1m\x1b[33mwarning\x1b[39m\x1b[0m: stale".to_string()));
}

#[test]
fn versions_compare_numerically() {
    assert!(is_newer_version("1.2.3", "1.10.0"));
    assert!(!is_newer_version("1.10.0", "1.2.3"));
    assert!(is_newer_version("1.2", "1.2.0"));
    assert!(!is_newer_version("1.2.0", "1.2"));
    assert!(!is_newer_version("0.3.1", "0.3.1"));
    assert!(!is_newer_version("1.x", "1.0"));
    assert!(is_newer_version("0.9", "1"));
}

#[test]
fn newer_is_irreflexive_asymmetric_and_transitive_on_samples() {
    let vs = ["0.1", "0.1.0", "0.2", "1", "1.0.1", "1.a", "2.0", ""];
    for a in vs {
        assert!(!is_newer_version(a, a));
        for b in vs {
            assert!(!(is_newer_version(a, b) && is_newer_version(b, a)));
            for c in vs {
                if is_newer_version(a, b) && is_newer_version(b, c) {
                    assert!(is_newer_version(a, c));
                }
            }
        }
    }
}

#[test]
fn install_method_from_executable_path() {
    assert_eq!(detect_install_method("/Users/X/.CARGO/bin/heco"), Some(InstallMethod::Cargo));
    assert_eq!(detect_install_method("/opt/HomeBrew/bin/heco"), Some(InstallMethod::Homebrew));
    assert_eq!(detect_install_method("C:\\Program Files\\WindowsApps\\heco.exe"), Some(InstallMethod::Winget));
    assert_eq!(detect_install_method("/usr/local/bin/heco"), None);
    assert_eq!(method_of_lowercase_path("/home/u/.linuxbrew/bin/heco"), Some(InstallMethod::Homebrew));
    assert_eq!(method_of_lowercase_path("/home/u/.CARGO/bin/heco"), None);
    let (p, a) = update_command(InstallMethod::Winget);
    assert_eq!(p, "winget");
    assert_eq!(a, vec!["upgrade", "HecO-CLI.HecO", "-s", "winget"]);
}

#[test]
fn output_settings_read_back() {
    let mut s = OutputSettings::new();
    set_quiet(&mut s, true);
    set_verbose(&mut s, 2);
    assert!(is_quiet(&s));
    assert_eq!(verbose_level(&s), 2);
    set_quiet(&mut s, false);
    assert!(!is_quiet(&s));
    assert_eq!(verbose_level(&s), 2);
}

#[test]
fn finished_text() {
    assert_eq!(finished("", 1, 230_000_000), "in 1.23s");
    assert_eq!(finished("  ", 0, 5_000_000), "in 5.00ms");
    assert_eq!(finished("debug", 2, 0), "debug in 2.00s");
    assert_eq!(finished_description(" \t", "3.00s"), "in 3.00s");
    assert_eq!(finished_description("release", "40.00ms"), "release in 40.00ms");
}

#[test]
fn project_creation_details() {
    assert_eq!(get_project_name(Platform::MacOs, "a/b/MyApp", &None), "MyApp");
    assert_eq!(get_project_name(Platform::MacOs, "x", &Some("N".to_string())), "N");
    assert_eq!(get_project_name(Platform::MacOs, "..", &None), "..");
    assert_eq!(api_level_from_input("12"), 12);
    assert_eq!(api_level_from_input("abc"), 22);
    assert_eq!(new_project_lines("p", "n", "b", "22")[4], "  API level: 22");
}

#[test]
fn command_messages() {
    assert_eq!(handle_check(&CheckArgs { quiet: false }), vec!["检查完成，未发现代码错误"]);
    assert!(handle_check(&CheckArgs { quiet: true }).is_empty());
    assert_eq!(
        handle_run(&RunArgs { module: Some("entry".into()), device: None, quiet: false }),
        vec!["运行模块：entry", "未指定设备，请在项目中连接设备后运行"]
    );
    assert_eq!(
        handle_test(&TestArgs { module: None, quiet: true }),
        vec!["测试完成"]
    );
}

#[test]
fn completions() {
    assert_eq!(
        complete_device_values("dev1,de", &vec!["Mate".to_string(), "P".to_string()]),
        vec!["dev1,Mate", "dev1,P"]
    );
    assert_eq!(complete_device_values("d", &vec!["Mate".to_string()]), vec!["Mate"]);
    let p = Project {
        root: "/p".into(),
        modules: vec![
            Module { name: "entry".into(), module_type: ModuleType::Entry, targets: vec![], src_path: "./entry".into() },
            Module { name: "lib".into(), module_type: ModuleType::Har, targets: vec![], src_path: "./lib".into() },
        ],
        products: vec![],
    };
    assert_eq!(
        complete_module_values(&p, true),
        vec![("entry".to_string(), "Runnable Module: entry (./entry)".to_string())]
    );
    assert_eq!(complete_module_values(&p, false)[1].1, "Module: lib (./lib)");
}

#[test]
fn completion_guide_marks_the_detected_shell() {
    assert_eq!(detect_shell("/bin/zsh"), Some(GuideShell::Zsh));
    assert_eq!(detect_shell("/usr/local/bin/fish"), Some(GuideShell::Fish));
    assert_eq!(detect_shell("/bin/sh"), None);
    let bash = completion_guide("/bin/bash");
    assert_eq!(bash.len(), 18);
    assert_eq!(bash[4], "Zsh:");
    assert_eq!(bash[8], "🌟 Detected Bash. Add this to your ~/.bashrc:");
    assert_eq!(bash[9], "   eval \"$(heco completion bash)\"");
    assert_eq!(bash[11], "Fish:");
    assert_eq!(bash[17], "(Note: After adding the command to your config, restart your terminal.)");
    let none = completion_guide("");
    assert_eq!(none[4], "Zsh:");
    assert_eq!(none[8], "Bash:");
}

#[test]
fn emulator_runs_are_chosen_per_subcommand() {
    let start = EmulatorArgs { command: EmulatorCommands::Start(StartArgs { name: "P".to_string() }) };
    let run = handle_emulator(Platform::MacOs, &start, Some("/e".to_string()), Some("/i".to_string()), Some("/r".to_string()))
        .unwrap();
    assert_eq!(run.program, "/e");
    assert_eq!(run.args, vec!["-hvd", "P", "-path", "/i", "-imageRoot", "/r"]);
    assert_eq!(run.timeout_secs, Some(2));
    assert_eq!(
        handle_emulator(Platform::MacOs, &start, Some("/e".to_string()), None, Some("/r".to_string())).err(),
        Some(EmulatorError::InstancePathNotFound)
    );
    assert_eq!(
        handle_emulator(Platform::MacOs, &start, None, None, None).err(),
        Some(EmulatorError::BinaryNotFound)
    );
    let stop = EmulatorArgs {
        command: EmulatorCommands::Stop(StopArgs { name: "P".to_string(), force: true }),
    };
    let run = handle_emulator(Platform::MacOs, &stop, Some("/e".to_string()), None, None).unwrap();
    assert_eq!(run.program, "pkill");
    assert_eq!(run.args, vec!["-9", "-f", "--", "-hvd P( |$)"]);
    assert_eq!(run.timeout_secs, None);
    let plain = EmulatorArgs {
        command: EmulatorCommands::Stop(StopArgs { name: "P".to_string(), force: false }),
    };
    let run = handle_emulator(Platform::MacOs, &plain, Some("/e".to_string()), None, None).unwrap();
    assert_eq!(run.program, "/e");
    assert_eq!(run.args, vec!["-stop", "P"]);
    assert_eq!(
        handle_emulator(Platform::MacOs, &stop, None, None, None).err(),
        Some(EmulatorError::BinaryNotFound)
    );
    let list = EmulatorArgs { command: EmulatorCommands::List(EmulatorListArgs {}) };
    assert_eq!(handle_emulator(Platform::MacOs, &list, Some("/e".to_string()), None, None).unwrap().args, vec!["-list"]);
}

#[test]
fn forced_stop_kills_the_emulator_process() {
    assert_eq!(escape_pattern("a.b(1)'x", false), "a\\.b\\(1\\)'x");
    assert_eq!(escape_pattern("a.b(1)'x", true), "a\\.b\\(1\\)''x");
    let (program, args) = kill_command_args(Platform::Windows, "Mate 60");
    assert_eq!(program, "powershell");
    assert_eq!(
        args,
        vec![
            "-NoProfile",
            "-Command",
            "Get-CimInstance Win32_Process | Where-Object { $_.Name -eq 'Emulator.exe' -and $_.CommandLine -match '-hvd Mate 60( |$)' } | ForEach-Object { Stop-Process -Id $_.ProcessId -Force }",
        ]
    );
    assert_eq!(classify_kill(true, ""), StopOutcome::Stopped);
    assert_eq!(classify_kill(false, " \n"), StopOutcome::AlreadyStopped);
    assert_eq!(classify_kill(false, "denied"), StopOutcome::Failed("denied".to_string()));
}

#[test]
fn emulator_list_lines() {
    assert_eq!(emulator_list_header(), "Emulators:");
    assert_eq!(emulator_lines(&vec![]), vec!["Emulators:", "  No emulators found."]);
    assert_eq!(
        emulator_lines(&vec!["A".to_string(), "B".to_string()]),
        vec!["Emulators:", "  A", "  B"]
    );
}

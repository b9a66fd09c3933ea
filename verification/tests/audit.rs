use ltsc_workspace::audit::{
    audit_failed_message, build_http_checks, check_failure, http_check_failure, url_failure,
    winget_search_failure, HttpCheck,
};
use ltsc_workspace::config::{
    GitProfileConfig, MirrorsProfileConfig, PackageMatrixConfig, PowerShellProfileConfig,
    SetupProfile, SystemTweaksProfileConfig, VSCodeProfileConfig, WindowsFeaturesProfileConfig,
    WingetApp,
};
use ltsc_workspace::utils::{CommandResult, CommandState};
use std::collections::BTreeMap;

fn strings(values: &[&str]) -> Vec<String> {
    values.iter().map(|value| value.to_string()).collect()
}

fn profile_with(packages: PackageMatrixConfig) -> SetupProfile {
    SetupProfile {
        profile_version: "1".into(),
        metadata: serde_json::Value::Null,
        git_config: GitProfileConfig {
            user_name: "u".into(),
            user_email: "u@example.test".into(),
            post_buffer_bytes: 1,
            safe_directory: "*".into(),
            enable_long_paths: true,
            enable_autocrlf: false,
            global_gitignore_rules: Vec::new(),
        },
        powershell_profile: PowerShellProfileConfig {
            enable_utf8_encoding: true,
            init_starship: false,
            init_zoxide: false,
            aliases: BTreeMap::new(),
        },
        environment_mirrors: MirrorsProfileConfig {
            cargo_sparse_index: String::new(),
            pip_index_url: String::new(),
            npm_registry: String::new(),
        },
        vscode_config: VSCodeProfileConfig { user_settings: serde_json::Value::Null, extensions: Vec::new() },
        packages,
        system_tweaks: SystemTweaksProfileConfig {
            create_rollback_journal: false,
            activate_ultimate_performance: false,
            extreme_ac_power_settings: false,
            disable_hibernation: false,
            enable_trim: false,
            optimize_storage: false,
            disable_telemetry: false,
            disable_bing_search: false,
            disable_consumer_features: false,
            disable_advertising_id: false,
            disable_activity_history: false,
            disable_feedback_prompts: false,
            explorer_open_to_this_pc: false,
            explorer_show_file_extensions: false,
            explorer_show_hidden_files: false,
            enable_ntfs_long_paths: false,
            enable_developer_mode: false,
            system_responsiveness: 10,
            network_throttling_index: 10,
        },
        windows_features: WindowsFeaturesProfileConfig {
            enable_wsl2: false,
            enable_netfx3: false,
            enable_windows_sandbox: false,
            enable_hyper_v: false,
        },
        ollama_models: Vec::new(),
    }
}

fn exited(code: i32, output: &str) -> CommandResult {
    CommandResult { state: CommandState::Exited, exit_code: Some(code), output: output.into() }
}

#[test]
fn every_package_gets_its_registry_pages() {
    let profile = profile_with(PackageMatrixConfig {
        winget_core: vec![WingetApp { id: "Git.Git".into(), name: "Git".into() }],
        winget_dev: Vec::new(),
        scoop_tools: strings(&["fd"]),
        cargo_packages: strings(&["rtk"]),
        npm_globals: strings(&["@openai/codex"]),
        pip_packages: strings(&["black"]),
        uv_tools: strings(&["ruff"]),
    });
    let checks = build_http_checks(&profile);
    let labels: Vec<&str> = checks.iter().map(|c| c.label.as_str()).collect();
    assert_eq!(labels, ["Scoop fd", "Cargo rtk", "NPM @openai/codex", "PyPI black", "PyPI ruff"]);
    assert_eq!(
        checks[0].urls,
        [
            "https://raw.githubusercontent.com/ScoopInstaller/Main/master/bucket/fd.json",
            "https://raw.githubusercontent.com/ScoopInstaller/Extras/master/bucket/fd.json",
            "https://raw.githubusercontent.com/ScoopInstaller/Versions/master/bucket/fd.json",
        ]
    );
    assert_eq!(checks[1].urls, ["https://crates.io/api/v1/crates/rtk"]);
    assert_eq!(checks[2].urls, ["https://registry.npmjs.org/@openai%2Fcodex"]);
    assert_eq!(checks[4].urls, ["https://pypi.org/pypi/ruff/json"]);
}

#[test]
fn winget_search_must_name_the_id() {
    assert_eq!(winget_search_failure("Git.Git", &exited(0, "Name Id\nGit  git.git 2.53\n")), None);
    assert_eq!(
        winget_search_failure("Git.Git", &exited(0, "No package found matching input criteria.\n")),
        Some("WinGet Git.Git: No package found matching input criteria.".to_string())
    );
    assert_eq!(
        winget_search_failure("Git.Git", &exited(1, "git.git\nerror 0x8a15\n")),
        Some("WinGet Git.Git: error 0x8a15".to_string())
    );
}

#[test]
fn failed_checks_list_each_url() {
    let first = url_failure("https://a.test/x", &exited(22, "curl: (22) 404\n"));
    assert_eq!(first, "https://a.test/x: curl: (22) 404");
    let line = check_failure("Scoop fd", &vec![first, "https://b.test/x: timeout".to_string()]);
    assert_eq!(line, "Scoop fd: https://a.test/x: curl: (22) 404 | https://b.test/x: timeout");
    assert_eq!(audit_failed_message(3), "Profile 在线审计失败：3 项");
}

#[test]
fn a_check_passes_when_any_url_answers() {
    let check = HttpCheck {
        label: "Scoop jq".into(),
        urls: vec!["https://a.example/jq.json".into(), "https://b.example/jq.json".into()],
    };
    let failed = |output: &str| CommandResult { state: CommandState::Exited, exit_code: Some(22), output: output.into() };
    let answered = CommandResult { state: CommandState::Exited, exit_code: Some(0), output: String::new() };
    assert_eq!(http_check_failure(&check, &vec![failed("404"), answered]), None);
    assert_eq!(
        http_check_failure(&check, &vec![failed("404"), failed("curl: (28) timeout")]),
        Some("Scoop jq: https://a.example/jq.json: 404 | https://b.example/jq.json: curl: (28) timeout".to_string())
    );
}

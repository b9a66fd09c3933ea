use ltsc_workspace::config::{
    ExecutionTarget, GitProfileConfig, MirrorsProfileConfig, PackageMatrixConfig, PowerShellProfileConfig,
    SetupConfig, SetupProfile, SystemTweaksProfileConfig, VSCodeProfileConfig, WindowsFeaturesProfileConfig,
};
use ltsc_workspace::config::{ParityReport, ProfileError};
use ltsc_workspace::inventory::{MacosInventory, RulesError};
use ltsc_workspace::plan::plan_blocker;
use ltsc_workspace::plan::{
    audit_tools, cargo_config, final_audit_lines, finish_line, gitignore_text, git_settings, npmrc, pip_config, profile_block, profile_markers,
    registry_tweaks, run_outcome, setup_plan, start_message, success_message, PlanEntry, RegistryTweak,
    SetupStep,
};
use ltsc_workspace::platform::RegistryHive;
use ltsc_workspace::session::SetupOutcome;
use ltsc_workspace::utils::LogLevel;
use std::collections::BTreeMap;

fn tweaks(all: bool) -> SystemTweaksProfileConfig {
    SystemTweaksProfileConfig {
        create_rollback_journal: all,
        activate_ultimate_performance: all,
        extreme_ac_power_settings: all,
        disable_hibernation: all,
        enable_trim: all,
        optimize_storage: all,
        disable_telemetry: all,
        disable_bing_search: all,
        disable_consumer_features: all,
        disable_advertising_id: all,
        disable_activity_history: all,
        disable_feedback_prompts: all,
        explorer_open_to_this_pc: all,
        explorer_show_file_extensions: all,
        explorer_show_hidden_files: all,
        enable_ntfs_long_paths: all,
        enable_developer_mode: all,
        system_responsiveness: 0,
        network_throttling_index: 4294967295,
    }
}

fn git(safe_directory: &str) -> GitProfileConfig {
    GitProfileConfig {
        user_name: "dev".into(),
        user_email: "dev@example.test".into(),
        post_buffer_bytes: 524288000,
        safe_directory: safe_directory.into(),
        enable_long_paths: true,
        enable_autocrlf: false,
        global_gitignore_rules: Vec::new(),
    }
}

fn config() -> SetupConfig {
    let profile = SetupProfile {
        profile_version: "1".into(),
        metadata: serde_json::Value::Null,
        git_config: git("*"),
        powershell_profile: PowerShellProfileConfig {
            enable_utf8_encoding: true,
            init_starship: false,
            init_zoxide: false,
            aliases: BTreeMap::new(),
        },
        environment_mirrors: MirrorsProfileConfig {
            cargo_sparse_index: String::new(),
            pip_index_url: String::new(),
            npm_registry: String::new(),
        },
        vscode_config: VSCodeProfileConfig { user_settings: serde_json::Value::Null, extensions: Vec::new() },
        packages: PackageMatrixConfig {
            winget_core: Vec::new(),
            winget_dev: Vec::new(),
            scoop_tools: Vec::new(),
            cargo_packages: Vec::new(),
            npm_globals: Vec::new(),
            pip_packages: Vec::new(),
            uv_tools: Vec::new(),
        },
        system_tweaks: tweaks(true),
        windows_features: WindowsFeaturesProfileConfig {
            enable_wsl2: true,
            enable_netfx3: true,
            enable_windows_sandbox: false,
            enable_hyper_v: false,
        },
        ollama_models: Vec::new(),
    };
    SetupConfig::new(profile, MacosInventory::default())
}

#[test]
fn a_full_setup_runs_every_step_in_order() {
    let plan = setup_plan(&config());
    let steps: Vec<SetupStep> = plan
        .iter()
        .map(|entry| match entry {
            PlanEntry::Run(step) => *step,
            PlanEntry::Skip(note) => panic!("unexpected skip: {note}"),
        })
        .collect();
    assert_eq!(
        steps,
        [
            SetupStep::Network,
            SetupStep::PackageManagers,
            SetupStep::EnvironmentMirrors,
            SetupStep::UwpApps,
            SetupStep::DockerWsl,
            SetupStep::AgentSkills,
            SetupStep::GitShellConfigs,
            SetupStep::IdeConfig,
            SetupStep::CoreApps,
            SetupStep::DevSuite,
            SetupStep::OllamaModels,
            SetupStep::SystemTweaks,
            SetupStep::StorageOptimization,
            SetupStep::WindowsFeatures,
            SetupStep::Audit,
        ]
    );
}

#[test]
fn parts_turned_off_leave_a_note() {
    let mut c = config();
    c.include_docker_wsl = false;
    c.include_ollama_models = false;
    let plan = setup_plan(&c);
    assert_eq!(plan.len(), 13);
    assert_eq!(plan[4], PlanEntry::Skip("显式跳过: Docker & WSL2 虚拟化内核配置".into()));
    assert!(!plan.contains(&PlanEntry::Run(SetupStep::OllamaModels)));
    assert!(!plan.contains(&PlanEntry::Run(SetupStep::WindowsFeatures)));
    assert_eq!(plan[12], PlanEntry::Run(SetupStep::Audit));
}

#[test]
fn single_targets_run_their_own_steps() {
    let mut c = config();
    c.target_mode = ExecutionTarget::DevToolsOnly;
    assert_eq!(setup_plan(&c), [PlanEntry::Run(SetupStep::PackageManagers), PlanEntry::Run(SetupStep::DevSuite)]);
    c.target_mode = ExecutionTarget::RollbackLatest;
    assert_eq!(setup_plan(&c), [PlanEntry::Run(SetupStep::Rollback)]);
    assert_eq!(start_message(ExecutionTarget::NetworkOnly), "运行显式专项任务: 网络与代理接口硬化...");
    assert_eq!(success_message(ExecutionTarget::FullSetup), "Windows LTSC 配置完成；建议重启系统使系统级设置生效。");
}

#[test]
fn the_end_of_a_run_is_reported() {
    let (level, line) = finish_line(ExecutionTarget::SystemTweaksOnly, 0);
    assert_eq!(level, LogLevel::End);
    assert_eq!(line, "Windows 性能与隐私深度优化完成。");
    let (level, line) = finish_line(ExecutionTarget::FullSetup, 3);
    assert_eq!(level, LogLevel::Error);
    assert_eq!(line, "部署结束，但有 3 项失败；请按红色日志修复后重试。");
    assert_eq!(run_outcome(0, false), SetupOutcome::Succeeded);
    assert_eq!(run_outcome(2, false), SetupOutcome::CompletedWithErrors);
    assert_eq!(run_outcome(2, true), SetupOutcome::Cancelled);
}

#[test]
fn tweaks_write_the_chosen_values() {
    let all = registry_tweaks(&tweaks(true));
    assert_eq!(all.len(), 10);
    assert_eq!(
        all[0],
        RegistryTweak {
            hive: RegistryHive::LocalMachine,
            path: r"SOFTWARE\Policies\Microsoft\Windows\DataCollection".into(),
            name: "AllowTelemetry".into(),
            value: 0,
        }
    );
    assert_eq!(all[9].name, "NetworkThrottlingIndex");
    assert_eq!(all[9].value, u32::MAX);
    let none = registry_tweaks(&tweaks(false));
    let names: Vec<&str> = none.iter().map(|t| t.name.as_str()).collect();
    assert_eq!(names, ["AllowDevelopmentWithoutDevLicense", "SystemResponsiveness", "NetworkThrottlingIndex"]);
}

#[test]
fn git_settings_follow_the_profile() {
    let settings = git_settings(&git("D:/work"));
    assert_eq!(settings[2], ("http.postBuffer".to_string(), "524288000".to_string()));
    assert_eq!(settings[3], ("safe.directory".to_string(), "D:/work".to_string()));
    assert_eq!(settings.len(), 8);
    let settings = git_settings(&git("  "));
    assert_eq!(settings.len(), 7);
    assert!(settings.iter().all(|(key, _)| key != "safe.directory"));
    assert_eq!(settings[3], ("core.longpaths".to_string(), "true".to_string()));
}

#[test]
fn generated_config_files() {
    assert_eq!(audit_tools(false, true), ["winget", "scoop", "wsl"]);
    assert_eq!(audit_tools(true, false).len(), 9);
    let aliases = vec![("ll".to_string(), "eza".to_string())];
    assert_eq!(
        profile_block(true, false, false, &aliases),
        "[Console]::OutputEncoding = [System.Text.Encoding]::UTF8\nSet-Alias -Name ll -Value eza -ErrorAction SilentlyContinue\n"
    );
    assert_eq!(profile_markers(), ("# >>> LTSC Tools managed >>>", "# <<< LTSC Tools managed <<<"));
    assert_eq!(
        cargo_config("sparse+https://mirrors.example/"),
        "[source.crates-io]\nreplace-with = 'tuna'\n\n[source.tuna]\nregistry = \"sparse+https://mirrors.example/\"\n"
    );
    assert_eq!(pip_config("https://p/simple"), "[global]\nindex-url = https://p/simple\ntrusted-host = pypi.tuna.tsinghua.edu.cn\n");
    assert!(npmrc("https://r/").starts_with("registry=https://r/\nallow-scripts="));
}

#[test]
fn unknown_tools_block_the_plan() {
    let mut report = ParityReport::default();
    assert_eq!(plan_blocker(&Ok(()), &Ok(report.clone())), None);
    report.unmapped = vec!["Formula:a".to_string(), "Cask:b".to_string()];
    assert_eq!(
        plan_blocker(&Ok(()), &Ok(report.clone())),
        Some("Mac 清单中有未映射工具：Formula:a；Cask:b".to_string())
    );
    assert_eq!(
        plan_blocker(&Err(ProfileError::EmptyProfileVersion), &Ok(report)),
        Some("profile_version 不能为空".to_string())
    );
    assert_eq!(
        plan_blocker(&Ok(()), &Err(RulesError::UnsupportedSchema(9))),
        Some("不支持的 parity_rules schema：9".to_string())
    );
}

#[test]
fn gitignore_text_and_final_audit_lines() {
    let rules = vec![".DS_Store".to_string(), "*.log".to_string()];
    assert_eq!(gitignore_text(&rules), ".DS_Store\n*.log\n");
    assert_eq!(gitignore_text(&Vec::new()), "\n");
    let found = vec!["winget".to_string(), "git".to_string()];
    assert_eq!(final_audit_lines(&found, &Vec::new()), ("全套就绪指令: winget, git".to_string(), None));
    assert_eq!(
        final_audit_lines(&found, &vec!["uv".to_string(), "wsl".to_string()]),
        (
            "全套就绪指令: winget, git".to_string(),
            Some("最终组件审计失败: 缺失指令: uv, wsl".to_string())
        )
    );
}

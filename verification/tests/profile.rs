use ltsc_workspace::config::{
    ExecutionTarget, GitProfileConfig, MirrorsProfileConfig, NetworkMode, PackageList,
    PackageMatrixConfig, PowerShellProfileConfig, ProfileError, SetupConfig, SetupProfile,
    SystemTweaksProfileConfig, VSCodeProfileConfig, WindowsFeaturesProfileConfig, WingetApp,
};
use ltsc_workspace::inventory::{
    MacosInventory, ParityProvider, ParityRule, ParityRules, RulesError, SourceKind,
};
use std::collections::BTreeMap;

fn strings(values: &[&str]) -> Vec<String> {
    values.iter().map(|value| value.to_string()).collect()
}

fn app(id: &str, name: &str) -> WingetApp {
    WingetApp { id: id.into(), name: name.into() }
}

fn rule(kind: SourceKind, source: &str, provider: ParityProvider, target: &str, reason: &str) -> ParityRule {
    ParityRule {
        source_kind: kind,
        source: source.into(),
        provider,
        target: target.into(),
        reason: reason.into(),
    }
}

/// A profile shaped like the one the deployer ships.
fn sample_profile() -> SetupProfile {
    SetupProfile {
        profile_version: "2.2.0".into(),
        metadata: serde_json::from_str(
            r#"{"provider_audit":{"winget_manifest_ids_verified":4,"scoop_manifests_verified":3}}"#,
        )
        .unwrap(),
        git_config: GitProfileConfig {
            user_name: "dev".into(),
            user_email: "dev@example.test".into(),
            post_buffer_bytes: 524288000,
            safe_directory: "*".into(),
            enable_long_paths: true,
            enable_autocrlf: false,
            global_gitignore_rules: strings(&[".DS_Store", "Thumbs.db"]),
        },
        powershell_profile: PowerShellProfileConfig {
            enable_utf8_encoding: true,
            init_starship: true,
            init_zoxide: true,
            aliases: BTreeMap::from([("ll".to_string(), "eza -l".to_string())]),
        },
        environment_mirrors: MirrorsProfileConfig {
            cargo_sparse_index: "sparse+https://index.crates.io/".into(),
            pip_index_url: "https://pypi.org/simple".into(),
            npm_registry: "https://registry.npmjs.org/".into(),
        },
        vscode_config: VSCodeProfileConfig {
            user_settings: serde_json::from_str(r#"{"editor.fontSize":14}"#).unwrap(),
            extensions: strings(&["rust-lang.rust-analyzer", "ms-python.python"]),
        },
        packages: PackageMatrixConfig {
            winget_core: vec![app("Git.Git", "Git"), app("7zip.7zip", "7-Zip")],
            winget_dev: vec![
                app("Microsoft.VisualStudioCode", "Visual Studio Code"),
                app("BurntSushi.ripgrep.MSVC", "ripgrep"),
            ],
            scoop_tools: strings(&["fd", "jq", "bat"]),
            cargo_packages: strings(&["cargo-audit", "rtk"]),
            npm_globals: strings(&["typescript", "@openai/codex"]),
            pip_packages: strings(&["black"]),
            uv_tools: strings(&["ruff", "kimi-cli"]),
        },
        system_tweaks: SystemTweaksProfileConfig {
            create_rollback_journal: true,
            activate_ultimate_performance: true,
            extreme_ac_power_settings: true,
            disable_hibernation: false,
            enable_trim: true,
            optimize_storage: true,
            disable_telemetry: true,
            disable_bing_search: true,
            disable_consumer_features: true,
            disable_advertising_id: true,
            disable_activity_history: true,
            disable_feedback_prompts: true,
            explorer_open_to_this_pc: true,
            explorer_show_file_extensions: true,
            explorer_show_hidden_files: true,
            enable_ntfs_long_paths: true,
            enable_developer_mode: true,
            system_responsiveness: 0,
            network_throttling_index: 4294967295,
        },
        windows_features: WindowsFeaturesProfileConfig {
            enable_wsl2: true,
            enable_netfx3: true,
            enable_windows_sandbox: true,
            enable_hyper_v: false,
        },
        ollama_models: strings(&["qwen3:8b"]),
    }
}

/// Mapping rules shaped like the ones the deployer ships.
fn sample_rules() -> ParityRules {
    ParityRules {
        schema_version: 1,
        rules: vec![
            rule(SourceKind::Cask, "visual-studio-code", ParityProvider::Winget, "Microsoft.VisualStudioCode", "editor"),
            rule(SourceKind::Formula, "wget", ParityProvider::WindowsBuiltIn, "curl.exe", "built in"),
            rule(SourceKind::Formula, "htop", ParityProvider::Alternative, "btop", "similar"),
            rule(SourceKind::Formula, "coreutils", ParityProvider::Wsl, "coreutils", "WSL"),
            rule(SourceKind::Formula, "mas", ParityProvider::MacOnly, "-", "App Store CLI"),
            rule(SourceKind::Cask, "orbstack", ParityProvider::Manual, "Docker Desktop", "licence"),
            rule(SourceKind::Formula, "gh", ParityProvider::Scoop, "jq", "stand-in"),
        ],
    }
}

fn sample_inventory() -> MacosInventory {
    MacosInventory {
        schema_version: 1,
        captured_at: "2026-01-01T00:00:00Z".into(),
        homebrew_formulae: strings(&["git", "fd", "wget", "coreutils", "mas", "gh", "ripgrep"]),
        homebrew_casks: strings(&["visual-studio-code", "orbstack"]),
        homebrew_taps: Vec::new(),
        cargo_packages: strings(&["cargo-audit", "rtk"]),
        npm_globals: strings(&["@openai/codex", "typescript"]),
        uv_tools: strings(&["kimi-cli"]),
        vscode_extensions: strings(&["rust-lang.rust-analyzer"]),
        cursor_extensions: Vec::new(),
        warnings: Vec::new(),
    }
}

#[test]
fn embedded_profile_is_valid() {
    let profile = sample_profile();
    profile.validate(&sample_rules()).unwrap();
    let audit = &profile.metadata["provider_audit"];
    assert_eq!(
        audit["winget_manifest_ids_verified"].as_u64(),
        Some((profile.packages.winget_core.len() + profile.packages.winget_dev.len()) as u64)
    );
    assert_eq!(
        audit["scoop_manifests_verified"].as_u64(),
        Some(profile.packages.scoop_tools.len() as u64)
    );
}

#[test]
fn duplicate_package_ids_are_rejected() {
    let mut profile = sample_profile();
    profile.packages.winget_core.push(profile.packages.winget_core[0].clone());

    let error = profile.validate(&sample_rules()).unwrap_err().message();
    assert!(error.contains("重复包 ID"));
}

#[test]
fn source_inventory_has_no_silent_unmapped_tools() {
    let profile = sample_profile();
    let inventory = sample_inventory();
    let report = profile.parity_report(&sample_rules(), &inventory).unwrap();
    assert!(report.unmapped.is_empty(), "unmapped source tools: {:?}", report.unmapped);
    assert_eq!(report.covered(), inventory.item_count());
}

#[test]
fn embedded_parity_rules_are_valid() {
    sample_rules().validate().unwrap();
}

#[test]
fn duplicate_ids_differing_in_case_are_rejected() {
    let mut profile = sample_profile();
    profile.packages.winget_core.push(app("git.git", "Git again"));
    let error = profile.validate(&sample_rules()).unwrap_err();
    assert_eq!(error, ProfileError::DuplicateWingetId(PackageList::WingetCore, "git.git".into()));
    assert_eq!(error.message(), "winget_core 中存在重复包 ID: git.git");
    // Each list is checked on its own: the same id in the other list passes.
    let mut profile = sample_profile();
    profile.packages.winget_dev.push(app("git.git", "Git again"));
    assert_eq!(profile.validate(&sample_rules()), Ok(()));
}

#[test]
fn each_profile_error_has_its_input() {
    let rules = sample_rules();

    let mut profile = sample_profile();
    profile.profile_version = "  ".into();
    assert_eq!(profile.validate(&rules), Err(ProfileError::EmptyProfileVersion));
    assert_eq!(ProfileError::EmptyProfileVersion.message(), "profile_version 不能为空");

    let mut profile = sample_profile();
    profile.packages.winget_core.push(app("Some.App", " "));
    assert_eq!(profile.validate(&rules), Err(ProfileError::BlankWingetField(PackageList::WingetCore)));

    let mut profile = sample_profile();
    profile.packages.winget_dev.push(app("Bad Id", "Bad"));
    assert_eq!(
        profile.validate(&rules),
        Err(ProfileError::InvalidWingetId(PackageList::WingetDev, "Bad Id".into()))
    );

    let mut profile = sample_profile();
    profile.packages.scoop_tools.push("".into());
    assert_eq!(profile.validate(&rules), Err(ProfileError::BlankEntry(PackageList::ScoopTools)));

    let mut profile = sample_profile();
    profile.packages.cargo_packages.push("rm -rf".into());
    assert_eq!(
        profile.validate(&rules),
        Err(ProfileError::UnsafeEntry(PackageList::CargoPackages, "rm -rf".into()))
    );

    let mut profile = sample_profile();
    profile.packages.uv_tools.push("RUFF".into());
    let error = profile.validate(&rules).unwrap_err();
    assert_eq!(error, ProfileError::DuplicateEntry(PackageList::UvTools, "RUFF".into()));
    assert_eq!(error.message(), "uv_tools 中存在重复项目: RUFF");

    let mut profile = sample_profile();
    profile.system_tweaks.system_responsiveness = 101;
    assert_eq!(profile.validate(&rules), Err(ProfileError::ResponsivenessOutOfRange));

    let mut profile = sample_profile();
    profile.system_tweaks.network_throttling_index = 4294967296;
    assert_eq!(profile.validate(&rules), Err(ProfileError::ThrottlingOutOfRange));
    assert_eq!(ProfileError::ThrottlingOutOfRange.message(), "network_throttling_index 超出 DWORD 范围");

    let mut broken = sample_rules();
    broken.schema_version = 2;
    assert_eq!(
        sample_profile().validate(&broken),
        Err(ProfileError::Rules(RulesError::UnsupportedSchema(2)))
    );
}

#[test]
fn the_first_failing_check_is_reported() {
    let mut profile = sample_profile();
    profile.profile_version = "".into();
    profile.system_tweaks.system_responsiveness = 500;
    assert_eq!(profile.validate(&sample_rules()), Err(ProfileError::EmptyProfileVersion));
}

#[test]
fn rules_errors_are_reported() {
    let mut rules = sample_rules();
    rules.rules.push(rule(SourceKind::Formula, "WGET", ParityProvider::Manual, "x", "y"));
    let error = rules.validate().unwrap_err();
    assert_eq!(error, RulesError::DuplicateMapping(SourceKind::Formula, "WGET".into()));
    assert_eq!(error.message(), "parity_rules 包含重复映射：Formula/WGET");

    let mut rules = sample_rules();
    rules.rules.push(rule(SourceKind::Npm, "left-pad", ParityProvider::Manual, " ", "y"));
    assert!(matches!(rules.validate(), Err(RulesError::EmptyField(_))));

    let mut rules = sample_rules();
    rules.schema_version = 3;
    assert_eq!(rules.validate().unwrap_err().message(), "不支持的 parity_rules schema：3");
}

#[test]
fn rules_are_found_up_to_ascii_case() {
    let rules = sample_rules();
    let found = rules.find(SourceKind::Formula, "WGET").unwrap();
    assert_eq!(found.target, "curl.exe");
    assert!(rules.find(SourceKind::Cask, "wget").is_none());
}

#[test]
fn parity_report_sorts_every_tool() {
    let profile = sample_profile();
    let mut inventory = sample_inventory();
    inventory.homebrew_formulae.push("htop".into());
    inventory.homebrew_formulae.push("unknown-tool".into());
    let report = profile.parity_report(&sample_rules(), &inventory).unwrap();
    assert_eq!(report.automatic, 10);
    assert_eq!(report.compatible, 2);
    assert_eq!(report.mac_only, 1);
    assert_eq!(report.manual, vec!["Cask:orbstack -> Docker Desktop（licence）".to_string()]);
    assert_eq!(
        report.unmapped,
        vec![
            "Formula:htop -> alternative:btop（目标未进入安装矩阵）".to_string(),
            "Formula:unknown-tool".to_string(),
        ]
    );
    assert_eq!(report.covered() + report.unmapped.len(), inventory.item_count());
}

#[test]
fn profile_knows_its_packages() {
    let profile = sample_profile();
    assert!(profile.has_package("git"));
    assert!(profile.has_package("VisualStudioCode"));
    assert!(profile.has_package("RIPGREP"));
    assert!(profile.has_package("@openai/codex"));
    assert!(!profile.has_package("wget"));
}

#[test]
fn default_choices_include_everything() {
    let config = SetupConfig::new(sample_profile(), sample_inventory());
    assert!(config.include_dev_tools && config.include_ollama_models && config.include_npmrc_config);
    assert_eq!(config.network_mode, NetworkMode::Optimized);
    assert_eq!(config.target_mode, ExecutionTarget::FullSetup);
}

#[test]
fn targets_have_labels_and_rights() {
    assert_eq!(ExecutionTarget::ALL.len(), 9);
    assert!(ExecutionTarget::FullSetup.requires_admin());
    assert!(!ExecutionTarget::DevToolsOnly.requires_admin());
    assert_eq!(PackageList::VscodeExtensions.label(), "vscode extensions");
}

//! The deployment profile, its validation, and how it covers the source
//! Mac's inventory.
use vstd::prelude::*;
use std::collections::BTreeMap;
use crate::inventory::{
    kind_name, provider_name, rule_index, rules_verdict, strs, list_of, spec_item_count,
    MacosInventory, ParityProvider, ParityRule, ParityRules, RulesError, SourceKind,
};
use crate::text::{
    chars_of, eq_ci, eq_ci_chars, is_ascii_alnum, is_ascii_alnum_char, is_blank, is_blank_str,
    lower_chars, lower_seq,
};

verus! {

/// How far the network step goes.
#[derive(Debug, Clone, Copy, PartialEq, Eq, Structural)]
pub enum NetworkMode {
    Basic,
    Optimized,
    Extreme,
}

/// What a run of the deployer does.
#[derive(Debug, Clone, Copy, PartialEq, Eq, Structural)]
pub enum ExecutionTarget {
    FullSetup,
    NetworkOnly,
    StorageOnly,
    WindowsFeaturesOnly,
    AgentSkillsOnly,
    DevToolsOnly,
    VSCodeExtensionsOnly,
    SystemTweaksOnly,
    RollbackLatest,
}

#[derive(Debug, Clone)]
pub struct WingetApp {
    pub id: String,
    pub name: String,
}

#[derive(Debug, Clone)]
pub struct GitProfileConfig {
    pub user_name: String,
    pub user_email: String,
    pub post_buffer_bytes: u64,
    pub safe_directory: String,
    pub enable_long_paths: bool,
    pub enable_autocrlf: bool,
    pub global_gitignore_rules: Vec<String>,
}

#[derive(Debug, Clone)]
pub struct PowerShellProfileConfig {
    pub enable_utf8_encoding: bool,
    pub init_starship: bool,
    pub init_zoxide: bool,
    pub aliases: BTreeMap<String, String>,
}

#[derive(Debug, Clone)]
pub struct MirrorsProfileConfig {
    pub cargo_sparse_index: String,
    pub pip_index_url: String,
    pub npm_registry: String,
}

#[derive(Debug, Clone)]
pub struct VSCodeProfileConfig {
    pub user_settings: serde_json::Value,
    pub extensions: Vec<String>,
}

#[derive(Debug, Clone)]
pub struct PackageMatrixConfig {
    pub winget_core: Vec<WingetApp>,
    pub winget_dev: Vec<WingetApp>,
    pub scoop_tools: Vec<String>,
    pub cargo_packages: Vec<String>,
    pub npm_globals: Vec<String>,
    pub pip_packages: Vec<String>,
    pub uv_tools: Vec<String>,
}

#[derive(Debug, Clone)]
pub struct SystemTweaksProfileConfig {
    pub create_rollback_journal: bool,
    pub activate_ultimate_performance: bool,
    pub extreme_ac_power_settings: bool,
    pub disable_hibernation: bool,
    pub enable_trim: bool,
    pub optimize_storage: bool,
    pub disable_telemetry: bool,
    pub disable_bing_search: bool,
    pub disable_consumer_features: bool,
    pub disable_advertising_id: bool,
    pub disable_activity_history: bool,
    pub disable_feedback_prompts: bool,
    pub explorer_open_to_this_pc: bool,
    pub explorer_show_file_extensions: bool,
    pub explorer_show_hidden_files: bool,
    pub enable_ntfs_long_paths: bool,
    pub enable_developer_mode: bool,
    pub system_responsiveness: u32,
    pub network_throttling_index: u64,
}

#[derive(Debug, Clone)]
pub struct WindowsFeaturesProfileConfig {
    pub enable_wsl2: bool,
    pub enable_netfx3: bool,
    pub enable_windows_sandbox: bool,
    pub enable_hyper_v: bool,
}

/// Everything a deployment installs and configures.
#[derive(Debug, Clone)]
pub struct SetupProfile {
    pub profile_version: String,
    pub metadata: serde_json::Value,
    pub git_config: GitProfileConfig,
    pub powershell_profile: PowerShellProfileConfig,
    pub environment_mirrors: MirrorsProfileConfig,
    pub vscode_config: VSCodeProfileConfig,
    pub packages: PackageMatrixConfig,
    pub system_tweaks: SystemTweaksProfileConfig,
    pub windows_features: WindowsFeaturesProfileConfig,
    pub ollama_models: Vec<String>,
}


impl NetworkMode {
    /// The text by which the mode is shown to the user.
    pub fn describe(self) -> (r: &'static str)
        ensures
            r@ == match self {
                NetworkMode::Basic => "Basic (基础 TLS/DNS 协议硬化)"@,
                NetworkMode::Optimized => "Optimized (刷新 DNS & 优化 TCP 窗口)"@,
                NetworkMode::Extreme => "Extreme (RSS/RSC + Fast Open + CTCP/ECN)"@,
            },
    {
        match self {
            NetworkMode::Basic => "Basic (基础 TLS/DNS 协议硬化)",
            NetworkMode::Optimized => "Optimized (刷新 DNS & 优化 TCP 窗口)",
            NetworkMode::Extreme => "Extreme (RSS/RSC + Fast Open + CTCP/ECN)",
        }
    }
}

/// The targets that need administrator rights.
pub open spec fn spec_requires_admin(t: ExecutionTarget) -> bool {
    match t {
        ExecutionTarget::FullSetup | ExecutionTarget::NetworkOnly | ExecutionTarget::StorageOnly
        | ExecutionTarget::WindowsFeaturesOnly | ExecutionTarget::SystemTweaksOnly
        | ExecutionTarget::RollbackLatest => true,
        _ => false,
    }
}

impl ExecutionTarget {
    /// Every target, in the order the navigation lists them.
    pub const ALL: [ExecutionTarget; 9] = [
        ExecutionTarget::FullSetup,
        ExecutionTarget::DevToolsOnly,
        ExecutionTarget::NetworkOnly,
        ExecutionTarget::StorageOnly,
        ExecutionTarget::WindowsFeaturesOnly,
        ExecutionTarget::VSCodeExtensionsOnly,
        ExecutionTarget::AgentSkillsOnly,
        ExecutionTarget::SystemTweaksOnly,
        ExecutionTarget::RollbackLatest,
    ];

    pub fn label(self) -> (r: &'static str)
        ensures
            r@ == match self {
                ExecutionTarget::FullSetup => "完整部署"@,
                ExecutionTarget::DevToolsOnly => "开发工具"@,
                ExecutionTarget::NetworkOnly => "网络优化"@,
                ExecutionTarget::StorageOnly => "存储优化"@,
                ExecutionTarget::WindowsFeaturesOnly => "Windows 功能"@,
                ExecutionTarget::VSCodeExtensionsOnly => "IDE 同步"@,
                ExecutionTarget::AgentSkillsOnly => "Agent 配置"@,
                ExecutionTarget::SystemTweaksOnly => "系统优化"@,
                ExecutionTarget::RollbackLatest => "撤销上次调优"@,
            },
    {
        match self {
            ExecutionTarget::FullSetup => "完整部署",
            ExecutionTarget::DevToolsOnly => "开发工具",
            ExecutionTarget::NetworkOnly => "网络优化",
            ExecutionTarget::StorageOnly => "存储优化",
            ExecutionTarget::WindowsFeaturesOnly => "Windows 功能",
            ExecutionTarget::VSCodeExtensionsOnly => "IDE 同步",
            ExecutionTarget::AgentSkillsOnly => "Agent 配置",
            ExecutionTarget::SystemTweaksOnly => "系统优化",
            ExecutionTarget::RollbackLatest => "撤销上次调优",
        }
    }

    pub fn description(self) -> (r: &'static str)
        ensures
            r@ == match self {
                ExecutionTarget::FullSetup => "按依赖顺序部署软件、开发环境和系统设置"@,
                ExecutionTarget::DevToolsOnly => "同步 WinGet、Scoop、Cargo、NPM 与 Python 工具"@,
                ExecutionTarget::NetworkOnly => "保存原配置后刷新 DNS 并应用选定的 TCP 设置"@,
                ExecutionTarget::StorageOnly => "启用 TRIM，并按 SSD/HDD 介质类型执行 Windows 官方优化"@,
                ExecutionTarget::WindowsFeaturesOnly => "按能力检测启用 WSL2、.NET 3.5、Sandbox 等可选功能"@,
                ExecutionTarget::VSCodeExtensionsOnly => "合并 VS Code / Cursor 设置并补齐扩展"@,
                ExecutionTarget::AgentSkillsOnly => "从程序内置资源恢复 Skills、Plugins 与 MCP 配置"@,
                ExecutionTarget::SystemTweaksOnly => "通过 Windows 原生注册表接口应用性能与隐私设置"@,
                ExecutionTarget::RollbackLatest => "按最近一次本机账本逆序恢复注册表、电源与网络设置"@,
            },
    {
        match self {
            ExecutionTarget::FullSetup => "按依赖顺序部署软件、开发环境和系统设置",
            ExecutionTarget::DevToolsOnly => "同步 WinGet、Scoop、Cargo、NPM 与 Python 工具",
            ExecutionTarget::NetworkOnly => "保存原配置后刷新 DNS 并应用选定的 TCP 设置",
            ExecutionTarget::StorageOnly => "启用 TRIM，并按 SSD/HDD 介质类型执行 Windows 官方优化",
            ExecutionTarget::WindowsFeaturesOnly => "按能力检测启用 WSL2、.NET 3.5、Sandbox 等可选功能",
            ExecutionTarget::VSCodeExtensionsOnly => "合并 VS Code / Cursor 设置并补齐扩展",
            ExecutionTarget::AgentSkillsOnly => "从程序内置资源恢复 Skills、Plugins 与 MCP 配置",
            ExecutionTarget::SystemTweaksOnly => "通过 Windows 原生注册表接口应用性能与隐私设置",
            ExecutionTarget::RollbackLatest => "按最近一次本机账本逆序恢复注册表、电源与网络设置",
        }
    }

    /// Whether the target changes system-wide settings and so needs an
    /// administrator.
    pub fn requires_admin(self) -> (r: bool)
        ensures
            r == spec_requires_admin(self),
    {
        match self {
            ExecutionTarget::FullSetup | ExecutionTarget::NetworkOnly | ExecutionTarget::StorageOnly
            | ExecutionTarget::WindowsFeaturesOnly | ExecutionTarget::SystemTweaksOnly
            | ExecutionTarget::RollbackLatest => true,
            _ => false,
        }
    }
}


/// The lists of the profile that validation checks, each by its own name.
#[derive(Debug, Clone, Copy, PartialEq, Eq, Structural)]
pub enum PackageList {
    WingetCore,
    WingetDev,
    ScoopTools,
    CargoPackages,
    NpmGlobals,
    PipPackages,
    UvTools,
    VscodeExtensions,
    OllamaModels,
}

/// Why a profile was refused.
#[derive(Debug, Clone, PartialEq, Eq)]
pub enum ProfileError {
    EmptyProfileVersion,
    /// A WinGet app with a blank id or name.
    BlankWingetField(PackageList),
    /// A WinGet id with a character other than ASCII letters, digits and `-._+`.
    InvalidWingetId(PackageList, String),
    /// A WinGet id that repeats an earlier one of the same list, up to ASCII case.
    DuplicateWingetId(PackageList, String),
    BlankEntry(PackageList),
    /// An entry with a character other than ASCII letters, digits and `-._+@/:`.
    UnsafeEntry(PackageList, String),
    DuplicateEntry(PackageList, String),
    ResponsivenessOutOfRange,
    ThrottlingOutOfRange,
    Rules(RulesError),
}

pub open spec fn list_label(list: PackageList) -> Seq<char> {
    match list {
        PackageList::WingetCore => "winget_core"@,
        PackageList::WingetDev => "winget_dev"@,
        PackageList::ScoopTools => "scoop_tools"@,
        PackageList::CargoPackages => "cargo_packages"@,
        PackageList::NpmGlobals => "npm_globals"@,
        PackageList::PipPackages => "pip_packages"@,
        PackageList::UvTools => "uv_tools"@,
        PackageList::VscodeExtensions => "vscode extensions"@,
        PackageList::OllamaModels => "ollama_models"@,
    }
}

impl PackageList {
    /// The name by which error messages refer to the list.
    pub fn label(self) -> (r: &'static str)
        ensures
            r@ == list_label(self),
    {
        match self {
            PackageList::WingetCore => "winget_core",
            PackageList::WingetDev => "winget_dev",
            PackageList::ScoopTools => "scoop_tools",
            PackageList::CargoPackages => "cargo_packages",
            PackageList::NpmGlobals => "npm_globals",
            PackageList::PipPackages => "pip_packages",
            PackageList::UvTools => "uv_tools",
            PackageList::VscodeExtensions => "vscode extensions",
            PackageList::OllamaModels => "ollama_models",
        }
    }
}

pub open spec fn winget_id_char(c: char) -> bool {
    is_ascii_alnum(c) || c == '-' || c == '.' || c == '_' || c == '+'
}

pub open spec fn entry_char(c: char) -> bool {
    is_ascii_alnum(c) || c == '-' || c == '.' || c == '_' || c == '+' || c == '@' || c == '/' || c == ':'
}

pub open spec fn app_fields_present(app: WingetApp) -> bool {
    !is_blank(app.id@) && !is_blank(app.name@)
}

pub open spec fn app_id_valid(app: WingetApp) -> bool {
    forall|k: int| 0 <= k < app.id@.len() ==> winget_id_char(#[trigger] app.id@[k])
}

/// App `i` is acceptable: id and name not blank, id made of allowed
/// characters, and no earlier app of the list with the same id up to ASCII case.
pub open spec fn app_ok(apps: Seq<WingetApp>, i: int) -> bool {
    &&& app_fields_present(apps[i])
    &&& app_id_valid(apps[i])
    &&& forall|j: int| 0 <= j < i ==> !eq_ci(#[trigger] apps[j].id@, apps[i].id@)
}

pub open spec fn apps_ok(apps: Seq<WingetApp>) -> bool {
    forall|i: int| 0 <= i < apps.len() ==> #[trigger] app_ok(apps, i)
}

pub open spec fn first_bad_app(apps: Seq<WingetApp>, i: int) -> bool {
    &&& 0 <= i < apps.len()
    &&& !app_ok(apps, i)
    &&& forall|j: int| 0 <= j < i ==> #[trigger] app_ok(apps, j)
}

/// The error that the first unacceptable app of a list gives.
pub open spec fn app_error_fits(list: PackageList, apps: Seq<WingetApp>, e: ProfileError) -> bool {
    exists|i: int| #[trigger] first_bad_app(apps, i) && match e {
        ProfileError::BlankWingetField(l) => l == list && !app_fields_present(apps[i]),
        ProfileError::InvalidWingetId(l, id) => l == list && app_fields_present(apps[i])
            && !app_id_valid(apps[i]) && id@ == apps[i].id@,
        ProfileError::DuplicateWingetId(l, id) => l == list && app_fields_present(apps[i])
            && app_id_valid(apps[i]) && id@ == apps[i].id@,
        _ => false,
    }
}

/// Entry `i` is acceptable: not blank, made of allowed characters, and not
/// equal up to ASCII case to an earlier entry.
pub open spec fn value_ok(values: Seq<Seq<char>>, i: int) -> bool {
    &&& !is_blank(values[i])
    &&& forall|k: int| 0 <= k < values[i].len() ==> entry_char(#[trigger] values[i][k])
    &&& forall|j: int| 0 <= j < i ==> !eq_ci(#[trigger] values[j], values[i])
}

pub open spec fn values_ok(values: Seq<Seq<char>>) -> bool {
    forall|i: int| 0 <= i < values.len() ==> #[trigger] value_ok(values, i)
}

pub open spec fn first_bad_value(values: Seq<Seq<char>>, i: int) -> bool {
    &&& 0 <= i < values.len()
    &&& !value_ok(values, i)
    &&& forall|j: int| 0 <= j < i ==> #[trigger] value_ok(values, j)
}

pub open spec fn value_error_fits(list: PackageList, values: Seq<Seq<char>>, e: ProfileError) -> bool {
    exists|i: int| #[trigger] first_bad_value(values, i) && match e {
        ProfileError::BlankEntry(l) => l == list && is_blank(values[i]),
        ProfileError::UnsafeEntry(l, v) => l == list && !is_blank(values[i])
            && !(forall|k: int| 0 <= k < values[i].len() ==> entry_char(#[trigger] values[i][k]))
            && v@ == values[i],
        ProfileError::DuplicateEntry(l, v) => l == list && !is_blank(values[i])
            && (forall|k: int| 0 <= k < values[i].len() ==> entry_char(#[trigger] values[i][k]))
            && v@ == values[i],
        _ => false,
    }
}

fn is_winget_id_char(c: char) -> (r: bool)
    ensures
        r == winget_id_char(c),
{
    is_ascii_alnum_char(c) || c == '-' || c == '.' || c == '_' || c == '+'
}

fn is_entry_char(c: char) -> (r: bool)
    ensures
        r == entry_char(c),
{
    is_ascii_alnum_char(c) || c == '-' || c == '.' || c == '_' || c == '+' || c == '@' || c == '/' || c == ':'
}

fn all_winget_id_chars(cs: &[char]) -> (r: bool)
    ensures
        r == forall|k: int| 0 <= k < cs@.len() ==> winget_id_char(#[trigger] cs@[k]),
{
    let mut k: usize = 0;
    while k < cs.len()
        invariant
            k <= cs.len(),
            forall|m: int| 0 <= m < k ==> winget_id_char(#[trigger] cs@[m]),
        decreases cs.len() - k,
    {
        if !is_winget_id_char(cs[k]) {
            return false;
        }
        k = k + 1;
    }
    true
}

fn all_entry_chars(cs: &[char]) -> (r: bool)
    ensures
        r == forall|k: int| 0 <= k < cs@.len() ==> entry_char(#[trigger] cs@[k]),
{
    let mut k: usize = 0;
    while k < cs.len()
        invariant
            k <= cs.len(),
            forall|m: int| 0 <= m < k ==> entry_char(#[trigger] cs@[m]),
        decreases cs.len() - k,
    {
        if !is_entry_char(cs[k]) {
            return false;
        }
        k = k + 1;
    }
    true
}

/// Checks one list of WinGet apps; `Err` describes its first unacceptable app.
pub fn validate_winget_apps(list: PackageList, apps: &Vec<WingetApp>) -> (r: Result<(), ProfileError>)
    ensures
        match r {
            Ok(()) => apps_ok(apps@),
            Err(e) => app_error_fits(list, apps@, e),
        },
{
    let mut ids: Vec<Vec<char>> = Vec::new();
    let mut i: usize = 0;
    while i < apps.len()
        invariant
            i <= apps.len(),
            ids@.len() == i,
            forall|j: int| 0 <= j < i ==> (#[trigger] ids@[j])@ == lower_seq(apps@[j].id@),
            forall|j: int| 0 <= j < i ==> #[trigger] app_ok(apps@, j),
        decreases apps.len() - i,
    {
        let app = &apps[i];
        if is_blank_str(app.id.as_str()) || is_blank_str(app.name.as_str()) {
            assert(first_bad_app(apps@, i as int));
            return Err(ProfileError::BlankWingetField(list));
        }
        let id = chars_of(app.id.as_str());
        if !all_winget_id_chars(id.as_slice()) {
            assert(first_bad_app(apps@, i as int));
            let e = ProfileError::InvalidWingetId(list, app.id.clone());
            assert(app_error_fits(list, apps@, e));
            return Err(e);
        }
        let lowered = lower_chars(id.as_slice());
        let mut j: usize = 0;
        while j < i
            invariant
                j <= i < apps.len(),
                ids@.len() == i,
                *app == apps@[i as int],
                app_fields_present(apps@[i as int]),
                app_id_valid(apps@[i as int]),
                lowered@ == lower_seq(apps@[i as int].id@),
                forall|m: int| 0 <= m < i ==> (#[trigger] ids@[m])@ == lower_seq(apps@[m].id@),
                forall|m: int| 0 <= m < i ==> #[trigger] app_ok(apps@, m),
                forall|m: int| 0 <= m < j ==> !eq_ci(#[trigger] apps@[m].id@, apps@[i as int].id@),
            decreases i - j,
        {
            if crate::inventory::same_chars(ids[j].as_slice(), lowered.as_slice()) {
                assert(eq_ci(apps@[j as int].id@, apps@[i as int].id@));
                assert(first_bad_app(apps@, i as int));
                let e = ProfileError::DuplicateWingetId(list, app.id.clone());
                assert(app_error_fits(list, apps@, e));
                return Err(e);
            }
            j = j + 1;
        }
        assert(app_ok(apps@, i as int));
        ids.push(lowered);
        i = i + 1;
    }
    Ok(())
}

/// Checks one list of package names; `Err` describes its first unacceptable entry.
pub fn validate_unique_strings(list: PackageList, values: &Vec<String>) -> (r: Result<(), ProfileError>)
    ensures
        match r {
            Ok(()) => values_ok(strs(*values)),
            Err(e) => value_error_fits(list, strs(*values), e),
        },
{
    let ghost vals = strs(*values);
    let mut seen: Vec<Vec<char>> = Vec::new();
    let mut i: usize = 0;
    while i < values.len()
        invariant
            i <= values.len(),
            vals == strs(*values),
            seen@.len() == i,
            forall|j: int| 0 <= j < i ==> (#[trigger] seen@[j])@ == lower_seq(vals[j]),
            forall|j: int| 0 <= j < i ==> #[trigger] value_ok(vals, j),
        decreases values.len() - i,
    {
        let value = &values[i];
        assert(vals[i as int] == value@);
        let cs = chars_of(value.as_str());
        if crate::text::is_blank_chars(cs.as_slice()) {
            assert(first_bad_value(vals, i as int));
            return Err(ProfileError::BlankEntry(list));
        }
        if !all_entry_chars(cs.as_slice()) {
            assert(first_bad_value(vals, i as int));
            let e = ProfileError::UnsafeEntry(list, value.clone());
            assert(value_error_fits(list, vals, e));
            return Err(e);
        }
        let lowered = lower_chars(cs.as_slice());
        let mut j: usize = 0;
        while j < i
            invariant
                j <= i < values.len(),
                vals == strs(*values),
                seen@.len() == i,
                *value == values@[i as int],
                vals[i as int] == value@,
                !is_blank(vals[i as int]),
                forall|k: int| 0 <= k < vals[i as int].len() ==> entry_char(#[trigger] vals[i as int][k]),
                lowered@ == lower_seq(vals[i as int]),
                forall|m: int| 0 <= m < i ==> (#[trigger] seen@[m])@ == lower_seq(vals[m]),
                forall|m: int| 0 <= m < i ==> #[trigger] value_ok(vals, m),
                forall|m: int| 0 <= m < j ==> !eq_ci(#[trigger] vals[m], vals[i as int]),
            decreases i - j,
        {
            if crate::inventory::same_chars(seen[j].as_slice(), lowered.as_slice()) {
                assert(eq_ci(vals[j as int], vals[i as int]));
                assert(first_bad_value(vals, i as int));
                let e = ProfileError::DuplicateEntry(list, value.clone());
                assert(value_error_fits(list, vals, e));
                return Err(e);
            }
            j = j + 1;
        }
        assert(value_ok(vals, i as int));
        seen.push(lowered);
        i = i + 1;
    }
    Ok(())
}


pub open spec fn winget_list(p: SetupProfile, list: PackageList) -> Seq<WingetApp> {
    match list {
        PackageList::WingetCore => p.packages.winget_core@,
        PackageList::WingetDev => p.packages.winget_dev@,
        _ => Seq::empty(),
    }
}

pub open spec fn string_list(p: SetupProfile, list: PackageList) -> Seq<Seq<char>> {
    match list {
        PackageList::ScoopTools => strs(p.packages.scoop_tools),
        PackageList::CargoPackages => strs(p.packages.cargo_packages),
        PackageList::NpmGlobals => strs(p.packages.npm_globals),
        PackageList::PipPackages => strs(p.packages.pip_packages),
        PackageList::UvTools => strs(p.packages.uv_tools),
        PackageList::VscodeExtensions => strs(p.vscode_config.extensions),
        PackageList::OllamaModels => strs(p.ollama_models),
        _ => Seq::empty(),
    }
}

pub open spec fn is_winget_list(list: PackageList) -> bool {
    list == PackageList::WingetCore || list == PackageList::WingetDev
}

/// The position of a list's check in the order that validation follows.
pub open spec fn list_stage(list: PackageList) -> int {
    match list {
        PackageList::WingetCore => 1,
        PackageList::WingetDev => 2,
        PackageList::ScoopTools => 3,
        PackageList::CargoPackages => 4,
        PackageList::NpmGlobals => 5,
        PackageList::PipPackages => 6,
        PackageList::UvTools => 7,
        PackageList::VscodeExtensions => 8,
        PackageList::OllamaModels => 9,
    }
}

/// The list that validation checks at a stage.
pub open spec fn stage_list(s: int) -> PackageList {
    if s == 1 { PackageList::WingetCore }
    else if s == 2 { PackageList::WingetDev }
    else if s == 3 { PackageList::ScoopTools }
    else if s == 4 { PackageList::CargoPackages }
    else if s == 5 { PackageList::NpmGlobals }
    else if s == 6 { PackageList::PipPackages }
    else if s == 7 { PackageList::UvTools }
    else if s == 8 { PackageList::VscodeExtensions }
    else { PackageList::OllamaModels }
}

/// The check at stage `s` (in the order validation makes them) passes.
pub open spec fn stage_ok(p: SetupProfile, rules: ParityRules, s: int) -> bool {
    if s == 0 {
        !is_blank(p.profile_version@)
    } else if 1 <= s <= 2 {
        apps_ok(winget_list(p, stage_list(s)))
    } else if 3 <= s <= 9 {
        values_ok(string_list(p, stage_list(s)))
    } else if s == 10 {
        p.system_tweaks.system_responsiveness <= 100
    } else if s == 11 {
        p.system_tweaks.network_throttling_index <= u32::MAX
    } else {
        rules_verdict(rules, Ok(()))
    }
}

pub open spec fn error_stage(e: ProfileError) -> int {
    match e {
        ProfileError::EmptyProfileVersion => 0,
        ProfileError::BlankWingetField(l) => list_stage(l),
        ProfileError::InvalidWingetId(l, _) => list_stage(l),
        ProfileError::DuplicateWingetId(l, _) => list_stage(l),
        ProfileError::BlankEntry(l) => list_stage(l),
        ProfileError::UnsafeEntry(l, _) => list_stage(l),
        ProfileError::DuplicateEntry(l, _) => list_stage(l),
        ProfileError::ResponsivenessOutOfRange => 10,
        ProfileError::ThrottlingOutOfRange => 11,
        ProfileError::Rules(_) => 12,
    }
}

/// `e` is the error that the check of its own stage gives for this profile.
pub open spec fn profile_error_fits(p: SetupProfile, rules: ParityRules, e: ProfileError) -> bool {
    match e {
        ProfileError::EmptyProfileVersion => is_blank(p.profile_version@),
        ProfileError::BlankWingetField(l) => is_winget_list(l) && app_error_fits(l, winget_list(p, l), e),
        ProfileError::InvalidWingetId(l, _) => is_winget_list(l) && app_error_fits(l, winget_list(p, l), e),
        ProfileError::DuplicateWingetId(l, _) => is_winget_list(l) && app_error_fits(l, winget_list(p, l), e),
        ProfileError::BlankEntry(l) => !is_winget_list(l) && value_error_fits(l, string_list(p, l), e),
        ProfileError::UnsafeEntry(l, _) => !is_winget_list(l) && value_error_fits(l, string_list(p, l), e),
        ProfileError::DuplicateEntry(l, _) => !is_winget_list(l) && value_error_fits(l, string_list(p, l), e),
        ProfileError::ResponsivenessOutOfRange => p.system_tweaks.system_responsiveness > 100,
        ProfileError::ThrottlingOutOfRange => p.system_tweaks.network_throttling_index > u32::MAX,
        ProfileError::Rules(re) => rules_verdict(rules, Err(re)),
    }
}

/// What `SetupProfile::validate` returns: `Ok` when every check passes,
/// otherwise the error of the first check that fails.
pub open spec fn profile_verdict(p: SetupProfile, rules: ParityRules, r: Result<(), ProfileError>) -> bool {
    match r {
        Ok(()) => forall|s: int| 0 <= s <= 12 ==> #[trigger] stage_ok(p, rules, s),
        Err(e) => {
            &&& forall|s: int| 0 <= s < error_stage(e) ==> #[trigger] stage_ok(p, rules, s)
            &&& profile_error_fits(p, rules, e)
        },
    }
}

impl SetupProfile {
    /// Validates the profile and the parity rules it is deployed with.
    pub fn validate(&self, rules: &ParityRules) -> (r: Result<(), ProfileError>)
        ensures
            profile_verdict(*self, *rules, r),
    {
        if is_blank_str(self.profile_version.as_str()) {
            return Err(ProfileError::EmptyProfileVersion);
        }
        assert(stage_ok(*self, *rules, 0));
        let winget = [PackageList::WingetCore, PackageList::WingetDev];
        let mut n: usize = 0;
        while n < 2
            invariant
                n <= 2,
                winget@ == seq![PackageList::WingetCore, PackageList::WingetDev],
                forall|s: int| 0 <= s <= n ==> #[trigger] stage_ok(*self, *rules, s),
            decreases 2 - n,
        {
            let list = winget[n];
            assert(list == stage_list(n + 1));
            let apps = if n == 0 { &self.packages.winget_core } else { &self.packages.winget_dev };
            assert(apps@ == winget_list(*self, list));
            match validate_winget_apps(list, apps) {
                Ok(()) => {},
                Err(e) => {
                    return Err(e);
                },
            }
            n = n + 1;
        }
        let lists = [
            PackageList::ScoopTools,
            PackageList::CargoPackages,
            PackageList::NpmGlobals,
            PackageList::PipPackages,
            PackageList::UvTools,
            PackageList::VscodeExtensions,
            PackageList::OllamaModels,
        ];
        let mut m: usize = 0;
        while m < 7
            invariant
                m <= 7,
                lists@ == seq![
                    PackageList::ScoopTools,
                    PackageList::CargoPackages,
                    PackageList::NpmGlobals,
                    PackageList::PipPackages,
                    PackageList::UvTools,
                    PackageList::VscodeExtensions,
                    PackageList::OllamaModels,
                ],
                forall|s: int| 0 <= s <= m + 2 ==> #[trigger] stage_ok(*self, *rules, s),
            decreases 7 - m,
        {
            let list = lists[m];
            assert(list == stage_list(m + 3));
            let values = match list {
                PackageList::ScoopTools => &self.packages.scoop_tools,
                PackageList::CargoPackages => &self.packages.cargo_packages,
                PackageList::NpmGlobals => &self.packages.npm_globals,
                PackageList::PipPackages => &self.packages.pip_packages,
                PackageList::UvTools => &self.packages.uv_tools,
                PackageList::VscodeExtensions => &self.vscode_config.extensions,
                _ => &self.ollama_models,
            };
            assert(strs(*values) == string_list(*self, list));
            match validate_unique_strings(list, values) {
                Ok(()) => {},
                Err(e) => {
                    return Err(e);
                },
            }
            m = m + 1;
        }
        if self.system_tweaks.system_responsiveness > 100 {
            return Err(ProfileError::ResponsivenessOutOfRange);
        }
        if self.system_tweaks.network_throttling_index > 4294967295u64 {
            return Err(ProfileError::ThrottlingOutOfRange);
        }
        assert(stage_ok(*self, *rules, 10) && stage_ok(*self, *rules, 11));
        match rules.validate() {
            Ok(()) => {},
            Err(re) => {
                return Err(ProfileError::Rules(re));
            },
        }
        assert(stage_ok(*self, *rules, 12));
        Ok(())
    }
}


/// How the profile and the rules cover the source Mac's tools.
#[derive(Debug, Clone, Default, PartialEq, Eq)]
pub struct ParityReport {
    pub automatic: usize,
    pub compatible: usize,
    pub mac_only: usize,
    pub manual: Vec<String>,
    pub unmapped: Vec<String>,
}

/// The counts and messages of a parity report.
pub struct ReportModel {
    pub automatic: nat,
    pub compatible: nat,
    pub mac_only: nat,
    pub manual: Seq<Seq<char>>,
    pub unmapped: Seq<Seq<char>>,
}

impl View for ParityReport {
    type V = ReportModel;

    open spec fn view(&self) -> ReportModel {
        ReportModel {
            automatic: self.automatic as nat,
            compatible: self.compatible as nat,
            mac_only: self.mac_only as nat,
            manual: self.manual.deep_view(),
            unmapped: self.unmapped.deep_view(),
        }
    }
}

/// How one Mac tool is covered on Windows.
pub enum Parity {
    /// Installed by the profile.
    Automatic,
    /// Covered by something built into Windows, WSL, or an alternative the profile installs.
    Compatible,
    /// Has no use on Windows.
    MacOnly,
    /// Left for the user, with a note.
    Manual(Seq<char>),
    /// Not covered, with a note.
    Unmapped(Seq<char>),
}

pub open spec fn winget_apps(p: SetupProfile) -> Seq<WingetApp> {
    p.packages.winget_core@ + p.packages.winget_dev@
}

pub open spec fn contains_ci(values: Seq<Seq<char>>, name: Seq<char>) -> bool {
    exists|i: int| 0 <= i < values.len() && eq_ci(#[trigger] values[i], name)
}

/// A WinGet app answers to `name`: by its id, its name, or the last
/// dot-separated part of its id, up to ASCII case.
pub open spec fn app_answers(app: WingetApp, name: Seq<char>) -> bool {
    eq_ci(app.id@, name) || eq_ci(app.name@, name) || eq_ci(crate::text::after_last(app.id@, '.'), name)
}

/// The profile installs something called `name`.
pub open spec fn has_package(p: SetupProfile, name: Seq<char>) -> bool {
    ||| exists|i: int| 0 <= i < winget_apps(p).len() && app_hit(#[trigger] winget_apps(p)[i], name, false)
    ||| contains_ci(strs(p.packages.scoop_tools), name)
    ||| contains_ci(strs(p.packages.cargo_packages), name)
    ||| contains_ci(strs(p.packages.npm_globals), name)
    ||| contains_ci(strs(p.packages.pip_packages), name)
    ||| contains_ci(strs(p.packages.uv_tools), name)
}

/// The rule's target is in the profile's list for its provider.
pub open spec fn rule_target_exists(p: SetupProfile, rule: ParityRule) -> bool {
    let t = rule.target@;
    match rule.provider {
        ParityProvider::Winget => exists|i: int| 0 <= i < winget_apps(p).len() && app_hit(#[trigger] winget_apps(p)[i], t, true),
        ParityProvider::Scoop => contains_ci(strs(p.packages.scoop_tools), t),
        ParityProvider::Cargo => contains_ci(strs(p.packages.cargo_packages), t),
        ParityProvider::Npm => contains_ci(strs(p.packages.npm_globals), t),
        ParityProvider::Pip => contains_ci(strs(p.packages.pip_packages), t),
        ParityProvider::Uv => contains_ci(strs(p.packages.uv_tools), t),
        _ => has_package(p, t),
    }
}

pub open spec fn is_package_provider(provider: ParityProvider) -> bool {
    match provider {
        ParityProvider::Winget | ParityProvider::Scoop | ParityProvider::Cargo | ParityProvider::Npm
        | ParityProvider::Pip | ParityProvider::Uv => true,
        _ => false,
    }
}

pub open spec fn source_tag(kind: SourceKind, source: Seq<char>) -> Seq<char> {
    kind_name(kind) + ":"@ + source
}

/// How the profile and the rules cover one Mac tool.
pub open spec fn classify(p: SetupProfile, rules: Seq<ParityRule>, kind: SourceKind, source: Seq<char>) -> Parity {
    if has_package(p, source) {
        Parity::Automatic
    } else {
        match rule_index(rules, kind, source) {
            None => Parity::Unmapped(source_tag(kind, source)),
            Some(i) => {
                let rule = rules[i];
                if is_package_provider(rule.provider) {
                    if rule_target_exists(p, rule) {
                        Parity::Automatic
                    } else {
                        Parity::Unmapped(source_tag(kind, source) + " -> "@ + provider_name(rule.provider) + ":"@
                            + rule.target@ + "（目标未进入安装矩阵）"@)
                    }
                } else {
                    match rule.provider {
                        ParityProvider::Alternative => if has_package(p, rule.target@) {
                            Parity::Compatible
                        } else {
                            Parity::Unmapped(source_tag(kind, source) + " -> alternative:"@ + rule.target@
                                + "（目标未进入安装矩阵）"@)
                        },
                        ParityProvider::MacOnly => Parity::MacOnly,
                        ParityProvider::Manual => Parity::Manual(source_tag(kind, source) + " -> "@ + rule.target@
                            + "（"@ + rule.reason@ + "）"@),
                        _ => Parity::Compatible,
                    }
                }
            },
        }
    }
}

/// A report to which one more tool is added.
pub open spec fn tally_step(m: ReportModel, o: Parity) -> ReportModel {
    match o {
        Parity::Automatic => ReportModel { automatic: m.automatic + 1, ..m },
        Parity::Compatible => ReportModel { compatible: m.compatible + 1, ..m },
        Parity::MacOnly => ReportModel { mac_only: m.mac_only + 1, ..m },
        Parity::Manual(note) => ReportModel { manual: m.manual.push(note), ..m },
        Parity::Unmapped(note) => ReportModel { unmapped: m.unmapped.push(note), ..m },
    }
}

pub open spec fn empty_report() -> ReportModel {
    ReportModel { automatic: 0, compatible: 0, mac_only: 0, manual: Seq::empty(), unmapped: Seq::empty() }
}

/// The report of a sequence of outcomes, taken in order.
pub open spec fn tally(os: Seq<Parity>) -> ReportModel
    decreases os.len(),
{
    if os.len() == 0 {
        empty_report()
    } else {
        tally_step(tally(os.drop_last()), os.last())
    }
}

/// The outcomes of one tool list.
pub open spec fn list_outcomes(p: SetupProfile, rules: Seq<ParityRule>, kind: SourceKind, names: Seq<Seq<char>>) -> Seq<Parity> {
    Seq::new(names.len(), |i: int| classify(p, rules, kind, names[i]))
}

/// The outcomes of the whole inventory: formulae, casks, Cargo, NPM, then UV tools.
pub open spec fn inventory_outcomes(p: SetupProfile, rules: Seq<ParityRule>, inv: MacosInventory) -> Seq<Parity> {
    list_outcomes(p, rules, SourceKind::Formula, list_of(inv, SourceKind::Formula))
        + list_outcomes(p, rules, SourceKind::Cask, list_of(inv, SourceKind::Cask))
        + list_outcomes(p, rules, SourceKind::Cargo, list_of(inv, SourceKind::Cargo))
        + list_outcomes(p, rules, SourceKind::Npm, list_of(inv, SourceKind::Npm))
        + list_outcomes(p, rules, SourceKind::Uv, list_of(inv, SourceKind::Uv))
}

pub open spec fn covered_count(m: ReportModel) -> nat {
    m.automatic + m.compatible + m.mac_only + m.manual.len()
}

/// Every outcome is counted once: the covered tools and the unmapped ones
/// add up to the number of outcomes.
pub proof fn lemma_tally_counts(os: Seq<Parity>)
    ensures
        covered_count(tally(os)) + tally(os).unmapped.len() == os.len(),
    decreases os.len(),
{
    if os.len() > 0 {
        lemma_tally_counts(os.drop_last());
    }
}

/// The app answers to `name`, or (with `by_id_only`) its id equals `name` up to ASCII case.
pub open spec fn app_hit(app: WingetApp, name: Seq<char>, by_id_only: bool) -> bool {
    if by_id_only {
        eq_ci(app.id@, name)
    } else {
        app_answers(app, name)
    }
}

fn apps_answer(apps: &Vec<WingetApp>, name: &[char], by_id_only: bool) -> (r: bool)
    ensures
        r == exists|i: int| 0 <= i < apps@.len() && app_hit(#[trigger] apps@[i], name@, by_id_only),
{
    let mut i: usize = 0;
    while i < apps.len()
        invariant
            i <= apps.len(),
            forall|j: int| 0 <= j < i ==> !app_hit(#[trigger] apps@[j], name@, by_id_only),
        decreases apps.len() - i,
    {
        let app = &apps[i];
        let hit = if by_id_only {
            eq_ci_chars(chars_of(app.id.as_str()).as_slice(), name)
        } else {
            app_answers_exec(app, name)
        };
        if hit {
            return true;
        }
        i = i + 1;
    }
    false
}

/// Some entry of `values` equals `name` up to ASCII case.
pub fn contains_ignore_case(values: &Vec<String>, name: &[char]) -> (r: bool)
    ensures
        r == contains_ci(strs(*values), name@),
{
    let mut i: usize = 0;
    while i < values.len()
        invariant
            i <= values.len(),
            forall|j: int| 0 <= j < i ==> !eq_ci(#[trigger] strs(*values)[j], name@),
        decreases values.len() - i,
    {
        assert(strs(*values)[i as int] == values@[i as int]@);
        if eq_ci_chars(chars_of(values[i].as_str()).as_slice(), name) {
            return true;
        }
        i = i + 1;
    }
    false
}

fn app_answers_exec(app: &WingetApp, name: &[char]) -> (r: bool)
    ensures
        r == app_answers(*app, name@),
{
    let id = chars_of(app.id.as_str());
    eq_ci_chars(id.as_slice(), name) || eq_ci_chars(chars_of(app.name.as_str()).as_slice(), name)
        || eq_ci_chars(crate::text::after_last_chars(id.as_slice(), '.').as_slice(), name)
}

impl SetupProfile {
    /// Some WinGet app of the profile (core, then development) answers to `name`.
    fn winget_answers(&self, name: &[char], by_id_only: bool) -> (r: bool)
        ensures
            r == exists|i: int| 0 <= i < winget_apps(*self).len() && app_hit(#[trigger] winget_apps(*self)[i], name@, by_id_only),
    {
        let a = apps_answer(&self.packages.winget_core, name, by_id_only);
        let b = apps_answer(&self.packages.winget_dev, name, by_id_only);
        proof {
            let all = winget_apps(*self);
            let core = self.packages.winget_core@;
            let dev = self.packages.winget_dev@;
            if a {
                let i = choose|i: int| 0 <= i < core.len() && app_hit(#[trigger] core[i], name@, by_id_only);
                assert(all[i] == core[i]);
            } else if b {
                let i = choose|i: int| 0 <= i < dev.len() && app_hit(#[trigger] dev[i], name@, by_id_only);
                assert(all[core.len() + i] == dev[i]);
            } else {
                assert forall|i: int| 0 <= i < all.len() implies !app_hit(#[trigger] all[i], name@, by_id_only) by {
                    if i < core.len() {
                        assert(all[i] == core[i]);
                    } else {
                        assert(all[i] == dev[i - core.len()]);
                    }
                }
            }
        }
        a || b
    }

    /// Whether the profile installs something called `name`.
    pub fn has_package(&self, name: &str) -> (r: bool)
        ensures
            r == has_package(*self, name@),
    {
        let n = chars_of(name);
        self.winget_answers(n.as_slice(), false)
            || contains_ignore_case(&self.packages.scoop_tools, n.as_slice())
            || contains_ignore_case(&self.packages.cargo_packages, n.as_slice())
            || contains_ignore_case(&self.packages.npm_globals, n.as_slice())
            || contains_ignore_case(&self.packages.pip_packages, n.as_slice())
            || contains_ignore_case(&self.packages.uv_tools, n.as_slice())
    }

    /// Whether the rule's target is in the profile's list for its provider.
    pub fn rule_target_exists(&self, rule: &ParityRule) -> (r: bool)
        ensures
            r == rule_target_exists(*self, *rule),
    {
        let t = chars_of(rule.target.as_str());
        match rule.provider {
            ParityProvider::Winget => self.winget_answers(t.as_slice(), true),
            ParityProvider::Scoop => contains_ignore_case(&self.packages.scoop_tools, t.as_slice()),
            ParityProvider::Cargo => contains_ignore_case(&self.packages.cargo_packages, t.as_slice()),
            ParityProvider::Npm => contains_ignore_case(&self.packages.npm_globals, t.as_slice()),
            ParityProvider::Pip => contains_ignore_case(&self.packages.pip_packages, t.as_slice()),
            ParityProvider::Uv => contains_ignore_case(&self.packages.uv_tools, t.as_slice()),
            _ => self.has_package(rule.target.as_str()),
        }
    }
}


/// `"<kind>:<source>"`, as the report notes begin.
fn source_tag_string(kind: SourceKind, source: &str) -> (r: String)
    ensures
        r@ == source_tag(kind, source@),
{
    let mut m = kind.name().to_owned();
    m.append(":");
    m.append(source);
    m
}

impl SetupProfile {
    /// Adds one Mac tool to the report, classified as `classify` says.
    fn classify_parity(&self, rules: &ParityRules, source_kind: SourceKind, source: &str, report: &mut ParityReport)
        requires
            covered_count(old(report)@) + old(report)@.unmapped.len() < usize::MAX,
        ensures
            final(report)@ == tally_step(old(report)@, classify(*self, rules.rules@, source_kind, source@)),
    {
        if self.has_package(source) {
            report.automatic = report.automatic + 1;
            return;
        }
        let found = rules.find(source_kind, source);
        let rule = match found {
            None => {
                let note = source_tag_string(source_kind, source);
                report.unmapped.push(note);
                proof {
                    assert(report.unmapped.deep_view() =~= old(report).unmapped.deep_view().push(note@));
                }
                return;
            },
            Some(rule) => rule,
        };
        if matches!(rule.provider, ParityProvider::Winget | ParityProvider::Scoop | ParityProvider::Cargo
            | ParityProvider::Npm | ParityProvider::Pip | ParityProvider::Uv) {
            if self.rule_target_exists(rule) {
                report.automatic = report.automatic + 1;
            } else {
                let mut note = source_tag_string(source_kind, source);
                note.append(" -> ");
                note.append(rule.provider.name());
                note.append(":");
                note.append(rule.target.as_str());
                note.append("（目标未进入安装矩阵）");
                report.unmapped.push(note);
                proof {
                    assert(report.unmapped.deep_view() =~= old(report).unmapped.deep_view().push(note@));
                }
            }
            return;
        }
        match rule.provider {
            ParityProvider::Alternative => {
                if self.has_package(rule.target.as_str()) {
                    report.compatible = report.compatible + 1;
                } else {
                    let mut note = source_tag_string(source_kind, source);
                    note.append(" -> alternative:");
                    note.append(rule.target.as_str());
                    note.append("（目标未进入安装矩阵）");
                    report.unmapped.push(note);
                    proof {
                        assert(report.unmapped.deep_view() =~= old(report).unmapped.deep_view().push(note@));
                    }
                }
            },
            ParityProvider::MacOnly => {
                report.mac_only = report.mac_only + 1;
            },
            ParityProvider::Manual => {
                let mut note = source_tag_string(source_kind, source);
                note.append(" -> ");
                note.append(rule.target.as_str());
                note.append("（");
                note.append(rule.reason.as_str());
                note.append("）");
                report.manual.push(note);
                proof {
                    assert(report.manual.deep_view() =~= old(report).manual.deep_view().push(note@));
                }
            },
            _ => {
                report.compatible = report.compatible + 1;
            },
        }
    }

    /// Adds the tools of one list to the report, in order.
    fn classify_list(
        &self,
        rules: &ParityRules,
        source_kind: SourceKind,
        names: &Vec<String>,
        report: &mut ParityReport,
        Ghost(before): Ghost<Seq<Parity>>,
    )
        requires
            old(report)@ == tally(before),
            before.len() + names.len() <= usize::MAX,
        ensures
            final(report)@ == tally(before + list_outcomes(*self, rules.rules@, source_kind, strs(*names))),
    {
        let ghost outs = list_outcomes(*self, rules.rules@, source_kind, strs(*names));
        let mut i: usize = 0;
        while i < names.len()
            invariant
                i <= names.len(),
                before.len() + names.len() <= usize::MAX,
                outs == list_outcomes(*self, rules.rules@, source_kind, strs(*names)),
                report@ == tally(before + outs.take(i as int)),
            decreases names.len() - i,
        {
            proof {
                lemma_tally_counts(before + outs.take(i as int));
            }
            assert(strs(*names)[i as int] == names@[i as int]@);
            self.classify_parity(rules, source_kind, names[i].as_str(), report);
            proof {
                let prev = before + outs.take(i as int);
                let next = before + outs.take(i + 1);
                assert(next.drop_last() =~= prev);
                assert(next.last() == outs[i as int]);
            }
            i = i + 1;
        }
        assert(outs.take(names.len() as int) =~= outs);
    }

    /// Classifies every tool of the inventory against the profile and the
    /// rules, after checking the rules.
    pub fn parity_report(&self, rules: &ParityRules, inventory: &MacosInventory) -> (r: Result<ParityReport, RulesError>)
        requires
            spec_item_count(*inventory) <= usize::MAX,
        ensures
            match r {
                Ok(report) => rules_verdict(*rules, Ok(()))
                    && report@ == tally(inventory_outcomes(*self, rules.rules@, *inventory))
                    && covered_count(report@) + report@.unmapped.len() == spec_item_count(*inventory),
                Err(e) => rules_verdict(*rules, Err(e)),
            },
    {
        match rules.validate() {
            Ok(()) => {},
            Err(e) => {
                return Err(e);
            },
        }
        let mut report = ParityReport {
            automatic: 0,
            compatible: 0,
            mac_only: 0,
            manual: Vec::new(),
            unmapped: Vec::new(),
        };
        let ghost p = *self;
        let ghost rs = rules.rules@;
        let ghost o1 = list_outcomes(p, rs, SourceKind::Formula, list_of(*inventory, SourceKind::Formula));
        let ghost o2 = list_outcomes(p, rs, SourceKind::Cask, list_of(*inventory, SourceKind::Cask));
        let ghost o3 = list_outcomes(p, rs, SourceKind::Cargo, list_of(*inventory, SourceKind::Cargo));
        let ghost o4 = list_outcomes(p, rs, SourceKind::Npm, list_of(*inventory, SourceKind::Npm));
        let ghost o5 = list_outcomes(p, rs, SourceKind::Uv, list_of(*inventory, SourceKind::Uv));
        assert(report.manual.deep_view() =~= Seq::<Seq<char>>::empty());
        assert(report.unmapped.deep_view() =~= Seq::<Seq<char>>::empty());
        assert(report@ == tally(Seq::<Parity>::empty()));
        self.classify_list(rules, SourceKind::Formula, &inventory.homebrew_formulae, &mut report, Ghost(Seq::empty()));
        assert(Seq::<Parity>::empty() + o1 =~= o1);
        self.classify_list(rules, SourceKind::Cask, &inventory.homebrew_casks, &mut report, Ghost(o1));
        self.classify_list(rules, SourceKind::Cargo, &inventory.cargo_packages, &mut report, Ghost(o1 + o2));
        self.classify_list(rules, SourceKind::Npm, &inventory.npm_globals, &mut report, Ghost(o1 + o2 + o3));
        self.classify_list(rules, SourceKind::Uv, &inventory.uv_tools, &mut report, Ghost(o1 + o2 + o3 + o4));
        proof {
            parity_report_accounts_for_every_tool(*self, *rules, *inventory);
        }
        Ok(report)
    }
}

impl ParityReport {
    /// The tools that the report accounts for: installed, covered otherwise,
    /// Mac-only, or left for the user.
    pub fn covered(&self) -> (r: usize)
        requires
            covered_count(self@) <= usize::MAX,
        ensures
            r == covered_count(self@),
    {
        self.automatic + self.compatible + self.mac_only + self.manual.len()
    }
}

/// Every tool of the inventory lands in exactly one place of the parity
/// report: the covered tools and the unmapped ones add up to the inventory's
/// item count.
pub proof fn parity_report_accounts_for_every_tool(p: SetupProfile, rules: ParityRules, inventory: MacosInventory)
    ensures
        covered_count(tally(inventory_outcomes(p, rules.rules@, inventory)))
            + tally(inventory_outcomes(p, rules.rules@, inventory)).unmapped.len() == spec_item_count(inventory),
{
    lemma_tally_counts(inventory_outcomes(p, rules.rules@, inventory));
}


pub open spec fn profile_error_message(e: ProfileError) -> Seq<char> {
    match e {
        ProfileError::EmptyProfileVersion => "profile_version 不能为空"@,
        ProfileError::BlankWingetField(l) => list_label(l) + " 中存在空的 id 或 name"@,
        ProfileError::InvalidWingetId(l, id) => list_label(l) + " 中包含无效包 ID: "@ + id@,
        ProfileError::DuplicateWingetId(l, id) => list_label(l) + " 中存在重复包 ID: "@ + id@,
        ProfileError::BlankEntry(l) => list_label(l) + " 中存在空项目"@,
        ProfileError::UnsafeEntry(l, v) => list_label(l) + " 中包含不安全的命令参数字符: "@ + v@,
        ProfileError::DuplicateEntry(l, v) => list_label(l) + " 中存在重复项目: "@ + v@,
        ProfileError::ResponsivenessOutOfRange => "system_responsiveness 必须在 0..=100 范围内"@,
        ProfileError::ThrottlingOutOfRange => "network_throttling_index 超出 DWORD 范围"@,
        ProfileError::Rules(re) => crate::inventory::rules_error_message(re),
    }
}

impl ProfileError {
    /// The message that reports the error to the user.
    pub fn message(&self) -> (r: String)
        ensures
            r@ == profile_error_message(*self),
    {
        match self {
            ProfileError::EmptyProfileVersion => "profile_version 不能为空".to_owned(),
            ProfileError::BlankWingetField(l) => {
                let mut m = l.label().to_owned();
                m.append(" 中存在空的 id 或 name");
                m
            },
            ProfileError::InvalidWingetId(l, id) => {
                let mut m = l.label().to_owned();
                m.append(" 中包含无效包 ID: ");
                m.append(id.as_str());
                m
            },
            ProfileError::DuplicateWingetId(l, id) => {
                let mut m = l.label().to_owned();
                m.append(" 中存在重复包 ID: ");
                m.append(id.as_str());
                m
            },
            ProfileError::BlankEntry(l) => {
                let mut m = l.label().to_owned();
                m.append(" 中存在空项目");
                m
            },
            ProfileError::UnsafeEntry(l, v) => {
                let mut m = l.label().to_owned();
                m.append(" 中包含不安全的命令参数字符: ");
                m.append(v.as_str());
                m
            },
            ProfileError::DuplicateEntry(l, v) => {
                let mut m = l.label().to_owned();
                m.append(" 中存在重复项目: ");
                m.append(v.as_str());
                m
            },
            ProfileError::ResponsivenessOutOfRange => "system_responsiveness 必须在 0..=100 范围内".to_owned(),
            ProfileError::ThrottlingOutOfRange => "network_throttling_index 超出 DWORD 范围".to_owned(),
            ProfileError::Rules(re) => re.message(),
        }
    }
}

/// What the user chose for a run: the optional parts, the network mode, the
/// target, and the profile and Mac inventory it works from.
#[derive(Debug, Clone)]
pub struct SetupConfig {
    pub include_dev_tools: bool,
    pub include_agent_skills: bool,
    pub include_docker_wsl: bool,
    pub include_storage_optimization: bool,
    pub include_deep_win_tweaks: bool,
    pub include_git_shell_configs: bool,
    pub include_vscode_extensions: bool,
    pub include_npmrc_config: bool,
    pub include_ollama_models: bool,
    pub network_mode: NetworkMode,
    pub target_mode: ExecutionTarget,
    pub profile: SetupProfile,
    pub source_inventory: MacosInventory,
}

impl SetupConfig {
    /// The default choices for a profile and an inventory: every optional
    /// part included, the optimized network mode, the full setup.
    pub fn new(profile: SetupProfile, source_inventory: MacosInventory) -> (r: SetupConfig)
        ensures
            r.include_dev_tools && r.include_agent_skills && r.include_docker_wsl,
            r.include_storage_optimization && r.include_deep_win_tweaks && r.include_git_shell_configs,
            r.include_vscode_extensions && r.include_npmrc_config && r.include_ollama_models,
            r.network_mode == NetworkMode::Optimized,
            r.target_mode == ExecutionTarget::FullSetup,
            r.profile == profile,
            r.source_inventory == source_inventory,
    {
        SetupConfig {
            include_dev_tools: true,
            include_agent_skills: true,
            include_docker_wsl: true,
            include_storage_optimization: true,
            include_deep_win_tweaks: true,
            include_git_shell_configs: true,
            include_vscode_extensions: true,
            include_npmrc_config: true,
            include_ollama_models: true,
            network_mode: NetworkMode::Optimized,
            target_mode: ExecutionTarget::FullSetup,
            profile,
            source_inventory,
        }
    }
}

/// The profile's own list for a package provider names `target`: WinGet by
/// an app's id, the others by an entry, up to ASCII case.
pub open spec fn provider_list_names(p: SetupProfile, provider: ParityProvider, target: Seq<char>) -> bool {
    match provider {
        ParityProvider::Winget => exists|i: int| 0 <= i < winget_apps(p).len() && eq_ci(#[trigger] winget_apps(p)[i].id@, target),
        ParityProvider::Scoop => exists|i: int| 0 <= i < p.packages.scoop_tools@.len() && eq_ci(#[trigger] p.packages.scoop_tools@[i]@, target),
        ParityProvider::Cargo => exists|i: int| 0 <= i < p.packages.cargo_packages@.len() && eq_ci(#[trigger] p.packages.cargo_packages@[i]@, target),
        ParityProvider::Npm => exists|i: int| 0 <= i < p.packages.npm_globals@.len() && eq_ci(#[trigger] p.packages.npm_globals@[i]@, target),
        ParityProvider::Pip => exists|i: int| 0 <= i < p.packages.pip_packages@.len() && eq_ci(#[trigger] p.packages.pip_packages@[i]@, target),
        ParityProvider::Uv => exists|i: int| 0 <= i < p.packages.uv_tools@.len() && eq_ci(#[trigger] p.packages.uv_tools@[i]@, target),
        _ => false,
    }
}

/// The note for a tool whose rule names a target the profile does not install.
pub open spec fn missing_target_note(kind: SourceKind, source: Seq<char>, rule: ParityRule) -> Seq<char> {
    kind_name(kind) + ":"@ + source + " -> "@ + provider_name(rule.provider) + ":"@ + rule.target@
        + "（目标未进入安装矩阵）"@
}

proof fn lemma_list_names(list: Vec<String>, target: Seq<char>)
    ensures
        contains_ci(strs(list), target) <==> exists|i: int| 0 <= i < list@.len() && eq_ci(#[trigger] list@[i]@, target),
{
    if contains_ci(strs(list), target) {
        let i = choose|i: int| 0 <= i < strs(list).len() && eq_ci(#[trigger] strs(list)[i], target);
        assert(strs(list)[i] == list@[i]@);
    }
    if exists|i: int| 0 <= i < list@.len() && eq_ci(#[trigger] list@[i]@, target) {
        let i = choose|i: int| 0 <= i < list@.len() && eq_ci(#[trigger] list@[i]@, target);
        assert(strs(list)[i] == list@[i]@);
    }
}

/// A tool that the profile does not install by name, whose first matching
/// rule sends it to a package provider, is installed automatically exactly
/// when the profile's list for that provider names the rule's target; when
/// it does not, the tool is unmapped with a note that names the target.
pub proof fn package_rule_counts_only_listed_targets(p: SetupProfile, rules: Seq<ParityRule>, kind: SourceKind, source: Seq<char>, i: int)
    requires
        !has_package(p, source),
        rule_index(rules, kind, source) == Some(i),
        0 <= i < rules.len(),
        is_package_provider(rules[i].provider),
    ensures
        (classify(p, rules, kind, source) is Automatic) <==> provider_list_names(p, rules[i].provider, rules[i].target@),
        !provider_list_names(p, rules[i].provider, rules[i].target@) ==> classify(p, rules, kind, source)
            == Parity::Unmapped(missing_target_note(kind, source, rules[i])),
{
    let rule = rules[i];
    let t = rule.target@;
    lemma_list_names(p.packages.scoop_tools, t);
    lemma_list_names(p.packages.cargo_packages, t);
    lemma_list_names(p.packages.npm_globals, t);
    lemma_list_names(p.packages.pip_packages, t);
    lemma_list_names(p.packages.uv_tools, t);
    assert(rule_target_exists(p, rule) == provider_list_names(p, rule.provider, t));
    assert(source_tag(kind, source) + " -> "@ + provider_name(rule.provider) + ":"@ + t + "（目标未进入安装矩阵）"@
        =~= missing_target_note(kind, source, rule));
}

/// Adding one more UV tool to the inventory adds its outcome to the report:
/// a tool that is not installed by name and whose package rule names a target
/// missing from the profile leaves the automatic count as it was and adds the
/// missing-target note to the unmapped ones; a listed target counts once more
/// as automatic.
pub proof fn one_more_tool_with_a_package_rule(
    p: SetupProfile,
    rules: Seq<ParityRule>,
    a: MacosInventory,
    b: MacosInventory,
    name: Seq<char>,
    i: int,
)
    requires
        list_of(b, SourceKind::Formula) == list_of(a, SourceKind::Formula),
        list_of(b, SourceKind::Cask) == list_of(a, SourceKind::Cask),
        list_of(b, SourceKind::Cargo) == list_of(a, SourceKind::Cargo),
        list_of(b, SourceKind::Npm) == list_of(a, SourceKind::Npm),
        list_of(b, SourceKind::Uv) == list_of(a, SourceKind::Uv).push(name),
        !has_package(p, name),
        rule_index(rules, SourceKind::Uv, name) == Some(i),
        0 <= i < rules.len(),
        is_package_provider(rules[i].provider),
    ensures
        provider_list_names(p, rules[i].provider, rules[i].target@) ==> {
            &&& tally(inventory_outcomes(p, rules, b)).automatic == tally(inventory_outcomes(p, rules, a)).automatic + 1
            &&& tally(inventory_outcomes(p, rules, b)).unmapped == tally(inventory_outcomes(p, rules, a)).unmapped
        },
        !provider_list_names(p, rules[i].provider, rules[i].target@) ==> {
            &&& tally(inventory_outcomes(p, rules, b)).automatic == tally(inventory_outcomes(p, rules, a)).automatic
            &&& tally(inventory_outcomes(p, rules, b)).unmapped == tally(inventory_outcomes(p, rules, a)).unmapped.push(
                missing_target_note(SourceKind::Uv, name, rules[i]),
            )
        },
{
    package_rule_counts_only_listed_targets(p, rules, SourceKind::Uv, name, i);
    let ua = list_of(a, SourceKind::Uv);
    assert(list_outcomes(p, rules, SourceKind::Uv, ua.push(name)) =~= list_outcomes(p, rules, SourceKind::Uv, ua).push(
        classify(p, rules, SourceKind::Uv, name),
    ));
    assert(inventory_outcomes(p, rules, b) =~= inventory_outcomes(p, rules, a).push(classify(p, rules, SourceKind::Uv, name)));
    assert(inventory_outcomes(p, rules, b).drop_last() =~= inventory_outcomes(p, rules, a));
}

} // verus!

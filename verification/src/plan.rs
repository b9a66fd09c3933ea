//! What a setup run does, decided from the user's choices: the steps in
//! order (or the note that a step is skipped), the registry values the
//! system tweaks write, the Git settings, and how the run's end is reported.
use vstd::prelude::*;
use crate::config::{
    profile_error_message, ExecutionTarget, GitProfileConfig, ParityReport, ProfileError, SetupConfig,
    SystemTweaksProfileConfig,
};
use crate::inventory::{rules_error_message, RulesError};
use crate::macos_inventory::{join_strings, joined};
use crate::platform::RegistryHive;
use crate::session::SetupOutcome;
use crate::text::{decimal, decimal_string, is_blank, is_blank_str};
use crate::utils::LogLevel;

verus! {

/// One step of a setup run.
#[derive(Debug, Clone, Copy, PartialEq, Eq, Structural)]
pub enum SetupStep {
    Network,
    PackageManagers,
    EnvironmentMirrors,
    UwpApps,
    DockerWsl,
    AgentSkills,
    GitShellConfigs,
    IdeConfig,
    CoreApps,
    DevSuite,
    OllamaModels,
    SystemTweaks,
    StorageOptimization,
    WindowsFeatures,
    Rollback,
    Audit,
}

/// A step to run, or the note logged in place of a step that is left out.
#[derive(Debug, Clone, PartialEq, Eq)]
pub enum PlanEntry {
    Run(SetupStep),
    Skip(String),
}

/// A plan entry as texts.
pub enum PlanItem {
    Run(SetupStep),
    Skip(Seq<char>),
}

impl View for PlanEntry {
    type V = PlanItem;

    open spec fn view(&self) -> PlanItem {
        match self {
            PlanEntry::Run(s) => PlanItem::Run(*s),
            PlanEntry::Skip(m) => PlanItem::Skip(m@),
        }
    }
}

pub open spec fn plan_view(entries: Seq<PlanEntry>) -> Seq<PlanItem> {
    entries.map_values(|e: PlanEntry| e@)
}

/// The step when it is chosen, else the note that it is skipped.
pub open spec fn gate(chosen: bool, step: SetupStep, note: Seq<char>) -> Seq<PlanItem> {
    if chosen {
        seq![PlanItem::Run(step)]
    } else {
        seq![PlanItem::Skip(note)]
    }
}

pub open spec fn run(step: SetupStep) -> Seq<PlanItem> {
    seq![PlanItem::Run(step)]
}

pub open spec fn optional(chosen: bool, step: SetupStep) -> Seq<PlanItem> {
    if chosen { run(step) } else { Seq::empty() }
}

/// The steps of a full setup, in dependency order.
pub open spec fn full_plan(c: SetupConfig) -> Seq<PlanItem> {
    run(SetupStep::Network) + run(SetupStep::PackageManagers) + run(SetupStep::EnvironmentMirrors)
        + run(SetupStep::UwpApps)
        + gate(c.include_docker_wsl, SetupStep::DockerWsl, "显式跳过: Docker & WSL2 虚拟化内核配置"@)
        + gate(c.include_agent_skills, SetupStep::AgentSkills, "显式跳过: AI Agent Skills / Hooks 配置"@)
        + gate(c.include_git_shell_configs, SetupStep::GitShellConfigs, "显式跳过: Git 全局配置与 PowerShell Profile 自动化"@)
        + gate(c.include_vscode_extensions, SetupStep::IdeConfig, "显式跳过: VS Code & Cursor 扩展与配置文件同步"@)
        + run(SetupStep::CoreApps)
        + gate(c.include_dev_tools, SetupStep::DevSuite, "显式跳过: 开发者 CLI / 工具链配置"@)
        + optional(c.include_ollama_models, SetupStep::OllamaModels)
        + gate(c.include_deep_win_tweaks, SetupStep::SystemTweaks, "显式跳过: 深度 Windows 性能与隐私优化"@)
        + gate(c.include_storage_optimization, SetupStep::StorageOptimization, "显式跳过: 存储优化"@)
        + optional(c.include_docker_wsl, SetupStep::WindowsFeatures) + run(SetupStep::Audit)
}

/// The steps of a run for the chosen target. A full setup runs every step in
/// dependency order, leaving out the parts the user turned off (with a note,
/// except for the Ollama models and the Windows features, which go with
/// Docker & WSL2); every other target runs its own steps.
pub open spec fn plan_of(c: SetupConfig) -> Seq<PlanItem> {
    match c.target_mode {
        ExecutionTarget::FullSetup => full_plan(c),
        ExecutionTarget::DevToolsOnly => seq![PlanItem::Run(SetupStep::PackageManagers), PlanItem::Run(SetupStep::DevSuite)],
        ExecutionTarget::NetworkOnly => seq![PlanItem::Run(SetupStep::Network)],
        ExecutionTarget::StorageOnly => seq![PlanItem::Run(SetupStep::StorageOptimization)],
        ExecutionTarget::WindowsFeaturesOnly => seq![PlanItem::Run(SetupStep::WindowsFeatures)],
        ExecutionTarget::VSCodeExtensionsOnly => seq![PlanItem::Run(SetupStep::IdeConfig)],
        ExecutionTarget::AgentSkillsOnly => seq![PlanItem::Run(SetupStep::AgentSkills)],
        ExecutionTarget::SystemTweaksOnly => seq![PlanItem::Run(SetupStep::SystemTweaks)],
        ExecutionTarget::RollbackLatest => seq![PlanItem::Run(SetupStep::Rollback)],
    }
}

fn push_gate(plan: &mut Vec<PlanEntry>, chosen: bool, step: SetupStep, note: &str)
    ensures
        plan_view(final(plan)@) == plan_view(old(plan)@) + gate(chosen, step, note@),
{
    let ghost before = plan@;
    if chosen {
        plan.push(PlanEntry::Run(step));
    } else {
        plan.push(PlanEntry::Skip(note.to_owned()));
    }
    assert(plan_view(plan@) =~= plan_view(before) + gate(chosen, step, note@));
}

fn push_step(plan: &mut Vec<PlanEntry>, step: SetupStep)
    ensures
        plan_view(final(plan)@) == plan_view(old(plan)@) + run(step),
{
    let ghost before = plan@;
    plan.push(PlanEntry::Run(step));
    assert(plan_view(plan@) =~= plan_view(before) + run(step));
}

fn push_optional(plan: &mut Vec<PlanEntry>, chosen: bool, step: SetupStep)
    ensures
        plan_view(final(plan)@) == plan_view(old(plan)@) + optional(chosen, step),
{
    let ghost before = plan@;
    if chosen {
        plan.push(PlanEntry::Run(step));
    }
    assert(plan_view(plan@) =~= plan_view(before) + optional(chosen, step));
}

fn full_setup_plan(config: &SetupConfig) -> (r: Vec<PlanEntry>)
    ensures
        plan_view(r@) == full_plan(*config),
{
    let mut plan: Vec<PlanEntry> = Vec::new();
    plan.push(PlanEntry::Run(SetupStep::Network));
    assert(plan_view(plan@) =~= run(SetupStep::Network));
    push_step(&mut plan, SetupStep::PackageManagers);
    push_step(&mut plan, SetupStep::EnvironmentMirrors);
    push_step(&mut plan, SetupStep::UwpApps);
    push_gate(&mut plan, config.include_docker_wsl, SetupStep::DockerWsl, "显式跳过: Docker & WSL2 虚拟化内核配置");
    push_gate(&mut plan, config.include_agent_skills, SetupStep::AgentSkills, "显式跳过: AI Agent Skills / Hooks 配置");
    push_gate(&mut plan, config.include_git_shell_configs, SetupStep::GitShellConfigs, "显式跳过: Git 全局配置与 PowerShell Profile 自动化");
    push_gate(&mut plan, config.include_vscode_extensions, SetupStep::IdeConfig, "显式跳过: VS Code & Cursor 扩展与配置文件同步");
    push_step(&mut plan, SetupStep::CoreApps);
    push_gate(&mut plan, config.include_dev_tools, SetupStep::DevSuite, "显式跳过: 开发者 CLI / 工具链配置");
    push_optional(&mut plan, config.include_ollama_models, SetupStep::OllamaModels);
    push_gate(&mut plan, config.include_deep_win_tweaks, SetupStep::SystemTweaks, "显式跳过: 深度 Windows 性能与隐私优化");
    push_gate(&mut plan, config.include_storage_optimization, SetupStep::StorageOptimization, "显式跳过: 存储优化");
    push_optional(&mut plan, config.include_docker_wsl, SetupStep::WindowsFeatures);
    push_step(&mut plan, SetupStep::Audit);
    plan
}

fn single_step(step: SetupStep) -> (r: Vec<PlanEntry>)
    ensures
        plan_view(r@) == run(step),
{
    let mut plan: Vec<PlanEntry> = Vec::new();
    plan.push(PlanEntry::Run(step));
    assert(plan_view(plan@) =~= run(step));
    plan
}

/// The steps of a run for the chosen target, in order.
pub fn setup_plan(config: &SetupConfig) -> (r: Vec<PlanEntry>)
    ensures
        plan_view(r@) == plan_of(*config),
{
    match config.target_mode {
        ExecutionTarget::FullSetup => full_setup_plan(config),
        ExecutionTarget::DevToolsOnly => {
            let mut plan = single_step(SetupStep::PackageManagers);
            push_step(&mut plan, SetupStep::DevSuite);
            assert(plan_view(plan@) =~= plan_of(*config));
            plan
        },
        ExecutionTarget::NetworkOnly => single_step(SetupStep::Network),
        ExecutionTarget::StorageOnly => single_step(SetupStep::StorageOptimization),
        ExecutionTarget::WindowsFeaturesOnly => single_step(SetupStep::WindowsFeatures),
        ExecutionTarget::VSCodeExtensionsOnly => single_step(SetupStep::IdeConfig),
        ExecutionTarget::AgentSkillsOnly => single_step(SetupStep::AgentSkills),
        ExecutionTarget::SystemTweaksOnly => single_step(SetupStep::SystemTweaks),
        ExecutionTarget::RollbackLatest => single_step(SetupStep::Rollback),
    }
}

pub open spec fn start_message_of(t: ExecutionTarget) -> Seq<char> {
    match t {
        ExecutionTarget::FullSetup => "开始 Windows LTSC 显式全量一键配置流程..."@,
        ExecutionTarget::DevToolsOnly => "运行显式专项任务: 100+ 开发者软件库部署..."@,
        ExecutionTarget::NetworkOnly => "运行显式专项任务: 网络与代理接口硬化..."@,
        ExecutionTarget::StorageOnly => "运行显式专项任务: 存储优化..."@,
        ExecutionTarget::WindowsFeaturesOnly => "运行显式专项任务: Windows 可选功能..."@,
        ExecutionTarget::VSCodeExtensionsOnly => "运行显式专项任务: VS Code & Cursor 扩展及偏好设置同步..."@,
        ExecutionTarget::AgentSkillsOnly => "运行显式专项任务: AI Agent Skills & Hooks 嵌入式释出..."@,
        ExecutionTarget::SystemTweaksOnly => "运行显式专项任务: Windows 性能与隐私深度优化..."@,
        ExecutionTarget::RollbackLatest => "运行显式专项任务: 撤销上次调优..."@,
    }
}

pub open spec fn success_message_of(t: ExecutionTarget) -> Seq<char> {
    match t {
        ExecutionTarget::FullSetup => "Windows LTSC 配置完成；建议重启系统使系统级设置生效。"@,
        ExecutionTarget::DevToolsOnly => "开发者软件库部署完成。"@,
        ExecutionTarget::NetworkOnly => "网络与代理接口优化完成。"@,
        ExecutionTarget::StorageOnly => "存储优化完成。"@,
        ExecutionTarget::WindowsFeaturesOnly => "Windows 可选功能配置完成。"@,
        ExecutionTarget::VSCodeExtensionsOnly => "VS Code & Cursor 扩展及配置同步完成。"@,
        ExecutionTarget::AgentSkillsOnly => "AI Agent Skills & Hooks 释出完成。"@,
        ExecutionTarget::SystemTweaksOnly => "Windows 性能与隐私深度优化完成。"@,
        ExecutionTarget::RollbackLatest => "上次调优已撤销。"@,
    }
}

/// The line that opens a run.
pub fn start_message(target: ExecutionTarget) -> (r: &'static str)
    ensures
        r@ == start_message_of(target),
{
    match target {
        ExecutionTarget::FullSetup => "开始 Windows LTSC 显式全量一键配置流程...",
        ExecutionTarget::DevToolsOnly => "运行显式专项任务: 100+ 开发者软件库部署...",
        ExecutionTarget::NetworkOnly => "运行显式专项任务: 网络与代理接口硬化...",
        ExecutionTarget::StorageOnly => "运行显式专项任务: 存储优化...",
        ExecutionTarget::WindowsFeaturesOnly => "运行显式专项任务: Windows 可选功能...",
        ExecutionTarget::VSCodeExtensionsOnly => "运行显式专项任务: VS Code & Cursor 扩展及偏好设置同步...",
        ExecutionTarget::AgentSkillsOnly => "运行显式专项任务: AI Agent Skills & Hooks 嵌入式释出...",
        ExecutionTarget::SystemTweaksOnly => "运行显式专项任务: Windows 性能与隐私深度优化...",
        ExecutionTarget::RollbackLatest => "运行显式专项任务: 撤销上次调优...",
    }
}

/// The line that closes a run without failures.
pub fn success_message(target: ExecutionTarget) -> (r: &'static str)
    ensures
        r@ == success_message_of(target),
{
    match target {
        ExecutionTarget::FullSetup => "Windows LTSC 配置完成；建议重启系统使系统级设置生效。",
        ExecutionTarget::DevToolsOnly => "开发者软件库部署完成。",
        ExecutionTarget::NetworkOnly => "网络与代理接口优化完成。",
        ExecutionTarget::StorageOnly => "存储优化完成。",
        ExecutionTarget::WindowsFeaturesOnly => "Windows 可选功能配置完成。",
        ExecutionTarget::VSCodeExtensionsOnly => "VS Code & Cursor 扩展及配置同步完成。",
        ExecutionTarget::AgentSkillsOnly => "AI Agent Skills & Hooks 释出完成。",
        ExecutionTarget::SystemTweaksOnly => "Windows 性能与隐私深度优化完成。",
        ExecutionTarget::RollbackLatest => "上次调优已撤销。",
    }
}

pub open spec fn failures_message(errors: usize) -> Seq<char> {
    "部署结束，但有 "@ + decimal(errors as nat) + " 项失败；请按红色日志修复后重试。"@
}

/// The last line of a run: the target's success line when nothing failed,
/// else an error that counts the failures.
pub fn finish_line(target: ExecutionTarget, errors: usize) -> (r: (LogLevel, String))
    ensures
        errors == 0 ==> r.0 == LogLevel::End && r.1@ == success_message_of(target),
        errors > 0 ==> r.0 == LogLevel::Error && r.1@ == failures_message(errors),
{
    if errors == 0 {
        (LogLevel::End, success_message(target).to_owned())
    } else {
        let mut line = "部署结束，但有 ".to_owned();
        line.append(decimal_string(errors as u64).as_str());
        line.append(" 项失败；请按红色日志修复后重试。");
        (LogLevel::Error, line)
    }
}

/// How a run that ended by itself turned out: cancelled when the user asked
/// for it, with errors when a step failed, else succeeded.
pub fn run_outcome(errors: usize, cancelled: bool) -> (r: SetupOutcome)
    ensures
        cancelled ==> r == SetupOutcome::Cancelled,
        !cancelled && errors > 0 ==> r == SetupOutcome::CompletedWithErrors,
        !cancelled && errors == 0 ==> r == SetupOutcome::Succeeded,
{
    if cancelled {
        SetupOutcome::Cancelled
    } else if errors > 0 {
        SetupOutcome::CompletedWithErrors
    } else {
        SetupOutcome::Succeeded
    }
}

/// One registry DWORD the system tweaks write.
#[derive(Debug, Clone, PartialEq, Eq)]
pub struct RegistryTweak {
    pub hive: RegistryHive,
    pub path: String,
    pub name: String,
    pub value: u32,
}

/// A tweak as texts.
pub struct TweakModel {
    pub hive: RegistryHive,
    pub path: Seq<char>,
    pub name: Seq<char>,
    pub value: u32,
}

impl View for RegistryTweak {
    type V = TweakModel;

    open spec fn view(&self) -> TweakModel {
        TweakModel { hive: self.hive, path: self.path@, name: self.name@, value: self.value }
    }
}

pub open spec fn tweaks_view(ts: Seq<RegistryTweak>) -> Seq<TweakModel> {
    ts.map_values(|t: RegistryTweak| t@)
}

pub open spec fn tweak(hive: RegistryHive, path: Seq<char>, name: Seq<char>, value: u32) -> TweakModel {
    TweakModel { hive, path, name, value }
}

pub open spec fn when(chosen: bool, items: Seq<TweakModel>) -> Seq<TweakModel> {
    if chosen { items } else { Seq::empty() }
}

pub open spec fn search_key() -> Seq<char> {
    "SOFTWARE\\Microsoft\\Windows\\CurrentVersion\\Search"@
}

pub open spec fn explorer_key() -> Seq<char> {
    "SOFTWARE\\Microsoft\\Windows\\CurrentVersion\\Explorer\\Advanced"@
}

pub open spec fn multimedia_key() -> Seq<char> {
    "SOFTWARE\\Microsoft\\Windows NT\\CurrentVersion\\Multimedia\\SystemProfile"@
}

/// The registry values the system tweaks write, in order, for the chosen
/// settings: each privacy and Explorer setting the user turned on, then
/// developer mode, the scheduler's responsiveness and the network throttling
/// value, which are always written.
pub open spec fn registry_tweaks_of(t: SystemTweaksProfileConfig) -> Seq<TweakModel> {
    when(t.disable_telemetry, seq![tweak(RegistryHive::LocalMachine, "SOFTWARE\\Policies\\Microsoft\\Windows\\DataCollection"@, "AllowTelemetry"@, 0)])
        + when(t.disable_bing_search, seq![tweak(RegistryHive::CurrentUser, search_key(), "BingSearchEnabled"@, 0)])
        + when(t.disable_bing_search, seq![tweak(RegistryHive::CurrentUser, search_key(), "DisableSearchBoxSuggestions"@, 1)])
        + when(t.explorer_open_to_this_pc, seq![tweak(RegistryHive::CurrentUser, explorer_key(), "LaunchTo"@, 1)])
        + when(t.explorer_show_file_extensions, seq![tweak(RegistryHive::CurrentUser, explorer_key(), "HideFileExt"@, 0)])
        + when(t.explorer_show_hidden_files, seq![tweak(RegistryHive::CurrentUser, explorer_key(), "Hidden"@, 1)])
        + when(t.enable_ntfs_long_paths, seq![tweak(RegistryHive::LocalMachine, "SYSTEM\\CurrentControlSet\\Control\\FileSystem"@, "LongPathsEnabled"@, 1)])
        + when(true, seq![tweak(RegistryHive::LocalMachine, "SOFTWARE\\Microsoft\\Windows\\CurrentVersion\\AppModelUnlock"@, "AllowDevelopmentWithoutDevLicense"@, 1)])
        + when(true, seq![tweak(RegistryHive::LocalMachine, multimedia_key(), "SystemResponsiveness"@, t.system_responsiveness)])
        + when(true, seq![tweak(RegistryHive::LocalMachine, multimedia_key(), "NetworkThrottlingIndex"@, t.network_throttling_index as u32)])
}

fn push_tweak(ts: &mut Vec<RegistryTweak>, chosen: bool, hive: RegistryHive, path: &str, name: &str, value: u32)
    ensures
        tweaks_view(final(ts)@) == tweaks_view(old(ts)@) + when(chosen, seq![tweak(hive, path@, name@, value)]),
{
    let ghost before = ts@;
    if chosen {
        ts.push(RegistryTweak { hive, path: path.to_owned(), name: name.to_owned(), value });
    }
    assert(tweaks_view(ts@) =~= tweaks_view(before) + when(chosen, seq![tweak(hive, path@, name@, value)]));
}

/// The registry values the system tweaks write, in order.
pub fn registry_tweaks(t: &SystemTweaksProfileConfig) -> (r: Vec<RegistryTweak>)
    requires
        t.network_throttling_index <= u32::MAX,
    ensures
        tweaks_view(r@) == registry_tweaks_of(*t),
{
    let search = "SOFTWARE\\Microsoft\\Windows\\CurrentVersion\\Search";
    let explorer = "SOFTWARE\\Microsoft\\Windows\\CurrentVersion\\Explorer\\Advanced";
    let multimedia = "SOFTWARE\\Microsoft\\Windows NT\\CurrentVersion\\Multimedia\\SystemProfile";
    let mut ts: Vec<RegistryTweak> = Vec::new();
    let ghost before = ts@;
    if t.disable_telemetry {
        ts.push(RegistryTweak {
            hive: RegistryHive::LocalMachine,
            path: "SOFTWARE\\Policies\\Microsoft\\Windows\\DataCollection".to_owned(),
            name: "AllowTelemetry".to_owned(),
            value: 0,
        });
    }
    assert(tweaks_view(ts@) =~= when(t.disable_telemetry, seq![tweak(RegistryHive::LocalMachine, "SOFTWARE\\Policies\\Microsoft\\Windows\\DataCollection"@, "AllowTelemetry"@, 0)]));
    push_tweak(&mut ts, t.disable_bing_search, RegistryHive::CurrentUser, search, "BingSearchEnabled", 0);
    push_tweak(&mut ts, t.disable_bing_search, RegistryHive::CurrentUser, search, "DisableSearchBoxSuggestions", 1);
    push_tweak(&mut ts, t.explorer_open_to_this_pc, RegistryHive::CurrentUser, explorer, "LaunchTo", 1);
    push_tweak(&mut ts, t.explorer_show_file_extensions, RegistryHive::CurrentUser, explorer, "HideFileExt", 0);
    push_tweak(&mut ts, t.explorer_show_hidden_files, RegistryHive::CurrentUser, explorer, "Hidden", 1);
    push_tweak(&mut ts, t.enable_ntfs_long_paths, RegistryHive::LocalMachine, "SYSTEM\\CurrentControlSet\\Control\\FileSystem", "LongPathsEnabled", 1);
    push_tweak(&mut ts, true, RegistryHive::LocalMachine, "SOFTWARE\\Microsoft\\Windows\\CurrentVersion\\AppModelUnlock", "AllowDevelopmentWithoutDevLicense", 1);
    push_tweak(&mut ts, true, RegistryHive::LocalMachine, multimedia, "SystemResponsiveness", t.system_responsiveness);
    push_tweak(&mut ts, true, RegistryHive::LocalMachine, multimedia, "NetworkThrottlingIndex", t.network_throttling_index as u32);
    ts
}

/// A `git config --global` setting.
pub open spec fn git_pair(key: Seq<char>, value: Seq<char>) -> (Seq<char>, Seq<char>) {
    (key, value)
}

pub open spec fn flag(b: bool) -> Seq<char> {
    if b { "true"@ } else { "false"@ }
}

pub open spec fn pairs_view(v: Seq<(String, String)>) -> Seq<(Seq<char>, Seq<char>)> {
    v.map_values(|p: (String, String)| (p.0@, p.1@))
}

/// The global Git settings of the profile, in the order they are written.
/// `safe.directory` is set only when the profile names one; otherwise any
/// `safe.directory=*` is removed instead.
pub open spec fn git_settings_of(g: GitProfileConfig) -> Seq<(Seq<char>, Seq<char>)> {
    seq![
        git_pair("user.name"@, g.user_name@),
        git_pair("user.email"@, g.user_email@),
        git_pair("http.postBuffer"@, decimal(g.post_buffer_bytes as nat)),
    ] + (if is_blank(g.safe_directory@) { Seq::empty() } else { seq![git_pair("safe.directory"@, g.safe_directory@)] })
        + seq![
        git_pair("core.longpaths"@, flag(g.enable_long_paths)),
        git_pair("core.autocrlf"@, flag(g.enable_autocrlf)),
        git_pair("core.excludesfile"@, "~/.config/git/ignore"@),
        git_pair("filter.lfs.required"@, "true"@),
    ]
}

fn push_pair(v: &mut Vec<(String, String)>, key: &str, value: String)
    ensures
        pairs_view(final(v)@) == pairs_view(old(v)@).push((key@, value@)),
{
    let ghost before = v@;
    v.push((key.to_owned(), value));
    assert(pairs_view(v@) =~= pairs_view(before).push((key@, value@)));
}

fn flag_text(b: bool) -> (r: String)
    ensures
        r@ == flag(b),
{
    if b { "true".to_owned() } else { "false".to_owned() }
}

/// The global Git settings of the profile, in the order they are written.
pub fn git_settings(g: &GitProfileConfig) -> (r: Vec<(String, String)>)
    ensures
        pairs_view(r@) == git_settings_of(*g),
{
    let mut v: Vec<(String, String)> = Vec::new();
    let ghost s0 = pairs_view(v@);
    push_pair(&mut v, "user.name", g.user_name.clone());
    push_pair(&mut v, "user.email", g.user_email.clone());
    push_pair(&mut v, "http.postBuffer", decimal_string(g.post_buffer_bytes));
    let ghost s1 = pairs_view(v@);
    let blank = is_blank_str(g.safe_directory.as_str());
    if !blank {
        push_pair(&mut v, "safe.directory", g.safe_directory.clone());
    }
    let ghost s2 = pairs_view(v@);
    push_pair(&mut v, "core.longpaths", flag_text(g.enable_long_paths));
    push_pair(&mut v, "core.autocrlf", flag_text(g.enable_autocrlf));
    push_pair(&mut v, "core.excludesfile", "~/.config/git/ignore".to_owned());
    push_pair(&mut v, "filter.lfs.required", "true".to_owned());
    proof {
        assert(s0 =~= Seq::<(Seq<char>, Seq<char>)>::empty());
        assert(s2 =~= s1 + (if is_blank(g.safe_directory@) { Seq::empty() } else { seq![git_pair("safe.directory"@, g.safe_directory@)] }));
        assert(pairs_view(v@) =~= git_settings_of(*g));
    }
    v
}

/// The commands the final audit looks for: the package managers, the
/// development tool chain when it was installed, and `wsl` when WSL2 was set up.
pub open spec fn audit_tools_of(include_dev_tools: bool, include_docker_wsl: bool) -> Seq<Seq<char>> {
    seq!["winget"@, "scoop"@] + (if include_dev_tools {
        seq!["git"@, "python"@, "node"@, "cargo"@, "uv"@, "rtk"@, "pwsh"@]
    } else {
        Seq::empty()
    }) + (if include_docker_wsl { seq!["wsl"@] } else { Seq::empty() })
}

/// The commands the final audit looks for.
pub fn audit_tools(include_dev_tools: bool, include_docker_wsl: bool) -> (r: Vec<&'static str>)
    ensures
        r@.map_values(|s: &str| s@) == audit_tools_of(include_dev_tools, include_docker_wsl),
{
    let mut v: Vec<&'static str> = Vec::new();
    v.push("winget");
    v.push("scoop");
    if include_dev_tools {
        v.push("git");
        v.push("python");
        v.push("node");
        v.push("cargo");
        v.push("uv");
        v.push("rtk");
        v.push("pwsh");
    }
    if include_docker_wsl {
        v.push("wsl");
    }
    assert(v@.map_values(|s: &str| s@) =~= audit_tools_of(include_dev_tools, include_docker_wsl));
    v
}

/// The markers around the block the deployer manages in the PowerShell profile.
pub open spec fn profile_start_marker() -> Seq<char> {
    "# >>> LTSC Tools managed >>>"@
}

pub open spec fn profile_end_marker() -> Seq<char> {
    "# <<< LTSC Tools managed <<<"@
}

pub fn profile_markers() -> (r: (&'static str, &'static str))
    ensures
        r.0@ == profile_start_marker(),
        r.1@ == profile_end_marker(),
{
    ("# >>> LTSC Tools managed >>>", "# <<< LTSC Tools managed <<<")
}

pub open spec fn alias_lines(aliases: Seq<(Seq<char>, Seq<char>)>) -> Seq<char>
    decreases aliases.len(),
{
    if aliases.len() == 0 {
        Seq::empty()
    } else {
        alias_lines(aliases.drop_last()) + "Set-Alias -Name "@ + aliases.last().0 + " -Value "@ + aliases.last().1
            + " -ErrorAction SilentlyContinue\n"@
    }
}

/// The lines of the managed PowerShell profile block: UTF-8 console output,
/// starship and zoxide start-up when chosen, then one `Set-Alias` per alias.
pub open spec fn profile_block_of(utf8: bool, starship: bool, zoxide: bool, aliases: Seq<(Seq<char>, Seq<char>)>) -> Seq<char> {
    (if utf8 { "[Console]::OutputEncoding = [System.Text.Encoding]::UTF8\n"@ } else { Seq::empty() })
        + (if starship {
            "if (Get-Command starship -ErrorAction SilentlyContinue) { Invoke-Expression (&starship init powershell) }\n"@
        } else {
            Seq::empty()
        })
        + (if zoxide {
            "if (Get-Command zoxide -ErrorAction SilentlyContinue) { Invoke-Expression (& { (zoxide init powershell | Out-String) }) }\n"@
        } else {
            Seq::empty()
        })
        + alias_lines(aliases)
}

/// The lines of the managed PowerShell profile block; `aliases` in the
/// order the profile lists them.
pub fn profile_block(utf8: bool, starship: bool, zoxide: bool, aliases: &Vec<(String, String)>) -> (r: String)
    ensures
        r@ == profile_block_of(utf8, starship, zoxide, pairs_view(aliases@)),
{
    let mut out = String::new();
    if utf8 {
        out.append("[Console]::OutputEncoding = [System.Text.Encoding]::UTF8\n");
    }
    if starship {
        out.append("if (Get-Command starship -ErrorAction SilentlyContinue) { Invoke-Expression (&starship init powershell) }\n");
    }
    if zoxide {
        out.append("if (Get-Command zoxide -ErrorAction SilentlyContinue) { Invoke-Expression (& { (zoxide init powershell | Out-String) }) }\n");
    }
    let ghost head = out@;
    proof {
        assert(pairs_view(aliases@).take(0) =~= Seq::<(Seq<char>, Seq<char>)>::empty());
        assert(head + alias_lines(pairs_view(aliases@).take(0)) =~= head);
    }
    let mut i: usize = 0;
    while i < aliases.len()
        invariant
            i <= aliases.len(),
            out@ == head + alias_lines(pairs_view(aliases@).take(i as int)),
        decreases aliases.len() - i,
    {
        let (name, value) = &aliases[i];
        out.append("Set-Alias -Name ");
        out.append(name.as_str());
        out.append(" -Value ");
        out.append(value.as_str());
        out.append(" -ErrorAction SilentlyContinue\n");
        proof {
            let pv = pairs_view(aliases@);
            assert(pv.take(i + 1).drop_last() =~= pv.take(i as int));
            assert(pv.take(i + 1).last() == pv[i as int]);
        }
        i = i + 1;
    }
    proof {
        assert(pairs_view(aliases@).take(aliases.len() as int) =~= pairs_view(aliases@));
    }
    out
}

/// `~/.cargo/config.toml`: crates.io replaced by the profile's sparse index.
pub open spec fn cargo_config_of(index: Seq<char>) -> Seq<char> {
    "[source.crates-io]\nreplace-with = 'tuna'\n\n[source.tuna]\nregistry = \""@ + index + "\"\n"@
}

/// `pip.ini`: the profile's index and its trusted host.
pub open spec fn pip_config_of(index: Seq<char>) -> Seq<char> {
    "[global]\nindex-url = "@ + index + "\ntrusted-host = pypi.tuna.tsinghua.edu.cn\n"@
}

/// `~/.npmrc`: the profile's registry and the packages allowed to run install scripts.
pub open spec fn npmrc_of(registry: Seq<char>) -> Seq<char> {
    "registry="@ + registry + "\nallow-scripts=@alibaba-group/open-code-review,context-mode,opencode-ai,better-sqlite3\n"@
}

pub fn cargo_config(index: &str) -> (r: String)
    ensures
        r@ == cargo_config_of(index@),
{
    let mut out = "[source.crates-io]\nreplace-with = 'tuna'\n\n[source.tuna]\nregistry = \"".to_owned();
    out.append(index);
    out.append("\"\n");
    out
}

pub fn pip_config(index: &str) -> (r: String)
    ensures
        r@ == pip_config_of(index@),
{
    let mut out = "[global]\nindex-url = ".to_owned();
    out.append(index);
    out.append("\ntrusted-host = pypi.tuna.tsinghua.edu.cn\n");
    out
}

pub fn npmrc(registry: &str) -> (r: String)
    ensures
        r@ == npmrc_of(registry@),
{
    let mut out = "registry=".to_owned();
    out.append(registry);
    out.append("\nallow-scripts=@alibaba-group/open-code-review,context-mode,opencode-ai,better-sqlite3\n");
    out
}

/// Why a run cannot start from this profile and inventory, if it cannot: the
/// profile fails validation, the rules are unusable, or some Mac tool has no
/// Windows mapping yet (an unknown tool blocks deployment).
pub open spec fn plan_blocker_of(
    validation: Result<(), ProfileError>,
    report: Result<ParityReport, RulesError>,
) -> Option<Seq<char>> {
    match validation {
        Err(e) => Some(profile_error_message(e)),
        Ok(()) => match report {
            Err(e) => Some(rules_error_message(e)),
            Ok(r) => if r.unmapped@.len() > 0 {
                Some("Mac 清单中有未映射工具："@ + joined(r.unmapped.deep_view(), "；"@))
            } else {
                None
            },
        },
    }
}

/// Why a run cannot start from this profile and inventory, if it cannot.
pub fn plan_blocker(
    validation: &Result<(), ProfileError>,
    report: &Result<ParityReport, RulesError>,
) -> (r: Option<String>)
    ensures
        match r {
            Some(m) => plan_blocker_of(*validation, *report) == Some(m@),
            None => plan_blocker_of(*validation, *report) is None,
        },
{
    match validation {
        Err(e) => Some(e.message()),
        Ok(()) => match report {
            Err(e) => Some(e.message()),
            Ok(r) => {
                if r.unmapped.len() > 0 {
                    let mut message = "Mac 清单中有未映射工具：".to_owned();
                    message.append(join_strings(&r.unmapped, "；").as_str());
                    Some(message)
                } else {
                    None
                }
            },
        },
    }
}

/// The global gitignore file: the rules, one per line.
pub fn gitignore_text(rules: &Vec<String>) -> (r: String)
    ensures
        r@ == joined(rules.deep_view(), "\n"@) + "\n"@,
{
    let mut text = join_strings(rules, "\n");
    text.append("\n");
    text
}

/// The lines that report the final audit: the commands found, and, when
/// some are missing, the failure that names them.
pub fn final_audit_lines(found: &Vec<String>, missing: &Vec<String>) -> (r: (String, Option<String>))
    ensures
        r.0@ == "全套就绪指令: "@ + joined(found.deep_view(), ", "@),
        missing.len() == 0 ==> r.1 is None,
        missing.len() > 0 ==> (r.1 matches Some(m) && m@ == "最终组件审计失败: 缺失指令: "@ + joined(missing.deep_view(), ", "@)),
{
    let mut ready = "全套就绪指令: ".to_owned();
    ready.append(join_strings(found, ", ").as_str());
    if missing.len() == 0 {
        (ready, None)
    } else {
        let mut failure = "最终组件审计失败: 缺失指令: ".to_owned();
        failure.append(join_strings(missing, ", ").as_str());
        (ready, Some(failure))
    }
}

/// Whether a full setup runs a step: the fixed steps always, each optional
/// step exactly when the user chose its part, and never the rollback.
pub open spec fn full_setup_runs(c: SetupConfig, step: SetupStep) -> bool {
    match step {
        SetupStep::DockerWsl => c.include_docker_wsl,
        SetupStep::AgentSkills => c.include_agent_skills,
        SetupStep::GitShellConfigs => c.include_git_shell_configs,
        SetupStep::IdeConfig => c.include_vscode_extensions,
        SetupStep::DevSuite => c.include_dev_tools,
        SetupStep::OllamaModels => c.include_ollama_models,
        SetupStep::SystemTweaks => c.include_deep_win_tweaks,
        SetupStep::StorageOptimization => c.include_storage_optimization,
        SetupStep::WindowsFeatures => c.include_docker_wsl,
        SetupStep::Rollback => false,
        _ => true,
    }
}

/// The note a full setup logs in place of a step the user turned off, for
/// the steps that have one.
pub open spec fn full_setup_skip_note(step: SetupStep) -> Option<Seq<char>> {
    match step {
        SetupStep::DockerWsl => Some("显式跳过: Docker & WSL2 虚拟化内核配置"@),
        SetupStep::AgentSkills => Some("显式跳过: AI Agent Skills / Hooks 配置"@),
        SetupStep::GitShellConfigs => Some("显式跳过: Git 全局配置与 PowerShell Profile 自动化"@),
        SetupStep::IdeConfig => Some("显式跳过: VS Code & Cursor 扩展与配置文件同步"@),
        SetupStep::DevSuite => Some("显式跳过: 开发者 CLI / 工具链配置"@),
        SetupStep::SystemTweaks => Some("显式跳过: 深度 Windows 性能与隐私优化"@),
        SetupStep::StorageOptimization => Some("显式跳过: 存储优化"@),
        _ => None,
    }
}

proof fn lemma_contains_add(a: Seq<PlanItem>, b: Seq<PlanItem>, x: PlanItem)
    ensures
        (a + b).contains(x) <==> (a.contains(x) || b.contains(x)),
{
    if a.contains(x) {
        let i = choose|i: int| 0 <= i < a.len() && a[i] == x;
        assert((a + b)[i] == x);
    }
    if b.contains(x) {
        let j = choose|j: int| 0 <= j < b.len() && b[j] == x;
        assert((a + b)[a.len() + j] == x);
    }
    if (a + b).contains(x) {
        let k = choose|k: int| 0 <= k < (a + b).len() && (a + b)[k] == x;
        if k < a.len() {
            assert(a[k] == x);
        } else {
            assert(b[k - a.len()] == x);
        }
    }
}

/// A full setup runs a step exactly when that step is fixed or the user
/// chose its part: a part turned off is never run.
#[verifier::rlimit(60)]
pub proof fn full_setup_runs_exactly_the_chosen_steps(c: SetupConfig, step: SetupStep)
    requires
        c.target_mode == ExecutionTarget::FullSetup,
    ensures
        plan_of(c).contains(PlanItem::Run(step)) <==> full_setup_runs(c, step),
{
    let x = PlanItem::Run(step);
    let p0 = run(SetupStep::Network);
    let p1 = run(SetupStep::PackageManagers);
    let p2 = run(SetupStep::EnvironmentMirrors);
    let p3 = run(SetupStep::UwpApps);
    let p4 = gate(c.include_docker_wsl, SetupStep::DockerWsl, "显式跳过: Docker & WSL2 虚拟化内核配置"@);
    let p5 = gate(c.include_agent_skills, SetupStep::AgentSkills, "显式跳过: AI Agent Skills / Hooks 配置"@);
    let p6 = gate(c.include_git_shell_configs, SetupStep::GitShellConfigs, "显式跳过: Git 全局配置与 PowerShell Profile 自动化"@);
    let p7 = gate(c.include_vscode_extensions, SetupStep::IdeConfig, "显式跳过: VS Code & Cursor 扩展与配置文件同步"@);
    let p8 = run(SetupStep::CoreApps);
    let p9 = gate(c.include_dev_tools, SetupStep::DevSuite, "显式跳过: 开发者 CLI / 工具链配置"@);
    let p10 = optional(c.include_ollama_models, SetupStep::OllamaModels);
    let p11 = gate(c.include_deep_win_tweaks, SetupStep::SystemTweaks, "显式跳过: 深度 Windows 性能与隐私优化"@);
    let p12 = gate(c.include_storage_optimization, SetupStep::StorageOptimization, "显式跳过: 存储优化"@);
    let p13 = optional(c.include_docker_wsl, SetupStep::WindowsFeatures);
    let p14 = run(SetupStep::Audit);
    let s1 = p0 + p1;
    let s2 = s1 + p2;
    let s3 = s2 + p3;
    let s4 = s3 + p4;
    let s5 = s4 + p5;
    let s6 = s5 + p6;
    let s7 = s6 + p7;
    let s8 = s7 + p8;
    let s9 = s8 + p9;
    let s10 = s9 + p10;
    let s11 = s10 + p11;
    let s12 = s11 + p12;
    let s13 = s12 + p13;
    let s14 = s13 + p14;
    assert(plan_of(c) == s14);
    lemma_contains_add(p0, p1, x);
    lemma_contains_add(s1, p2, x);
    lemma_contains_add(s2, p3, x);
    lemma_contains_add(s3, p4, x);
    lemma_contains_add(s4, p5, x);
    lemma_contains_add(s5, p6, x);
    lemma_contains_add(s6, p7, x);
    lemma_contains_add(s7, p8, x);
    lemma_contains_add(s8, p9, x);
    lemma_contains_add(s9, p10, x);
    lemma_contains_add(s10, p11, x);
    lemma_contains_add(s11, p12, x);
    lemma_contains_add(s12, p13, x);
    lemma_contains_add(s13, p14, x);
    lemma_single(p0, x);
    lemma_single(p1, x);
    lemma_single(p2, x);
    lemma_single(p3, x);
    lemma_single(p4, x);
    lemma_single(p5, x);
    lemma_single(p6, x);
    lemma_single(p7, x);
    lemma_single(p8, x);
    lemma_single(p9, x);
    lemma_single(p10, x);
    lemma_single(p11, x);
    lemma_single(p12, x);
    lemma_single(p13, x);
    lemma_single(p14, x);
}

/// A full setup logs the skip note of each part the user turned off.
#[verifier::rlimit(60)]
pub proof fn full_setup_notes_each_part_turned_off(c: SetupConfig, step: SetupStep)
    requires
        c.target_mode == ExecutionTarget::FullSetup,
        !full_setup_runs(c, step),
        full_setup_skip_note(step) is Some,
    ensures
        plan_of(c).contains(PlanItem::Skip(full_setup_skip_note(step)->0)),
{
    let y = PlanItem::Skip(full_setup_skip_note(step)->0);
    let p0 = run(SetupStep::Network);
    let p1 = run(SetupStep::PackageManagers);
    let p2 = run(SetupStep::EnvironmentMirrors);
    let p3 = run(SetupStep::UwpApps);
    let p4 = gate(c.include_docker_wsl, SetupStep::DockerWsl, "显式跳过: Docker & WSL2 虚拟化内核配置"@);
    let p5 = gate(c.include_agent_skills, SetupStep::AgentSkills, "显式跳过: AI Agent Skills / Hooks 配置"@);
    let p6 = gate(c.include_git_shell_configs, SetupStep::GitShellConfigs, "显式跳过: Git 全局配置与 PowerShell Profile 自动化"@);
    let p7 = gate(c.include_vscode_extensions, SetupStep::IdeConfig, "显式跳过: VS Code & Cursor 扩展与配置文件同步"@);
    let p8 = run(SetupStep::CoreApps);
    let p9 = gate(c.include_dev_tools, SetupStep::DevSuite, "显式跳过: 开发者 CLI / 工具链配置"@);
    let p10 = optional(c.include_ollama_models, SetupStep::OllamaModels);
    let p11 = gate(c.include_deep_win_tweaks, SetupStep::SystemTweaks, "显式跳过: 深度 Windows 性能与隐私优化"@);
    let p12 = gate(c.include_storage_optimization, SetupStep::StorageOptimization, "显式跳过: 存储优化"@);
    let p13 = optional(c.include_docker_wsl, SetupStep::WindowsFeatures);
    let p14 = run(SetupStep::Audit);
    let s1 = p0 + p1;
    let s2 = s1 + p2;
    let s3 = s2 + p3;
    let s4 = s3 + p4;
    let s5 = s4 + p5;
    let s6 = s5 + p6;
    let s7 = s6 + p7;
    let s8 = s7 + p8;
    let s9 = s8 + p9;
    let s10 = s9 + p10;
    let s11 = s10 + p11;
    let s12 = s11 + p12;
    let s13 = s12 + p13;
    let s14 = s13 + p14;
    assert(plan_of(c) == s14);
    lemma_contains_add(p0, p1, y);
    lemma_contains_add(s1, p2, y);
    lemma_contains_add(s2, p3, y);
    lemma_contains_add(s3, p4, y);
    lemma_contains_add(s4, p5, y);
    lemma_contains_add(s5, p6, y);
    lemma_contains_add(s6, p7, y);
    lemma_contains_add(s7, p8, y);
    lemma_contains_add(s8, p9, y);
    lemma_contains_add(s9, p10, y);
    lemma_contains_add(s10, p11, y);
    lemma_contains_add(s11, p12, y);
    lemma_contains_add(s12, p13, y);
    lemma_contains_add(s13, p14, y);
    lemma_single(p4, y);
    lemma_single(p5, y);
    lemma_single(p6, y);
    lemma_single(p7, y);
    lemma_single(p9, y);
    lemma_single(p11, y);
    lemma_single(p12, y);
}

/// A plan part of at most one entry holds `x` exactly when its entry is `x`.
proof fn lemma_single(part: Seq<PlanItem>, x: PlanItem)
    requires
        part.len() <= 1,
    ensures
        part.contains(x) <==> (part.len() == 1 && part[0] == x),
{
    if part.len() == 1 && part[0] == x {
        assert(part[0] == x);
    }
}

} // verus!

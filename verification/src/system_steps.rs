//! The commands the network, storage, Windows feature and hibernation steps
//! run, each given as the program followed by its arguments.
use vstd::prelude::*;
use crate::config::{NetworkMode, SystemTweaksProfileConfig, WindowsFeaturesProfileConfig};
use crate::rollback::RollbackAction;
use crate::text::{chars_of, string_of};
use crate::textfile::append_chars;
use crate::utils::{CommandResult, CommandState};

verus! {

/// A command as text: the program, then its arguments.
pub open spec fn command_view(c: Vec<&str>) -> Seq<Seq<char>> {
    c@.map_values(|s: &str| s@)
}

pub open spec fn commands_view(cs: Seq<Vec<&str>>) -> Seq<Seq<Seq<char>>> {
    cs.map_values(|c: Vec<&str>| command_view(c))
}

pub open spec fn flush_dns() -> Seq<Seq<char>> {
    seq!["ipconfig.exe"@, "/flushdns"@]
}

/// `netsh.exe int tcp set global <setting>`.
pub open spec fn tcp_global(setting: Seq<char>) -> Seq<Seq<char>> {
    seq!["netsh.exe"@, "int"@, "tcp"@, "set"@, "global"@, setting]
}

/// The commands of the network step: every mode flushes the DNS cache;
/// Optimized and Extreme also set normal TCP auto-tuning; Extreme also turns
/// on RSS, RSC, TCP Fast Open, CTCP for the internet template and ECN.
pub open spec fn network_command_list(mode: NetworkMode) -> Seq<Seq<Seq<char>>> {
    let basic = seq![flush_dns()];
    let optimized = basic.push(tcp_global("autotuninglevel=normal"@));
    match mode {
        NetworkMode::Basic => basic,
        NetworkMode::Optimized => optimized,
        NetworkMode::Extreme => optimized + seq![
            tcp_global("rss=enabled"@),
            tcp_global("rsc=enabled"@),
            tcp_global("fastopen=enabled"@),
            seq![
                "netsh.exe"@,
                "int"@,
                "tcp"@,
                "set"@,
                "supplemental"@,
                "template=internet"@,
                "congestionprovider=ctcp"@,
            ],
            tcp_global("ecncapability=enabled"@),
        ],
    }
}

/// The commands of the network step for a mode.
pub fn network_commands(mode: NetworkMode) -> (r: Vec<Vec<&'static str>>)
    ensures
        commands_view(r@) == network_command_list(mode),
{
    let mut r: Vec<Vec<&'static str>> = Vec::new();
    r.push(vec!["ipconfig.exe", "/flushdns"]);
    match mode {
        NetworkMode::Basic => {},
        NetworkMode::Optimized => {
            r.push(vec!["netsh.exe", "int", "tcp", "set", "global", "autotuninglevel=normal"]);
        },
        NetworkMode::Extreme => {
            r.push(vec!["netsh.exe", "int", "tcp", "set", "global", "autotuninglevel=normal"]);
            r.push(vec!["netsh.exe", "int", "tcp", "set", "global", "rss=enabled"]);
            r.push(vec!["netsh.exe", "int", "tcp", "set", "global", "rsc=enabled"]);
            r.push(vec!["netsh.exe", "int", "tcp", "set", "global", "fastopen=enabled"]);
            r.push(vec!["netsh.exe", "int", "tcp", "set", "supplemental", "template=internet", "congestionprovider=ctcp"]);
            r.push(vec!["netsh.exe", "int", "tcp", "set", "global", "ecncapability=enabled"]);
        },
    }
    assert(commands_view(r@) =~~= network_command_list(mode));
    r
}

/// The network step configures only the DNS cache and the TCP stack: each
/// of its commands flushes the DNS cache or is `netsh int tcp set ...`, so
/// no mode imports or changes the WinHTTP proxy.
pub proof fn network_step_touches_only_dns_and_tcp(mode: NetworkMode)
    ensures
        forall|i: int|
            0 <= i < network_command_list(mode).len() ==> (#[trigger] network_command_list(mode)[i]) == flush_dns()
                || (network_command_list(mode)[i].len() >= 4 && network_command_list(mode)[i][0] == "netsh.exe"@
                && network_command_list(mode)[i][1] == "int"@ && network_command_list(mode)[i][2] == "tcp"@
                && network_command_list(mode)[i][3] == "set"@),
{
}

/// Each network mode runs the commands of the milder modes first: Basic's
/// commands begin Optimized's, and Optimized's begin Extreme's.
pub proof fn network_modes_extend_each_other()
    ensures
        network_command_list(NetworkMode::Optimized).take(network_command_list(NetworkMode::Basic).len() as int)
            == network_command_list(NetworkMode::Basic),
        network_command_list(NetworkMode::Extreme).take(network_command_list(NetworkMode::Optimized).len() as int)
            == network_command_list(NetworkMode::Optimized),
{
    assert(network_command_list(NetworkMode::Optimized).take(1) =~= network_command_list(NetworkMode::Basic));
    assert(network_command_list(NetworkMode::Extreme).take(2) =~= network_command_list(NetworkMode::Optimized));
}

pub open spec fn wsl_feature_list() -> Seq<Seq<char>> {
    seq!["VirtualMachinePlatform"@, "Microsoft-Windows-Subsystem-Linux"@]
}

/// The optional Windows features WSL 2 needs.
pub fn wsl_features() -> (r: Vec<&'static str>)
    ensures
        r@.map_values(|s: &str| s@) == wsl_feature_list(),
{
    let r = vec!["VirtualMachinePlatform", "Microsoft-Windows-Subsystem-Linux"];
    assert(r@.map_values(|s: &str| s@) =~= wsl_feature_list());
    r
}

/// The optional Windows features the profile turns on, in order: those of
/// WSL 2, .NET Framework 3.5, Windows Sandbox and Hyper-V.
pub open spec fn feature_list(f: WindowsFeaturesProfileConfig) -> Seq<Seq<char>> {
    (if f.enable_wsl2 { wsl_feature_list() } else { Seq::empty() })
        + (if f.enable_netfx3 { seq!["NetFx3"@] } else { Seq::empty() })
        + (if f.enable_windows_sandbox { seq!["Containers-DisposableClientVM"@] } else { Seq::empty() })
        + (if f.enable_hyper_v { seq!["Microsoft-Hyper-V-All"@] } else { Seq::empty() })
}

pub fn feature_names(f: &WindowsFeaturesProfileConfig) -> (r: Vec<&'static str>)
    ensures
        r@.map_values(|s: &str| s@) == feature_list(*f),
{
    let mut r: Vec<&'static str> = Vec::new();
    if f.enable_wsl2 {
        r.push("VirtualMachinePlatform");
        r.push("Microsoft-Windows-Subsystem-Linux");
    }
    if f.enable_netfx3 {
        r.push("NetFx3");
    }
    if f.enable_windows_sandbox {
        r.push("Containers-DisposableClientVM");
    }
    if f.enable_hyper_v {
        r.push("Microsoft-Hyper-V-All");
    }
    assert(r@.map_values(|s: &str| s@) =~= feature_list(*f));
    r
}

pub open spec fn enable_feature_command_of(feature: Seq<char>) -> Seq<Seq<char>> {
    seq!["dism.exe"@, "/online"@, "/enable-feature"@, "/featurename:"@ + feature, "/all"@, "/norestart"@]
}

/// The DISM command that turns on an optional Windows feature without
/// restarting.
pub fn enable_feature_command(feature: &str) -> (r: Vec<String>)
    ensures
        r@.map_values(|s: String| s@) == enable_feature_command_of(feature@),
{
    let mut name = chars_of("/featurename:");
    let f = chars_of(feature);
    append_chars(&mut name, f.as_slice());
    let r = vec![
        "dism.exe".to_owned(),
        "/online".to_owned(),
        "/enable-feature".to_owned(),
        string_of(name.as_slice()),
        "/all".to_owned(),
        "/norestart".to_owned(),
    ];
    assert(r@.map_values(|s: String| s@) =~= enable_feature_command_of(feature@));
    r
}

pub open spec fn trim_filesystem_list() -> Seq<Seq<char>> {
    seq!["NTFS"@, "ReFS"@]
}

/// The file systems TRIM is turned on for.
pub fn trim_filesystems() -> (r: Vec<&'static str>)
    ensures
        r@.map_values(|s: &str| s@) == trim_filesystem_list(),
{
    let r = vec!["NTFS", "ReFS"];
    assert(r@.map_values(|s: &str| s@) =~= trim_filesystem_list());
    r
}

pub open spec fn trim_command_of(filesystem: Seq<char>) -> Seq<Seq<char>> {
    seq!["fsutil.exe"@, "behavior"@, "set"@, "DisableDeleteNotify"@, filesystem, "0"@]
}

/// The command that turns TRIM on for a file system.
pub fn trim_command(filesystem: &'static str) -> (r: Vec<&'static str>)
    ensures
        command_view(r) == trim_command_of(filesystem@),
{
    let r = vec!["fsutil.exe", "behavior", "set", "DisableDeleteNotify", filesystem, "0"];
    assert(command_view(r) =~= trim_command_of(filesystem@));
    r
}

/// `defrag.exe /C /O /H`: every volume, each with the optimisation Windows
/// picks for its media (retrim or defragmentation), at normal priority.
pub open spec fn volume_optimization_command_of() -> Seq<Seq<char>> {
    seq!["defrag.exe"@, "/C"@, "/O"@, "/H"@]
}

pub fn volume_optimization_command() -> (r: Vec<&'static str>)
    ensures
        command_view(r) == volume_optimization_command_of(),
{
    let r = vec!["defrag.exe", "/C", "/O", "/H"];
    assert(command_view(r) =~= volume_optimization_command_of());
    r
}

/// `powercfg.exe -duplicatescheme` of the Ultimate Performance scheme.
pub open spec fn ultimate_performance_command_of() -> Seq<Seq<char>> {
    seq!["powercfg.exe"@, "-duplicatescheme"@, "e9a42b02-d5df-448d-aa00-03f14749eb61"@]
}

pub fn ultimate_performance_command() -> (r: Vec<&'static str>)
    ensures
        command_view(r) == ultimate_performance_command_of(),
{
    let r = vec!["powercfg.exe", "-duplicatescheme", "e9a42b02-d5df-448d-aa00-03f14749eb61"];
    assert(command_view(r) =~= ultimate_performance_command_of());
    r
}

pub open spec fn hibernation_command_of(on: bool) -> Seq<Seq<char>> {
    seq!["powercfg.exe"@, "/hibernate"@, if on { "on"@ } else { "off"@ }]
}

/// The command that turns hibernation off.
pub fn hibernation_off_command() -> (r: Vec<&'static str>)
    ensures
        command_view(r) == hibernation_command_of(false),
{
    let r = vec!["powercfg.exe", "/hibernate", "off"];
    assert(command_view(r) =~= hibernation_command_of(false));
    r
}

/// The journal entry that undoes turning hibernation off: the same command
/// with `on`.
pub fn hibernation_undo() -> (r: RollbackAction)
    ensures
        r matches RollbackAction::Command { label, program, args } && label@ == "恢复休眠"@
            && seq![program@] + args@.map_values(|s: String| s@) == hibernation_command_of(true),
{
    let args = vec!["/hibernate".to_owned(), "on".to_owned()];
    let r = RollbackAction::Command { label: "恢复休眠".to_owned(), program: "powercfg.exe".to_owned(), args };
    assert(seq!["powercfg.exe"@] + args@.map_values(|s: String| s@) =~= hibernation_command_of(true));
    r
}

/// A failed command is run once more, unless it was cancelled.
pub fn should_retry(result: &CommandResult) -> (r: bool)
    ensures
        r == (!(result.state == CommandState::Exited && result.exit_code == Some(0i32))
            && result.state != CommandState::Cancelled),
{
    !result.succeeded() && !result.cancelled()
}

pub open spec fn winget_list_command_of(id: Seq<char>) -> Seq<Seq<char>> {
    seq!["winget"@, "list"@, "--id"@, id, "-e"@, "--accept-source-agreements"@, "--disable-interactivity"@]
}

/// The command that lists the installed package with exactly this id.
pub fn winget_list_command(id: &str) -> (r: Vec<String>)
    ensures
        r@.map_values(|s: String| s@) == winget_list_command_of(id@),
{
    let r = vec![
        "winget".to_owned(),
        "list".to_owned(),
        "--id".to_owned(),
        id.to_owned(),
        "-e".to_owned(),
        "--accept-source-agreements".to_owned(),
        "--disable-interactivity".to_owned(),
    ];
    assert(r@.map_values(|s: String| s@) =~= winget_list_command_of(id@));
    r
}

pub open spec fn winget_install_command_of(id: Seq<char>) -> Seq<Seq<char>> {
    seq![
        "winget"@,
        "install"@,
        "--id"@,
        id,
        "-e"@,
        "--silent"@,
        "--disable-interactivity"@,
        "--accept-package-agreements"@,
        "--accept-source-agreements"@,
    ]
}

/// The command that installs the package with exactly this id, silently and
/// accepting the agreements.
pub fn winget_install_command(id: &str) -> (r: Vec<String>)
    ensures
        r@.map_values(|s: String| s@) == winget_install_command_of(id@),
{
    let r = vec![
        "winget".to_owned(),
        "install".to_owned(),
        "--id".to_owned(),
        id.to_owned(),
        "-e".to_owned(),
        "--silent".to_owned(),
        "--disable-interactivity".to_owned(),
        "--accept-package-agreements".to_owned(),
        "--accept-source-agreements".to_owned(),
    ];
    assert(r@.map_values(|s: String| s@) =~= winget_install_command_of(id@));
    r
}

} // verus!

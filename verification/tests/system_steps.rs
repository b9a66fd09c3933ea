use ltsc_workspace::config::{NetworkMode, WindowsFeaturesProfileConfig};
use ltsc_workspace::rollback::RollbackAction;
use ltsc_workspace::system_steps::{
    enable_feature_command, feature_names, hibernation_off_command, hibernation_undo, network_commands,
    should_retry, trim_command, trim_filesystems, ultimate_performance_command, volume_optimization_command,
    winget_install_command, winget_list_command, wsl_features,
};
use ltsc_workspace::utils::{CommandResult, CommandState};

#[test]
fn network_commands_per_mode() {
    assert_eq!(network_commands(NetworkMode::Basic), vec![vec!["ipconfig.exe", "/flushdns"]]);
    assert_eq!(
        network_commands(NetworkMode::Optimized),
        vec![vec!["ipconfig.exe", "/flushdns"], vec!["netsh.exe", "int", "tcp", "set", "global", "autotuninglevel=normal"]]
    );
    let extreme = network_commands(NetworkMode::Extreme);
    assert_eq!(extreme.len(), 7);
    assert_eq!(extreme[0..2], network_commands(NetworkMode::Optimized)[..]);
    assert_eq!(extreme[2], vec!["netsh.exe", "int", "tcp", "set", "global", "rss=enabled"]);
    assert_eq!(extreme[5], vec!["netsh.exe", "int", "tcp", "set", "supplemental", "template=internet", "congestionprovider=ctcp"]);
    assert_eq!(extreme[6], vec!["netsh.exe", "int", "tcp", "set", "global", "ecncapability=enabled"]);
}

#[test]
fn network_step_leaves_the_winhttp_proxy_alone() {
    for mode in [NetworkMode::Basic, NetworkMode::Optimized, NetworkMode::Extreme] {
        for command in network_commands(mode) {
            assert!(!command.iter().any(|part| part.contains("winhttp")));
            assert!(command[0] == "ipconfig.exe" || command[1..4] == ["int", "tcp", "set"]);
        }
    }
}

#[test]
fn windows_features_follow_the_profile() {
    let all = WindowsFeaturesProfileConfig {
        enable_wsl2: true,
        enable_netfx3: true,
        enable_windows_sandbox: true,
        enable_hyper_v: true,
    };
    assert_eq!(
        feature_names(&all),
        vec![
            "VirtualMachinePlatform",
            "Microsoft-Windows-Subsystem-Linux",
            "NetFx3",
            "Containers-DisposableClientVM",
            "Microsoft-Hyper-V-All"
        ]
    );
    let some = WindowsFeaturesProfileConfig {
        enable_wsl2: false,
        enable_netfx3: true,
        enable_windows_sandbox: false,
        enable_hyper_v: true,
    };
    assert_eq!(feature_names(&some), vec!["NetFx3", "Microsoft-Hyper-V-All"]);
    assert_eq!(wsl_features(), vec!["VirtualMachinePlatform", "Microsoft-Windows-Subsystem-Linux"]);
    assert_eq!(
        enable_feature_command("NetFx3"),
        vec!["dism.exe", "/online", "/enable-feature", "/featurename:NetFx3", "/all", "/norestart"]
    );
}

#[test]
fn storage_and_power_commands() {
    assert_eq!(trim_filesystems(), vec!["NTFS", "ReFS"]);
    assert_eq!(trim_command("ReFS"), vec!["fsutil.exe", "behavior", "set", "DisableDeleteNotify", "ReFS", "0"]);
    assert_eq!(volume_optimization_command(), vec!["defrag.exe", "/C", "/O", "/H"]);
    assert_eq!(
        ultimate_performance_command(),
        vec!["powercfg.exe", "-duplicatescheme", "e9a42b02-d5df-448d-aa00-03f14749eb61"]
    );
    assert_eq!(hibernation_off_command(), vec!["powercfg.exe", "/hibernate", "off"]);
    assert_eq!(
        hibernation_undo(),
        RollbackAction::Command {
            label: "恢复休眠".to_string(),
            program: "powercfg.exe".to_string(),
            args: vec!["/hibernate".to_string(), "on".to_string()],
        }
    );
}

#[test]
fn only_failed_uncancelled_commands_are_retried() {
    let result = |state: CommandState, exit_code: Option<i32>| CommandResult { state, exit_code, output: String::new() };
    assert!(!should_retry(&result(CommandState::Exited, Some(0))));
    assert!(should_retry(&result(CommandState::Exited, Some(1))));
    assert!(should_retry(&result(CommandState::TimedOut, None)));
    assert!(should_retry(&result(CommandState::SpawnFailed, None)));
    assert!(!should_retry(&result(CommandState::Cancelled, None)));
}

#[test]
fn winget_commands_name_the_exact_id() {
    assert_eq!(
        winget_list_command("Git.Git"),
        vec!["winget", "list", "--id", "Git.Git", "-e", "--accept-source-agreements", "--disable-interactivity"]
    );
    assert_eq!(
        winget_install_command("Git.Git"),
        vec![
            "winget",
            "install",
            "--id",
            "Git.Git",
            "-e",
            "--silent",
            "--disable-interactivity",
            "--accept-package-agreements",
            "--accept-source-agreements"
        ]
    );
}

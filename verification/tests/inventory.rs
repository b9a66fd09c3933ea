use ltsc_workspace::capture::{normalize_list, optional_output, required_output};
use ltsc_workspace::config::ParityReport;
use ltsc_workspace::inventory::{
    inventory_refreshed_message, startup_inventory, parse_cargo_install_list, parse_nonempty_lines, parse_npm_globals, parse_uv_tool_list,
    strip_tap_prefix, InventoryError, MacosInventory, NpmParseError, SourceKind,
};
use ltsc_workspace::macos_inventory::{
    capture_failures, git, inventory_status, join_strings, level_with_upstream, parity_summary, publication_refusal,
    restore_uncaptured_extensions, same_except_capture_time, work_tree_clean,
};
use ltsc_workspace::utils::{CommandResult, CommandState};

fn strings(values: &[&str]) -> Vec<String> {
    values.iter().map(|value| value.to_string()).collect()
}

/// An inventory shaped like the one the source Mac publishes.
fn published_inventory() -> MacosInventory {
    MacosInventory {
        schema_version: 1,
        captured_at: "2026-01-01T00:00:00Z".into(),
        homebrew_formulae: strings(&["bat", "fd", "git", "ripgrep", "wget"]),
        homebrew_casks: strings(&["iterm2", "visual-studio-code"]),
        homebrew_taps: Vec::new(),
        cargo_packages: strings(&["cargo-audit", "rtk"]),
        npm_globals: strings(&["@openai/codex", "typescript"]),
        uv_tools: strings(&["kimi-cli"]),
        vscode_extensions: strings(&["rust-lang.rust-analyzer"]),
        cursor_extensions: strings(&["ms-python.python"]),
        warnings: strings(&["Homebrew tap 名称/前缀未写入公开快照；仅保留 formula/cask 名称"]),
    }
}

fn exited(code: i32, output: &str) -> CommandResult {
    CommandResult { state: CommandState::Exited, exit_code: Some(code), output: output.into() }
}

#[test]
fn provider_outputs_are_parsed_without_versions_or_binaries() {
    assert_eq!(
        parse_cargo_install_list("cargo-audit v0.22.2:\n    cargo-audit\nrtk v0.42.4 (git):\n    rtk\n"),
        ["cargo-audit", "rtk"]
    );
    assert_eq!(
        parse_npm_globals(
            r#"{"dependencies":{"typescript":{"version":"7"},"@openai/codex":{"version":"1"}}}"#
        )
        .unwrap(),
        ["@openai/codex", "typescript"]
    );
    assert_eq!(
        parse_uv_tool_list("kimi-cli v1.49.0\n- kimi\nosxphotos v0.76.1\n- osxphotos\n"),
        ["kimi-cli", "osxphotos"]
    );
}

#[test]
fn invalid_inventory_cannot_replace_the_deployment_plan() {
    let mut inventory = published_inventory();
    inventory.homebrew_formulae.push(inventory.homebrew_formulae[0].clone());
    assert!(inventory.validate().is_err());
    inventory.homebrew_formulae.pop();
    inventory.homebrew_formulae.push("private/tap/tool".into());
    assert!(inventory.validate().is_err());
}

#[test]
fn unchanged_inventory_does_not_create_timestamp_only_commit() {
    let previous = published_inventory();
    let mut current = previous.clone();
    current.captured_at = "later".into();
    assert!(same_except_capture_time(&current, &previous));
    current.homebrew_formulae.push("new-tool".into());
    assert!(!same_except_capture_time(&current, &previous));
}

#[test]
fn published_inventory_is_valid() {
    let inventory = published_inventory();
    assert_eq!(inventory.validate(), Ok(()));
    assert_eq!(inventory.item_count(), 12);
}

#[test]
fn inventory_errors_name_the_entry() {
    let mut inventory = published_inventory();
    inventory.cargo_packages.push("CARGO-AUDIT".into());
    let error = inventory.validate().unwrap_err();
    assert_eq!(
        error,
        InventoryError::InvalidEntry { kind: SourceKind::Cargo, value: "CARGO-AUDIT".into() }
    );
    assert_eq!(error.message(), "Mac 清单中的 Cargo 项无效或重复：CARGO-AUDIT");

    let mut inventory = published_inventory();
    inventory.uv_tools.push("has space".into());
    assert_eq!(
        inventory.validate(),
        Err(InventoryError::InvalidEntry { kind: SourceKind::Uv, value: "has space".into() })
    );

    let mut inventory = published_inventory();
    inventory.schema_version = 2;
    assert_eq!(inventory.validate(), Err(InventoryError::InvalidHeader));
    assert_eq!(InventoryError::InvalidHeader.message(), "Mac 清单版本无效或没有工具项目");

    let empty = MacosInventory { schema_version: 1, ..MacosInventory::default() };
    assert_eq!(empty.validate(), Err(InventoryError::InvalidHeader));
}

#[test]
fn npm_output_errors() {
    assert_eq!(parse_npm_globals("  \n").unwrap(), Vec::<String>::new());
    assert_eq!(parse_npm_globals(r#"{"name":"lib"}"#), Err(NpmParseError::MissingDependencies));
    assert_eq!(NpmParseError::MissingDependencies.message(), "缺少 dependencies 对象");
    assert!(matches!(parse_npm_globals("not json"), Err(NpmParseError::Json(_))));
    assert_eq!(
        parse_npm_globals(r#"{"dependencies":["a"]}"#),
        Err(NpmParseError::MissingDependencies)
    );
}

#[test]
fn plain_listings_are_trimmed() {
    assert_eq!(parse_nonempty_lines("  code  \n\n\r\nfd\r\n"), ["code", "fd"]);
    assert_eq!(strip_tap_prefix("private/tap/tool"), "tool");
    assert_eq!(strip_tap_prefix("wget"), "wget");
}

#[test]
fn lists_are_normalized() {
    let values = strings(&["  zoxide ", "bat", "", "bat", "   ", "Bat", "ábc", "abc"]);
    assert_eq!(normalize_list(&values), ["Bat", "abc", "bat", "zoxide", "ábc"]);
    assert_eq!(normalize_list(&Vec::new()), Vec::<String>::new());
}

#[test]
fn a_capture_becomes_a_published_inventory() {
    let inventory = MacosInventory::from_capture(
        "2026-02-02T00:00:00Z".into(),
        &strings(&["wget", "me/private/tool", "git"]),
        &strings(&["homebrew/cask/iterm2"]),
        "rtk v0.42.4 (git):\n    rtk\ncargo-audit v0.22.2:\n    cargo-audit\n",
        r#"{"dependencies":{"typescript":{"version":"7"}}}"#,
        "kimi-cli v1.49.0\n- kimi\n",
        &strings(&["b.ext", "a.ext"]),
        &Vec::new(),
        &strings(&["Cursor extensions 未采集：not found"]),
    );
    assert_eq!(inventory.schema_version, 1);
    assert_eq!(inventory.homebrew_formulae, ["git", "tool", "wget"]);
    assert_eq!(inventory.homebrew_casks, ["iterm2"]);
    assert!(inventory.homebrew_taps.is_empty());
    assert_eq!(inventory.cargo_packages, ["cargo-audit", "rtk"]);
    assert_eq!(inventory.npm_globals, ["typescript"]);
    assert_eq!(inventory.uv_tools, ["kimi-cli"]);
    assert_eq!(inventory.vscode_extensions, ["a.ext", "b.ext"]);
    assert_eq!(
        inventory.warnings,
        [
            "Cursor extensions 未采集：not found",
            "Homebrew tap 名称/前缀未写入公开快照；仅保留 formula/cask 名称",
        ]
    );
    assert_eq!(inventory.validate(), Ok(()));
}

#[test]
fn unreadable_npm_output_leaves_a_warning() {
    let inventory = MacosInventory::from_capture(
        "t".into(),
        &strings(&["git"]),
        &Vec::new(),
        "",
        r#"{"name":"x"}"#,
        "",
        &Vec::new(),
        &Vec::new(),
        &Vec::new(),
    );
    assert!(inventory.npm_globals.is_empty());
    assert!(inventory
        .warnings
        .contains(&"NPM globals 解析失败：缺少 dependencies 对象".to_string()));
}

#[test]
fn listings_report_their_failures() {
    let mut warnings = Vec::new();
    assert_eq!(optional_output("uv tools", &exited(0, "ruff v1\n"), &mut warnings), "ruff v1\n");
    assert!(warnings.is_empty());
    assert_eq!(optional_output("uv tools", &exited(2, "boom\nlast words\n"), &mut warnings), "");
    assert_eq!(warnings, ["uv tools 未采集：last words"]);
    assert_eq!(required_output("Homebrew formulae", &exited(0, "git\n")), Ok("git\n".to_string()));
    assert_eq!(
        required_output("Homebrew formulae", &exited(1, "")),
        Err("Homebrew formulae 采集失败：无诊断输出".to_string())
    );
}

#[test]
fn git_steps_are_judged_by_their_exit() {
    assert_eq!(git(&["pull", "--ff-only"], &exited(0, "Already up to date.\n")), Ok("Already up to date.\n".to_string()));
    assert_eq!(
        git(&["pull", "--ff-only"], &exited(128, "fatal: not possible to fast-forward\n")),
        Err("git pull --ff-only 失败：fatal: not possible to fast-forward".to_string())
    );
    let timed_out = CommandResult { state: CommandState::TimedOut, exit_code: None, output: "".into() };
    assert_eq!(git(&["push"], &timed_out), Err("git push 失败：无诊断输出".to_string()));
}

#[test]
fn sync_checks_read_git_output() {
    assert!(work_tree_clean(" \n"));
    assert!(!work_tree_clean(" M src/assets/macos_inventory.json\n"));
    assert!(level_with_upstream("0\t0\n"));
    assert!(level_with_upstream("  0   0  "));
    assert!(!level_with_upstream("1\t0\n"));
    assert!(!level_with_upstream("0\t0\t0"));
    assert!(!level_with_upstream("00"));
}

#[test]
fn failed_editor_listings_keep_the_published_extensions() {
    let previous = published_inventory();
    let mut current = published_inventory();
    current.vscode_extensions.clear();
    current.cursor_extensions.clear();
    current.warnings.push("VS Code extensions 未采集：code not found".into());
    restore_uncaptured_extensions(&mut current, &previous);
    assert_eq!(current.vscode_extensions, previous.vscode_extensions);
    assert!(current.cursor_extensions.is_empty());
}

#[test]
fn capture_failures_block_publication() {
    let warnings = strings(&[
        "VS Code extensions 未采集：x",
        "Cargo tools 未采集：cargo missing",
        "NPM globals 解析失败：bad",
        "Homebrew tap 名称/前缀未写入公开快照；仅保留 formula/cask 名称",
    ]);
    assert_eq!(
        capture_failures(&warnings),
        ["Cargo tools 未采集：cargo missing", "NPM globals 解析失败：bad"]
    );
    let mut inventory = published_inventory();
    inventory.warnings = warnings;
    let report = ParityReport::default();
    assert_eq!(
        publication_refusal(&inventory, &report),
        Some("采集不完整，未发布清单：Cargo tools 未采集：cargo missing；NPM globals 解析失败：bad".to_string())
    );
    let clean = published_inventory();
    let mut report = ParityReport::default();
    assert_eq!(publication_refusal(&clean, &report), None);
    report.unmapped = strings(&["Formula:a", "Cask:b"]);
    assert_eq!(
        publication_refusal(&clean, &report),
        Some("新工具尚未建立 Windows 映射，未发布清单：Formula:a；Cask:b".to_string())
    );
}

#[test]
fn parity_summary_counts_each_kind() {
    let report = ParityReport {
        automatic: 120,
        compatible: 14,
        mac_only: 9,
        manual: strings(&["x"]),
        unmapped: Vec::new(),
    };
    assert_eq!(
        parity_summary(&report),
        "Windows 对等：120 自动、14 内置/替代、9 Mac 专属、1 待手动、0 未映射"
    );
    assert_eq!(
        inventory_status("2025-01-02T03:04:05Z", &report),
        "源 Mac 清单 2025-01-02T03:04:05Z：144 项已分类，1 项需手动补齐。"
    );
    assert_eq!(join_strings(&strings(&["a", "b", "c"]), ", "), "a, b, c");
    assert_eq!(join_strings(&Vec::new(), ", "), "");
}

#[test]
fn startup_uses_the_first_valid_inventory() {
    let cached = published_inventory();
    let mut bundled = published_inventory();
    bundled.captured_at = "bundled".into();
    let chosen = startup_inventory(Ok(cached.clone()), Ok(bundled.clone()));
    assert_eq!(chosen.inventory, cached);
    assert_eq!(chosen.warning, None);
    assert_eq!(chosen.error, None);

    let mut broken = published_inventory();
    broken.schema_version = 2;
    let chosen = startup_inventory(Ok(broken.clone()), Ok(bundled.clone()));
    assert_eq!(chosen.inventory, bundled);
    assert_eq!(
        chosen.warning,
        Some("本机 Mac 清单缓存无效（Mac 清单版本无效或没有工具项目）；已退回内置清单，请联网更新".to_string())
    );
    assert_eq!(chosen.error, None);

    let chosen = startup_inventory(Err("缓存不可读".into()), Ok(broken.clone()));
    assert_eq!(chosen.inventory, broken);
    assert_eq!(chosen.warning, None);
    assert_eq!(
        chosen.error,
        Some("本机及内置 Mac 清单均无效：缓存不可读；Mac 清单版本无效或没有工具项目".to_string())
    );
}

#[test]
fn refreshed_inventory_is_reported_with_its_count_and_time() {
    let inventory = published_inventory();
    let count = inventory.item_count();
    assert_eq!(
        inventory_refreshed_message(&inventory),
        format!("Mac 清单已更新：{count} 项，采集于 {}", inventory.captured_at)
    );
}

#[test]
fn embedded_inventory_is_valid_and_private() {
    let inventory = published_inventory();
    inventory.validate().unwrap();
    assert_eq!(inventory.schema_version, 1);
    assert!(!inventory.captured_at.is_empty());
    assert!(!inventory.homebrew_formulae.is_empty());
    let text = format!("{inventory:?}");
    assert!(!text.contains("/Users/"));
    assert!(!text.contains("hostname"));
    assert!(inventory.homebrew_taps.is_empty());
}

#[test]
fn startup_without_any_readable_inventory_is_empty() {
    let chosen = startup_inventory(Err("缓存不可读".into()), Err("内置清单不可读".into()));
    assert_eq!(chosen.inventory, MacosInventory::default());
    assert_eq!(chosen.warning, None);
    assert_eq!(chosen.error, Some("本机及内置 Mac 清单均无效：缓存不可读；内置清单不可读".to_string()));
}

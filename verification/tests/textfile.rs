use ltsc_workspace::installer::package_is_listed;
use ltsc_workspace::platform::path_with_entry;
use ltsc_workspace::textfile::{ini_update, managed_block_update};

/// Applies an update the way the deployer writes files: a changed text
/// replaces the old one, `None` leaves it alone. Says whether it changed.
fn apply(content: &mut String, update: Option<String>) -> bool {
    match update {
        Some(updated) => {
            *content = updated;
            true
        }
        None => false,
    }
}

#[test]
fn managed_block_preserves_unmanaged_content_and_updates_in_place() {
    let mut content = String::from("user setting\n");

    let update = managed_block_update(&content, "# start", "# end", "first");
    assert!(apply(&mut content, update));
    let update = managed_block_update(&content, "# start", "# end", "second");
    assert!(apply(&mut content, update));
    let update = managed_block_update(&content, "# start", "# end", "second");
    assert!(!apply(&mut content, update));

    assert!(content.starts_with("user setting"));
    assert!(!content.contains("first"));
    assert_eq!(content.matches("# start").count(), 1);
    assert!(content.contains("second"));
}

#[test]
fn managed_block_exact_texts() {
    assert_eq!(
        managed_block_update("", "# s", "# e", "\r\nbody\n\n"),
        Some("# s\nbody\n# e\n".to_string())
    );
    assert_eq!(
        managed_block_update("keep  \n\n", "# s", "# e", "x"),
        Some("keep\n\n# s\nx\n# e\n".to_string())
    );
    assert_eq!(
        managed_block_update("a\n# s\nold\n# e\nb\n", "# s", "# e", "new"),
        Some("a\n# s\nnew\n# e\nb\n".to_string())
    );
    assert_eq!(managed_block_update("a\n# s\nnew\n# e\nb\n", "# s", "# e", "new"), None);
    // An end marker before the start marker does not delimit a block.
    assert_eq!(
        managed_block_update("# e\n# s\n", "# s", "# e", "x"),
        Some("# e\n# s\n\n# s\nx\n# e\n".to_string())
    );
}

#[test]
fn ini_upsert_reuses_existing_section() {
    let mut content = String::from("[global]\ntimeout = 30\n\n[install]\nquiet = true\n");
    let update = ini_update(
        &content,
        "global",
        &[("index-url", "https://example.test/simple"), ("timeout", "60")],
    );
    assert!(apply(&mut content, update));
    assert_eq!(content.matches("[global]").count(), 1);
    assert!(content.contains("timeout = 60"));
    assert!(content.contains("[install]\nquiet = true"));
}

#[test]
fn ini_exact_texts() {
    assert_eq!(
        ini_update("[global]\ntimeout = 30\n\n[install]\nquiet = true\n", "global", &[("index-url", "u"), ("timeout", "60")]),
        Some("[global]\ntimeout = 60\n\nindex-url = u\n[install]\nquiet = true\n".to_string())
    );
    assert_eq!(ini_update("", "global", &[("a", "1")]), Some("[global]\na = 1\n".to_string()));
    assert_eq!(
        ini_update("x = 1\n", "Global", &[("a", "1")]),
        Some("x = 1\n\n[Global]\na = 1\n".to_string())
    );
    assert_eq!(ini_update("[GLOBAL]\nA=1\n", "global", &[("a", "1")]), Some("[GLOBAL]\na = 1\n".to_string()));
    assert_eq!(ini_update("[global]\na = 1\n", "global", &[("a", "1")]), None);
    assert_eq!(ini_update("", "s", &[]), Some("[s]\n".to_string()));
}

#[test]
fn ini_update_of_its_own_output_changes_nothing() {
    let settings = [("index-url", "https://mirror.example/simple"), ("timeout", "60"), ("trusted-host", "mirror.example")];
    for existing in ["", "[global]\ntimeout = 30\n\n[install]\nquiet = true\n", "plain text\n[other]\nk = v"] {
        let first = ini_update(existing, "global", &settings).expect("the settings are new");
        assert_eq!(ini_update(&first, "global", &settings), None);
    }
    let same_key = [("proxy", "a"), ("PROXY", "b")];
    let first = ini_update("[global]\nProxy = old\n", "global", &same_key).expect("the value changes");
    assert_eq!(first, "[global]\nPROXY = b\n");
    assert_eq!(ini_update(&first, "global", &same_key), None);
    let carriage_return = [("k", "x\r")];
    let first = ini_update("[s]\nk = old\n", "s", &carriage_return).expect("the value changes");
    assert_eq!(first, "[s]\nk = x\r\n");
    assert_eq!(ini_update(&first, "s", &carriage_return), None);
}

#[test]
fn package_list_match_is_exact() {
    let output = "git-filter-repo 2.47\ngit 2.53\nkimi-cli v1.49";
    assert!(package_is_listed(output, "git"));
    assert!(package_is_listed(output, "kimi-cli"));
    assert!(!package_is_listed(output, "kimi"));
}

#[test]
fn package_list_match_ignores_case_and_indent() {
    assert!(package_is_listed("   Ripgrep 14.1\n", "ripgrep"));
    assert!(!package_is_listed("ripgrep", "ripgrep"));
    assert!(!package_is_listed("", "git"));
}

#[test]
fn user_path_gets_the_tool_directory_once() {
    assert_eq!(
        path_with_entry(r"C:\Windows;C:\Tools", r"C:\Users\me\.cargo\bin"),
        Some(r"C:\Users\me\.cargo\bin;C:\Windows;C:\Tools".to_string())
    );
    assert_eq!(path_with_entry(r"C:\Windows; c:\users\ME\.cargo\bin ", r"C:\Users\me\.cargo\bin"), None);
    assert_eq!(path_with_entry("  ", r"C:\bin"), Some(r"C:\bin".to_string()));
}

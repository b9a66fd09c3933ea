use ltsc_workspace::platform::RegistryHive;
use ltsc_workspace::rollback::{
    is_journal_file_name, journal_files_in_order, nothing_to_restore, same_change_exec, undo_sequence, JournalError,
    RollbackAction, RollbackJournal, JOURNAL_SCHEMA_VERSION,
};

fn registry(path: &str, name: &str, previous: Option<u32>) -> RollbackAction {
    RollbackAction::RegistryDword {
        hive: RegistryHive::CurrentUser,
        path: path.into(),
        name: name.into(),
        previous,
    }
}

#[test]
fn journal_keeps_only_the_first_value_for_each_registry_key() {
    let mut journal = RollbackJournal::begin("test".into(), "test");
    let first = registry("Software\\Test", "Value", None);
    let later = registry("software\\test", "value", Some(99));
    assert!(journal.record(first.clone()));
    assert!(!journal.record(later));
    journal.finish();

    assert!(journal.completed);
    assert_eq!(journal.actions, [first]);
    journal.mark_restored();
    assert!(journal.restored);
}

#[test]
fn a_new_journal_is_empty_and_open() {
    let journal = RollbackJournal::begin("2026-01-01T00:00:00Z".into(), "2.2.0");
    assert_eq!(journal.schema_version, JOURNAL_SCHEMA_VERSION);
    assert_eq!(journal.profile_version, "2.2.0");
    assert!(!journal.completed && !journal.restored && journal.actions.is_empty());
    assert!(!journal.is_restorable());
    assert_eq!(journal.check_schema(), Ok(()));
}

#[test]
fn commands_are_recorded_once_and_keys_differ_by_hive() {
    let mut journal = RollbackJournal::begin("t".into(), "p");
    let command = RollbackAction::Command {
        label: "power plan".into(),
        program: "powercfg.exe".into(),
        args: vec!["/setactive".into(), "381b4222".into()],
    };
    assert!(journal.record(command.clone()));
    assert!(!journal.record(command.clone()));
    let other = RollbackAction::Command {
        label: "power plan".into(),
        program: "powercfg.exe".into(),
        args: vec!["/setactive".into(), "8c5e7fda".into()],
    };
    assert!(journal.record(other));
    assert!(journal.record(registry("Software\\A", "X", Some(1))));
    assert!(journal.record(RollbackAction::RegistryDword {
        hive: RegistryHive::LocalMachine,
        path: "Software\\A".into(),
        name: "X".into(),
        previous: Some(1),
    }));
    assert_eq!(journal.actions.len(), 4);
    assert!(journal.is_restorable());
    assert!(!same_change_exec(&command, &registry("a", "b", None)));
}

#[test]
fn unknown_schema_is_refused() {
    let mut journal = RollbackJournal::begin("t".into(), "p");
    journal.schema_version = 2;
    let error = journal.check_schema().unwrap_err();
    assert_eq!(error, JournalError::UnsupportedSchema(2));
    assert_eq!(error.message(), "不支持的回滚账本版本：2");
    assert_eq!(nothing_to_restore(), "没有包含可恢复变更的回滚账本");
}

#[test]
fn journal_files_are_listed_oldest_first() {
    let names: Vec<String> = vec![
        "rollback-20260102-000000-000.json".into(),
        "notes.txt".into(),
        "rollback-20260101-120000-500.json".into(),
        "rollback-20260103-000000-000.json.tmp".into(),
        "rollback-.json".into(),
    ];
    assert_eq!(
        journal_files_in_order(&names),
        [
            "rollback-.json",
            "rollback-20260101-120000-500.json",
            "rollback-20260102-000000-000.json",
        ]
    );
    assert!(is_journal_file_name("rollback-x.json"));
    assert!(!is_journal_file_name("rollback.json"));
}

#[test]
fn changes_are_undone_newest_first() {
    let actions = vec![registry("A", "1", None), registry("B", "2", Some(2)), registry("C", "3", Some(3))];
    let undone = undo_sequence(actions.clone());
    assert_eq!(undone, [actions[2].clone(), actions[1].clone(), actions[0].clone()]);
    assert!(undo_sequence(Vec::new()).is_empty());
}

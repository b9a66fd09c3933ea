//! The rollback journal: the changes a setup run made, in order, so that a
//! later run can undo them.
use vstd::prelude::*;
use crate::platform::RegistryHive;
use crate::capture::{insert_sorted, strictly_ascending};
use crate::text::{chars_of, same_strings, decimal, decimal_string, eq_ci, eq_ignore_ascii_case, occurs_at, occurs_at_chars};

verus! {

/// The one journal layout this library reads and writes.
pub const JOURNAL_SCHEMA_VERSION: u32 = 1;

/// One change that a rollback can undo.
#[derive(Debug, Clone, PartialEq, Eq)]
pub enum RollbackAction {
    /// A registry DWORD that was overwritten; `previous` is the value it had
    /// (`None`: it did not exist).
    RegistryDword { hive: RegistryHive, path: String, name: String, previous: Option<u32> },
    /// A command that undoes a change.
    Command { label: String, program: String, args: Vec<String> },
}

/// The journal of one setup run.
#[derive(Debug, Clone)]
pub struct RollbackJournal {
    pub schema_version: u32,
    pub created_at: String,
    pub profile_version: String,
    pub completed: bool,
    pub restored: bool,
    pub actions: Vec<RollbackAction>,
}

/// Why a stored journal cannot be used.
#[derive(Debug, Clone, Copy, PartialEq, Eq, Structural)]
pub enum JournalError {
    UnsupportedSchema(u32),
}

/// Two actions undo the same change: registry values under the same hive whose
/// key path and value name agree up to ASCII case, or two identical commands.
pub open spec fn same_change(a: RollbackAction, b: RollbackAction) -> bool {
    match (a, b) {
        (
            RollbackAction::RegistryDword { hive: h1, path: p1, name: n1, .. },
            RollbackAction::RegistryDword { hive: h2, path: p2, name: n2, .. },
        ) => h1 == h2 && eq_ci(p1@, p2@) && eq_ci(n1@, n2@),
        (
            RollbackAction::Command { label: l1, program: g1, args: a1 },
            RollbackAction::Command { label: l2, program: g2, args: a2 },
        ) => l1@ == l2@ && g1@ == g2@ && a1.deep_view() == a2.deep_view(),
        _ => false,
    }
}

/// Some action of the journal already undoes the change that `action` undoes.
pub open spec fn already_recorded(actions: Seq<RollbackAction>, action: RollbackAction) -> bool {
    exists|i: int| 0 <= i < actions.len() && same_change(#[trigger] actions[i], action)
}

/// No action of the journal undoes a change that an earlier one already undoes.
pub open spec fn no_repeated_change(actions: Seq<RollbackAction>) -> bool {
    forall|i: int, j: int| 0 <= i < j < actions.len() ==> !same_change(#[trigger] actions[i], #[trigger] actions[j])
}

/// The name of a journal file: `rollback-<stamp>.json`.
pub open spec fn journal_file_name(name: Seq<char>) -> bool {
    &&& occurs_at(name, "rollback-"@, 0)
    &&& name.len() >= ".json"@.len()
    &&& occurs_at(name, ".json"@, name.len() - ".json"@.len())
}

pub open spec fn journal_error_message(e: JournalError) -> Seq<char> {
    match e {
        JournalError::UnsupportedSchema(v) => "不支持的回滚账本版本："@ + decimal(v as nat),
    }
}

/// Tests whether two actions undo the same change.
pub fn same_change_exec(a: &RollbackAction, b: &RollbackAction) -> (r: bool)
    ensures
        r == same_change(*a, *b),
{
    match (a, b) {
        (
            RollbackAction::RegistryDword { hive: h1, path: p1, name: n1, .. },
            RollbackAction::RegistryDword { hive: h2, path: p2, name: n2, .. },
        ) => *h1 == *h2 && eq_ignore_ascii_case(p1.as_str(), p2.as_str())
            && eq_ignore_ascii_case(n1.as_str(), n2.as_str()),
        (
            RollbackAction::Command { label: l1, program: g1, args: a1 },
            RollbackAction::Command { label: l2, program: g2, args: a2 },
        ) => *l1 == *l2 && *g1 == *g2 && same_strings(a1, a2),
        _ => false,
    }
}

/// Tests whether a file name is that of a journal: `rollback-<stamp>.json`.
pub fn is_journal_file_name(name: &str) -> (r: bool)
    ensures
        r == journal_file_name(name@),
{
    let cs = chars_of(name);
    let prefix = chars_of("rollback-");
    let suffix = chars_of(".json");
    proof {
        reveal_strlit("rollback-");
        reveal_strlit(".json");
    }
    if cs.len() < suffix.len() {
        return false;
    }
    occurs_at_chars(cs.as_slice(), prefix.as_slice(), 0)
        && occurs_at_chars(cs.as_slice(), suffix.as_slice(), cs.len() - suffix.len())
}

/// The journal files among the names in a directory, oldest first: a
/// journal's name carries its creation time, so the order of the names is
/// the order of the runs, and the last one is the newest.
pub fn journal_files_in_order(names: &Vec<String>) -> (r: Vec<String>)
    ensures
        strictly_ascending(r.deep_view()),
        forall|x: Seq<char>| r.deep_view().contains(x) <==> (names.deep_view().contains(x) && journal_file_name(x)),
{
    let mut out: Vec<String> = Vec::new();
    let ghost all = names.deep_view();
    let mut i: usize = 0;
    while i < names.len()
        invariant
            i <= names.len(),
            all == names.deep_view(),
            strictly_ascending(out.deep_view()),
            forall|x: Seq<char>| #[trigger] out.deep_view().contains(x) <==> (all.take(i as int).contains(x) && journal_file_name(x)),
        decreases names.len() - i,
    {
        let ghost before = out.deep_view();
        assert(forall|x: Seq<char>| #[trigger] before.contains(x) <==> (all.take(i as int).contains(x) && journal_file_name(x)));
        let journal = is_journal_file_name(names[i].as_str());
        if journal {
            insert_sorted(&mut out, names[i].clone());
        }
        proof {
            assert(all[i as int] == names@[i as int]@);
            assert(journal == journal_file_name(all[i as int]));
            if !journal {
                assert(out.deep_view() == before);
            }
            assert(all.take(i + 1) =~= all.take(i as int).push(all[i as int]));
            assert forall|x: Seq<char>| out.deep_view().contains(x) <==> (all.take(i + 1).contains(x) && journal_file_name(x)) by {
                assert(before.contains(x) <==> (all.take(i as int).contains(x) && journal_file_name(x)));
                assert(out.deep_view().contains(x) <==> (before.contains(x) || (journal && x == all[i as int])));
                if all.take(i + 1).contains(x) {
                    let k = choose|k: int| 0 <= k < i + 1 && #[trigger] all.take(i + 1)[k] == x;
                    if k < i {
                        assert(all.take(i as int)[k] == x);
                    } else {
                        assert(all.take(i + 1)[k] == all[i as int]);
                    }
                }
                if x == all[i as int] && journal {
                    assert(all.take(i + 1)[i as int] == x);
                }
                if all.take(i as int).contains(x) {
                    let k = choose|k: int| 0 <= k < i && #[trigger] all.take(i as int)[k] == x;
                    assert(all.take(i + 1)[k] == x);
                }
            }
        }
        i = i + 1;
    }
    proof {
        assert(all.take(names.len() as int) == all);
    }
    out
}

/// The order in which a rollback undoes the recorded changes: newest first,
/// the reverse of the order in which they were made.
pub fn undo_sequence(actions: Vec<RollbackAction>) -> (r: Vec<RollbackAction>)
    ensures
        r@ == actions@.reverse(),
{
    let ghost initial = actions@;
    let mut rest = actions;
    let mut out: Vec<RollbackAction> = Vec::new();
    while rest.len() > 0
        invariant
            rest@ == initial.take(rest@.len() as int),
            out@ == initial.skip(rest@.len() as int).reverse(),
            rest@.len() <= initial.len(),
        decreases rest.len(),
    {
        let ghost n = rest@.len() as int;
        let last = rest.pop().unwrap();
        proof {
            assert(last == initial[n - 1]);
            assert(initial.skip(n - 1) =~= seq![initial[n - 1]] + initial.skip(n));
            assert((seq![initial[n - 1]] + initial.skip(n)).reverse() =~= initial.skip(n).reverse().push(initial[n - 1]));
            assert(rest@ =~= initial.take(n - 1));
        }
        out.push(last);
    }
    proof {
        assert(initial.skip(0) =~= initial);
    }
    out
}

/// What a rollback reports when no journal holds changes to undo.
pub open spec fn nothing_to_restore_message() -> Seq<char> {
    "没有包含可恢复变更的回滚账本"@
}

/// What a rollback reports when no journal holds changes to undo.
pub fn nothing_to_restore() -> (r: String)
    ensures
        r@ == nothing_to_restore_message(),
{
    "没有包含可恢复变更的回滚账本".to_owned()
}

impl JournalError {
    pub fn message(&self) -> (r: String)
        ensures
            r@ == journal_error_message(*self),
    {
        match self {
            JournalError::UnsupportedSchema(v) => {
                let mut out = "不支持的回滚账本版本：".to_owned();
                let digits = decimal_string(*v as u64);
                out.append(digits.as_str());
                out
            },
        }
    }
}

impl RollbackJournal {
    /// A fresh journal for a run of the given profile: nothing recorded yet,
    /// neither completed nor restored.
    pub fn begin(created_at: String, profile_version: &str) -> (r: RollbackJournal)
        ensures
            r.schema_version == JOURNAL_SCHEMA_VERSION,
            r.created_at == created_at,
            r.profile_version@ == profile_version@,
            !r.completed,
            !r.restored,
            r.actions@.len() == 0,
    {
        RollbackJournal {
            schema_version: JOURNAL_SCHEMA_VERSION,
            created_at,
            profile_version: profile_version.to_owned(),
            completed: false,
            restored: false,
            actions: Vec::new(),
        }
    }

    /// Appends `action` unless the journal already undoes the same change, and
    /// says whether it did. So for each registry value the journal keeps the
    /// value it had before the first change, which is what a rollback restores.
    pub fn record(&mut self, action: RollbackAction) -> (r: bool)
        ensures
            r == !already_recorded(old(self).actions@, action),
            r ==> final(self).actions@ == old(self).actions@.push(action),
            !r ==> final(self).actions@ == old(self).actions@,
            no_repeated_change(old(self).actions@) ==> no_repeated_change(final(self).actions@),
            final(self).schema_version == old(self).schema_version,
            final(self).created_at == old(self).created_at,
            final(self).profile_version == old(self).profile_version,
            final(self).completed == old(self).completed,
            final(self).restored == old(self).restored,
    {
        let mut i: usize = 0;
        while i < self.actions.len()
            invariant
                i <= self.actions.len(),
                forall|j: int| 0 <= j < i ==> !same_change(#[trigger] self.actions@[j], action),
            decreases self.actions.len() - i,
        {
            if same_change_exec(&self.actions[i], &action) {
                return false;
            }
            i = i + 1;
        }
        proof {
            if no_repeated_change(self.actions@) {
                lemma_record_keeps_changes_distinct(self.actions@, action);
            }
        }
        self.actions.push(action);
        true
    }

    /// Marks the run as completed.
    pub fn finish(&mut self)
        ensures
            final(self).completed,
            final(self).restored == old(self).restored,
            final(self).actions@ == old(self).actions@,
            final(self).schema_version == old(self).schema_version,
            final(self).created_at == old(self).created_at,
            final(self).profile_version == old(self).profile_version,
    {
        self.completed = true;
    }

    /// Marks the journal as restored: its changes have been undone.
    pub fn mark_restored(&mut self)
        ensures
            final(self).restored,
            final(self).completed == old(self).completed,
            final(self).actions@ == old(self).actions@,
            final(self).schema_version == old(self).schema_version,
            final(self).created_at == old(self).created_at,
            final(self).profile_version == old(self).profile_version,
    {
        self.restored = true;
    }

    /// The journal still holds changes to undo.
    pub fn is_restorable(&self) -> (r: bool)
        ensures
            r == (!self.restored && self.actions@.len() > 0),
    {
        !self.restored && self.actions.len() > 0
    }

    /// A stored journal is usable only in the layout this library writes.
    pub fn check_schema(&self) -> (r: Result<(), JournalError>)
        ensures
            self.schema_version == JOURNAL_SCHEMA_VERSION <==> r is Ok,
            r matches Err(e) ==> e == JournalError::UnsupportedSchema(self.schema_version),
    {
        if self.schema_version == JOURNAL_SCHEMA_VERSION {
            Ok(())
        } else {
            Err(JournalError::UnsupportedSchema(self.schema_version))
        }
    }
}

/// Recording keeps a journal free of repeated changes: appending an action
/// that no recorded action already covers leaves no two actions that undo the
/// same change.
pub proof fn lemma_record_keeps_changes_distinct(actions: Seq<RollbackAction>, action: RollbackAction)
    requires
        no_repeated_change(actions),
        !already_recorded(actions, action),
    ensures
        no_repeated_change(actions.push(action)),
{
    let s = actions.push(action);
    assert forall|i: int, j: int| 0 <= i < j < s.len() implies !same_change(#[trigger] s[i], #[trigger] s[j]) by {
        if j == actions.len() {
            assert(s[i] == actions[i]);
        } else {
            assert(s[i] == actions[i] && s[j] == actions[j]);
        }
    }
}

/// Registry values are told apart by hive, key path and value name, the last
/// two up to ASCII case: a registry action is already covered by the journal
/// exactly when some recorded registry action agrees with it in all three.
/// So `record` appends an action whose value name differs from that of every
/// recorded action, and keeps the first value of one recorded before.
pub proof fn registry_changes_are_told_apart_by_value(
    actions: Seq<RollbackAction>,
    hive: RegistryHive,
    path: String,
    name: String,
    previous: Option<u32>,
)
    ensures
        already_recorded(actions, (RollbackAction::RegistryDword { hive, path, name, previous })) <==> exists|i: int|
            0 <= i < actions.len() && match #[trigger] actions[i] {
                RollbackAction::RegistryDword { hive: h, path: p, name: n, .. } => h == hive && eq_ci(p@, path@)
                    && eq_ci(n@, name@),
                _ => false,
            },
        (forall|i: int|
            0 <= i < actions.len() ==> match #[trigger] actions[i] {
                RollbackAction::RegistryDword { name: n, .. } => !eq_ci(n@, name@),
                _ => true,
            }) ==> !already_recorded(actions, (RollbackAction::RegistryDword { hive, path, name, previous })),
{
    let a = RollbackAction::RegistryDword { hive, path, name, previous };
    if already_recorded(actions, a) {
        let i = choose|i: int| 0 <= i < actions.len() && same_change(#[trigger] actions[i], a);
        assert(match actions[i] {
            RollbackAction::RegistryDword { hive: h, path: p, name: n, .. } => h == hive && eq_ci(p@, path@)
                && eq_ci(n@, name@),
            _ => false,
        });
    }
    if exists|i: int|
        0 <= i < actions.len() && match #[trigger] actions[i] {
            RollbackAction::RegistryDword { hive: h, path: p, name: n, .. } => h == hive && eq_ci(p@, path@)
                && eq_ci(n@, name@),
            _ => false,
        } {
        let i = choose|i: int|
            0 <= i < actions.len() && match #[trigger] actions[i] {
                RollbackAction::RegistryDword { hive: h, path: p, name: n, .. } => h == hive && eq_ci(p@, path@)
                    && eq_ci(n@, name@),
                _ => false,
            };
        assert(same_change(actions[i], a));
    }
}

} // verus!

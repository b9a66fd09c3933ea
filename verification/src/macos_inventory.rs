//! Publishing the source Mac's inventory: when a fresh capture counts as a
//! change, which capture problems stop a publication, and how the `git`
//! steps of a sync are judged.
use vstd::prelude::*;
use crate::config::ParityReport;
use crate::inventory::{strs, MacosInventory};
use crate::text::{
    chars_of, decimal, decimal_string, find, find_chars, is_blank, is_blank_str, is_ws, is_ws_char,
    occurs_at, occurs_at_chars, trim, trim_chars,
};
use crate::utils::{last_line_or_note, CommandResult, CommandState};

verus! {

/// Two inventories hold the same tools and warnings; the capture time alone may differ.
pub open spec fn same_content(a: MacosInventory, b: MacosInventory) -> bool {
    &&& a.schema_version == b.schema_version
    &&& strs(a.homebrew_formulae) == strs(b.homebrew_formulae)
    &&& strs(a.homebrew_casks) == strs(b.homebrew_casks)
    &&& strs(a.homebrew_taps) == strs(b.homebrew_taps)
    &&& strs(a.cargo_packages) == strs(b.cargo_packages)
    &&& strs(a.npm_globals) == strs(b.npm_globals)
    &&& strs(a.uv_tools) == strs(b.uv_tools)
    &&& strs(a.vscode_extensions) == strs(b.vscode_extensions)
    &&& strs(a.cursor_extensions) == strs(b.cursor_extensions)
    &&& strs(a.warnings) == strs(b.warnings)
}

/// A capture that differs from the previous inventory in nothing but its
/// capture time is no change, so a sync writes and commits nothing for it.
pub proof fn capture_time_alone_is_no_change(previous: MacosInventory, captured_at: String)
    ensures
        same_content((MacosInventory { captured_at, ..previous }), previous),
{
}

/// Two inventories count as the same exactly when they agree in everything
/// but the capture time: the schema version and every list, entry by entry.
/// So any difference in a list, such as one more cask, is a change that a
/// sync publishes.
pub proof fn only_the_capture_time_may_differ(a: MacosInventory, b: MacosInventory)
    ensures
        same_content(a, b) <==> {
            &&& a.schema_version == b.schema_version
            &&& a.homebrew_formulae@.len() == b.homebrew_formulae@.len()
            &&& a.homebrew_casks@.len() == b.homebrew_casks@.len()
            &&& a.homebrew_taps@.len() == b.homebrew_taps@.len()
            &&& a.cargo_packages@.len() == b.cargo_packages@.len()
            &&& a.npm_globals@.len() == b.npm_globals@.len()
            &&& a.uv_tools@.len() == b.uv_tools@.len()
            &&& a.vscode_extensions@.len() == b.vscode_extensions@.len()
            &&& a.cursor_extensions@.len() == b.cursor_extensions@.len()
            &&& a.warnings@.len() == b.warnings@.len()
            &&& forall|i: int| 0 <= i < a.homebrew_formulae@.len() ==> #[trigger] a.homebrew_formulae@[i]@ == b.homebrew_formulae@[i]@
            &&& forall|i: int| 0 <= i < a.homebrew_casks@.len() ==> #[trigger] a.homebrew_casks@[i]@ == b.homebrew_casks@[i]@
            &&& forall|i: int| 0 <= i < a.homebrew_taps@.len() ==> #[trigger] a.homebrew_taps@[i]@ == b.homebrew_taps@[i]@
            &&& forall|i: int| 0 <= i < a.cargo_packages@.len() ==> #[trigger] a.cargo_packages@[i]@ == b.cargo_packages@[i]@
            &&& forall|i: int| 0 <= i < a.npm_globals@.len() ==> #[trigger] a.npm_globals@[i]@ == b.npm_globals@[i]@
            &&& forall|i: int| 0 <= i < a.uv_tools@.len() ==> #[trigger] a.uv_tools@[i]@ == b.uv_tools@[i]@
            &&& forall|i: int| 0 <= i < a.vscode_extensions@.len() ==> #[trigger] a.vscode_extensions@[i]@ == b.vscode_extensions@[i]@
            &&& forall|i: int| 0 <= i < a.cursor_extensions@.len() ==> #[trigger] a.cursor_extensions@[i]@ == b.cursor_extensions@[i]@
            &&& forall|i: int| 0 <= i < a.warnings@.len() ==> #[trigger] a.warnings@[i]@ == b.warnings@[i]@
        },
{
    lemma_strs_equal(a.homebrew_formulae, b.homebrew_formulae);
    lemma_strs_equal(a.homebrew_casks, b.homebrew_casks);
    lemma_strs_equal(a.homebrew_taps, b.homebrew_taps);
    lemma_strs_equal(a.cargo_packages, b.cargo_packages);
    lemma_strs_equal(a.npm_globals, b.npm_globals);
    lemma_strs_equal(a.uv_tools, b.uv_tools);
    lemma_strs_equal(a.vscode_extensions, b.vscode_extensions);
    lemma_strs_equal(a.cursor_extensions, b.cursor_extensions);
    lemma_strs_equal(a.warnings, b.warnings);
}

/// Two lists of strings have the same texts exactly when they have the same
/// length and agree entry by entry.
proof fn lemma_strs_equal(x: Vec<String>, y: Vec<String>)
    ensures
        strs(x) == strs(y) <==> (x@.len() == y@.len() && forall|i: int|
            0 <= i < x@.len() ==> #[trigger] x@[i]@ == y@[i]@),
{
    assert(strs(x).len() == x@.len());
    assert(strs(y).len() == y@.len());
    assert forall|i: int| 0 <= i < x@.len() implies #[trigger] strs(x)[i] == x@[i]@ by {}
    assert forall|i: int| 0 <= i < y@.len() implies #[trigger] strs(y)[i] == y@[i]@ by {}
    if x@.len() == y@.len() && forall|i: int| 0 <= i < x@.len() ==> #[trigger] x@[i]@ == y@[i]@ {
        assert(strs(x) =~= strs(y));
    }
    if strs(x) == strs(y) {
        assert forall|i: int| 0 <= i < x@.len() implies #[trigger] x@[i]@ == y@[i]@ by {
            assert(strs(x)[i] == strs(y)[i]);
        }
    }
}

/// The texts joined with `sep` between each two.
pub open spec fn joined(parts: Seq<Seq<char>>, sep: Seq<char>) -> Seq<char>
    decreases parts.len(),
{
    if parts.len() == 0 {
        Seq::empty()
    } else if parts.len() == 1 {
        parts[0]
    } else {
        joined(parts.drop_last(), sep) + sep + parts.last()
    }
}

pub open spec fn str_views(args: Seq<&str>) -> Seq<Seq<char>> {
    args.map_values(|a: &str| a@)
}

/// What a failed `git` run is reported as.
pub open spec fn git_failure_message(args: Seq<Seq<char>>, output: Seq<char>) -> Seq<char> {
    "git "@ + joined(args, " "@) + " 失败："@ + last_line_or_note(output)
}

/// The warning a capture leaves when it could not list VS Code's extensions.
pub open spec fn vscode_gap() -> Seq<char> {
    "VS Code extensions 未采集"@
}

/// The warning a capture leaves when it could not list Cursor's extensions.
pub open spec fn cursor_gap() -> Seq<char> {
    "Cursor extensions 未采集"@
}

/// Some warning starts with `prefix`.
pub open spec fn warned(warnings: Seq<Seq<char>>, prefix: Seq<char>) -> bool {
    exists|i: int| 0 <= i < warnings.len() && occurs_at(#[trigger] warnings[i], prefix, 0)
}

/// A warning that says part of the capture is missing or unreadable, other
/// than the editor extension lists (which are taken over from the last
/// published inventory instead).
pub open spec fn capture_failure(w: Seq<char>) -> bool {
    &&& (find(w, "未采集"@) is Some || find(w, "解析失败"@) is Some)
    &&& !occurs_at(w, vscode_gap(), 0)
    &&& !occurs_at(w, cursor_gap(), 0)
}

/// The warnings that are capture failures, in order.
pub open spec fn capture_failures_of(ws: Seq<Seq<char>>) -> Seq<Seq<char>>
    decreases ws.len(),
{
    if ws.len() == 0 {
        Seq::empty()
    } else if capture_failure(ws.last()) {
        capture_failures_of(ws.drop_last()).push(ws.last())
    } else {
        capture_failures_of(ws.drop_last())
    }
}

/// Why a freshly captured inventory may not be published, if it may not.
pub open spec fn publication_refusal_of(warnings: Seq<Seq<char>>, unmapped: Seq<Seq<char>>) -> Option<Seq<char>> {
    let failures = capture_failures_of(warnings);
    if failures.len() > 0 {
        Some("采集不完整，未发布清单："@ + joined(failures, "；"@))
    } else if unmapped.len() > 0 {
        Some("新工具尚未建立 Windows 映射，未发布清单："@ + joined(unmapped, "；"@))
    } else {
        None
    }
}

/// The one-line summary of a parity report.
pub open spec fn parity_summary_of(m: crate::config::ReportModel) -> Seq<char> {
    "Windows 对等："@ + decimal(m.automatic) + " 自动、"@ + decimal(m.compatible) + " 内置/替代、"@
        + decimal(m.mac_only) + " Mac 专属、"@ + decimal(m.manual.len()) + " 待手动、"@
        + decimal(m.unmapped.len()) + " 未映射"@
}

/// The output of `git rev-list --left-right --count` says that neither side
/// is ahead: its white-space separated words are exactly `0` and `0`.
pub open spec fn in_step(output: Seq<char>) -> bool {
    let t = trim(output);
    &&& t.len() >= 3
    &&& t[0] == '0'
    &&& t.last() == '0'
    &&& forall|i: int| 1 <= i < t.len() - 1 ==> is_ws(#[trigger] t[i])
}

/// Tests whether two inventories hold the same tools and warnings, whatever
/// their capture times; a sync that finds no other change writes nothing.
pub fn same_except_capture_time(current: &MacosInventory, previous: &MacosInventory) -> (r: bool)
    ensures
        r == same_content(*current, *previous),
{
    current.schema_version == previous.schema_version
        && crate::text::same_strings(&current.homebrew_formulae, &previous.homebrew_formulae)
        && crate::text::same_strings(&current.homebrew_casks, &previous.homebrew_casks)
        && crate::text::same_strings(&current.homebrew_taps, &previous.homebrew_taps)
        && crate::text::same_strings(&current.cargo_packages, &previous.cargo_packages)
        && crate::text::same_strings(&current.npm_globals, &previous.npm_globals)
        && crate::text::same_strings(&current.uv_tools, &previous.uv_tools)
        && crate::text::same_strings(&current.vscode_extensions, &previous.vscode_extensions)
        && crate::text::same_strings(&current.cursor_extensions, &previous.cursor_extensions)
        && crate::text::same_strings(&current.warnings, &previous.warnings)
}

/// The texts joined with `sep` between each two.
pub fn join_strings(parts: &Vec<String>, sep: &str) -> (r: String)
    ensures
        r@ == joined(parts.deep_view(), sep@),
{
    let mut out = String::new();
    let mut i: usize = 0;
    while i < parts.len()
        invariant
            i <= parts.len(),
            out@ == joined(parts.deep_view().take(i as int), sep@),
        decreases parts.len() - i,
    {
        proof {
            assert(parts.deep_view().take(i + 1).drop_last() == parts.deep_view().take(i as int));
            if i == 0 {
                assert(parts.deep_view().take(1)[0] == parts@[0]@);
            }
        }
        if i > 0 {
            out.append(sep);
        }
        out.append(parts[i].as_str());
        i = i + 1;
    }
    proof {
        assert(parts.deep_view().take(parts.len() as int) == parts.deep_view());
    }
    out
}

/// What a finished `git` run with `args` gives back: its output when it
/// exited with code 0, else the failure message `git <args> 失败：<last line>`.
pub fn git(args: &[&str], result: &CommandResult) -> (r: Result<String, String>)
    ensures
        r is Ok <==> (result.state == CommandState::Exited && result.exit_code == Some(0i32)),
        r matches Ok(out) ==> out@ == result.output@,
        r matches Err(m) ==> m@ == git_failure_message(str_views(args@), result.output@),
{
    if result.succeeded() {
        return Ok(result.output.clone());
    }
    let mut message = "git ".to_owned();
    let mut i: usize = 0;
    let ghost views = str_views(args@);
    while i < args.len()
        invariant
            i <= args.len(),
            views == str_views(args@),
            message@ == "git "@ + joined(views.take(i as int), " "@),
        decreases args.len() - i,
    {
        proof {
            assert(views.take(i + 1).drop_last() == views.take(i as int));
            if i == 0 {
                assert(views.take(1)[0] == args@[0]@);
            }
        }
        if i > 0 {
            message.append(" ");
        }
        message.append(args[i]);
        proof {
            assert(message@ == "git "@ + joined(views.take(i + 1), " "@));
        }
        i = i + 1;
    }
    proof {
        assert(views.take(args.len() as int) == views);
    }
    message.append(" 失败：");
    let diagnostic = result.diagnostic();
    message.append(diagnostic.as_str());
    Err(message)
}

fn starts_with(s: &str, prefix: &str) -> (r: bool)
    ensures
        r == occurs_at(s@, prefix@, 0),
{
    let cs = chars_of(s);
    let ps = chars_of(prefix);
    occurs_at_chars(cs.as_slice(), ps.as_slice(), 0)
}

fn contains(s: &str, needle: &str) -> (r: bool)
    ensures
        r == (find(s@, needle@) is Some),
{
    let cs = chars_of(s);
    let ns = chars_of(needle);
    find_chars(cs.as_slice(), ns.as_slice()).is_some()
}

fn any_starts_with(warnings: &Vec<String>, prefix: &str) -> (r: bool)
    ensures
        r == warned(strs(*warnings), prefix@),
{
    let mut i: usize = 0;
    while i < warnings.len()
        invariant
            i <= warnings.len(),
            forall|j: int| 0 <= j < i ==> !occurs_at(#[trigger] strs(*warnings)[j], prefix@, 0),
        decreases warnings.len() - i,
    {
        if starts_with(warnings[i].as_str(), prefix) {
            assert(occurs_at(strs(*warnings)[i as int], prefix@, 0));
            return true;
        }
        i = i + 1;
    }
    false
}

/// Takes the editor extension lists that the capture could not read over
/// from the last published inventory, so that a failed listing does not
/// erase them.
pub fn restore_uncaptured_extensions(current: &mut MacosInventory, previous: &MacosInventory)
    ensures
        strs(final(current).vscode_extensions) == if warned(strs(old(current).warnings), vscode_gap()) {
            strs(previous.vscode_extensions)
        } else {
            strs(old(current).vscode_extensions)
        },
        strs(final(current).cursor_extensions) == if warned(strs(old(current).warnings), cursor_gap()) {
            strs(previous.cursor_extensions)
        } else {
            strs(old(current).cursor_extensions)
        },
        final(current).schema_version == old(current).schema_version,
        final(current).captured_at == old(current).captured_at,
        final(current).homebrew_formulae == old(current).homebrew_formulae,
        final(current).homebrew_casks == old(current).homebrew_casks,
        final(current).homebrew_taps == old(current).homebrew_taps,
        final(current).cargo_packages == old(current).cargo_packages,
        final(current).npm_globals == old(current).npm_globals,
        final(current).uv_tools == old(current).uv_tools,
        final(current).warnings == old(current).warnings,
{
    proof {
        reveal_strlit("VS Code extensions 未采集");
        reveal_strlit("Cursor extensions 未采集");
    }
    if any_starts_with(&current.warnings, "VS Code extensions 未采集") {
        let copy = copy_strings(&previous.vscode_extensions);
        current.vscode_extensions = copy;
    }
    if any_starts_with(&current.warnings, "Cursor extensions 未采集") {
        let copy = copy_strings(&previous.cursor_extensions);
        current.cursor_extensions = copy;
    }
}

fn copy_strings(v: &Vec<String>) -> (r: Vec<String>)
    ensures
        strs(r) == strs(*v),
{
    let mut out: Vec<String> = Vec::new();
    let mut i: usize = 0;
    while i < v.len()
        invariant
            i <= v.len(),
            out@.len() == i,
            forall|j: int| 0 <= j < i ==> #[trigger] out@[j]@ == v@[j]@,
        decreases v.len() - i,
    {
        out.push(v[i].clone());
        i = i + 1;
    }
    assert(strs(out) =~= strs(*v));
    out
}

fn is_capture_failure(w: &str) -> (r: bool)
    ensures
        r == capture_failure(w@),
{
    proof {
        reveal_strlit("VS Code extensions 未采集");
        reveal_strlit("Cursor extensions 未采集");
    }
    (contains(w, "未采集") || contains(w, "解析失败")) && !starts_with(w, "VS Code extensions 未采集")
        && !starts_with(w, "Cursor extensions 未采集")
}

/// The warnings that say part of the capture is missing or unreadable, in
/// order; the editor extension lists do not count.
pub fn capture_failures(warnings: &Vec<String>) -> (r: Vec<String>)
    ensures
        strs(r) == capture_failures_of(strs(*warnings)),
{
    let mut out: Vec<String> = Vec::new();
    let mut i: usize = 0;
    while i < warnings.len()
        invariant
            i <= warnings.len(),
            strs(out) == capture_failures_of(strs(*warnings).take(i as int)),
        decreases warnings.len() - i,
    {
        proof {
            assert(strs(*warnings).take(i + 1).drop_last() == strs(*warnings).take(i as int));
            assert(strs(*warnings).take(i + 1).last() == warnings@[i as int]@);
        }
        if is_capture_failure(warnings[i].as_str()) {
            out.push(warnings[i].clone());
            assert(strs(out) =~= capture_failures_of(strs(*warnings).take(i as int)).push(warnings@[i as int]@));
        }
        i = i + 1;
    }
    proof {
        assert(strs(*warnings).take(warnings.len() as int) == strs(*warnings));
    }
    out
}

/// Why the fresh inventory may not be published, if it may not: some part of
/// the capture failed, or some tool has no Windows mapping yet.
pub fn publication_refusal(inventory: &MacosInventory, report: &ParityReport) -> (r: Option<String>)
    ensures
        match r {
            Some(m) => publication_refusal_of(strs(inventory.warnings), report@.unmapped) == Some(m@),
            None => publication_refusal_of(strs(inventory.warnings), report@.unmapped) is None,
        },
{
    let failures = capture_failures(&inventory.warnings);
    if failures.len() > 0 {
        let mut message = "采集不完整，未发布清单：".to_owned();
        let list = join_strings(&failures, "；");
        message.append(list.as_str());
        Some(message)
    } else if report.unmapped.len() > 0 {
        let mut message = "新工具尚未建立 Windows 映射，未发布清单：".to_owned();
        let list = join_strings(&report.unmapped, "；");
        message.append(list.as_str());
        Some(message)
    } else {
        None
    }
}

/// The one-line summary of a parity report.
pub fn parity_summary(report: &ParityReport) -> (r: String)
    ensures
        r@ == parity_summary_of(report@),
{
    let mut out = "Windows 对等：".to_owned();
    out.append(decimal_string(report.automatic as u64).as_str());
    out.append(" 自动、");
    out.append(decimal_string(report.compatible as u64).as_str());
    out.append(" 内置/替代、");
    out.append(decimal_string(report.mac_only as u64).as_str());
    out.append(" Mac 专属、");
    out.append(decimal_string(report.manual.len() as u64).as_str());
    out.append(" 待手动、");
    out.append(decimal_string(report.unmapped.len() as u64).as_str());
    out.append(" 未映射");
    out
}

/// The start-up line about the source Mac's inventory: when it was captured,
/// how many of its tools are classified, and how many of those need manual work.
pub open spec fn inventory_status_of(captured_at: Seq<char>, m: crate::config::ReportModel) -> Seq<char> {
    "源 Mac 清单 "@ + captured_at + "："@ + decimal(m.automatic + m.compatible + m.mac_only + m.manual.len())
        + " 项已分类，"@ + decimal(m.manual.len()) + " 项需手动补齐。"@
}

pub fn inventory_status(captured_at: &str, report: &ParityReport) -> (r: String)
    requires
        report@.automatic + report@.compatible + report@.mac_only + report@.manual.len() <= u64::MAX,
    ensures
        r@ == inventory_status_of(captured_at@, report@),
{
    let classified: u64 = report.automatic as u64 + report.compatible as u64 + report.mac_only as u64
        + report.manual.len() as u64;
    let mut out = "源 Mac 清单 ".to_owned();
    out.append(captured_at);
    out.append("：");
    out.append(decimal_string(classified).as_str());
    out.append(" 项已分类，");
    out.append(decimal_string(report.manual.len() as u64).as_str());
    out.append(" 项需手动补齐。");
    out
}

/// Tests whether `git status --porcelain` printed nothing but white space:
/// the work tree is clean.
pub fn work_tree_clean(status: &str) -> (r: bool)
    ensures
        r == is_blank(status@),
{
    is_blank_str(status)
}

/// Tests whether `git rev-list --left-right --count` says that the branch
/// and its upstream are level: its words are exactly `0` and `0`.
pub fn level_with_upstream(output: &str) -> (r: bool)
    ensures
        r == in_step(output@),
{
    let cs = chars_of(output);
    let t = trim_chars(cs.as_slice());
    if t.len() < 3 || t[0] != '0' || t[t.len() - 1] != '0' {
        return false;
    }
    let mut i: usize = 1;
    while i < t.len() - 1
        invariant
            1 <= i <= t.len() - 1,
            t@ == trim(output@),
            forall|j: int| 1 <= j < i ==> is_ws(#[trigger] t@[j]),
        decreases t.len() - 1 - i,
    {
        if !is_ws_char(t[i]) {
            return false;
        }
        i = i + 1;
    }
    true
}

} // verus!

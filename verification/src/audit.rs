//! The online audit of a profile: which registry pages must exist for each
//! package, and how the answers of WinGet and of those pages are judged.
use vstd::prelude::*;
use crate::config::SetupProfile;
use crate::inventory::strs;
use crate::macos_inventory::{join_strings, joined};
use crate::text::{chars_of, decimal, decimal_string, find, find_chars, lower_chars, lower_seq, push_char};
use crate::utils::{last_line_or_note, CommandResult, CommandState};

verus! {

/// One package to look up online: it passes when any of its URLs answers.
#[derive(Debug, Clone)]
pub struct HttpCheck {
    pub label: String,
    pub urls: Vec<String>,
}

/// A check as texts.
pub struct CheckModel {
    pub label: Seq<char>,
    pub urls: Seq<Seq<char>>,
}

impl View for HttpCheck {
    type V = CheckModel;

    open spec fn view(&self) -> CheckModel {
        CheckModel { label: self.label@, urls: self.urls.deep_view() }
    }
}

pub open spec fn checks_view(checks: Seq<HttpCheck>) -> Seq<CheckModel> {
    checks.map_values(|c: HttpCheck| c@)
}

/// The manifest of a Scoop package in one of the buckets.
pub open spec fn scoop_url(bucket: Seq<char>, package: Seq<char>) -> Seq<char> {
    "https://raw.githubusercontent.com/ScoopInstaller/"@ + bucket + "/master/bucket/"@ + package + ".json"@
}

/// A package name with each `/` written `%2F`.
pub open spec fn escape_slashes(s: Seq<char>) -> Seq<char>
    decreases s.len(),
{
    if s.len() == 0 {
        Seq::empty()
    } else if s.last() == '/' {
        escape_slashes(s.drop_last()) + "%2F"@
    } else {
        escape_slashes(s.drop_last()).push(s.last())
    }
}

pub open spec fn scoop_check(package: Seq<char>) -> CheckModel {
    CheckModel {
        label: "Scoop "@ + package,
        urls: seq![scoop_url("Main"@, package), scoop_url("Extras"@, package), scoop_url("Versions"@, package)],
    }
}

pub open spec fn cargo_check(package: Seq<char>) -> CheckModel {
    CheckModel { label: "Cargo "@ + package, urls: seq!["https://crates.io/api/v1/crates/"@ + package] }
}

pub open spec fn npm_check(package: Seq<char>) -> CheckModel {
    CheckModel { label: "NPM "@ + package, urls: seq!["https://registry.npmjs.org/"@ + escape_slashes(package)] }
}

pub open spec fn pypi_check(package: Seq<char>) -> CheckModel {
    CheckModel { label: "PyPI "@ + package, urls: seq!["https://pypi.org/pypi/"@ + package + "/json"@] }
}

/// The checks for a profile: the Scoop tools, then the Cargo packages, the
/// NPM globals, and the Pip packages and UV tools, each in its list's order.
pub open spec fn http_checks_of(p: SetupProfile) -> Seq<CheckModel> {
    strs(p.packages.scoop_tools).map_values(|s: Seq<char>| scoop_check(s))
        + strs(p.packages.cargo_packages).map_values(|s: Seq<char>| cargo_check(s))
        + strs(p.packages.npm_globals).map_values(|s: Seq<char>| npm_check(s))
        + (strs(p.packages.pip_packages) + strs(p.packages.uv_tools)).map_values(|s: Seq<char>| pypi_check(s))
}

/// `winget search --id <id> -e` confirmed the id: it exited with code 0 and
/// its output names the id, up to ASCII case.
pub open spec fn winget_confirms(state: CommandState, exit_code: Option<i32>, output: Seq<char>, id: Seq<char>) -> bool {
    state == CommandState::Exited && exit_code == Some(0i32) && find(lower_seq(output), lower_seq(id)) is Some
}

pub open spec fn winget_failure_message(id: Seq<char>, output: Seq<char>) -> Seq<char> {
    "WinGet "@ + id + ": "@ + last_line_or_note(output)
}

pub open spec fn url_failure_message(url: Seq<char>, output: Seq<char>) -> Seq<char> {
    url + ": "@ + last_line_or_note(output)
}

pub open spec fn check_failure_message(label: Seq<char>, diagnostics: Seq<Seq<char>>) -> Seq<char> {
    label + ": "@ + joined(diagnostics, " | "@)
}

fn text(s: &str) -> (r: String)
    ensures
        r@ == s@,
{
    s.to_owned()
}

fn scoop_url_exec(bucket: &str, package: &str) -> (r: String)
    ensures
        r@ == scoop_url(bucket@, package@),
{
    let mut out = text("https://raw.githubusercontent.com/ScoopInstaller/");
    out.append(bucket);
    out.append("/master/bucket/");
    out.append(package);
    out.append(".json");
    out
}

fn escape_slashes_exec(s: &str) -> (r: String)
    ensures
        r@ == escape_slashes(s@),
{
    let cs = chars_of(s);
    let mut out = String::new();
    let mut i: usize = 0;
    while i < cs.len()
        invariant
            i <= cs.len(),
            cs@ == s@,
            out@ == escape_slashes(s@.take(i as int)),
        decreases cs.len() - i,
    {
        proof {
            assert(s@.take(i + 1).drop_last() == s@.take(i as int));
        }
        if cs[i] == '/' {
            out.append("%2F");
        } else {
            push_char(&mut out, cs[i]);
        }
        i = i + 1;
    }
    proof {
        assert(s@.take(cs.len() as int) == s@);
    }
    out
}

fn prefixed(prefix: &str, package: &str) -> (r: String)
    ensures
        r@ == prefix@ + package@,
{
    let mut out = text(prefix);
    out.append(package);
    out
}

/// Appends one check per package, built by `make`.
fn push_checks(
    checks: &mut Vec<HttpCheck>,
    packages: &Vec<String>,
    kind: u8,
)
    requires
        kind < 4,
    ensures
        checks_view(final(checks)@) == checks_view(old(checks)@) + strs(*packages).map_values(
            |s: Seq<char>| check_of_kind(kind, s),
        ),
{
    let ghost start = checks_view(checks@);
    let mut i: usize = 0;
    while i < packages.len()
        invariant
            kind < 4,
            i <= packages.len(),
            checks_view(checks@) == start + strs(*packages).take(i as int).map_values(
                |s: Seq<char>| check_of_kind(kind, s),
            ),
        decreases packages.len() - i,
    {
        let package = packages[i].as_str();
        let check = if kind == 0 {
            let mut urls: Vec<String> = Vec::new();
            urls.push(scoop_url_exec("Main", package));
            urls.push(scoop_url_exec("Extras", package));
            urls.push(scoop_url_exec("Versions", package));
            proof {
                reveal_strlit("Main");
                reveal_strlit("Extras");
                reveal_strlit("Versions");
                assert(urls.deep_view() =~= scoop_check(package@).urls);
            }
            HttpCheck { label: prefixed("Scoop ", package), urls }
        } else if kind == 1 {
            let mut urls: Vec<String> = Vec::new();
            urls.push(prefixed("https://crates.io/api/v1/crates/", package));
            assert(urls.deep_view() =~= cargo_check(package@).urls);
            HttpCheck { label: prefixed("Cargo ", package), urls }
        } else if kind == 2 {
            let mut urls: Vec<String> = Vec::new();
            let escaped = escape_slashes_exec(package);
            urls.push(prefixed("https://registry.npmjs.org/", escaped.as_str()));
            assert(urls.deep_view() =~= npm_check(package@).urls);
            HttpCheck { label: prefixed("NPM ", package), urls }
        } else {
            let mut urls: Vec<String> = Vec::new();
            let mut url = prefixed("https://pypi.org/pypi/", package);
            url.append("/json");
            urls.push(url);
            assert(urls.deep_view() =~= pypi_check(package@).urls);
            HttpCheck { label: prefixed("PyPI ", package), urls }
        };
        proof {
            assert(check@ == check_of_kind(kind, package@));
        }
        let ghost before = checks@;
        checks.push(check);
        proof {
            let f = |s: Seq<char>| check_of_kind(kind, s);
            assert(checks_view(checks@) =~= checks_view(before).push(check_of_kind(kind, package@)));
            assert(strs(*packages).take(i + 1) == strs(*packages).take(i as int).push(packages@[i as int]@));
            assert(strs(*packages).take(i + 1).map_values(f) =~= strs(*packages).take(i as int).map_values(f).push(
                check_of_kind(kind, packages@[i as int]@),
            ));
        }
        i = i + 1;
    }
    proof {
        assert(strs(*packages).take(packages.len() as int) == strs(*packages));
    }
}

pub open spec fn check_of_kind(kind: u8, package: Seq<char>) -> CheckModel {
    if kind == 0 {
        scoop_check(package)
    } else if kind == 1 {
        cargo_check(package)
    } else if kind == 2 {
        npm_check(package)
    } else {
        pypi_check(package)
    }
}

/// The online checks for a profile: for each Scoop tool its manifest in the
/// Main, Extras or Versions bucket; for each Cargo package its crates.io
/// page; for each NPM global its registry page (`/` written `%2F`); for each
/// Pip package and UV tool its PyPI page.
pub fn build_http_checks(profile: &SetupProfile) -> (r: Vec<HttpCheck>)
    ensures
        checks_view(r@) == http_checks_of(*profile),
{
    let mut checks: Vec<HttpCheck> = Vec::new();
    push_checks(&mut checks, &profile.packages.scoop_tools, 0);
    push_checks(&mut checks, &profile.packages.cargo_packages, 1);
    push_checks(&mut checks, &profile.packages.npm_globals, 2);
    push_checks(&mut checks, &profile.packages.pip_packages, 3);
    push_checks(&mut checks, &profile.packages.uv_tools, 3);
    proof {
        let p = *profile;
        let f = |s: Seq<char>| pypi_check(s);
        let g = |s: Seq<char>| check_of_kind(3, s);
        assert(strs(p.packages.pip_packages).map_values(g) =~= strs(p.packages.pip_packages).map_values(f));
        assert(strs(p.packages.uv_tools).map_values(g) =~= strs(p.packages.uv_tools).map_values(f));
        assert((strs(p.packages.pip_packages) + strs(p.packages.uv_tools)).map_values(f)
            =~= strs(p.packages.pip_packages).map_values(f) + strs(p.packages.uv_tools).map_values(f));
        assert(strs(p.packages.scoop_tools).map_values(|s: Seq<char>| check_of_kind(0, s))
            =~= strs(p.packages.scoop_tools).map_values(|s: Seq<char>| scoop_check(s)));
        assert(strs(p.packages.cargo_packages).map_values(|s: Seq<char>| check_of_kind(1, s))
            =~= strs(p.packages.cargo_packages).map_values(|s: Seq<char>| cargo_check(s)));
        assert(strs(p.packages.npm_globals).map_values(|s: Seq<char>| check_of_kind(2, s))
            =~= strs(p.packages.npm_globals).map_values(|s: Seq<char>| npm_check(s)));
        assert(checks_view(Seq::<HttpCheck>::empty()) =~= Seq::<CheckModel>::empty());
    }
    checks
}

/// What the WinGet search for `id` says about the profile: `None` when it
/// confirmed the id, else the failure line `WinGet <id>: <last line>`.
pub fn winget_search_failure(id: &str, result: &CommandResult) -> (r: Option<String>)
    ensures
        match r {
            None => winget_confirms(result.state, result.exit_code, result.output@, id@),
            Some(m) => !winget_confirms(result.state, result.exit_code, result.output@, id@)
                && m@ == winget_failure_message(id@, result.output@),
        },
{
    if result.succeeded() {
        let output = lower_chars(chars_of(result.output.as_str()).as_slice());
        let wanted = lower_chars(chars_of(id).as_slice());
        if find_chars(output.as_slice(), wanted.as_slice()).is_some() {
            return None;
        }
    }
    let mut message = prefixed("WinGet ", id);
    message.append(": ");
    let diagnostic = result.diagnostic();
    message.append(diagnostic.as_str());
    Some(message)
}

/// The note for a URL that did not answer: `<url>: <last line>`.
pub fn url_failure(url: &str, result: &CommandResult) -> (r: String)
    ensures
        r@ == url_failure_message(url@, result.output@),
{
    let mut message = text(url);
    message.append(": ");
    let diagnostic = result.diagnostic();
    message.append(diagnostic.as_str());
    message
}

/// The failure line for a check none of whose URLs answered.
pub fn check_failure(label: &str, diagnostics: &Vec<String>) -> (r: String)
    ensures
        r@ == check_failure_message(label@, diagnostics.deep_view()),
{
    let mut message = text(label);
    message.append(": ");
    let list = join_strings(diagnostics, " | ");
    message.append(list.as_str());
    message
}

/// The line printed when every check passed.
pub fn audit_passed_summary(profile: &SetupProfile) -> (r: String)
    requires
        profile.packages.winget_core.len() + profile.packages.winget_dev.len() <= u64::MAX,
        profile.packages.pip_packages.len() + profile.packages.uv_tools.len() <= u64::MAX,
    ensures
        r@ == "Profile 在线审计通过："@
            + decimal((profile.packages.winget_core.len() + profile.packages.winget_dev.len()) as nat)
            + " WinGet，"@ + decimal(profile.packages.scoop_tools.len() as nat) + " Scoop，"@
            + decimal(profile.packages.cargo_packages.len() as nat) + " Cargo，"@
            + decimal(profile.packages.npm_globals.len() as nat) + " NPM，"@
            + decimal((profile.packages.pip_packages.len() + profile.packages.uv_tools.len()) as nat)
            + " Pip/UV"@,
{
    let p = &profile.packages;
    let winget: u64 = p.winget_core.len() as u64 + p.winget_dev.len() as u64;
    let python: u64 = p.pip_packages.len() as u64 + p.uv_tools.len() as u64;
    let mut out = text("Profile 在线审计通过：");
    out.append(decimal_string(winget).as_str());
    out.append(" WinGet，");
    out.append(decimal_string(p.scoop_tools.len() as u64).as_str());
    out.append(" Scoop，");
    out.append(decimal_string(p.cargo_packages.len() as u64).as_str());
    out.append(" Cargo，");
    out.append(decimal_string(p.npm_globals.len() as u64).as_str());
    out.append(" NPM，");
    out.append(decimal_string(python).as_str());
    out.append(" Pip/UV");
    out
}

/// The error when some checks failed.
pub fn audit_failed_message(failures: usize) -> (r: String)
    ensures
        r@ == "Profile 在线审计失败："@ + decimal(failures as nat) + " 项"@,
{
    let mut out = text("Profile 在线审计失败：");
    out.append(decimal_string(failures as u64).as_str());
    out.append(" 项");
    out
}

/// The command exited with code 0.
pub open spec fn run_succeeded(r: CommandResult) -> bool {
    r.state == CommandState::Exited && r.exit_code == Some(0i32)
}

/// The note for each URL tried, from its run.
pub open spec fn url_failures_of(urls: Seq<Seq<char>>, results: Seq<CommandResult>) -> Seq<Seq<char>> {
    Seq::new(results.len(), |i: int| url_failure_message(urls[i], results[i].output@))
}

/// How a check went, from the runs for its URLs in order (`results[i]` is the
/// run for `check.urls[i]`; the runs may stop at the first that answered):
/// `None` when some URL answered, else the failure line that names the
/// check and each URL's note.
pub fn http_check_failure(check: &HttpCheck, results: &Vec<CommandResult>) -> (r: Option<String>)
    requires
        results.len() <= check.urls.len(),
    ensures
        r is None <==> exists|i: int| 0 <= i < results.len() && run_succeeded(#[trigger] results@[i]),
        r matches Some(m) ==> m@ == check_failure_message(
            check.label@,
            url_failures_of(check.urls.deep_view(), results@),
        ),
{
    let mut diagnostics: Vec<String> = Vec::new();
    let mut i: usize = 0;
    while i < results.len()
        invariant
            i <= results.len() <= check.urls.len(),
            diagnostics.deep_view() == url_failures_of(check.urls.deep_view(), results@.take(i as int)),
            forall|j: int| 0 <= j < i ==> !run_succeeded(#[trigger] results@[j]),
        decreases results.len() - i,
    {
        if results[i].succeeded() {
            return None;
        }
        let note = url_failure(check.urls[i].as_str(), &results[i]);
        let ghost before = diagnostics.deep_view();
        diagnostics.push(note);
        proof {
            assert(check.urls.deep_view()[i as int] == check.urls@[i as int]@);
            assert(diagnostics.deep_view() =~= before.push(note@));
            assert(url_failures_of(check.urls.deep_view(), results@.take(i + 1)) =~= url_failures_of(
                check.urls.deep_view(),
                results@.take(i as int),
            ).push(note@));
        }
        i = i + 1;
    }
    assert(results@.take(results.len() as int) =~= results@);
    Some(check_failure(check.label.as_str(), &diagnostics))
}

} // verus!

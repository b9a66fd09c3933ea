//! Turning what the Mac's package managers print into a published inventory:
//! each list trimmed, without blanks or repeats, in ascending order, and
//! without Homebrew tap names.
use vstd::prelude::*;
use crate::inventory::{
    line_items, parse_cargo_install_list, parse_npm_globals, parse_uv_tool_list, strip_tap_prefix,
    strs, LineFormat, MacosInventory, NpmParseError,
};
use crate::json::json_member_object_keys;
use crate::text::{after_last, chars_of, contains_char, is_blank, lines, trim, trim_chars, trim_end, trim_start};
use crate::utils::{last_line_or_note, CommandResult, CommandState};

verus! {

/// The order of `String`: by code points, a proper prefix first.
pub open spec fn lex_less(a: Seq<char>, b: Seq<char>) -> bool
    decreases a.len(),
{
    if a.len() == 0 {
        b.len() > 0
    } else if b.len() == 0 {
        false
    } else if a[0] != b[0] {
        (a[0] as int) < (b[0] as int)
    } else {
        lex_less(a.drop_first(), b.drop_first())
    }
}

/// Each entry comes strictly before the next: sorted, nothing twice.
pub open spec fn strictly_ascending(s: Seq<Seq<char>>) -> bool {
    forall|i: int, j: int| 0 <= i < j < s.len() ==> lex_less(#[trigger] s[i], #[trigger] s[j])
}

/// `x` is the trimmed form of some entry, and not blank.
pub open spec fn trimmed_entry(values: Seq<Seq<char>>, x: Seq<char>) -> bool {
    x.len() > 0 && exists|i: int| 0 <= i < values.len() && trim(#[trigger] values[i]) == x
}

/// `r` is the normal form of the list `values`: its trimmed, non-blank
/// entries, each once, in ascending order.
pub open spec fn normalized(values: Seq<Seq<char>>, r: Seq<Seq<char>>) -> bool {
    &&& strictly_ascending(r)
    &&& forall|x: Seq<char>| r.contains(x) <==> trimmed_entry(values, x)
}

pub proof fn lemma_lex_irreflexive(a: Seq<char>)
    ensures
        !lex_less(a, a),
    decreases a.len(),
{
    if a.len() > 0 {
        lemma_lex_irreflexive(a.drop_first());
    }
}

pub proof fn lemma_lex_total(a: Seq<char>, b: Seq<char>)
    ensures
        a == b || lex_less(a, b) || lex_less(b, a),
    decreases a.len(),
{
    if a.len() == 0 || b.len() == 0 {
        if a.len() == 0 && b.len() == 0 {
            assert(a =~= b);
        }
    } else if a[0] == b[0] {
        lemma_lex_total(a.drop_first(), b.drop_first());
        if a.drop_first() == b.drop_first() {
            assert(a.drop_first().len() == a.len() - 1);
            assert(b.drop_first().len() == b.len() - 1);
            assert(a.len() == b.len());
            assert forall|i: int| 0 <= i < a.len() implies a[i] == b[i] by {
                if i > 0 {
                    assert(a[i] == a.drop_first()[i - 1]);
                    assert(b[i] == b.drop_first()[i - 1]);
                }
            }
            assert(a =~= b);
        }
    }
}

pub proof fn lemma_lex_asymmetric(a: Seq<char>, b: Seq<char>)
    requires
        lex_less(a, b),
    ensures
        !lex_less(b, a),
    decreases a.len(),
{
    if a.len() > 0 && b.len() > 0 && a[0] == b[0] {
        lemma_lex_asymmetric(a.drop_first(), b.drop_first());
    }
}

pub proof fn lemma_lex_transitive(a: Seq<char>, b: Seq<char>, c: Seq<char>)
    requires
        lex_less(a, b),
        lex_less(b, c),
    ensures
        lex_less(a, c),
    decreases a.len(),
{
    if a.len() > 0 && b.len() > 0 && c.len() > 0 && a[0] == b[0] && b[0] == c[0] {
        lemma_lex_transitive(a.drop_first(), b.drop_first(), c.drop_first());
    }
}

/// Tests `a` < `b` in the order of `String`.
pub fn lex_less_chars(a: &[char], b: &[char]) -> (r: bool)
    ensures
        r == lex_less(a@, b@),
{
    let mut i: usize = 0;
    proof {
        assert(a@.skip(0) == a@);
        assert(b@.skip(0) == b@);
    }
    while i < a.len() && i < b.len()
        invariant
            i <= a.len(),
            i <= b.len(),
            lex_less(a@, b@) == lex_less(a@.skip(i as int), b@.skip(i as int)),
        decreases a.len() - i,
    {
        proof {
            assert(a@.skip(i as int)[0] == a@[i as int]);
            assert(b@.skip(i as int)[0] == b@[i as int]);
        }
        if a[i] != b[i] {
            return a[i] < b[i];
        }
        proof {
            assert(a@.skip(i as int).drop_first() == a@.skip(i + 1));
            assert(b@.skip(i as int).drop_first() == b@.skip(i + 1));
        }
        i = i + 1;
    }
    i < b.len()
}

/// Puts `x` into an ascending list unless it is already there.
pub fn insert_sorted(list: &mut Vec<String>, x: String)
    requires
        strictly_ascending(old(list).deep_view()),
    ensures
        strictly_ascending(final(list).deep_view()),
        forall|y: Seq<char>| final(list).deep_view().contains(y) <==> (old(list).deep_view().contains(y) || y == x@),
{
    let ghost s = list.deep_view();
    let xs = chars_of(x.as_str());
    let mut p: usize = 0;
    while p < list.len() && lex_less_chars(chars_of(list[p].as_str()).as_slice(), xs.as_slice())
        invariant
            p <= list.len(),
            s == list.deep_view(),
            xs@ == x@,
            forall|i: int| 0 <= i < p ==> lex_less(#[trigger] s[i], x@),
        decreases list.len() - p,
    {
        p = p + 1;
    }
    if p < list.len() && list[p] == x {
        proof {
            assert(s[p as int] == x@);
            assert forall|y: Seq<char>| s.contains(y) || y == x@ implies s.contains(y) by {
                if y == x@ {
                    assert(s[p as int] == y);
                }
            }
        }
        return;
    }
    proof {
        if p < s.len() {
            assert(s[p as int] == list@[p as int]@);
            assert(!lex_less(s[p as int], x@));
            assert(s[p as int] != x@);
            lemma_lex_total(s[p as int], x@);
        }
    }
    list.insert(p, x);
    proof {
        let t = list.deep_view();
        assert(t =~= s.insert(p as int, x@));
        assert forall|i: int, j: int| 0 <= i < j < t.len() implies lex_less(#[trigger] t[i], #[trigger] t[j]) by {
            if j < p {
            } else if j == p {
                assert(t[i] == s[i]);
            } else if i == p {
                assert(t[j] == s[j - 1]);
                if j - 1 > p {
                    lemma_lex_transitive(x@, s[p as int], s[j - 1]);
                }
            } else if i < p {
                assert(t[i] == s[i] && t[j] == s[j - 1]);
            } else {
                assert(t[i] == s[i - 1] && t[j] == s[j - 1]);
            }
        }
        assert forall|y: Seq<char>| t.contains(y) <==> (s.contains(y) || y == x@) by {
            if t.contains(y) {
                let k = choose|k: int| 0 <= k < t.len() && t[k] == y;
                if k < p {
                    assert(s[k] == y);
                } else if k > p {
                    assert(s[k - 1] == y);
                }
            }
            if s.contains(y) {
                let k = choose|k: int| 0 <= k < s.len() && s[k] == y;
                if k < p {
                    assert(t[k] == y);
                } else {
                    assert(t[k + 1] == y);
                }
            }
            if y == x@ {
                assert(t[p as int] == y);
            }
        }
    }
}

/// The normal form of a list: each entry trimmed, blank ones dropped, each
/// remaining text once, in ascending order.
pub fn normalize_list(values: &Vec<String>) -> (r: Vec<String>)
    ensures
        normalized(values.deep_view(), r.deep_view()),
{
    let mut out: Vec<String> = Vec::new();
    let ghost vs = values.deep_view();
    let mut i: usize = 0;
    while i < values.len()
        invariant
            i <= values.len(),
            vs == values.deep_view(),
            strictly_ascending(out.deep_view()),
            forall|x: Seq<char>| out.deep_view().contains(x) <==> trimmed_entry(vs.take(i as int), x),
        decreases values.len() - i,
    {
        let t = trim_chars(chars_of(values[i].as_str()).as_slice());
        let ghost before = out.deep_view();
        proof {
            assert(vs.take(i + 1)[i as int] == vs[i as int]);
        }
        if t.len() > 0 {
            insert_sorted(&mut out, crate::text::string_of(t.as_slice()));
        }
        proof {
            assert forall|x: Seq<char>| out.deep_view().contains(x) <==> trimmed_entry(vs.take(i + 1), x) by {
                if trimmed_entry(vs.take(i + 1), x) {
                    let k = choose|k: int| 0 <= k < i + 1 && trim(#[trigger] vs.take(i + 1)[k]) == x;
                    if k < i {
                        assert(vs.take(i as int)[k] == vs.take(i + 1)[k]);
                        assert(trimmed_entry(vs.take(i as int), x));
                    }
                }
                if trimmed_entry(vs.take(i as int), x) {
                    let k = choose|k: int| 0 <= k < i && trim(#[trigger] vs.take(i as int)[k]) == x;
                    assert(vs.take(i + 1)[k] == vs.take(i as int)[k]);
                }
            }
        }
        i = i + 1;
    }
    proof {
        assert(vs.take(values.len() as int) == vs);
    }
    out
}

impl MacosInventory {
    /// Brings every list to its normal form: trimmed entries, no blanks, no
    /// repeats, ascending order.
    pub fn normalize(&mut self)
        ensures
            final(self).schema_version == old(self).schema_version,
            final(self).captured_at == old(self).captured_at,
            normalized(strs(old(self).homebrew_formulae), strs(final(self).homebrew_formulae)),
            normalized(strs(old(self).homebrew_casks), strs(final(self).homebrew_casks)),
            normalized(strs(old(self).homebrew_taps), strs(final(self).homebrew_taps)),
            normalized(strs(old(self).cargo_packages), strs(final(self).cargo_packages)),
            normalized(strs(old(self).npm_globals), strs(final(self).npm_globals)),
            normalized(strs(old(self).uv_tools), strs(final(self).uv_tools)),
            normalized(strs(old(self).vscode_extensions), strs(final(self).vscode_extensions)),
            normalized(strs(old(self).cursor_extensions), strs(final(self).cursor_extensions)),
            normalized(strs(old(self).warnings), strs(final(self).warnings)),
    {
        self.homebrew_formulae = normalize_list(&self.homebrew_formulae);
        self.homebrew_casks = normalize_list(&self.homebrew_casks);
        self.homebrew_taps = normalize_list(&self.homebrew_taps);
        self.cargo_packages = normalize_list(&self.cargo_packages);
        self.npm_globals = normalize_list(&self.npm_globals);
        self.uv_tools = normalize_list(&self.uv_tools);
        self.vscode_extensions = normalize_list(&self.vscode_extensions);
        self.cursor_extensions = normalize_list(&self.cursor_extensions);
        self.warnings = normalize_list(&self.warnings);
    }
}

/// The warning for a listing that could not be taken.
pub open spec fn not_captured_message(label: Seq<char>, output: Seq<char>) -> Seq<char> {
    label + " 未采集："@ + last_line_or_note(output)
}

/// The error for a listing the inventory cannot do without.
pub open spec fn capture_failed_message(label: Seq<char>, output: Seq<char>) -> Seq<char> {
    label + " 采集失败："@ + last_line_or_note(output)
}

pub open spec fn command_succeeded(result: CommandResult) -> bool {
    result.state == CommandState::Exited && result.exit_code == Some(0i32)
}

/// The output of a listing the inventory can do without: its output when it
/// succeeded; else nothing, and a warning that names it.
pub fn optional_output(label: &str, result: &CommandResult, warnings: &mut Vec<String>) -> (r: String)
    ensures
        command_succeeded(*result) ==> r@ == result.output@ && final(warnings)@ == old(warnings)@,
        !command_succeeded(*result) ==> {
            &&& r@.len() == 0
            &&& final(warnings)@.len() == old(warnings)@.len() + 1
            &&& final(warnings)@.drop_last() == old(warnings)@
            &&& final(warnings)@.last()@ == not_captured_message(label@, result.output@)
        },
{
    if result.succeeded() {
        return result.output.clone();
    }
    let mut warning = label.to_owned();
    warning.append(" 未采集：");
    warning.append(result.diagnostic().as_str());
    warnings.push(warning);
    String::new()
}

/// The output of a listing the inventory cannot do without, or the error
/// that names it.
pub fn required_output(label: &str, result: &CommandResult) -> (r: Result<String, String>)
    ensures
        command_succeeded(*result) <==> r is Ok,
        r matches Ok(out) ==> out@ == result.output@,
        r matches Err(m) ==> m@ == capture_failed_message(label@, result.output@),
{
    if result.succeeded() {
        return Ok(result.output.clone());
    }
    let mut message = label.to_owned();
    message.append(" 采集失败：");
    message.append(result.diagnostic().as_str());
    Err(message)
}

/// The note every capture carries: tap names are not published.
pub open spec fn tap_note() -> Seq<char> {
    "Homebrew tap 名称/前缀未写入公开快照；仅保留 formula/cask 名称"@
}

/// `npm ls` printed nothing, or JSON with a `dependencies` object.
pub open spec fn npm_readable(output: Seq<char>) -> bool {
    is_blank(output) || json_member_object_keys(output, "dependencies"@) matches Some(Some(_))
}

/// The package names in readable `npm ls` output.
pub open spec fn npm_names(output: Seq<char>) -> Seq<Seq<char>> {
    if is_blank(output) {
        Seq::empty()
    } else {
        match json_member_object_keys(output, "dependencies"@) {
            Some(Some(keys)) => keys,
            _ => Seq::empty(),
        }
    }
}

pub open spec fn without_taps(names: Seq<Seq<char>>) -> Seq<Seq<char>> {
    names.map_values(|n: Seq<char>| after_last(n, '/'))
}

/// No entry holds a `/`.
pub open spec fn slash_free(names: Seq<Seq<char>>) -> bool {
    forall|i: int| 0 <= i < names.len() ==> !contains_char(#[trigger] names[i], '/')
}

fn strip_taps(names: &Vec<String>) -> (r: Vec<String>)
    ensures
        r.deep_view() == without_taps(names.deep_view()),
{
    let mut out: Vec<String> = Vec::new();
    let mut i: usize = 0;
    while i < names.len()
        invariant
            i <= names.len(),
            out.deep_view() == without_taps(names.deep_view().take(i as int)),
        decreases names.len() - i,
    {
        let stripped = strip_tap_prefix(names[i].as_str());
        let ghost before = out.deep_view();
        out.push(stripped);
        proof {
            assert(out.deep_view() =~= before.push(after_last(names@[i as int]@, '/')));
            assert(names.deep_view().take(i + 1) =~= names.deep_view().take(i as int).push(names@[i as int]@));
            assert(without_taps(names.deep_view().take(i + 1)) =~= without_taps(names.deep_view().take(i as int)).push(
                after_last(names@[i as int]@, '/'),
            ));
        }
        i = i + 1;
    }
    proof {
        assert(names.deep_view().take(names.len() as int) == names.deep_view());
    }
    out
}

pub proof fn lemma_after_last_slash_free(s: Seq<char>, c: char)
    ensures
        !contains_char(after_last(s, c), c),
    decreases s.len(),
{
    if s.len() > 0 && s.last() != c {
        lemma_after_last_slash_free(s.drop_last(), c);
        let t = after_last(s.drop_last(), c);
        assert forall|i: int| 0 <= i < t.push(s.last()).len() implies t.push(s.last())[i] != c by {
            if i < t.len() {
                assert(t.push(s.last())[i] == t[i]);
            }
        }
    }
}

pub proof fn lemma_trim_keeps_out(s: Seq<char>, c: char)
    requires
        !contains_char(s, c),
    ensures
        !contains_char(trim(s), c),
{
    lemma_trim_start_keeps_out(s, c);
    lemma_trim_end_keeps_out(trim_start(s), c);
}

proof fn lemma_trim_start_keeps_out(s: Seq<char>, c: char)
    requires
        !contains_char(s, c),
    ensures
        !contains_char(trim_start(s), c),
    decreases s.len(),
{
    if s.len() > 0 && crate::text::is_ws(s[0]) {
        assert forall|i: int| 0 <= i < s.drop_first().len() implies s.drop_first()[i] != c by {
            assert(s.drop_first()[i] == s[i + 1]);
        }
        lemma_trim_start_keeps_out(s.drop_first(), c);
    }
}

proof fn lemma_trim_end_keeps_out(s: Seq<char>, c: char)
    requires
        !contains_char(s, c),
    ensures
        !contains_char(trim_end(s), c),
    decreases s.len(),
{
    if s.len() > 0 && crate::text::is_ws(s.last()) {
        assert forall|i: int| 0 <= i < s.drop_last().len() implies s.drop_last()[i] != c by {
            assert(s.drop_last()[i] == s[i]);
        }
        lemma_trim_end_keeps_out(s.drop_last(), c);
    }
}

/// A list normalized from entries without `/` has none either.
pub proof fn lemma_normalized_slash_free(values: Seq<Seq<char>>, r: Seq<Seq<char>>)
    requires
        normalized(values, r),
        slash_free(values),
    ensures
        slash_free(r),
{
    assert forall|i: int| 0 <= i < r.len() implies !contains_char(#[trigger] r[i], '/') by {
        assert(r.contains(r[i]));
        let k = choose|k: int| 0 <= k < values.len() && trim(#[trigger] values[k]) == r[i];
        lemma_trim_keeps_out(values[k], '/');
    }
}

impl MacosInventory {
    /// The inventory published from one capture. The formula and cask names
    /// lose their tap prefixes, and no tap is listed: a tap name can give
    /// away a private namespace. The Cargo, NPM and UV listings are parsed;
    /// unreadable NPM output leaves a warning. Every list is then brought to
    /// its normal form.
    pub fn from_capture(
        captured_at: String,
        formulae: &Vec<String>,
        casks: &Vec<String>,
        cargo_output: &str,
        npm_output: &str,
        uv_output: &str,
        vscode_extensions: &Vec<String>,
        cursor_extensions: &Vec<String>,
        warnings: &Vec<String>,
    ) -> (r: MacosInventory)
        ensures
            r.schema_version == 1,
            r.captured_at == captured_at,
            normalized(without_taps(formulae.deep_view()), strs(r.homebrew_formulae)),
            normalized(without_taps(casks.deep_view()), strs(r.homebrew_casks)),
            r.homebrew_taps@.len() == 0,
            normalized(line_items(LineFormat::CargoInstallList, lines(cargo_output@)), strs(r.cargo_packages)),
            normalized(line_items(LineFormat::UvToolList, lines(uv_output@)), strs(r.uv_tools)),
            npm_readable(npm_output@) ==> normalized(npm_names(npm_output@), strs(r.npm_globals))
                && normalized(warnings.deep_view().push(tap_note()), strs(r.warnings)),
            !npm_readable(npm_output@) ==> r.npm_globals@.len() == 0,
            json_member_object_keys(npm_output@, "dependencies"@) == Some(None::<Seq<Seq<char>>>)
                && !is_blank(npm_output@) ==> normalized(
                warnings.deep_view().push(tap_note()).push("NPM globals 解析失败："@ + "缺少 dependencies 对象"@),
                strs(r.warnings),
            ),
            json_member_object_keys(npm_output@, "dependencies"@) is None && !is_blank(npm_output@)
                ==> exists|m: Seq<char>| normalized(
                warnings.deep_view().push(tap_note()).push("NPM globals 解析失败："@ + m),
                #[trigger] strs(r.warnings),
            ),
            normalized(vscode_extensions.deep_view(), strs(r.vscode_extensions)),
            normalized(cursor_extensions.deep_view(), strs(r.cursor_extensions)),
            slash_free(strs(r.homebrew_formulae)),
            slash_free(strs(r.homebrew_casks)),
    {
        let mut notes = copy_list(warnings);
        let ghost given = notes.deep_view();
        notes.push("Homebrew tap 名称/前缀未写入公开快照；仅保留 formula/cask 名称".to_owned());
        proof {
            assert(notes.deep_view() =~= given.push(tap_note()));
        }
        let ghost with_note = notes.deep_view();
        let ghost mut npm_message: Seq<char> = Seq::empty();
        let npm = match parse_npm_globals(npm_output) {
            Ok(names) => names,
            Err(error) => {
                let mut note = "NPM globals 解析失败：".to_owned();
                let detail = error.message();
                note.append(detail.as_str());
                proof {
                    npm_message = detail@;
                }
                notes.push(note);
                proof {
                    assert(notes.deep_view() =~= with_note.push("NPM globals 解析失败："@ + npm_message));
                }
                Vec::new()
            },
        };
        let formulae_names = strip_taps(formulae);
        let cask_names = strip_taps(casks);
        proof {
            assert forall|i: int| 0 <= i < formulae_names.deep_view().len()
                implies !contains_char(#[trigger] formulae_names.deep_view()[i], '/') by {
                lemma_after_last_slash_free(formulae.deep_view()[i], '/');
            }
            assert forall|i: int| 0 <= i < cask_names.deep_view().len()
                implies !contains_char(#[trigger] cask_names.deep_view()[i], '/') by {
                lemma_after_last_slash_free(casks.deep_view()[i], '/');
            }
        }
        let mut inventory = MacosInventory {
            schema_version: 1,
            captured_at,
            homebrew_formulae: formulae_names,
            homebrew_casks: cask_names,
            homebrew_taps: Vec::new(),
            cargo_packages: parse_cargo_install_list(cargo_output),
            npm_globals: npm,
            uv_tools: parse_uv_tool_list(uv_output),
            vscode_extensions: copy_list(vscode_extensions),
            cursor_extensions: copy_list(cursor_extensions),
            warnings: notes,
        };
        let ghost before = inventory;
        inventory.normalize();
        proof {
            if json_member_object_keys(npm_output@, "dependencies"@) is None && !is_blank(npm_output@) {
                assert(normalized(warnings.deep_view().push(tap_note()).push("NPM globals 解析失败："@ + npm_message),
                    strs(inventory.warnings)));
            }
            lemma_normalized_slash_free(strs(before.homebrew_formulae), strs(inventory.homebrew_formulae));
            lemma_normalized_slash_free(strs(before.homebrew_casks), strs(inventory.homebrew_casks));
            if strs(before.homebrew_taps).len() == 0 && strs(inventory.homebrew_taps).len() > 0 {
                assert(strs(inventory.homebrew_taps).contains(strs(inventory.homebrew_taps)[0]));
            }
            if before.npm_globals@.len() == 0 && strs(inventory.npm_globals).len() > 0 {
                assert(strs(inventory.npm_globals).contains(strs(inventory.npm_globals)[0]));
            }
        }
        inventory
    }
}

fn copy_list(v: &Vec<String>) -> (r: Vec<String>)
    ensures
        r.deep_view() == v.deep_view(),
{
    let mut out: Vec<String> = Vec::new();
    let mut i: usize = 0;
    while i < v.len()
        invariant
            i <= v.len(),
            out@.len() == i,
            forall|j: int| 0 <= j < i ==> #[trigger] out@[j]@ == v@[j]@,
        decreases v.len() - i,
    {
        out.push(v[i].clone());
        i = i + 1;
    }
    assert(out.deep_view() =~= v.deep_view());
    out
}

} // verus!

//! The source Mac's tool inventory and the rules that map its tools to
//! Windows equivalents.
use vstd::prelude::*;
use crate::text::{
    chars_of, eq_ci, eq_ci_chars, is_control, is_control_char, is_ws, is_ws_char, lower_chars,
    lower_seq, lines, lines_of, split_once, split_once_chars, starts_with_ws, string_of,
    strip_trailing, strip_trailing_chars, trim, trim_chars,
};
use crate::json::{json_member_object_keys, json_object_keys_at};

verus! {

/// A snapshot of the command-line and desktop tools installed on the source Mac.
#[derive(Debug, Clone, Default, PartialEq, Eq)]
pub struct MacosInventory {
    pub schema_version: u32,
    pub captured_at: String,
    pub homebrew_formulae: Vec<String>,
    pub homebrew_casks: Vec<String>,
    pub homebrew_taps: Vec<String>,
    pub cargo_packages: Vec<String>,
    pub npm_globals: Vec<String>,
    pub uv_tools: Vec<String>,
    pub vscode_extensions: Vec<String>,
    pub cursor_extensions: Vec<String>,
    pub warnings: Vec<String>,
}

/// Where a tool of the inventory comes from.
#[derive(Debug, Clone, Copy, PartialEq, Eq, Structural)]
pub enum SourceKind {
    Formula,
    Cask,
    Cargo,
    Npm,
    Uv,
}

/// How a Mac tool is provided on Windows.
#[derive(Debug, Clone, Copy, PartialEq, Eq, Structural)]
pub enum ParityProvider {
    Winget,
    Scoop,
    Cargo,
    Npm,
    Pip,
    Uv,
    WindowsBuiltIn,
    Wsl,
    Alternative,
    MacOnly,
    Manual,
}

/// One mapping from a Mac tool to its Windows counterpart.
#[derive(Debug, Clone, PartialEq, Eq)]
pub struct ParityRule {
    pub source_kind: SourceKind,
    pub source: String,
    pub provider: ParityProvider,
    pub target: String,
    pub reason: String,
}

/// The table of Mac-to-Windows mappings.
#[derive(Debug, Clone, PartialEq, Eq)]
pub struct ParityRules {
    pub schema_version: u32,
    pub rules: Vec<ParityRule>,
}

/// Why an inventory was refused.
#[derive(Debug, Clone, PartialEq, Eq)]
pub enum InventoryError {
    /// The schema version is not 1, or the inventory lists no tool.
    InvalidHeader,
    /// An entry of one of the five tool lists is empty, too long, holds a
    /// control or white-space character (or a `/` in a Homebrew name), or
    /// repeats an earlier entry up to ASCII case.
    InvalidEntry { kind: SourceKind, value: String },
}

/// Why a parity rule table was refused.
#[derive(Debug, Clone, PartialEq, Eq)]
pub enum RulesError {
    UnsupportedSchema(u32),
    EmptyField(ParityRule),
    DuplicateMapping(SourceKind, String),
}

/// The characters of each string of a list.
pub open spec fn strs(v: Vec<String>) -> Seq<Seq<char>> {
    v.deep_view()
}

/// A tool list of the inventory.
pub open spec fn list_of(inv: MacosInventory, kind: SourceKind) -> Seq<Seq<char>> {
    match kind {
        SourceKind::Formula => strs(inv.homebrew_formulae),
        SourceKind::Cask => strs(inv.homebrew_casks),
        SourceKind::Cargo => strs(inv.cargo_packages),
        SourceKind::Npm => strs(inv.npm_globals),
        SourceKind::Uv => strs(inv.uv_tools),
    }
}

/// The order in which the tool lists are checked and classified.
pub open spec fn kind_rank(kind: SourceKind) -> int {
    match kind {
        SourceKind::Formula => 0,
        SourceKind::Cask => 1,
        SourceKind::Cargo => 2,
        SourceKind::Npm => 3,
        SourceKind::Uv => 4,
    }
}

pub open spec fn spec_item_count(inv: MacosInventory) -> int {
    inv.homebrew_formulae.len() + inv.homebrew_casks.len() + inv.cargo_packages.len()
        + inv.npm_globals.len() + inv.uv_tools.len()
}

/// The name by which `Debug` prints a source kind.
pub open spec fn kind_name(kind: SourceKind) -> Seq<char> {
    match kind {
        SourceKind::Formula => "Formula"@,
        SourceKind::Cask => "Cask"@,
        SourceKind::Cargo => "Cargo"@,
        SourceKind::Npm => "Npm"@,
        SourceKind::Uv => "Uv"@,
    }
}

/// The name by which `Debug` prints a provider.
pub open spec fn provider_name(provider: ParityProvider) -> Seq<char> {
    match provider {
        ParityProvider::Winget => "Winget"@,
        ParityProvider::Scoop => "Scoop"@,
        ParityProvider::Cargo => "Cargo"@,
        ParityProvider::Npm => "Npm"@,
        ParityProvider::Pip => "Pip"@,
        ParityProvider::Uv => "Uv"@,
        ParityProvider::WindowsBuiltIn => "WindowsBuiltIn"@,
        ParityProvider::Wsl => "Wsl"@,
        ParityProvider::Alternative => "Alternative"@,
        ParityProvider::MacOnly => "MacOnly"@,
        ParityProvider::Manual => "Manual"@,
    }
}

/// The label by which inventory errors name a tool list.
pub open spec fn inventory_label(kind: SourceKind) -> Seq<char> {
    match kind {
        SourceKind::Formula => "formula"@,
        SourceKind::Cask => "cask"@,
        SourceKind::Cargo => "Cargo"@,
        SourceKind::Npm => "NPM"@,
        SourceKind::Uv => "UV"@,
    }
}

/// Entry `i` of a tool list is acceptable: not empty, at most 256 bytes of
/// UTF-8, no control or white-space character, no `/` in a Homebrew name,
/// and not equal up to ASCII case to an earlier entry.
pub open spec fn entry_ok(kind: SourceKind, values: Seq<Seq<char>>, i: int) -> bool {
    let v = values[i];
    &&& v.len() > 0
    &&& vstd::utf8::encode_utf8(v).len() <= 256
    &&& !((kind == SourceKind::Formula || kind == SourceKind::Cask) && v.contains('/'))
    &&& forall|k: int| 0 <= k < v.len() ==> !is_control(#[trigger] v[k]) && !is_ws(v[k])
    &&& forall|j: int| 0 <= j < i ==> !eq_ci(#[trigger] values[j], v)
}

pub open spec fn entries_ok(kind: SourceKind, values: Seq<Seq<char>>) -> bool {
    forall|i: int| 0 <= i < values.len() ==> #[trigger] entry_ok(kind, values, i)
}

/// Entry `i` is the first unacceptable entry of the list.
pub open spec fn first_bad_entry(kind: SourceKind, values: Seq<Seq<char>>, i: int) -> bool {
    &&& 0 <= i < values.len()
    &&& !entry_ok(kind, values, i)
    &&& forall|j: int| 0 <= j < i ==> #[trigger] entry_ok(kind, values, j)
}

pub open spec fn header_ok(inv: MacosInventory) -> bool {
    inv.schema_version == 1 && spec_item_count(inv) != 0
}

/// What `MacosInventory::validate` returns.
pub open spec fn inventory_verdict(inv: MacosInventory, r: Result<(), InventoryError>) -> bool {
    match r {
        Ok(()) => header_ok(inv) && forall|k: SourceKind| #[trigger] entries_ok(k, list_of(inv, k)),
        Err(InventoryError::InvalidHeader) => !header_ok(inv),
        Err(InventoryError::InvalidEntry { kind, value }) => {
            &&& header_ok(inv)
            &&& forall|k: SourceKind| kind_rank(k) < kind_rank(kind) ==> #[trigger] entries_ok(k, list_of(inv, k))
            &&& exists|i: int| #[trigger] first_bad_entry(kind, list_of(inv, kind), i) && value@ == list_of(inv, kind)[i]
        },
    }
}

/// The rule applies to this kind and name, up to ASCII case.
pub open spec fn rule_matches(rule: ParityRule, kind: SourceKind, source: Seq<char>) -> bool {
    rule.source_kind == kind && eq_ci(rule.source@, source)
}

/// The index of the first rule at or after `from` that applies.
pub open spec fn rule_index_from(rules: Seq<ParityRule>, kind: SourceKind, source: Seq<char>, from: int) -> Option<int>
    decreases rules.len() - from,
{
    if from < 0 || from >= rules.len() {
        None
    } else if rule_matches(rules[from], kind, source) {
        Some(from)
    } else {
        rule_index_from(rules, kind, source, from + 1)
    }
}

pub open spec fn rule_index(rules: Seq<ParityRule>, kind: SourceKind, source: Seq<char>) -> Option<int> {
    rule_index_from(rules, kind, source, 0)
}

/// Rule `i` has a blank source, target or reason.
pub open spec fn rule_blank(rule: ParityRule) -> bool {
    crate::text::is_blank(rule.source@) || crate::text::is_blank(rule.target@) || crate::text::is_blank(rule.reason@)
}

/// Rule `i` is acceptable: no blank field, and no earlier rule maps the same
/// kind and name (up to ASCII case).
pub open spec fn rule_ok(rules: Seq<ParityRule>, i: int) -> bool {
    &&& !rule_blank(rules[i])
    &&& forall|j: int| 0 <= j < i ==> !rule_matches(#[trigger] rules[j], rules[i].source_kind, rules[i].source@)
}

pub open spec fn first_bad_rule(rules: Seq<ParityRule>, i: int) -> bool {
    &&& 0 <= i < rules.len()
    &&& !rule_ok(rules, i)
    &&& forall|j: int| 0 <= j < i ==> #[trigger] rule_ok(rules, j)
}

/// The fields of a rule, as character sequences.
pub open spec fn same_rule(a: ParityRule, b: ParityRule) -> bool {
    &&& a.source_kind == b.source_kind
    &&& a.source@ == b.source@
    &&& a.provider == b.provider
    &&& a.target@ == b.target@
    &&& a.reason@ == b.reason@
}

/// What `ParityRules::validate` returns.
pub open spec fn rules_verdict(table: ParityRules, r: Result<(), RulesError>) -> bool {
    let rules = table.rules@;
    match r {
        Ok(()) => table.schema_version == 1 && forall|i: int| 0 <= i < rules.len() ==> #[trigger] rule_ok(rules, i),
        Err(RulesError::UnsupportedSchema(v)) => table.schema_version != 1 && v == table.schema_version,
        Err(RulesError::EmptyField(rule)) => {
            &&& table.schema_version == 1
            &&& exists|i: int| #[trigger] first_bad_rule(rules, i) && rule_blank(rules[i]) && same_rule(rule, rules[i])
        },
        Err(RulesError::DuplicateMapping(kind, source)) => {
            &&& table.schema_version == 1
            &&& exists|i: int| #[trigger] first_bad_rule(rules, i) && !rule_blank(rules[i])
                && kind == rules[i].source_kind && source@ == rules[i].source@
        },
    }
}

impl SourceKind {
    /// The name by which `Debug` prints the kind.
    pub fn name(self) -> (r: &'static str)
        ensures
            r@ == kind_name(self),
    {
        match self {
            SourceKind::Formula => "Formula",
            SourceKind::Cask => "Cask",
            SourceKind::Cargo => "Cargo",
            SourceKind::Npm => "Npm",
            SourceKind::Uv => "Uv",
        }
    }

    /// The label by which inventory errors name the list of this kind.
    pub fn inventory_label(self) -> (r: &'static str)
        ensures
            r@ == inventory_label(self),
    {
        match self {
            SourceKind::Formula => "formula",
            SourceKind::Cask => "cask",
            SourceKind::Cargo => "Cargo",
            SourceKind::Npm => "NPM",
            SourceKind::Uv => "UV",
        }
    }
}

impl ParityProvider {
    /// The name by which `Debug` prints the provider.
    pub fn name(self) -> (r: &'static str)
        ensures
            r@ == provider_name(self),
    {
        match self {
            ParityProvider::Winget => "Winget",
            ParityProvider::Scoop => "Scoop",
            ParityProvider::Cargo => "Cargo",
            ParityProvider::Npm => "Npm",
            ParityProvider::Pip => "Pip",
            ParityProvider::Uv => "Uv",
            ParityProvider::WindowsBuiltIn => "WindowsBuiltIn",
            ParityProvider::Wsl => "Wsl",
            ParityProvider::Alternative => "Alternative",
            ParityProvider::MacOnly => "MacOnly",
            ParityProvider::Manual => "Manual",
        }
    }
}

impl ParityRule {
    /// A field-by-field copy of the rule.
    pub fn copy(&self) -> (r: ParityRule)
        ensures
            same_rule(r, *self),
    {
        ParityRule {
            source_kind: self.source_kind,
            source: self.source.clone(),
            provider: self.provider,
            target: self.target.clone(),
            reason: self.reason.clone(),
        }
    }
}

/// Entry `i` of `values` has the characters of `cs`.
fn entry_content_ok(kind: SourceKind, value: &String) -> (r: bool)
    ensures
        r == {
            let v = value@;
            &&& v.len() > 0
            &&& vstd::utf8::encode_utf8(v).len() <= 256
            &&& !((kind == SourceKind::Formula || kind == SourceKind::Cask) && v.contains('/'))
            &&& forall|k: int| 0 <= k < v.len() ==> !is_control(#[trigger] v[k]) && !is_ws(v[k])
        },
{
    let cs = chars_of(value.as_str());
    if cs.len() == 0 {
        return false;
    }
    if value.as_str().as_bytes().len() > 256 {
        return false;
    }
    let homebrew = match kind {
        SourceKind::Formula | SourceKind::Cask => true,
        _ => false,
    };
    let mut k: usize = 0;
    while k < cs.len()
        invariant
            k <= cs.len(),
            cs@ == value@,
            homebrew == (kind == SourceKind::Formula || kind == SourceKind::Cask),
            value@.len() > 0,
            vstd::utf8::encode_utf8(value@).len() <= 256,
            forall|m: int| 0 <= m < k ==> !is_control(#[trigger] cs@[m]) && !is_ws(cs@[m]),
            homebrew ==> forall|m: int| 0 <= m < k ==> cs@[m] != '/',
        decreases cs.len() - k,
    {
        if is_control_char(cs[k]) || is_ws_char(cs[k]) {
            return false;
        }
        if homebrew && cs[k] == '/' {
            assert(value@[k as int] == '/');
            assert(value@.contains('/'));
            return false;
        }
        k = k + 1;
    }
    true
}

/// Checks one tool list: `Err` carries the first unacceptable entry.
fn check_entries(kind: SourceKind, values: &Vec<String>) -> (r: Result<(), String>)
    ensures
        match r {
            Ok(()) => entries_ok(kind, strs(*values)),
            Err(v) => exists|i: int| #[trigger] first_bad_entry(kind, strs(*values), i) && v@ == strs(*values)[i],
        },
{
    let ghost vals = strs(*values);
    let mut seen: Vec<Vec<char>> = Vec::new();
    let mut i: usize = 0;
    while i < values.len()
        invariant
            i <= values.len(),
            vals == strs(*values),
            seen@.len() == i,
            forall|j: int| 0 <= j < i ==> (#[trigger] seen@[j])@ == lower_seq(vals[j]),
            forall|j: int| 0 <= j < i ==> #[trigger] entry_ok(kind, vals, j),
        decreases values.len() - i,
    {
        let value = &values[i];
        let ok_content = entry_content_ok(kind, value);
        if !ok_content {
            assert(!entry_ok(kind, vals, i as int));
            assert(first_bad_entry(kind, vals, i as int));
            let v = value.clone();
            assert(v@ == vals[i as int]);
            return Err(v);
        }
        let lowered = lower_chars(chars_of(value.as_str()).as_slice());
        let mut j: usize = 0;
        while j < i
            invariant
                j <= i,
                i < values.len(),
                vals == strs(*values),
                seen@.len() == i,
                lowered@ == lower_seq(vals[i as int]),
                *value == values@[i as int],
                forall|m: int| 0 <= m < i ==> (#[trigger] seen@[m])@ == lower_seq(vals[m]),
                forall|m: int| 0 <= m < j ==> !eq_ci(#[trigger] vals[m], vals[i as int]),
                forall|m: int| 0 <= m < i ==> #[trigger] entry_ok(kind, vals, m),
            decreases i - j,
        {
            if same_chars(seen[j].as_slice(), lowered.as_slice()) {
                assert(eq_ci(vals[j as int], vals[i as int]));
                assert(!entry_ok(kind, vals, i as int));
                assert(first_bad_entry(kind, vals, i as int));
                let v = value.clone();
                assert(v@ == vals[i as int]);
                return Err(v);
            }
            j = j + 1;
        }
        assert(entry_ok(kind, vals, i as int));
        seen.push(lowered);
        i = i + 1;
    }
    Ok(())
}

/// Equality of two character sequences.
pub fn same_chars(a: &[char], b: &[char]) -> (r: bool)
    ensures
        r == (a@ == b@),
{
    if a.len() != b.len() {
        return false;
    }
    let mut i: usize = 0;
    while i < a.len()
        invariant
            a.len() == b.len(),
            i <= a.len(),
            forall|j: int| 0 <= j < i ==> a@[j] == b@[j],
        decreases a.len() - i,
    {
        if a[i] != b[i] {
            return false;
        }
        i = i + 1;
    }
    assert(a@ =~= b@);
    true
}

impl MacosInventory {
    /// The number of tools in the five lists that are mapped to Windows.
    pub fn item_count(&self) -> (r: usize)
        requires
            spec_item_count(*self) <= usize::MAX,
        ensures
            r == spec_item_count(*self),
    {
        self.homebrew_formulae.len() + self.homebrew_casks.len() + self.cargo_packages.len()
            + self.npm_globals.len() + self.uv_tools.len()
    }

    /// Accepts an inventory of schema version 1 that lists at least one tool
    /// and whose five tool lists hold only acceptable entries.
    pub fn validate(&self) -> (r: Result<(), InventoryError>)
        requires
            spec_item_count(*self) <= usize::MAX,
        ensures
            inventory_verdict(*self, r),
    {
        if self.schema_version != 1 || self.item_count() == 0 {
            return Err(InventoryError::InvalidHeader);
        }
        let kinds = [SourceKind::Formula, SourceKind::Cask, SourceKind::Cargo, SourceKind::Npm, SourceKind::Uv];
        let mut n: usize = 0;
        while n < 5
            invariant
                n <= 5,
                header_ok(*self),
                kinds@ == seq![SourceKind::Formula, SourceKind::Cask, SourceKind::Cargo, SourceKind::Npm, SourceKind::Uv],
                forall|k: SourceKind| kind_rank(k) < n ==> #[trigger] entries_ok(k, list_of(*self, k)),
            decreases 5 - n,
        {
            let kind = kinds[n];
            assert(kind_rank(kind) == n);
            let values = match kind {
                SourceKind::Formula => &self.homebrew_formulae,
                SourceKind::Cask => &self.homebrew_casks,
                SourceKind::Cargo => &self.cargo_packages,
                SourceKind::Npm => &self.npm_globals,
                SourceKind::Uv => &self.uv_tools,
            };
            assert(strs(*values) == list_of(*self, kind));
            match check_entries(kind, values) {
                Ok(()) => {},
                Err(value) => {
                    return Err(InventoryError::InvalidEntry { kind, value });
                },
            }
            n = n + 1;
        }
        proof {
            assert forall|k: SourceKind| #[trigger] entries_ok(k, list_of(*self, k)) by {
                assert(kind_rank(k) < 5);
            }
        }
        Ok(())
    }
}

impl ParityRules {
    /// The first rule for this kind whose source equals `source` up to ASCII case.
    pub fn find(&self, source_kind: SourceKind, source: &str) -> (r: Option<&ParityRule>)
        ensures
            match rule_index(self.rules@, source_kind, source@) {
                Some(i) => r == Some(&self.rules@[i]),
                None => r is None,
            },
    {
        let wanted = chars_of(source);
        let mut i: usize = 0;
        while i < self.rules.len()
            invariant
                i <= self.rules.len(),
                wanted@ == source@,
                rule_index(self.rules@, source_kind, source@)
                    == rule_index_from(self.rules@, source_kind, source@, i as int),
            decreases self.rules.len() - i,
        {
            let rule = &self.rules[i];
            if rule.source_kind == source_kind
                && eq_ci_chars(chars_of(rule.source.as_str()).as_slice(), wanted.as_slice()) {
                return Some(rule);
            }
            i = i + 1;
        }
        None
    }

    /// Accepts a table of schema version 1 whose rules have no blank field and
    /// map no kind and name (up to ASCII case) twice.
    pub fn validate(&self) -> (r: Result<(), RulesError>)
        ensures
            rules_verdict(*self, r),
    {
        if self.schema_version != 1 {
            return Err(RulesError::UnsupportedSchema(self.schema_version));
        }
        let ghost rules = self.rules@;
        let mut seen: Vec<(SourceKind, Vec<char>)> = Vec::new();
        let mut i: usize = 0;
        while i < self.rules.len()
            invariant
                i <= self.rules.len(),
                self.schema_version == 1,
                rules == self.rules@,
                seen@.len() == i,
                forall|j: int| 0 <= j < i ==> (#[trigger] seen@[j]).0 == rules[j].source_kind
                    && seen@[j].1@ == lower_seq(rules[j].source@),
                forall|j: int| 0 <= j < i ==> #[trigger] rule_ok(rules, j),
            decreases self.rules.len() - i,
        {
            let rule = &self.rules[i];
            if crate::text::is_blank_str(rule.source.as_str()) || crate::text::is_blank_str(rule.target.as_str())
                || crate::text::is_blank_str(rule.reason.as_str()) {
                assert(first_bad_rule(rules, i as int));
                return Err(RulesError::EmptyField(rule.copy()));
            }
            let lowered = lower_chars(chars_of(rule.source.as_str()).as_slice());
            let mut j: usize = 0;
            while j < i
                invariant
                    j <= i,
                    i < self.rules.len(),
                    rules == self.rules@,
                    self.schema_version == 1,
                    *rule == rules[i as int],
                    seen@.len() == i,
                    lowered@ == lower_seq(rules[i as int].source@),
                    forall|m: int| 0 <= m < i ==> (#[trigger] seen@[m]).0 == rules[m].source_kind
                        && seen@[m].1@ == lower_seq(rules[m].source@),
                    forall|m: int| 0 <= m < j ==> !rule_matches(#[trigger] rules[m], rules[i as int].source_kind, rules[i as int].source@),
                    forall|m: int| 0 <= m < i ==> #[trigger] rule_ok(rules, m),
                    !rule_blank(rules[i as int]),
                decreases i - j,
            {
                if seen[j].0 == rule.source_kind && same_chars(seen[j].1.as_slice(), lowered.as_slice()) {
                    assert(rule_matches(rules[j as int], rules[i as int].source_kind, rules[i as int].source@));
                    assert(first_bad_rule(rules, i as int));
                    let source = rule.source.clone();
                    let e = RulesError::DuplicateMapping(rule.source_kind, source);
                    assert(first_bad_rule(self.rules@, i as int) && !rule_blank(self.rules@[i as int])
                        && rule.source_kind == self.rules@[i as int].source_kind && source@ == self.rules@[i as int].source@);
                    return Err(e);
                }
                j = j + 1;
            }
            assert(rule_ok(rules, i as int));
            seen.push((rule.source_kind, lowered));
            i = i + 1;
        }
        Ok(())
    }
}


pub open spec fn rule_debug(rule: ParityRule) -> Seq<char> {
    "ParityRule { source_kind: "@ + kind_name(rule.source_kind) + ", source: \""@ + rule.source@
        + "\", provider: "@ + provider_name(rule.provider) + ", target: \""@ + rule.target@
        + "\", reason: \""@ + rule.reason@ + "\" }"@
}

pub open spec fn rules_error_message(e: RulesError) -> Seq<char> {
    match e {
        RulesError::UnsupportedSchema(v) => "不支持的 parity_rules schema："@ + crate::text::decimal(v as nat),
        RulesError::EmptyField(rule) => "parity_rules 包含空字段："@ + rule_debug(rule),
        RulesError::DuplicateMapping(kind, source) => "parity_rules 包含重复映射："@ + kind_name(kind) + "/"@ + source@,
    }
}

pub open spec fn inventory_error_message(e: InventoryError) -> Seq<char> {
    match e {
        InventoryError::InvalidHeader => "Mac 清单版本无效或没有工具项目"@,
        InventoryError::InvalidEntry { kind, value } => "Mac 清单中的 "@ + inventory_label(kind) + " 项无效或重复："@ + value@,
    }
}

impl RulesError {
    /// The message that reports the error to the user.
    pub fn message(&self) -> (r: String)
        ensures
            r@ == rules_error_message(*self),
    {
        match self {
            RulesError::UnsupportedSchema(v) => {
                let mut m = "不支持的 parity_rules schema：".to_owned();
                let digits = crate::text::decimal_string(*v as u64);
                m.append(digits.as_str());
                m
            },
            RulesError::EmptyField(rule) => {
                let mut m = "parity_rules 包含空字段：".to_owned();
                m.append("ParityRule { source_kind: ");
                m.append(rule.source_kind.name());
                m.append(", source: \"");
                m.append(rule.source.as_str());
                m.append("\", provider: ");
                m.append(rule.provider.name());
                m.append(", target: \"");
                m.append(rule.target.as_str());
                m.append("\", reason: \"");
                m.append(rule.reason.as_str());
                m.append("\" }");
                m
            },
            RulesError::DuplicateMapping(kind, source) => {
                let mut m = "parity_rules 包含重复映射：".to_owned();
                m.append(kind.name());
                m.append("/");
                m.append(source.as_str());
                m
            },
        }
    }
}

impl InventoryError {
    /// The message that reports the error to the user.
    pub fn message(&self) -> (r: String)
        ensures
            r@ == inventory_error_message(*self),
    {
        match self {
            InventoryError::InvalidHeader => "Mac 清单版本无效或没有工具项目".to_owned(),
            InventoryError::InvalidEntry { kind, value } => {
                let mut m = "Mac 清单中的 ".to_owned();
                m.append(kind.inventory_label());
                m.append(" 项无效或重复：");
                m.append(value.as_str());
                m
            },
        }
    }
}


/// The tool outputs that the capture reads, line by line.
#[derive(Debug, Clone, Copy, PartialEq, Eq, Structural)]
pub enum LineFormat {
    /// `cargo install --list`: `name vX.Y.Z:` headers, binaries indented below.
    CargoInstallList,
    /// `uv tool list`: `name vX.Y.Z` headers, `- binary` lines below.
    UvToolList,
    /// One name per line.
    PlainNames,
}

/// The name that a line of the given format contributes, if any.
pub open spec fn line_item(format: LineFormat, line: Seq<char>) -> Option<Seq<char>> {
    match format {
        LineFormat::CargoInstallList => if starts_with_ws(line) {
            None
        } else {
            match split_once(strip_trailing(line, ':'), " v"@) {
                Some((name, _)) => if trim(name).len() > 0 { Some(trim(name)) } else { None },
                None => None,
            }
        },
        LineFormat::UvToolList => if starts_with_ws(line) || (line.len() > 0 && line[0] == '-') {
            None
        } else {
            match split_once(line, " v"@) {
                Some((name, _)) => if trim(name).len() > 0 { Some(trim(name)) } else { None },
                None => None,
            }
        },
        LineFormat::PlainNames => if trim(line).len() > 0 { Some(trim(line)) } else { None },
    }
}

/// The names that the lines contribute, in order.
pub open spec fn line_items(format: LineFormat, ls: Seq<Seq<char>>) -> Seq<Seq<char>>
    decreases ls.len(),
{
    if ls.len() == 0 {
        Seq::empty()
    } else {
        match line_item(format, ls.last()) {
            Some(x) => line_items(format, ls.drop_last()).push(x),
            None => line_items(format, ls.drop_last()),
        }
    }
}

fn line_item_exec(format: LineFormat, line: &[char]) -> (r: Option<Vec<char>>)
    ensures
        match r {
            Some(x) => line_item(format, line@) == Some(x@),
            None => line_item(format, line@) is None,
        },
{
    let separator = chars_of(" v");
    let ws_start = line.len() > 0 && is_ws_char(line[0]);
    let candidate = match format {
        LineFormat::CargoInstallList => {
            if ws_start {
                return None;
            }
            let stripped = strip_trailing_chars(line, ':');
            split_once_chars(stripped.as_slice(), separator.as_slice())
        },
        LineFormat::UvToolList => {
            if ws_start || (line.len() > 0 && line[0] == '-') {
                return None;
            }
            split_once_chars(line, separator.as_slice())
        },
        LineFormat::PlainNames => {
            let t = trim_chars(line);
            if t.len() > 0 {
                return Some(t);
            } else {
                return None;
            }
        },
    };
    match candidate {
        Some((name, _)) => {
            let t = trim_chars(name.as_slice());
            if t.len() > 0 {
                Some(t)
            } else {
                None
            }
        },
        None => None,
    }
}

/// The names that the lines of `output` contribute, in order.
pub fn parse_lines(format: LineFormat, output: &str) -> (r: Vec<String>)
    ensures
        r.deep_view() == line_items(format, lines(output@)),
{
    let cs = chars_of(output);
    let ls = lines_of(cs.as_slice());
    let ghost all = lines(output@);
    let mut out: Vec<String> = Vec::new();
    let mut i: usize = 0;
    while i < ls.len()
        invariant
            i <= ls.len(),
            all == lines(output@),
            ls@.len() == all.len(),
            forall|k: int| 0 <= k < ls@.len() ==> #[trigger] ls@[k]@ == all[k],
            out.deep_view() == line_items(format, all.take(i as int)),
        decreases ls.len() - i,
    {
        let item = line_item_exec(format, ls[i].as_slice());
        proof {
            assert(all.take(i + 1).drop_last() == all.take(i as int));
            assert(all.take(i + 1).last() == all[i as int]);
        }
        match item {
            Some(x) => {
                let text = string_of(x.as_slice());
                out.push(text);
                assert(out.deep_view() =~= line_items(format, all.take(i as int)).push(x@));
            },
            None => {},
        }
        i = i + 1;
    }
    assert(all.take(ls.len() as int) == all);
    out
}

/// The crates that `cargo install --list` reports, without versions or binaries.
pub fn parse_cargo_install_list(output: &str) -> (r: Vec<String>)
    ensures
        r.deep_view() == line_items(LineFormat::CargoInstallList, lines(output@)),
{
    parse_lines(LineFormat::CargoInstallList, output)
}

/// The tools that `uv tool list` reports, without versions or binaries.
pub fn parse_uv_tool_list(output: &str) -> (r: Vec<String>)
    ensures
        r.deep_view() == line_items(LineFormat::UvToolList, lines(output@)),
{
    parse_lines(LineFormat::UvToolList, output)
}

/// The trimmed, non-empty lines of `output`.
pub fn parse_nonempty_lines(output: &str) -> (r: Vec<String>)
    ensures
        r.deep_view() == line_items(LineFormat::PlainNames, lines(output@)),
{
    parse_lines(LineFormat::PlainNames, output)
}

/// A table that passed validation maps each tool at most once: no two of its
/// rules apply to the same kind and source name, up to ASCII case.
pub proof fn validated_rules_map_each_tool_once(table: ParityRules, kind: SourceKind, source: Seq<char>, i: int, j: int)
    requires
        rules_verdict(table, Ok(())),
        0 <= i < table.rules@.len(),
        0 <= j < table.rules@.len(),
        rule_matches(table.rules@[i], kind, source),
        rule_matches(table.rules@[j], kind, source),
    ensures
        i == j,
{
    let rules = table.rules@;
    if i < j {
        assert(rule_ok(rules, j));
        assert(!rule_matches(rules[i], rules[j].source_kind, rules[j].source@));
    } else if j < i {
        assert(rule_ok(rules, i));
        assert(!rule_matches(rules[j], rules[i].source_kind, rules[i].source@));
    }
}

/// Why `npm --global ls --json` output could not be read.
#[derive(Debug, Clone, PartialEq, Eq)]
pub enum NpmParseError {
    /// The output is not JSON; the parser's message.
    Json(String),
    /// The output has no `dependencies` object.
    MissingDependencies,
}

impl NpmParseError {
    /// The message that reports the error to the user.
    pub fn message(&self) -> (r: String)
        ensures
            r@ == match self {
                NpmParseError::Json(m) => m@,
                NpmParseError::MissingDependencies => "缺少 dependencies 对象"@,
            },
    {
        match self {
            NpmParseError::Json(m) => m.clone(),
            NpmParseError::MissingDependencies => "缺少 dependencies 对象".to_owned(),
        }
    }
}

/// The global NPM packages listed by `npm --global ls --depth=0 --json`: the
/// keys of its `dependencies` object. Blank output lists nothing.
pub fn parse_npm_globals(output: &str) -> (r: Result<Vec<String>, NpmParseError>)
    ensures
        crate::text::is_blank(output@) ==> (r matches Ok(v) && v@.len() == 0),
        !crate::text::is_blank(output@) ==> match json_member_object_keys(output@, "dependencies"@) {
            None => r matches Err(NpmParseError::Json(_)),
            Some(None) => r matches Err(NpmParseError::MissingDependencies),
            Some(Some(keys)) => (r matches Ok(v) && v.deep_view() == keys),
        },
{
    if crate::text::is_blank_str(output) {
        return Ok(Vec::new());
    }
    match json_object_keys_at(output, "dependencies") {
        Ok(Some(keys)) => Ok(keys),
        Ok(None) => Err(NpmParseError::MissingDependencies),
        Err(message) => Err(NpmParseError::Json(message)),
    }
}

/// A Homebrew name without its tap prefix: the part after the last `/`.
pub fn strip_tap_prefix(name: &str) -> (r: String)
    ensures
        r@ == crate::text::after_last(name@, '/'),
{
    let cs = chars_of(name);
    let tail = crate::text::after_last_chars(cs.as_slice(), '/');
    string_of(tail.as_slice())
}

/// The inventory passes validation.
pub open spec fn valid_inventory(inv: MacosInventory) -> bool {
    header_ok(inv) && forall|k: SourceKind| #[trigger] entries_ok(k, list_of(inv, k))
}

/// A loaded inventory that passes validation.
pub open spec fn accepted(loaded: Result<MacosInventory, String>) -> bool {
    loaded matches Ok(inv) && valid_inventory(inv)
}

/// `text` says why a load was not accepted: the reason it could not be
/// read, or the message of the validation error of what it read.
pub open spec fn rejection_text(loaded: Result<MacosInventory, String>, text: Seq<char>) -> bool {
    match loaded {
        Err(t) => text == t@,
        Ok(inv) => exists|e: InventoryError| inventory_verdict(inv, Err(e)) && text == inventory_error_message(e),
    }
}

/// A loaded inventory whose tool count fits in `usize`.
pub open spec fn countable(loaded: Result<MacosInventory, String>) -> bool {
    loaded matches Ok(inv) ==> spec_item_count(inv) <= usize::MAX
}

/// An inventory with no tools: schema version 0, no capture time, empty lists.
pub open spec fn is_empty_inventory(inv: MacosInventory) -> bool {
    &&& inv.schema_version == 0
    &&& inv.captured_at@.len() == 0
    &&& inv.homebrew_formulae@.len() == 0
    &&& inv.homebrew_casks@.len() == 0
    &&& inv.homebrew_taps@.len() == 0
    &&& inv.cargo_packages@.len() == 0
    &&& inv.npm_globals@.len() == 0
    &&& inv.uv_tools@.len() == 0
    &&& inv.vscode_extensions@.len() == 0
    &&& inv.cursor_extensions@.len() == 0
    &&& inv.warnings@.len() == 0
}

pub fn empty_inventory() -> (r: MacosInventory)
    ensures
        is_empty_inventory(r),
{
    MacosInventory {
        schema_version: 0,
        captured_at: String::new(),
        homebrew_formulae: Vec::new(),
        homebrew_casks: Vec::new(),
        homebrew_taps: Vec::new(),
        cargo_packages: Vec::new(),
        npm_globals: Vec::new(),
        uv_tools: Vec::new(),
        vscode_extensions: Vec::new(),
        cursor_extensions: Vec::new(),
        warnings: Vec::new(),
    }
}

/// The inventory the deployer starts from, the warning to log about it, and
/// the error that keeps a run from starting.
pub struct StartupInventory {
    pub inventory: MacosInventory,
    pub warning: Option<String>,
    pub error: Option<String>,
}

pub open spec fn fallback_warning(reason: Seq<char>) -> Seq<char> {
    "本机 Mac 清单缓存无效（"@ + reason + "）；已退回内置清单，请联网更新"@
}

pub open spec fn no_inventory_error(reason: Seq<char>, bundled_reason: Seq<char>) -> Seq<char> {
    "本机及内置 Mac 清单均无效："@ + reason + "；"@ + bundled_reason
}

/// The message of the inventory's validation error, if it has one.
fn validation_problem(inv: &MacosInventory) -> (r: Option<String>)
    requires
        spec_item_count(*inv) <= usize::MAX,
    ensures
        valid_inventory(*inv) <==> r is None,
        r matches Some(t) ==> rejection_text(Ok::<MacosInventory, String>(*inv), t@),
{
    match inv.validate() {
        Ok(()) => None,
        Err(e) => {
            let text = e.message();
            proof {
                assert(inventory_verdict(*inv, Err(e)) && text@ == inventory_error_message(e));
                match e {
                    InventoryError::InvalidEntry { kind, value } => {
                        let i = choose|i: int| #[trigger] first_bad_entry(kind, list_of(*inv, kind), i)
                            && value@ == list_of(*inv, kind)[i];
                        assert(!entry_ok(kind, list_of(*inv, kind), i));
                        assert(!entries_ok(kind, list_of(*inv, kind)));
                    },
                    InventoryError::InvalidHeader => {},
                }
            }
            Some(text)
        },
    }
}

/// Chooses the inventory the deployer starts from. `primary` is what loading
/// the cached inventory gave (or, without a cache, the bundled one) and
/// `bundled` what reading the bundled inventory gave. The primary one is
/// used when it passes validation; else the bundled one, with a warning
/// that names why the primary one was refused. When the bundled one is
/// refused too, the error names both reasons and the bundled inventory is
/// kept as read, or an empty one when it could not be read.
pub fn startup_inventory(primary: Result<MacosInventory, String>, bundled: Result<MacosInventory, String>) -> (r: StartupInventory)
    requires
        countable(primary),
        countable(bundled),
    ensures
        accepted(primary) ==> primary == Ok::<MacosInventory, String>(r.inventory) && r.warning is None && r.error is None,
        !accepted(primary) && accepted(bundled) ==> {
            &&& bundled == Ok::<MacosInventory, String>(r.inventory)
            &&& r.error is None
            &&& r.warning matches Some(w) && exists|reason: Seq<char>| #[trigger] rejection_text(primary, reason)
                && w@ == fallback_warning(reason)
        },
        !accepted(primary) && !accepted(bundled) ==> {
            &&& (bundled matches Ok(b) ==> r.inventory == b)
            &&& (bundled is Err ==> is_empty_inventory(r.inventory))
            &&& r.warning is None
            &&& r.error matches Some(m) && exists|reason: Seq<char>, bundled_reason: Seq<char>|
                #[trigger] rejection_text(primary, reason) && #[trigger] rejection_text(bundled, bundled_reason)
                    && m@ == no_inventory_error(reason, bundled_reason)
        },
{
    let ghost p0 = primary;
    let ghost b0 = bundled;
    let reason = match primary {
        Ok(inv) => match validation_problem(&inv) {
            None => return StartupInventory { inventory: inv, warning: None, error: None },
            Some(text) => text,
        },
        Err(t) => t,
    };
    proof {
        assert(rejection_text(p0, reason@));
    }
    let (inventory, bundled_reason) = match bundled {
        Ok(inv) => match validation_problem(&inv) {
            None => {
                let mut warning = "本机 Mac 清单缓存无效（".to_owned();
                warning.append(reason.as_str());
                warning.append("）；已退回内置清单，请联网更新");
                return StartupInventory { inventory: inv, warning: Some(warning), error: None };
            },
            Some(text) => (inv, text),
        },
        Err(t) => (empty_inventory(), t),
    };
    proof {
        assert(rejection_text(b0, bundled_reason@));
    }
    let mut error = "本机及内置 Mac 清单均无效：".to_owned();
    error.append(reason.as_str());
    error.append("；");
    error.append(bundled_reason.as_str());
    StartupInventory { inventory, warning: None, error: Some(error) }
}

/// The line logged when a newer inventory was fetched: its tool count and
/// capture time.
pub fn inventory_refreshed_message(inv: &MacosInventory) -> (r: String)
    requires
        spec_item_count(*inv) <= usize::MAX,
    ensures
        r@ == "Mac 清单已更新："@ + crate::text::decimal(spec_item_count(*inv) as nat) + " 项，采集于 "@ + inv.captured_at@,
{
    let mut out = "Mac 清单已更新：".to_owned();
    out.append(crate::text::decimal_string(inv.item_count() as u64).as_str());
    out.append(" 项，采集于 ");
    out.append(inv.captured_at.as_str());
    out
}

} // verus!

//! Decisions of the installer that read package-manager output.
use vstd::prelude::*;
use crate::text::{chars_of, is_ws, is_ws_char, lines, lines_of, lower_chars, lower_seq, trim_bounds, trim_start};

verus! {

/// The line lists the package: lower-cased and without leading white space,
/// it starts with the lower-cased name followed by a white-space character.
pub open spec fn lists_package(line: Seq<char>, name: Seq<char>) -> bool {
    let l = lower_seq(trim_start(line));
    let n = lower_seq(name);
    l.len() > n.len() && l.take(n.len() as int) == n && is_ws(l[n.len() as int])
}

fn line_lists(line: &[char], name_lower: &[char], Ghost(name): Ghost<Seq<char>>) -> (r: bool)
    requires
        name_lower@ == lower_seq(name),
    ensures
        r == lists_package(line@, name),
{
    let (a, _) = trim_bounds(line);
    let rest = crate::text::copy_range(line, a, line.len());
    assert(rest@ == trim_start(line@));
    let l = lower_chars(rest.as_slice());
    if l.len() <= name_lower.len() {
        return false;
    }
    let mut k: usize = 0;
    while k < name_lower.len()
        invariant
            k <= name_lower.len() < l.len(),
            l@ == lower_seq(trim_start(line@)),
            name_lower@ == lower_seq(name),
            forall|j: int| 0 <= j < k ==> l@[j] == name_lower@[j],
        decreases name_lower.len() - k,
    {
        if l[k] != name_lower[k] {
            assert(l@.take(name_lower@.len() as int)[k as int] != name_lower@[k as int]);
            return false;
        }
        k = k + 1;
    }
    assert(l@.take(name_lower@.len() as int) =~= name_lower@);
    is_ws_char(l[name_lower.len()])
}

/// Whether a package manager's list output names the package exactly: some
/// line starts with the name (ignoring leading white space and ASCII case)
/// followed by white space, so `kimi` does not match `kimi-cli`.
pub fn package_is_listed(output: &str, name: &str) -> (r: bool)
    ensures
        r == exists|k: int| 0 <= k < lines(output@).len() && lists_package(#[trigger] lines(output@)[k], name@),
{
    let name_lower = lower_chars(chars_of(name).as_slice());
    let ls = lines_of(chars_of(output).as_slice());
    let ghost all = lines(output@);
    let mut i: usize = 0;
    while i < ls.len()
        invariant
            i <= ls.len(),
            all == lines(output@),
            name_lower@ == lower_seq(name@),
            ls@.len() == all.len(),
            forall|k: int| 0 <= k < ls@.len() ==> #[trigger] ls@[k]@ == all[k],
            forall|k: int| 0 <= k < i ==> !lists_package(#[trigger] all[k], name@),
        decreases ls.len() - i,
    {
        assert(ls@[i as int]@ == all[i as int]);
        if line_lists(ls[i].as_slice(), name_lower.as_slice(), Ghost(name@)) {
            return true;
        }
        i = i + 1;
    }
    false
}

} // verus!

//! The registry hives the deployer writes to, and the user `Path` value.
use vstd::prelude::*;
use crate::text::{chars_of, contains_char, eq_ci, eq_ci_chars, first_index_of, is_blank, is_blank_str, trim, trim_chars};

verus! {

#[derive(Debug, Clone, Copy, PartialEq, Eq, Structural)]
pub enum RegistryHive {
    CurrentUser,
    LocalMachine,
}

/// The pieces of `s` between the separators `c` (what `str::split(c)` yields).
pub open spec fn split_on(s: Seq<char>, c: char) -> Seq<Seq<char>>
    decreases s.len(),
{
    match first_index_of(s, c) {
        None => seq![s],
        Some(i) => {
            proof {
                crate::text::lemma_first_index_of(s, c);
            }
            seq![s.take(i)] + split_on(s.skip(i + 1), c)
        },
    }
}

/// Some `;`-separated entry of `current`, trimmed, equals `candidate` up to ASCII case.
pub open spec fn path_has_entry(current: Seq<char>, candidate: Seq<char>) -> bool {
    let parts = split_on(current, ';');
    exists|k: int| 0 <= k < parts.len() && eq_ci(trim(#[trigger] parts[k]), candidate)
}

/// The `;`-separated entries of a text.
pub fn split_chars(s: &[char], c: char) -> (r: Vec<Vec<char>>)
    ensures
        r@.len() == split_on(s@, c).len(),
        forall|k: int| 0 <= k < r@.len() ==> #[trigger] r@[k]@ == split_on(s@, c)[k],
{
    let mut out: Vec<Vec<char>> = Vec::new();
    let ghost mut done: Seq<Seq<char>> = Seq::empty();
    let mut start: usize = 0;
    let mut i: usize = 0;
    assert(s@.skip(0) == s@);
    assert(done + split_on(s@, c) == split_on(s@, c));
    while i < s.len()
        invariant
            start <= i <= s.len(),
            out@.len() == done.len(),
            forall|k: int| 0 <= k < out@.len() ==> #[trigger] out@[k]@ == done[k],
            split_on(s@, c) == done + split_on(s@.skip(start as int), c),
            forall|j: int| start <= j < i ==> s@[j] != c,
        decreases s.len() - i,
    {
        if s[i] == c {
            let ghost t = s@.skip(start as int);
            proof {
                assert forall|j: int| 0 <= j < i - start implies t[j] != c by {
                    assert(t[j] == s@[start + j]);
                }
                crate::text::lemma_first_index_is(t, c, i - start);
                assert(t.skip(i - start + 1) == s@.skip(i + 1));
                assert(t.take(i - start) == s@.subrange(start as int, i as int));
            }
            let piece = crate::text::copy_range(s, start, i);
            proof {
                assert(split_on(t, c) == seq![t.take(i - start)] + split_on(s@.skip(i + 1), c));
                assert(done.push(piece@) + split_on(s@.skip(i + 1), c) == done + split_on(t, c));
                done = done.push(piece@);
            }
            out.push(piece);
            start = i + 1;
        }
        i = i + 1;
    }
    let ghost t = s@.skip(start as int);
    proof {
        assert forall|j: int| 0 <= j < t.len() implies t[j] != c by {
            assert(t[j] == s@[start + j]);
        }
        crate::text::lemma_first_index_none(t, c);
        assert(split_on(t, c) == seq![t]);
    }
    let piece = crate::text::copy_range(s, start, s.len());
    proof {
        assert(piece@ == t);
        done = done.push(t);
    }
    out.push(piece);
    out
}

/// The user `Path` value with `candidate` put first, or `None` when some
/// entry already names it (up to ASCII case and surrounding white space).
/// A blank value becomes `candidate` alone.
pub fn path_with_entry(current: &str, candidate: &str) -> (r: Option<String>)
    ensures
        match r {
            None => path_has_entry(current@, candidate@),
            Some(updated) => !path_has_entry(current@, candidate@) && updated@ == if is_blank(current@) {
                candidate@
            } else {
                candidate@ + ";"@ + current@
            },
        },
{
    let wanted = chars_of(candidate);
    let parts = split_chars(chars_of(current).as_slice(), ';');
    let ghost all = split_on(current@, ';');
    let mut k: usize = 0;
    while k < parts.len()
        invariant
            k <= parts.len(),
            wanted@ == candidate@,
            all == split_on(current@, ';'),
            parts@.len() == all.len(),
            forall|m: int| 0 <= m < parts@.len() ==> #[trigger] parts@[m]@ == all[m],
            forall|m: int| 0 <= m < k ==> !eq_ci(trim(#[trigger] all[m]), candidate@),
        decreases parts.len() - k,
    {
        assert(parts@[k as int]@ == all[k as int]);
        if eq_ci_chars(trim_chars(parts[k].as_slice()).as_slice(), wanted.as_slice()) {
            return None;
        }
        k = k + 1;
    }
    if is_blank_str(current) {
        Some(candidate.to_owned())
    } else {
        let mut updated = candidate.to_owned();
        updated.append(";");
        updated.append(current);
        Some(updated)
    }
}

/// Adding a directory to the user `Path` is done once: the value it gives
/// already names the directory, so adding it again changes nothing. This
/// holds for a directory without `;` and without white space at either end.
pub proof fn added_path_entry_is_found(current: Seq<char>, candidate: Seq<char>)
    requires
        !contains_char(candidate, ';'),
        trim(candidate) == candidate,
    ensures
        path_has_entry(if is_blank(current) { candidate } else { candidate + ";"@ + current }, candidate),
{
    let updated = if is_blank(current) { candidate } else { candidate + ";"@ + current };
    assert(";"@ == seq![';']) by {
        reveal_strlit(";");
    }
    if is_blank(current) {
        crate::text::lemma_first_index_none(candidate, ';');
        assert(split_on(candidate, ';') == seq![candidate]);
    } else {
        crate::text::lemma_first_index_is(updated, ';', candidate.len() as int);
        assert(updated.take(candidate.len() as int) =~= candidate);
        assert(split_on(updated, ';')[0] == candidate);
    }
    let parts = split_on(updated, ';');
    assert(eq_ci(trim(parts[0]), candidate));
}

/// Splitting two texts joined by a separator gives the pieces of the first
/// followed by the pieces of the second.
proof fn lemma_split_joined(a: Seq<char>, b: Seq<char>, c: char)
    ensures
        split_on(a + seq![c] + b, c) == split_on(a, c) + split_on(b, c),
    decreases a.len(),
{
    let s = a + seq![c] + b;
    crate::text::lemma_first_index_of(a, c);
    match first_index_of(a, c) {
        Some(i) => {
            assert forall|j: int| 0 <= j < i implies s[j] != c by {
                assert(s[j] == a[j]);
            }
            assert(s[i] == a[i]);
            crate::text::lemma_first_index_is(s, c, i);
            assert(s.take(i) =~= a.take(i));
            assert(s.skip(i + 1) =~= a.skip(i + 1) + seq![c] + b);
            lemma_split_joined(a.skip(i + 1), b, c);
            assert(split_on(s, c) =~= seq![a.take(i)] + (split_on(a.skip(i + 1), c) + split_on(b, c)));
        },
        None => {
            assert forall|j: int| 0 <= j < a.len() implies s[j] != c by {
                assert(s[j] == a[j]);
            }
            assert(s[a.len() as int] == c);
            crate::text::lemma_first_index_is(s, c, a.len() as int);
            assert(s.take(a.len() as int) =~= a);
            assert(s.skip(a.len() as int + 1) =~= b);
            assert(split_on(a, c) == seq![a]);
        },
    }
}

/// A `Path` value names a directory exactly when one of its `;`-separated
/// entries, wherever it stands, trimmed, equals the directory up to ASCII
/// case; so `path_with_entry` adds the directory only when no entry does.
pub proof fn any_path_entry_names_the_directory(current: Seq<char>, candidate: Seq<char>)
    ensures
        path_has_entry(current, candidate) <==> exists|k: int|
            0 <= k < split_on(current, ';').len() && eq_ci(trim(#[trigger] split_on(current, ';')[k]), candidate),
{
}

/// A directory that stands between two other parts of the `Path` value is
/// found there: `path_with_entry` leaves such a value unchanged, whatever
/// comes before and after the entry.
pub proof fn entry_between_others_is_found(before: Seq<char>, entry: Seq<char>, after: Seq<char>, candidate: Seq<char>)
    requires
        !contains_char(entry, ';'),
        eq_ci(trim(entry), candidate),
    ensures
        path_has_entry(before + ";"@ + entry + ";"@ + after, candidate),
{
    assert(";"@ == seq![';']) by {
        reveal_strlit(";");
    }
    let rest = entry + seq![';'] + after;
    assert(before + ";"@ + entry + ";"@ + after =~= before + seq![';'] + rest);
    lemma_split_joined(before, rest, ';');
    lemma_split_joined(entry, after, ';');
    assert forall|j: int| 0 <= j < entry.len() implies entry[j] != ';' by {}
    crate::text::lemma_first_index_none(entry, ';');
    assert(split_on(entry, ';') == seq![entry]);
    let parts = split_on(before + ";"@ + entry + ";"@ + after, ';');
    let k = split_on(before, ';').len() as int;
    assert(parts[k] == entry);
    assert(eq_ci(trim(parts[k]), candidate));
}

} // verus!

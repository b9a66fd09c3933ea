//! Updates of user configuration files that keep the user's own content: a
//! managed block between two marker lines, and keys of an INI section.
use vstd::prelude::*;
use crate::text::{
    chars_of, contains_char, eq_ci, eq_ci_chars, find, find_chars, occurs_at, is_blank, is_blank_chars, lines, lines_of,
    string_of, trim, trim_chars, trim_end, trim_bounds, first_index_of, lemma_first_index_of,
};

verus! {

pub open spec fn is_newline(c: char) -> bool {
    c == '\r' || c == '\n'
}

/// The text without `'\r'` and `'\n'` at either end (what
/// `trim_matches(['\r', '\n'])` leaves).
pub open spec fn trim_newlines(s: Seq<char>) -> Seq<char>
    decreases s.len(),
{
    if s.len() > 0 && is_newline(s[0]) {
        trim_newlines(s.drop_first())
    } else if s.len() > 0 && is_newline(s.last()) {
        trim_newlines(s.drop_last())
    } else {
        s
    }
}

/// The managed block: start marker, body, end marker, each on its own line.
pub open spec fn managed_block(start: Seq<char>, end: Seq<char>, body: Seq<char>) -> Seq<char> {
    start.push('\n') + trim_newlines(body) + seq!['\n'] + end
}

/// The text with the managed block put in: in place of the span from the
/// first start marker to the first end marker when both occur in that order,
/// otherwise appended after the text (set off by a blank line), or alone when
/// the text is blank.
pub open spec fn with_managed_block(existing: Seq<char>, start: Seq<char>, end: Seq<char>, body: Seq<char>) -> Seq<char> {
    let block = managed_block(start, end, body);
    match (find(existing, start), find(existing, end)) {
        (Some(s), Some(e)) if e >= s => existing.take(s) + block + existing.skip(e + end.len()),
        _ => if is_blank(existing) {
            block.push('\n')
        } else {
            trim_end(existing) + seq!['\n', '\n'] + block.push('\n')
        },
    }
}


/// The text without newline characters at either end.
pub fn trim_newlines_chars(s: &[char]) -> (r: Vec<char>)
    ensures
        r@ == trim_newlines(s@),
{
    let mut a: usize = 0;
    let mut b: usize = s.len();
    assert(s@.subrange(0, s@.len() as int) == s@);
    while a < b && (s[a] == '\r' || s[a] == '\n' || s[b - 1] == '\r' || s[b - 1] == '\n')
        invariant
            a <= b <= s.len(),
            trim_newlines(s@) == trim_newlines(s@.subrange(a as int, b as int)),
        decreases b - a,
    {
        let ghost t = s@.subrange(a as int, b as int);
        if s[a] == '\r' || s[a] == '\n' {
            assert(t.drop_first() == s@.subrange(a + 1, b as int));
            a = a + 1;
        } else {
            assert(t.drop_last() == s@.subrange(a as int, b - 1));
            b = b - 1;
        }
    }
    crate::text::copy_range(s, a, b)
}

/// The text of `existing` with the managed block put in, or `None` when that
/// is what `existing` already holds.
pub fn managed_block_update(existing: &str, start_marker: &str, end_marker: &str, body: &str) -> (r: Option<String>)
    ensures
        match r {
            Some(updated) => updated@ == with_managed_block(existing@, start_marker@, end_marker@, body@)
                && updated@ != existing@,
            None => with_managed_block(existing@, start_marker@, end_marker@, body@) == existing@,
        },
{
    let text = chars_of(existing);
    let start = chars_of(start_marker);
    let end = chars_of(end_marker);
    let core = trim_newlines_chars(chars_of(body).as_slice());
    let mut block = start.clone();
    block.push('\n');
    let mut k: usize = 0;
    while k < core.len()
        invariant
            k <= core.len(),
            block@ == start@.push('\n') + core@.take(k as int),
        decreases core.len() - k,
    {
        block.push(core[k]);
        assert(core@.take(k + 1) == core@.take(k as int).push(core@[k as int]));
        k = k + 1;
    }
    assert(core@.take(core.len() as int) == core@);
    block.push('\n');
    let ghost before_end = block@;
    let mut k: usize = 0;
    while k < end.len()
        invariant
            k <= end.len(),
            block@ == before_end + end@.take(k as int),
        decreases end.len() - k,
    {
        block.push(end[k]);
        assert(end@.take(k + 1) == end@.take(k as int).push(end@[k as int]));
        k = k + 1;
    }
    assert(end@.take(end.len() as int) == end@);
    assert(block@ =~= managed_block(start_marker@, end_marker@, body@));
    let mut updated: Vec<char> = Vec::new();
    let found_start = find_chars(text.as_slice(), start.as_slice());
    let found_end = find_chars(text.as_slice(), end.as_slice());
    let mut replaced = false;
    match (found_start, found_end) {
        (Some(s), Some(e)) => {
            if e >= s {
                proof {
                    crate::text::lemma_find_bounds(text@, end@, 0);
                    assert(crate::text::find_from(text@, end@, 0) == Some(e as int));
                    assert(crate::text::occurs_at(text@, end@, e as int));
                }
                assert(e + end.len() <= text.len());
                updated = crate::text::copy_range(text.as_slice(), 0, s);
                append_chars(&mut updated, block.as_slice());
                let tail_start = e + end.len();
                let tail = crate::text::copy_range(text.as_slice(), tail_start, text.len());
                append_chars(&mut updated, tail.as_slice());
                replaced = true;
            }
        },
        _ => {},
    }
    if !replaced {
        if is_blank_chars(text.as_slice()) {
            updated = block.clone();
            updated.push('\n');
        } else {
            let b = crate::text::trim_end_len(text.as_slice());
            updated = crate::text::copy_range(text.as_slice(), 0, b);
            updated.push('\n');
            updated.push('\n');
            append_chars(&mut updated, block.as_slice());
            updated.push('\n');
        }
    }
    let same = crate::inventory::same_chars(updated.as_slice(), text.as_slice());
    if same {
        None
    } else {
        Some(string_of(updated.as_slice()))
    }
}

/// Appends characters to a vector.
pub fn append_chars(v: &mut Vec<char>, more: &[char])
    ensures
        final(v)@ == old(v)@ + more@,
{
    let ghost start = v@;
    let mut k: usize = 0;
    while k < more.len()
        invariant
            k <= more.len(),
            v@ == start + more@.take(k as int),
        decreases more.len() - k,
    {
        v.push(more[k]);
        assert(more@.take(k + 1) == more@.take(k as int).push(more@[k as int]));
        k = k + 1;
    }
    assert(more@.take(more.len() as int) == more@);
}


/// A line that opens an INI section: trimmed, it starts with `[` and ends with `]`.
pub open spec fn is_section_header(line: Seq<char>) -> bool {
    let t = trim(line);
    t.len() > 0 && t[0] == '[' && t.last() == ']'
}

/// The index of the first line at or after `from` whose trimmed text equals
/// `header` up to ASCII case.
pub open spec fn header_index_from(ls: Seq<Seq<char>>, header: Seq<char>, from: int) -> Option<int>
    decreases ls.len() - from,
{
    if from < 0 || from >= ls.len() {
        None
    } else if eq_ci(trim(ls[from]), header) {
        Some(from)
    } else {
        header_index_from(ls, header, from + 1)
    }
}

/// The index of the first section header at or after `from`, or the number of lines.
pub open spec fn next_header_from(ls: Seq<Seq<char>>, from: int) -> int
    decreases ls.len() - from,
{
    if from < 0 || from >= ls.len() {
        ls.len() as int
    } else if is_section_header(ls[from]) {
        from
    } else {
        next_header_from(ls, from + 1)
    }
}

/// The line sets `key`: the text before its first `=`, trimmed, equals `key`
/// up to ASCII case.
pub open spec fn line_sets_key(line: Seq<char>, key: Seq<char>) -> bool {
    match first_index_of(line, '=') {
        Some(i) => eq_ci(trim(line.take(i)), key),
        None => false,
    }
}

/// The index of the first line in `[from, to)` that sets `key`.
pub open spec fn key_line_from(ls: Seq<Seq<char>>, key: Seq<char>, from: int, to: int) -> Option<int>
    decreases to - from,
{
    if from < 0 || from >= to || to > ls.len() {
        None
    } else if line_sets_key(ls[from], key) {
        Some(from)
    } else {
        key_line_from(ls, key, from + 1, to)
    }
}

pub open spec fn setting_line(key: Seq<char>, value: Seq<char>) -> Seq<char> {
    key + " = "@ + value
}

/// The lines after setting each key of `values` in turn, within the section
/// that spans lines `[start, end)`: an existing line for the key is replaced,
/// otherwise the setting is added at the end of the section.
pub open spec fn apply_settings(ls: Seq<Seq<char>>, start: int, end: int, values: Seq<(Seq<char>, Seq<char>)>) -> Seq<Seq<char>>
    decreases values.len(),
{
    if values.len() == 0 {
        ls
    } else {
        let key = values[0].0;
        let line = setting_line(key, values[0].1);
        match key_line_from(ls, key, start, end) {
            Some(i) => apply_settings(ls.update(i, line), start, end, values.drop_first()),
            None => apply_settings(ls.insert(end, line), start, end + 1, values.drop_first()),
        }
    }
}

/// Each line followed by a newline (an empty text for no lines).
pub open spec fn join_lines(ls: Seq<Seq<char>>) -> Seq<char>
    decreases ls.len(),
{
    if ls.len() == 0 {
        Seq::empty()
    } else {
        join_lines(ls.drop_last()) + ls.last().push('\n')
    }
}

/// The lines of the INI text after the settings: in the first section whose
/// header matches (up to ASCII case), or in a new section appended at the end
/// after a blank line.
pub open spec fn ini_lines(existing: Seq<char>, section: Seq<char>, values: Seq<(Seq<char>, Seq<char>)>) -> Seq<Seq<char>> {
    let ls = lines(existing);
    let header = "["@ + section + "]"@;
    match header_index_from(ls, header, 0) {
        Some(s) => apply_settings(ls, s + 1, next_header_from(ls, s + 1), values),
        None => {
            let padded = if ls.len() > 0 && ls.last().len() > 0 { ls.push(Seq::empty()) } else { ls };
            let with_header = padded.push(header);
            apply_settings(with_header, with_header.len() as int, with_header.len() as int, values)
        },
    }
}

pub open spec fn settings_view(values: Seq<(&str, &str)>) -> Seq<(Seq<char>, Seq<char>)> {
    Seq::new(values.len(), |i: int| (values[i].0@, values[i].1@))
}

/// The characters of each line.
pub open spec fn view_lines(ls: Seq<Vec<char>>) -> Seq<Seq<char>> {
    Seq::new(ls.len(), |i: int| ls[i]@)
}


fn line_is_section_header(line: &[char]) -> (r: bool)
    ensures
        r == is_section_header(line@),
{
    let t = trim_chars(line);
    t.len() > 0 && t[0] == '[' && t[t.len() - 1] == ']'
}

fn trimmed_eq_ci(line: &[char], header: &[char]) -> (r: bool)
    ensures
        r == eq_ci(trim(line@), header@),
{
    eq_ci_chars(trim_chars(line).as_slice(), header)
}

fn line_sets(line: &[char], key: &[char]) -> (r: bool)
    ensures
        r == line_sets_key(line@, key@),
{
    let mut i: usize = 0;
    while i < line.len() && line[i] != '='
        invariant
            i <= line.len(),
            forall|j: int| 0 <= j < i ==> line@[j] != '=',
        decreases line.len() - i,
    {
        i = i + 1;
    }
    if i == line.len() {
        proof {
            crate::text::lemma_first_index_none(line@, '=');
        }
        false
    } else {
        proof {
            crate::text::lemma_first_index_is(line@, '=', i as int);
        }
        let candidate = crate::text::copy_range(line, 0, i);
        eq_ci_chars(trim_chars(candidate.as_slice()).as_slice(), key)
    }
}

/// The INI text with the given keys set in the given section, or `None`
/// when the text already reads so.
pub fn ini_update(existing: &str, section: &str, values: &[(&str, &str)]) -> (r: Option<String>)
    ensures
        match r {
            Some(updated) => updated@ == join_lines(ini_lines(existing@, section@, settings_view(values@)))
                && updated@ != existing@,
            None => join_lines(ini_lines(existing@, section@, settings_view(values@))) == existing@,
        },
{
    let text = chars_of(existing);
    let ls0 = lines_of(text.as_slice());
    let mut ls: Vec<Vec<char>> = ls0;
    let ghost spec_ls = lines(existing@);
    assert(view_lines(ls@) =~= spec_ls) by {
        assert forall|k: int| 0 <= k < ls@.len() implies view_lines(ls@)[k] == spec_ls[k] by {
            assert(ls@[k]@ == spec_ls[k]);
        }
    }
    let mut header = "[".to_owned();
    header.append(section);
    header.append("]");
    let header_chars = chars_of(header.as_str());
    let mut s: usize = 0;
    while s < ls.len() && !trimmed_eq_ci(ls[s].as_slice(), header_chars.as_slice())
        invariant
            s <= ls.len(),
            view_lines(ls@) == spec_ls,
            header_chars@ == "["@ + section@ + "]"@,
            header_index_from(spec_ls, header_chars@, 0) == header_index_from(spec_ls, header_chars@, s as int),
        decreases ls.len() - s,
    {
        assert(spec_ls[s as int] == ls@[s as int]@);
        s = s + 1;
    }
    let found = s < ls.len();
    if found {
        assert(spec_ls[s as int] == ls@[s as int]@);
    }
    let ghost located = header_index_from(spec_ls, header_chars@, 0);
    let mut start: usize;
    let mut end: usize;
    if found {
        assert(located == Some(s as int));
        start = s + 1;
        end = start;
        while end < ls.len() && !line_is_section_header(ls[end].as_slice())
            invariant
                start <= end <= ls.len(),
                view_lines(ls@) == spec_ls,
                next_header_from(spec_ls, start as int) == next_header_from(spec_ls, end as int),
            decreases ls.len() - end,
        {
            assert(spec_ls[end as int] == ls@[end as int]@);
            end = end + 1;
        }
        if end < ls.len() {
            assert(spec_ls[end as int] == ls@[end as int]@);
        }
    } else {
        assert(located is None);
        let ghost padded = if spec_ls.len() > 0 && spec_ls.last().len() > 0 { spec_ls.push(Seq::empty()) } else { spec_ls };
        if ls.len() > 0 && ls[ls.len() - 1].len() > 0 {
            assert(spec_ls.last() == ls@[ls@.len() - 1]@);
            ls.push(Vec::new());
            assert(view_lines(ls@) =~= spec_ls.push(Seq::empty()));
        } else {
            if ls.len() > 0 {
                assert(spec_ls.last() == ls@[ls@.len() - 1]@);
            }
        }
        assert(view_lines(ls@) == padded);
        let hc = header_chars.clone();
        ls.push(hc);
        assert(view_lines(ls@) =~= padded.push(header_chars@));
        start = ls.len();
        end = ls.len();
    }
    let ghost base = view_lines(ls@);
    proof {
        if found {
            assert(base == spec_ls);
        } else {
            let padded = if spec_ls.len() > 0 && spec_ls.last().len() > 0 { spec_ls.push(Seq::empty()) } else { spec_ls };
            assert(base == padded.push(header_chars@));
        }
    }
    let ghost target = apply_settings(base, start as int, end as int, settings_view(values@));
    assert(target == ini_lines(existing@, section@, settings_view(values@)));
    assert(settings_view(values@).skip(0) =~= settings_view(values@));
    let mut n: usize = 0;
    while n < values.len()
        invariant
            n <= values.len(),
            start <= end <= ls@.len(),
            target == apply_settings(view_lines(ls@), start as int, end as int, settings_view(values@).skip(n as int)),
        decreases values.len() - n,
    {
        let (key, value) = values[n];
        let key_chars = chars_of(key);
        let mut line = key_chars.clone();
        append_chars(&mut line, chars_of(" = ").as_slice());
        append_chars(&mut line, chars_of(value).as_slice());
        let ghost vs = settings_view(values@).skip(n as int);
        assert(vs[0] == (key@, value@));
        assert(vs.drop_first() == settings_view(values@).skip(n + 1));
        assert(line@ == setting_line(key@, value@));
        let mut i = start;
        let ghost cur = view_lines(ls@);
        while i < end && !line_sets(ls[i].as_slice(), key_chars.as_slice())
            invariant
                start <= i <= end <= ls@.len(),
                cur == view_lines(ls@),
                key_chars@ == key@,
                key_line_from(cur, key@, start as int, end as int) == key_line_from(cur, key@, i as int, end as int),
            decreases end - i,
        {
            assert(cur[i as int] == ls@[i as int]@);
            i = i + 1;
        }
        let ghost lv = line@;
        if i < end {
            assert(cur[i as int] == ls@[i as int]@);
            ls.set(i, line);
            assert(view_lines(ls@) =~= cur.update(i as int, lv));
        } else {
            ls.insert(end, line);
            assert(view_lines(ls@) =~= cur.insert(end as int, lv));
            let new_len = ls.len();
            assert(end < new_len);
            end = end + 1;
        }
        n = n + 1;
    }
    assert(settings_view(values@).skip(values.len() as int) =~= Seq::<(Seq<char>, Seq<char>)>::empty());
    let mut out: Vec<char> = Vec::new();
    let mut k: usize = 0;
    while k < ls.len()
        invariant
            k <= ls.len(),
            out@ == join_lines(view_lines(ls@).take(k as int)),
        decreases ls.len() - k,
    {
        append_chars(&mut out, ls[k].as_slice());
        out.push('\n');
        assert(view_lines(ls@).take(k + 1).drop_last() == view_lines(ls@).take(k as int));
        k = k + 1;
    }
    assert(view_lines(ls@).take(ls.len() as int) == view_lines(ls@));
    if crate::inventory::same_chars(out.as_slice(), text.as_slice()) {
        None
    } else {
        Some(string_of(out.as_slice()))
    }
}

/// `find` gives the first place where the needle occurs.
pub proof fn lemma_find_first(hay: Seq<char>, needle: Seq<char>, from: int)
    requires
        0 <= from,
    ensures
        match crate::text::find_from(hay, needle, from) {
            Some(p) => from <= p && occurs_at(hay, needle, p)
                && forall|q: int| from <= q < p ==> !#[trigger] occurs_at(hay, needle, q),
            None => forall|q: int| from <= q ==> !#[trigger] occurs_at(hay, needle, q),
        },
    decreases hay.len() + 1 - from,
{
    if from + needle.len() > hay.len() {
    } else if occurs_at(hay, needle, from) {
    } else {
        lemma_find_first(hay, needle, from + 1);
    }
}

proof fn lemma_find_is(hay: Seq<char>, needle: Seq<char>, p: int)
    requires
        0 <= p,
        occurs_at(hay, needle, p),
        forall|q: int| 0 <= q < p ==> !#[trigger] occurs_at(hay, needle, q),
    ensures
        find(hay, needle) == Some(p),
{
    lemma_find_first(hay, needle, 0);
    match find(hay, needle) {
        Some(p2) => {
            if p2 < p {
                assert(!occurs_at(hay, needle, p2));
            } else if p < p2 {
                assert(!occurs_at(hay, needle, p));
            }
        },
        None => {
            assert(!occurs_at(hay, needle, p));
        },
    }
}

/// Two texts that agree on their first `l` characters hold the same
/// occurrences inside that stretch.
proof fn lemma_window_same(a: Seq<char>, b: Seq<char>, n: Seq<char>, q: int, l: int)
    requires
        0 <= q,
        q + n.len() <= l,
        l <= a.len(),
        l <= b.len(),
        a.take(l) == b.take(l),
    ensures
        occurs_at(a, n, q) == occurs_at(b, n, q),
{
    assert(a.subrange(q, q + n.len()) == a.take(l).subrange(q, q + n.len()));
    assert(b.subrange(q, q + n.len()) == b.take(l).subrange(q, q + n.len()));
}

/// An occurrence that covers a newline of the text has a newline itself.
proof fn lemma_window_newline(h: Seq<char>, n: Seq<char>, q: int, k: int)
    requires
        occurs_at(h, n, q),
        q <= k < q + n.len(),
        h[k] == '\n',
    ensures
        contains_char(n, '\n'),
{
    assert(n[k - q] == h.subrange(q, q + n.len())[k - q]);
}

proof fn lemma_trim_end_prefix(x: Seq<char>)
    ensures
        trim_end(x).len() <= x.len(),
        trim_end(x) == x.take(trim_end(x).len() as int),
    decreases x.len(),
{
    if x.len() > 0 && crate::text::is_ws(x.last()) {
        lemma_trim_end_prefix(x.drop_last());
        assert(x.drop_last().take(trim_end(x).len() as int) == x.take(trim_end(x).len() as int));
    } else {
        assert(x.take(x.len() as int) == x);
    }
}

/// In `w = p + block + r`, no end marker starts before the block's own, given
/// that none lies within `p` and the start marker.
proof fn lemma_end_marker_first(w: Seq<char>, i0: int, start: Seq<char>, end: Seq<char>, t: Seq<char>)
    requires
        0 <= i0,
        i0 + start.len() + t.len() + 2 + end.len() <= w.len(),
        w.subrange(i0, i0 + start.len() + t.len() + 2 + end.len()) == start.push('\n') + t + seq!['\n'] + end,
        !contains_char(end, '\n'),
        find(start, end) is None,
        find(t, end) is None,
        forall|q: int| 0 <= q < i0 && q + end.len() <= i0 + start.len() ==> !#[trigger] occurs_at(w, end, q),
    ensures
        forall|q: int| 0 <= q < i0 + start.len() + t.len() + 2 ==> !#[trigger] occurs_at(w, end, q),
{
    let b = start.push('\n') + t + seq!['\n'] + end;
    let nl1 = i0 + start.len();
    let nl2 = i0 + start.len() + 1 + t.len();
    assert(w[nl1] == b[start.len() as int]);
    assert(w[nl2] == b[(start.len() + 1 + t.len()) as int]);
    lemma_find_first(start, end, 0);
    lemma_find_first(t, end, 0);
    assert forall|q: int| 0 <= q < i0 + start.len() + t.len() + 2 implies !#[trigger] occurs_at(w, end, q) by {
        if occurs_at(w, end, q) {
            if q < i0 {
                if q + end.len() > nl1 {
                    lemma_window_newline(w, end, q, nl1);
                }
            } else if q + end.len() <= nl1 {
                assert forall|j: int| 0 <= j < end.len() implies start[q - i0 + j] == end[j] by {
                    assert(w[q + j] == end[j]);
                    assert(w[q + j] == b[q - i0 + j]);
                }
                assert(start.subrange(q - i0, q - i0 + end.len()) =~= end);
                assert(occurs_at(start, end, q - i0));
            } else if q <= nl1 {
                lemma_window_newline(w, end, q, nl1);
            } else if q + end.len() <= nl2 {
                assert forall|j: int| 0 <= j < end.len() implies t[q - nl1 - 1 + j] == end[j] by {
                    assert(w[q + j] == end[j]);
                    assert(w[q + j] == b[q - i0 + j]);
                }
                assert(t.subrange(q - nl1 - 1, q - nl1 - 1 + end.len()) =~= end);
                assert(occurs_at(t, end, q - nl1 - 1));
            } else {
                lemma_window_newline(w, end, q, nl2);
            }
        }
    }
}

/// Where the block sits in `w`, the second update finds it and puts the
/// same block back.
proof fn lemma_update_finds_block(w: Seq<char>, i0: int, start: Seq<char>, end: Seq<char>, body: Seq<char>)
    requires
        0 <= i0,
        start.len() > 0,
        end.len() > 0,
        i0 + managed_block(start, end, body).len() <= w.len(),
        w.subrange(i0, i0 + managed_block(start, end, body).len()) == managed_block(start, end, body),
        !contains_char(end, '\n'),
        find(start, end) is None,
        find(trim_newlines(body), end) is None,
        forall|q: int| 0 <= q < i0 ==> !#[trigger] occurs_at(w, start, q),
        forall|q: int| 0 <= q < i0 && q + end.len() <= i0 + start.len() ==> !#[trigger] occurs_at(w, end, q),
    ensures
        with_managed_block(w, start, end, body) == w,
{
    let t = trim_newlines(body);
    let b = managed_block(start, end, body);
    let pb = i0 + start.len() + t.len() + 2;
    lemma_end_marker_first(w, i0, start, end, t);
    assert(w.subrange(i0, i0 + start.len()) =~= start) by {
        assert forall|j: int| 0 <= j < start.len() implies w.subrange(i0, i0 + start.len())[j] == start[j] by {
            assert(w[i0 + j] == b[j]);
        }
    }
    assert(w.subrange(pb, pb + end.len()) =~= end) by {
        assert forall|j: int| 0 <= j < end.len() implies w.subrange(pb, pb + end.len())[j] == end[j] by {
            assert(w[pb + j] == b[pb - i0 + j]);
        }
    }
    lemma_find_is(w, start, i0);
    lemma_find_is(w, end, pb);
    assert(w.take(i0) + b + w.skip(pb + end.len()) =~= w) by {
        assert forall|k: int| 0 <= k < w.len() implies (w.take(i0) + b + w.skip(pb + end.len()))[k] == w[k] by {
            if i0 <= k < pb + end.len() {
                assert(w[k] == b[k - i0]);
            }
        }
    }
}

/// Putting the same managed block in a second time changes nothing: the
/// update happens in place. This holds for markers that are not empty and
/// hold no newline, whose end marker occurs neither in the start marker nor
/// in the body, and for a text that holds neither marker or a start marker
/// followed by an end marker.
pub proof fn managed_block_update_is_idempotent(existing: Seq<char>, start: Seq<char>, end: Seq<char>, body: Seq<char>)
    requires
        start.len() > 0,
        end.len() > 0,
        !contains_char(start, '\n'),
        !contains_char(end, '\n'),
        find(start, end) is None,
        find(trim_newlines(body), end) is None,
        (find(existing, start) is None && find(existing, end) is None) || (find(existing, start) matches Some(ps)
            && find(existing, end) matches Some(pe) && pe >= ps),
    ensures
        with_managed_block(with_managed_block(existing, start, end, body), start, end, body)
            == with_managed_block(existing, start, end, body),
{
    let b = managed_block(start, end, body);
    let w = with_managed_block(existing, start, end, body);
    lemma_find_first(existing, start, 0);
    lemma_find_first(existing, end, 0);
    match (find(existing, start), find(existing, end)) {
        (Some(ps), Some(pe)) => {
            let l = ps + start.len();
            assert(w == existing.take(ps) + b + existing.skip(pe + end.len()));
            assert(w.take(l) =~= existing.take(l)) by {
                assert forall|k: int| 0 <= k < l implies w.take(l)[k] == existing.take(l)[k] by {
                    if k >= ps {
                        assert(w[k] == b[k - ps]);
                        assert(existing[k] == existing.subrange(ps, ps + start.len())[k - ps]);
                    }
                }
            }
            assert forall|q: int| 0 <= q < ps implies !#[trigger] occurs_at(w, start, q) by {
                lemma_window_same(w, existing, start, q, l);
            }
            assert forall|q: int| 0 <= q < ps && q + end.len() <= ps + start.len() implies !#[trigger] occurs_at(w, end, q) by {
                lemma_window_same(w, existing, end, q, l);
            }
            assert(w.subrange(ps, ps + b.len()) =~= b);
            lemma_update_finds_block(w, ps, start, end, body);
        },
        _ => {
            if is_blank(existing) {
                assert(w == b.push('\n'));
                assert(w.subrange(0, b.len() as int) =~= b);
                lemma_update_finds_block(w, 0, start, end, body);
            } else {
                let t = trim_end(existing);
                let i0: int = t.len() + 2int;
                lemma_trim_end_prefix(existing);
                assert(w == t + seq!['\n', '\n'] + b.push('\n'));
                assert(w.take(t.len() as int) =~= existing.take(t.len() as int));
                assert(w[t.len() as int] == '\n');
                assert(w[t.len() + 1int] == '\n');
                assert forall|q: int| 0 <= q < i0 implies !#[trigger] occurs_at(w, start, q) by {
                    if occurs_at(w, start, q) {
                        if q + start.len() <= t.len() {
                            lemma_window_same(w, existing, start, q, t.len() as int);
                        } else if q <= t.len() {
                            lemma_window_newline(w, start, q, t.len() as int);
                        } else {
                            lemma_window_newline(w, start, q, t.len() + 1int);
                        }
                    }
                }
                assert forall|q: int| 0 <= q < i0 && q + end.len() <= i0 + start.len() implies !#[trigger] occurs_at(w, end, q) by {
                    if occurs_at(w, end, q) {
                        if q + end.len() <= t.len() {
                            lemma_window_same(w, existing, end, q, t.len() as int);
                        } else if q <= t.len() {
                            lemma_window_newline(w, end, q, t.len() as int);
                        } else {
                            lemma_window_newline(w, end, q, t.len() + 1int);
                        }
                    }
                }
                assert(w.subrange(i0, i0 + b.len() as int) =~= b);
                lemma_update_finds_block(w, i0, start, end, body);
            }
        },
    }
}

} // verus!

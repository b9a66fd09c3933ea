//! Stability of INI updates: once `ini_update` has written a set of settings,
//! writing the same settings into its output changes nothing.
use vstd::prelude::*;
use crate::text::{
    lines, first_index_of, lemma_first_index_of, lemma_first_index_is, strip_cr, trim,
    trim_start, trim_end, is_ws, eq_ci, lower, lower_seq,
};
use crate::textfile::{
    join_lines, setting_line, line_sets_key, key_line_from, header_index_from,
    next_header_from, is_section_header, apply_settings, ini_lines,
};

verus! {

/// A key that its own setting line is found by again: it holds no `=` and
/// has nothing to trim.
pub open spec fn is_plain_key(k: Seq<char>) -> bool {
    &&& trim(k) == k
    &&& forall|j: int| 0 <= j < k.len() ==> k[j] != '='
}

proof fn lemma_join_front(ls: Seq<Seq<char>>)
    requires
        ls.len() > 0,
    ensures
        join_lines(ls) == ls[0].push('\n') + join_lines(ls.drop_first()),
    decreases ls.len(),
{
    if ls.len() == 1 {
        assert(ls.drop_last() =~= Seq::<Seq<char>>::empty());
        assert(ls.drop_first() =~= Seq::<Seq<char>>::empty());
        assert(join_lines(ls) =~= ls[0].push('\n') + join_lines(ls.drop_first()));
    } else {
        lemma_join_front(ls.drop_last());
        assert(ls.drop_last().drop_first() =~= ls.drop_first().drop_last());
        assert(ls.drop_first().last() == ls.last());
        assert(ls.drop_last()[0] == ls[0]);
        let a = ls[0].push('\n');
        let b = join_lines(ls.drop_first().drop_last());
        let c = ls.last().push('\n');
        assert((a + b) + c =~= a + (b + c));
    }
}

/// No line of a text holds a `'\n'`.
proof fn lemma_lines_have_no_newline(s: Seq<char>)
    ensures
        forall|i: int, j: int|
            0 <= i < lines(s).len() && 0 <= j < lines(s)[i].len() ==> #[trigger] lines(s)[i][j]
                != '\n',
    decreases s.len(),
{
    if s.len() > 0 {
        lemma_first_index_of(s, '\n');
        match first_index_of(s, '\n') {
            None => {
                assert(lines(s) == seq![s]);
            },
            Some(k) => {
                let l0 = strip_cr(s.take(k));
                lemma_lines_have_no_newline(s.skip(k + 1));
                assert(lines(s) == seq![l0] + lines(s.skip(k + 1)));
                assert forall|i: int, j: int|
                    0 <= i < lines(s).len() && 0 <= j < lines(s)[i].len() implies #[trigger] lines(
                        s,
                    )[i][j] != '\n' by {
                    if i == 0 {
                        assert(lines(s)[0] == l0);
                        assert(l0[j] == s[j]);
                    } else {
                        assert(lines(s)[i] == lines(s.skip(k + 1))[i - 1]);
                    }
                }
            },
        }
    }
}

proof fn lemma_key_line(ls: Seq<Seq<char>>, key: Seq<char>, from: int, to: int)
    requires
        0 <= from <= to <= ls.len(),
    ensures
        match key_line_from(ls, key, from, to) {
            Some(p) => from <= p < to && line_sets_key(ls[p], key) && forall|j: int|
                from <= j < p ==> !line_sets_key(#[trigger] ls[j], key),
            None => forall|j: int| from <= j < to ==> !line_sets_key(#[trigger] ls[j], key),
        },
    decreases to - from,
{
    if from < to {
        lemma_key_line(ls, key, from + 1, to);
    }
}

proof fn lemma_header_index(ls: Seq<Seq<char>>, header: Seq<char>, from: int)
    requires
        0 <= from <= ls.len(),
    ensures
        match header_index_from(ls, header, from) {
            Some(p) => from <= p < ls.len() && eq_ci(trim(ls[p]), header) && forall|j: int|
                from <= j < p ==> !eq_ci(trim(#[trigger] ls[j]), header),
            None => forall|j: int| from <= j < ls.len() ==> !eq_ci(trim(#[trigger] ls[j]), header),
        },
    decreases ls.len() - from,
{
    if from < ls.len() {
        lemma_header_index(ls, header, from + 1);
    }
}

proof fn lemma_next_header(ls: Seq<Seq<char>>, from: int)
    requires
        0 <= from <= ls.len(),
    ensures
        from <= next_header_from(ls, from) <= ls.len(),
        next_header_from(ls, from) < ls.len() ==> is_section_header(ls[next_header_from(ls, from)]),
        forall|j: int| from <= j < next_header_from(ls, from) ==> !is_section_header(#[trigger] ls[j]),
    decreases ls.len() - from,
{
    if from < ls.len() {
        lemma_next_header(ls, from + 1);
    }
}

proof fn lemma_trim_start_len(s: Seq<char>)
    ensures
        trim_start(s).len() <= s.len(),
    decreases s.len(),
{
    if s.len() > 0 && is_ws(s[0]) {
        lemma_trim_start_len(s.drop_first());
    }
}

proof fn lemma_trim_end_len(s: Seq<char>)
    ensures
        trim_end(s).len() <= s.len(),
    decreases s.len(),
{
    if s.len() > 0 && is_ws(s.last()) {
        lemma_trim_end_len(s.drop_last());
    }
}

/// Text with nothing to trim starts and ends with a character that is not
/// white space.
proof fn lemma_untrimmed_ends(k: Seq<char>)
    requires
        trim(k) == k,
        k.len() > 0,
    ensures
        !is_ws(k[0]),
        !is_ws(k.last()),
{
    if is_ws(k[0]) {
        lemma_trim_start_len(k.drop_first());
        lemma_trim_end_len(trim_start(k));
        assert(false);
    }
    assert(trim_start(k) == k);
    if is_ws(k.last()) {
        lemma_trim_end_len(k.drop_last());
        assert(false);
    }
}

/// The setting line of a plain key sets exactly the keys equal to it up to
/// ASCII case.
proof fn lemma_setting_line_sets(k: Seq<char>, v: Seq<char>, other: Seq<char>)
    requires
        is_plain_key(k),
    ensures
        line_sets_key(setting_line(k, v), other) == eq_ci(k, other),
{
    let line = setting_line(k, v);
    let n = k.len() as int;
    reveal_strlit(" = ");
    assert(" = "@ =~= seq![' ', '=', ' ']);
    assert(line[n] == ' ');
    assert(line[n + 1] == '=');
    assert forall|j: int| 0 <= j < n + 1 implies line[j] != '=' by {
        if j < n {
            assert(line[j] == k[j]);
        }
    }
    lemma_first_index_is(line, '=', n + 1);
    let before = line.take(n + 1);
    assert(before =~= k.push(' '));
    if n == 0 {
        assert(before.drop_first() =~= Seq::<char>::empty());
        assert(trim_start(before) == trim_start(before.drop_first()));
        assert(trim(before) =~= k);
    } else {
        lemma_untrimmed_ends(k);
        assert(before[0] == k[0]);
        assert(trim_start(before) == before);
        assert(before.drop_last() =~= k);
        assert(trim_start(k) == k);
        assert(trim(before) == trim_end(k));
    }
    assert(trim(before) == k);
}

/// Only `'['` lower-cases to `'['`, and only `']'` to `']'`.
proof fn lemma_lower_bracket(c: char)
    ensures
        lower(c) == '[' ==> c == '[',
        lower(c) == ']' ==> c == ']',
{
    if 'A' <= c && c <= 'Z' {
        let code: u32 = ((c as u32) + 32) as u32;
        assert(97 <= code <= 122);
        assert(lower(c) == code as char);
        assert((code as char) as u32 == code);
    }
}

/// The header line of a section has nothing to trim, is a section header,
/// and only a section header line matches it.
proof fn lemma_header_shape(section: Seq<char>, x: Seq<char>)
    ensures
        trim("["@ + section + "]"@) == "["@ + section + "]"@,
        is_section_header("["@ + section + "]"@),
        eq_ci(trim(x), "["@ + section + "]"@) ==> is_section_header(x),
        x.len() == 0 ==> !eq_ci(trim(x), "["@ + section + "]"@),
{
    reveal_strlit("[");
    reveal_strlit("]");
    let header = "["@ + section + "]"@;
    assert(header[0] == '[');
    assert(header.last() == ']');
    assert(trim_start(header) == header);
    assert(trim_end(header) == header);
    if eq_ci(trim(x), header) {
        let t = trim(x);
        assert(lower_seq(t).len() == t.len());
        assert(lower_seq(t)[0] == lower_seq(header)[0]);
        assert(lower_seq(t)[t.len() - 1] == lower_seq(header)[header.len() - 1]);
        lemma_lower_bracket(t[0]);
        lemma_lower_bracket(t.last());
    }
    if x.len() == 0 {
        assert(trim_start(x) == x);
        assert(trim(x) == x);
        assert(lower_seq(x).len() == 0);
    }
}

/// Where the section ends once `apply_settings` has run: one line further
/// for each setting that was added rather than replaced.
pub open spec fn settings_end(ls: Seq<Seq<char>>, start: int, end: int, values: Seq<(Seq<char>, Seq<char>)>) -> int
    decreases values.len(),
{
    if values.len() == 0 {
        end
    } else {
        let key = values[0].0;
        let line = setting_line(key, values[0].1);
        match key_line_from(ls, key, start, end) {
            Some(i) => settings_end(ls.update(i, line), start, end, values.drop_first()),
            None => settings_end(ls.insert(end, line), start, end + 1, values.drop_first()),
        }
    }
}

/// Within lines `[start, end)`, the first line that sets `key` is the setting
/// line of `key` and `value`.
pub open spec fn setting_found(ls: Seq<Seq<char>>, start: int, end: int, key: Seq<char>, value: Seq<char>) -> bool {
    match key_line_from(ls, key, start, end) {
        Some(p) => ls[p] == setting_line(key, value),
        None => false,
    }
}

/// `apply_settings` leaves the lines before the section alone and moves the
/// lines after it down by the number of settings it added.
proof fn lemma_apply_frame(ls: Seq<Seq<char>>, start: int, end: int, values: Seq<(Seq<char>, Seq<char>)>)
    requires
        0 <= start <= end <= ls.len(),
    ensures
        end <= settings_end(ls, start, end, values),
        apply_settings(ls, start, end, values).len() == ls.len() + (settings_end(ls, start, end, values) - end),
        forall|j: int| 0 <= j < start ==> #[trigger] apply_settings(ls, start, end, values)[j] == ls[j],
        forall|j: int|
            settings_end(ls, start, end, values) <= j < apply_settings(ls, start, end, values).len()
                ==> #[trigger] apply_settings(ls, start, end, values)[j] == ls[j - (settings_end(ls, start, end, values) - end)],
    decreases values.len(),
{
    if values.len() > 0 {
        let key = values[0].0;
        let line = setting_line(key, values[0].1);
        lemma_key_line(ls, key, start, end);
        match key_line_from(ls, key, start, end) {
            Some(i) => {
                lemma_apply_frame(ls.update(i, line), start, end, values.drop_first());
            },
            None => {
                ls.insert_ensures(end, line);
                lemma_apply_frame(ls.insert(end, line), start, end + 1, values.drop_first());
                let r = apply_settings(ls, start, end, values);
                let e = settings_end(ls, start, end, values);
                assert forall|j: int| e <= j < r.len() implies #[trigger] r[j] == ls[j - (e - end)] by {
                    assert(ls.insert(end, line)[j - (e - end - 1)] == ls[j - (e - end)]);
                }
            },
        }
    }
}

/// A property that every line of the section and every setting line have
/// holds of every line of the section afterwards.
proof fn lemma_apply_keeps(
    ls: Seq<Seq<char>>,
    start: int,
    end: int,
    values: Seq<(Seq<char>, Seq<char>)>,
    q: spec_fn(Seq<char>) -> bool,
)
    requires
        0 <= start <= end <= ls.len(),
        forall|j: int| start <= j < end ==> q(#[trigger] ls[j]),
        forall|i: int| 0 <= i < values.len() ==> q(#[trigger] setting_line(values[i].0, values[i].1)),
    ensures
        forall|j: int|
            start <= j < settings_end(ls, start, end, values) ==> q(#[trigger] apply_settings(ls, start, end, values)[j]),
    decreases values.len(),
{
    if values.len() > 0 {
        let key = values[0].0;
        let line = setting_line(key, values[0].1);
        let tail = values.drop_first();
        assert(q(setting_line(values[0].0, values[0].1)));
        assert forall|i: int| 0 <= i < tail.len() implies q(#[trigger] setting_line(tail[i].0, tail[i].1)) by {
            assert(tail[i] == values[i + 1]);
        }
        lemma_key_line(ls, key, start, end);
        match key_line_from(ls, key, start, end) {
            Some(i) => {
                let ls1 = ls.update(i, line);
                assert forall|j: int| start <= j < end implies q(#[trigger] ls1[j]) by {
                    if j != i {
                        assert(ls1[j] == ls[j]);
                    }
                }
                lemma_apply_keeps(ls1, start, end, tail, q);
                assert(apply_settings(ls, start, end, values) == apply_settings(ls1, start, end, tail));
                assert(settings_end(ls, start, end, values) == settings_end(ls1, start, end, tail));
            },
            None => {
                let ls1 = ls.insert(end, line);
                ls.insert_ensures(end, line);
                assert forall|j: int| start <= j < end + 1 implies q(#[trigger] ls1[j]) by {
                    if j < end {
                        assert(ls1[j] == ls[j]);
                    }
                }
                lemma_apply_keeps(ls1, start, end + 1, tail, q);
                assert(apply_settings(ls, start, end, values) == apply_settings(ls1, start, end + 1, tail));
                assert(settings_end(ls, start, end, values) == settings_end(ls1, start, end + 1, tail));
            },
        }
    }
}

/// Settings of other keys leave a found setting where it is.
proof fn lemma_apply_preserves_found(
    ls: Seq<Seq<char>>,
    start: int,
    end: int,
    values: Seq<(Seq<char>, Seq<char>)>,
    k: Seq<char>,
    v: Seq<char>,
)
    requires
        0 <= start <= end <= ls.len(),
        is_plain_key(k),
        setting_found(ls, start, end, k, v),
        forall|i: int| 0 <= i < values.len() ==> is_plain_key(#[trigger] values[i].0) && !eq_ci(values[i].0, k),
    ensures
        setting_found(apply_settings(ls, start, end, values), start, settings_end(ls, start, end, values), k, v),
    decreases values.len(),
{
    if values.len() > 0 {
        let key = values[0].0;
        let line = setting_line(key, values[0].1);
        let tail = values.drop_first();
        assert(is_plain_key(values[0].0) && !eq_ci(values[0].0, k));
        assert forall|i: int| 0 <= i < tail.len() implies is_plain_key(#[trigger] tail[i].0) && !eq_ci(tail[i].0, k) by {
            assert(tail[i] == values[i + 1]);
            assert(is_plain_key(values[i + 1].0) && !eq_ci(values[i + 1].0, k));
        }
        lemma_key_line(ls, k, start, end);
        let p = key_line_from(ls, k, start, end)->0;
        lemma_key_line(ls, key, start, end);
        lemma_setting_line_sets(key, values[0].1, k);
        lemma_setting_line_sets(k, v, key);
        match key_line_from(ls, key, start, end) {
            Some(i) => {
                let ls1 = ls.update(i, line);
                assert(i != p);
                lemma_key_line(ls1, k, start, end);
                assert(ls1[p] == ls[p]);
                assert(key_line_from(ls1, k, start, end) == Some(p)) by {
                    match key_line_from(ls1, k, start, end) {
                        Some(q) => {
                            if q < p {
                                assert(ls1[q] == ls[q] || ls1[q] == line);
                            }
                            assert(!(p < q));
                        },
                        None => {},
                    }
                }
                lemma_apply_preserves_found(ls1, start, end, tail, k, v);
            },
            None => {
                let ls1 = ls.insert(end, line);
                ls.insert_ensures(end, line);
                lemma_key_line(ls1, k, start, end + 1);
                assert(ls1[p] == ls[p]);
                assert(key_line_from(ls1, k, start, end + 1) == Some(p)) by {
                    match key_line_from(ls1, k, start, end + 1) {
                        Some(q) => {
                            if q < p {
                                assert(ls1[q] == ls[q]);
                            }
                            assert(!(p < q));
                        },
                        None => {},
                    }
                }
                lemma_apply_preserves_found(ls1, start, end + 1, tail, k, v);
            },
        }
    }
}

/// A line that sets `a` sets exactly the keys equal to `a` up to ASCII case.
proof fn lemma_sets_class(l: Seq<char>, a: Seq<char>, b: Seq<char>)
    requires
        line_sets_key(l, a),
    ensures
        line_sets_key(l, b) == eq_ci(a, b),
{
}

/// Keys equal up to ASCII case are found at the same line.
proof fn lemma_key_line_class(ls: Seq<Seq<char>>, a: Seq<char>, b: Seq<char>, from: int, to: int)
    requires
        eq_ci(a, b),
    ensures
        key_line_from(ls, a, from, to) == key_line_from(ls, b, from, to),
    decreases to - from,
{
    if 0 <= from < to <= ls.len() {
        lemma_key_line_class(ls, a, b, from + 1, to);
    }
}

/// Lines that set the same keys give the same search results.
proof fn lemma_key_line_same_sets(t: Seq<Seq<char>>, r: Seq<Seq<char>>, key: Seq<char>, from: int, to: int)
    requires
        t.len() == r.len(),
        forall|j: int| 0 <= j < t.len() ==> line_sets_key(#[trigger] t[j], key) == line_sets_key(r[j], key),
    ensures
        key_line_from(t, key, from, to) == key_line_from(r, key, from, to),
    decreases to - from,
{
    if 0 <= from < to <= t.len() {
        lemma_key_line_same_sets(t, r, key, from + 1, to);
    }
}

/// No key after index `i` equals the key at `i` up to ASCII case.
pub open spec fn last_of_its_key(values: Seq<(Seq<char>, Seq<char>)>, i: int) -> bool {
    forall|j: int| i < j < values.len() ==> !eq_ci(#[trigger] values[j].0, values[i].0)
}

/// Every key holds no `=` and has nothing to trim.
pub open spec fn plain_keys(values: Seq<(Seq<char>, Seq<char>)>) -> bool {
    forall|i: int| 0 <= i < values.len() ==> is_plain_key(#[trigger] values[i].0)
}

/// What `apply_settings` leaves: every key is found in the section, and
/// for the last key of each spelling up to ASCII case it is found at its
/// own setting line.
pub open spec fn settings_in_place(r: Seq<Seq<char>>, start: int, end: int, values: Seq<(Seq<char>, Seq<char>)>) -> bool {
    &&& forall|i: int| 0 <= i < values.len() ==> (#[trigger] key_line_from(r, values[i].0, start, end)) is Some
    &&& forall|i: int|
        0 <= i < values.len() && last_of_its_key(values, i) ==> setting_found(r, start, end, #[trigger] values[i].0, values[i].1)
}

proof fn lemma_tail_keys(values: Seq<(Seq<char>, Seq<char>)>)
    requires
        values.len() > 0,
        plain_keys(values),
    ensures
        plain_keys(values.drop_first()),
        forall|i: int| 0 <= i < values.len() - 1 ==> #[trigger] values.drop_first()[i] == values[i + 1],
        forall|i: int| 0 <= i < values.len() - 1 ==> last_of_its_key(values.drop_first(), i) == last_of_its_key(values, i + 1),
{
    let tail = values.drop_first();
    assert forall|i: int| 0 <= i < tail.len() implies is_plain_key(#[trigger] tail[i].0) by {
        assert(tail[i] == values[i + 1]);
    }
    assert forall|i: int| 0 <= i < values.len() - 1 implies last_of_its_key(tail, i) == last_of_its_key(values, i + 1) by {
        if last_of_its_key(values, i + 1) {
            assert forall|j: int| i < j < tail.len() implies !eq_ci(#[trigger] tail[j].0, tail[i].0) by {
                assert(tail[j] == values[j + 1]);
                assert(tail[i] == values[i + 1]);
            }
        }
        if last_of_its_key(tail, i) {
            assert forall|j: int| i + 1 < j < values.len() implies !eq_ci(#[trigger] values[j].0, values[i + 1].0) by {
                assert(tail[j - 1] == values[j]);
                assert(tail[i] == values[i + 1]);
            }
        }
    }
}

/// `apply_settings` leaves its settings in place.
proof fn lemma_apply_places(ls: Seq<Seq<char>>, start: int, end: int, values: Seq<(Seq<char>, Seq<char>)>)
    requires
        0 <= start <= end <= ls.len(),
        plain_keys(values),
    ensures
        settings_in_place(apply_settings(ls, start, end, values), start, settings_end(ls, start, end, values), values),
    decreases values.len(),
{
    if values.len() > 0 {
        let key = values[0].0;
        let value = values[0].1;
        let line = setting_line(key, value);
        let tail = values.drop_first();
        assert(is_plain_key(values[0].0));
        lemma_tail_keys(values);
        lemma_key_line(ls, key, start, end);
        lemma_setting_line_sets(key, value, key);
        let r = apply_settings(ls, start, end, values);
        let e = settings_end(ls, start, end, values);
        let ls1 = match key_line_from(ls, key, start, end) {
            Some(i) => ls.update(i, line),
            None => ls.insert(end, line),
        };
        let end1 = match key_line_from(ls, key, start, end) {
            Some(i) => end,
            None => end + 1,
        };
        match key_line_from(ls, key, start, end) {
            Some(i) => {
                lemma_key_line(ls1, key, start, end);
                assert(ls1[i] == line);
                assert(line_sets_key(ls1[i], key));
                assert(key_line_from(ls1, key, start, end) == Some(i)) by {
                    match key_line_from(ls1, key, start, end) {
                        Some(q) => {
                            if q < i {
                                assert(ls1[q] == ls[q]);
                            }
                            assert(!(i < q));
                        },
                        None => {},
                    }
                }
            },
            None => {
                ls.insert_ensures(end, line);
                lemma_key_line(ls1, key, start, end + 1);
                assert(key_line_from(ls1, key, start, end + 1) == Some(end)) by {
                    match key_line_from(ls1, key, start, end + 1) {
                        Some(q) => {
                            if q < end {
                                assert(ls1[q] == ls[q]);
                            }
                        },
                        None => {},
                    }
                }
            },
        }
        assert(setting_found(ls1, start, end1, key, value));
        assert(r == apply_settings(ls1, start, end1, tail));
        assert(e == settings_end(ls1, start, end1, tail));
        lemma_apply_places(ls1, start, end1, tail);
        assert(key_line_from(r, values[0].0, start, e) is Some) by {
            if last_of_its_key(values, 0) {
                assert forall|i: int| 0 <= i < tail.len() implies is_plain_key(#[trigger] tail[i].0) && !eq_ci(tail[i].0, key) by {
                    assert(!eq_ci(values[i + 1].0, values[0].0));
                }
                lemma_apply_preserves_found(ls1, start, end1, tail, key, value);
            } else {
                let j = choose|j: int| 0 < j < values.len() && eq_ci(#[trigger] values[j].0, values[0].0);
                assert(key_line_from(r, tail[j - 1].0, start, e) is Some);
                lemma_key_line_class(r, key, values[j].0, start, e);
            }
        }
        if last_of_its_key(values, 0) {
            assert forall|i: int| 0 <= i < tail.len() implies is_plain_key(#[trigger] tail[i].0) && !eq_ci(tail[i].0, key) by {
                assert(!eq_ci(values[i + 1].0, values[0].0));
            }
            lemma_apply_preserves_found(ls1, start, end1, tail, key, value);
        }
        assert forall|i: int| 0 <= i < values.len() implies (#[trigger] key_line_from(r, values[i].0, start, e)) is Some by {
            if i > 0 {
                assert(key_line_from(r, tail[i - 1].0, start, e) is Some);
            }
        }
        assert forall|i: int| 0 <= i < values.len() && last_of_its_key(values, i)
            implies setting_found(r, start, e, #[trigger] values[i].0, values[i].1) by {
            if i > 0 {
                assert(last_of_its_key(tail, i - 1));
                assert(setting_found(r, start, e, tail[i - 1].0, tail[i - 1].1));
            }
        }
    }
}

/// Running `apply_settings` over lines `t` that set the same keys as lines
/// `r` that hold the settings in place, and that differ from `r` only where
/// a key is found, gives `r`.
proof fn lemma_apply_reaches(t: Seq<Seq<char>>, start: int, end: int, values: Seq<(Seq<char>, Seq<char>)>, r: Seq<Seq<char>>)
    requires
        0 <= start <= end <= t.len(),
        t.len() == r.len(),
        plain_keys(values),
        settings_in_place(r, start, end, values),
        forall|j: int, i: int|
            0 <= j < t.len() && 0 <= i < values.len() ==> line_sets_key(#[trigger] t[j], #[trigger] values[i].0)
                == line_sets_key(r[j], values[i].0),
        forall|j: int|
            0 <= j < t.len() && t[j] != r[j] ==> exists|i: int|
                0 <= i < values.len() && #[trigger] key_line_from(r, values[i].0, start, end) == Some(j),
    ensures
        apply_settings(t, start, end, values) == r,
        settings_end(t, start, end, values) == end,
    decreases values.len(),
{
    if values.len() == 0 {
        assert(t =~= r);
    } else {
        let key = values[0].0;
        let value = values[0].1;
        let line = setting_line(key, value);
        let tail = values.drop_first();
        assert(is_plain_key(values[0].0));
        lemma_tail_keys(values);
        assert(key_line_from(r, values[0].0, start, end) is Some);
        lemma_key_line(r, key, start, end);
        let p = key_line_from(r, key, start, end)->0;
        assert forall|j: int| 0 <= j < t.len() implies line_sets_key(#[trigger] t[j], key) == line_sets_key(r[j], key) by {
            assert(line_sets_key(t[j], values[0].0) == line_sets_key(r[j], values[0].0));
        }
        lemma_key_line_same_sets(t, r, key, start, end);
        let t1 = t.update(p, line);
        assert(apply_settings(t, start, end, values) == apply_settings(t1, start, end, tail));
        assert(settings_end(t, start, end, values) == settings_end(t1, start, end, tail));
        lemma_setting_line_sets(key, value, key);
        assert(settings_in_place(r, start, end, tail)) by {
            assert forall|i: int| 0 <= i < tail.len() implies (#[trigger] key_line_from(r, tail[i].0, start, end)) is Some by {
                assert(key_line_from(r, values[i + 1].0, start, end) is Some);
            }
            assert forall|i: int| 0 <= i < tail.len() && last_of_its_key(tail, i)
                implies setting_found(r, start, end, #[trigger] tail[i].0, tail[i].1) by {
                assert(last_of_its_key(values, i + 1));
                assert(setting_found(r, start, end, values[i + 1].0, values[i + 1].1));
            }
        }
        assert forall|j: int, i: int| 0 <= j < t1.len() && 0 <= i < tail.len()
            implies line_sets_key(#[trigger] t1[j], #[trigger] tail[i].0) == line_sets_key(r[j], tail[i].0) by {
            assert(tail[i] == values[i + 1]);
            if j == p {
                lemma_setting_line_sets(key, value, tail[i].0);
                lemma_sets_class(r[p], key, tail[i].0);
            } else {
                assert(line_sets_key(t[j], values[i + 1].0) == line_sets_key(r[j], values[i + 1].0));
            }
        }
        assert forall|j: int| 0 <= j < t1.len() && t1[j] != r[j] implies exists|i: int|
            0 <= i < tail.len() && #[trigger] key_line_from(r, tail[i].0, start, end) == Some(j) by {
            if j == p {
                if last_of_its_key(values, 0) {
                    assert(setting_found(r, start, end, values[0].0, values[0].1));
                    assert(false);
                } else {
                    let m = choose|m: int| 0 < m < values.len() && eq_ci(#[trigger] values[m].0, values[0].0);
                    lemma_key_line_class(r, key, values[m].0, start, end);
                    assert(tail[m - 1] == values[m]);
                    assert(key_line_from(r, tail[m - 1].0, start, end) == Some(j));
                }
            } else {
                assert(t[j] != r[j]);
                let i0 = choose|i: int| 0 <= i < values.len() && #[trigger] key_line_from(r, values[i].0, start, end) == Some(j);
                assert(i0 != 0);
                assert(tail[i0 - 1] == values[i0]);
                assert(key_line_from(r, tail[i0 - 1].0, start, end) == Some(j));
            }
        }
        lemma_apply_reaches(t1, start, end, tail, r);
    }
}

/// Each line with one `'\r'` at its end dropped.
pub open spec fn strip_each(ls: Seq<Seq<char>>) -> Seq<Seq<char>> {
    Seq::new(ls.len(), |i: int| strip_cr(ls[i]))
}

/// Joining lines that hold no `'\n'` and splitting the text again gives each
/// line with one `'\r'` at its end dropped.
proof fn lemma_lines_of_join_strips(ls: Seq<Seq<char>>)
    requires
        forall|i: int, j: int| 0 <= i < ls.len() && 0 <= j < ls[i].len() ==> #[trigger] ls[i][j] != '\n',
    ensures
        lines(join_lines(ls)) == strip_each(ls),
    decreases ls.len(),
{
    if ls.len() > 0 {
        lemma_join_front(ls);
        let s = join_lines(ls);
        let l0 = ls[0];
        let rest = join_lines(ls.drop_first());
        assert(s[l0.len() as int] == '\n');
        assert forall|j: int| 0 <= j < l0.len() implies s[j] != '\n' by {
            assert(s[j] == l0[j]);
            assert(ls[0][j] != '\n');
        }
        lemma_first_index_is(s, '\n', l0.len() as int);
        assert(s.take(l0.len() as int) =~= l0);
        assert(s.skip(l0.len() as int + 1) =~= rest);
        assert forall|i: int, j: int| 0 <= i < ls.drop_first().len() && 0 <= j < ls.drop_first()[i].len()
            implies #[trigger] ls.drop_first()[i][j] != '\n' by {
            assert(ls.drop_first()[i] == ls[i + 1]);
            assert(ls[i + 1][j] != '\n');
        }
        lemma_lines_of_join_strips(ls.drop_first());
        assert(strip_each(ls) =~= seq![strip_cr(l0)] + strip_each(ls.drop_first()));
    } else {
        assert(strip_each(ls) =~= Seq::<Seq<char>>::empty());
    }
}

/// Dropping a `'\r'` at the end of a line changes no key that it sets.
proof fn lemma_strip_cr_sets(l: Seq<char>, key: Seq<char>)
    ensures
        line_sets_key(strip_cr(l), key) == line_sets_key(l, key),
{
    if l.len() > 0 && l.last() == '\r' {
        let m = l.drop_last();
        lemma_first_index_of(l, '=');
        lemma_first_index_of(m, '=');
        match first_index_of(l, '=') {
            Some(i) => {
                assert(i < m.len());
                assert(m[i] == '=');
                match first_index_of(m, '=') {
                    Some(q) => {
                        assert(m[q] == l[q]);
                        assert(q == i);
                    },
                    None => {},
                }
                assert(m.take(i) =~= l.take(i));
            },
            None => {
                match first_index_of(m, '=') {
                    Some(q) => {
                        assert(m[q] == l[q]);
                    },
                    None => {},
                }
            },
        }
    }
}

/// White space at the end changes nothing once a text is trimmed.
proof fn lemma_trim_drops_ws_last(s: Seq<char>)
    requires
        s.len() > 0,
        is_ws(s.last()),
    ensures
        trim(s) == trim(s.drop_last()),
    decreases s.len(),
{
    if is_ws(s[0]) {
        if s.len() == 1 {
            assert(s.drop_first() =~= s.drop_last());
        } else {
            assert(s.drop_last().drop_first() =~= s.drop_first().drop_last());
            assert(s.drop_first().last() == s.last());
            lemma_trim_drops_ws_last(s.drop_first());
        }
    } else {
        assert(s.len() >= 2);
        assert(s.drop_last()[0] == s[0]);
        assert(trim_start(s) == s);
        assert(trim_start(s.drop_last()) == s.drop_last());
    }
}

/// Dropping a `'\r'` at the end of a line does not change whether it is a
/// section header.
proof fn lemma_strip_cr_header(l: Seq<char>)
    ensures
        is_section_header(strip_cr(l)) == is_section_header(l),
        trim(strip_cr(l)) == trim(l),
{
    if l.len() > 0 && l.last() == '\r' {
        lemma_trim_drops_ws_last(l);
    }
}

/// Once a key is found at a line of the section, the settings keep finding
/// it there: a setting of a key equal to it up to ASCII case rewrites that
/// very line, and the others write lines that do not set it or add lines at
/// the end of the section.
proof fn lemma_apply_keeps_position(
    ls: Seq<Seq<char>>,
    start: int,
    end: int,
    values: Seq<(Seq<char>, Seq<char>)>,
    k: Seq<char>,
    p: int,
)
    requires
        0 <= start <= end <= ls.len(),
        plain_keys(values),
        key_line_from(ls, k, start, end) == Some(p),
    ensures
        key_line_from(apply_settings(ls, start, end, values), k, start, settings_end(ls, start, end, values)) == Some(p),
    decreases values.len(),
{
    if values.len() > 0 {
        let key = values[0].0;
        let value = values[0].1;
        let line = setting_line(key, value);
        let tail = values.drop_first();
        assert(is_plain_key(values[0].0));
        lemma_tail_keys(values);
        lemma_key_line(ls, k, start, end);
        lemma_key_line(ls, key, start, end);
        lemma_setting_line_sets(key, value, k);
        lemma_sets_class(ls[p], k, key);
        if eq_ci(k, key) {
            lemma_key_line_class(ls, k, key, start, end);
        }
        match key_line_from(ls, key, start, end) {
            Some(i) => {
                let ls1 = ls.update(i, line);
                lemma_key_line(ls1, k, start, end);
                assert(line_sets_key(ls1[p], k)) by {
                    if i != p {
                        assert(ls1[p] == ls[p]);
                    }
                }
                assert(key_line_from(ls1, k, start, end) == Some(p)) by {
                    match key_line_from(ls1, k, start, end) {
                        Some(q) => {
                            if q < p {
                                if q != i {
                                    assert(ls1[q] == ls[q]);
                                }
                            }
                            assert(!(p < q));
                        },
                        None => {},
                    }
                }
                lemma_apply_keeps_position(ls1, start, end, tail, k, p);
                assert(apply_settings(ls, start, end, values) == apply_settings(ls1, start, end, tail));
                assert(settings_end(ls, start, end, values) == settings_end(ls1, start, end, tail));
            },
            None => {
                let ls1 = ls.insert(end, line);
                ls.insert_ensures(end, line);
                lemma_key_line(ls1, k, start, end + 1);
                assert(ls1[p] == ls[p]);
                assert(key_line_from(ls1, k, start, end + 1) == Some(p)) by {
                    match key_line_from(ls1, k, start, end + 1) {
                        Some(q) => {
                            if q < p {
                                assert(ls1[q] == ls[q]);
                            }
                            assert(!(p < q));
                        },
                        None => {},
                    }
                }
                lemma_apply_keeps_position(ls1, start, end + 1, tail, k, p);
                assert(apply_settings(ls, start, end, values) == apply_settings(ls1, start, end + 1, tail));
                assert(settings_end(ls, start, end, values) == settings_end(ls1, start, end + 1, tail));
            },
        }
    }
}

/// Line `j` is where one of the keys of `values` is found.
pub open spec fn found_at(r: Seq<Seq<char>>, start: int, end: int, values: Seq<(Seq<char>, Seq<char>)>, j: int) -> bool {
    exists|i: int| 0 <= i < values.len() && #[trigger] key_line_from(r, values[i].0, start, end) == Some(j)
}

/// Line `j` of `r` is line `j` of `ls`, from before the section's end
/// `end`, or it is where one of the keys of `values` is found in `r`.
pub open spec fn kept_or_found(
    r: Seq<Seq<char>>,
    ls: Seq<Seq<char>>,
    start: int,
    e: int,
    end: int,
    values: Seq<(Seq<char>, Seq<char>)>,
    j: int,
) -> bool {
    (j < end && r[j] == ls[j]) || found_at(r, start, e, values, j)
}

/// Every line of the section after `apply_settings` is the line that stood
/// there before, or a line where one of the keys is found.
proof fn lemma_apply_written(ls: Seq<Seq<char>>, start: int, end: int, values: Seq<(Seq<char>, Seq<char>)>)
    requires
        0 <= start <= end <= ls.len(),
        plain_keys(values),
    ensures
        forall|j: int|
            start <= j < settings_end(ls, start, end, values) ==> #[trigger] kept_or_found(
                apply_settings(ls, start, end, values),
                ls,
                start,
                settings_end(ls, start, end, values),
                end,
                values,
                j,
            ),
    decreases values.len(),
{
    if values.len() > 0 {
        let key = values[0].0;
        let value = values[0].1;
        let line = setting_line(key, value);
        let tail = values.drop_first();
        assert(is_plain_key(values[0].0));
        lemma_tail_keys(values);
        lemma_key_line(ls, key, start, end);
        lemma_setting_line_sets(key, value, key);
        let r = apply_settings(ls, start, end, values);
        let e = settings_end(ls, start, end, values);
        match key_line_from(ls, key, start, end) {
            Some(p0) => {
                let ls1 = ls.update(p0, line);
                lemma_key_line(ls1, key, start, end);
                assert(ls1[p0] == line);
                assert(key_line_from(ls1, key, start, end) == Some(p0)) by {
                    match key_line_from(ls1, key, start, end) {
                        Some(q) => {
                            if q < p0 {
                                assert(ls1[q] == ls[q]);
                            }
                            assert(!(p0 < q));
                        },
                        None => {},
                    }
                }
                assert(r == apply_settings(ls1, start, end, tail));
                assert(e == settings_end(ls1, start, end, tail));
                let r = apply_settings(ls1, start, end, tail);
                let e = settings_end(ls1, start, end, tail);
                lemma_apply_written(ls1, start, end, tail);
                lemma_apply_keeps_position(ls1, start, end, tail, key, p0);
                assert(key_line_from(r, values[0].0, start, e) == Some(p0));
                assert forall|j: int| start <= j < e implies #[trigger] kept_or_found(r, ls, start, e, end, values, j) by {
                    assert(kept_or_found(r, ls1, start, e, end, tail, j));
                    if found_at(r, start, e, tail, j) {
                        let i = choose|i: int| 0 <= i < tail.len() && #[trigger] key_line_from(r, tail[i].0, start, e) == Some(j);
                        assert(key_line_from(r, values[i + 1].0, start, e) == Some(j));
                        assert(found_at(r, start, e, values, j));
                    } else if j == p0 {
                        assert(key_line_from(r, values[0].0, start, e) == Some(j));
                        assert(found_at(r, start, e, values, j));
                    } else {
                        assert(ls1[j] == ls[j]);
                    }
                }
            },
            None => {
                let ls1 = ls.insert(end, line);
                ls.insert_ensures(end, line);
                lemma_key_line(ls1, key, start, end + 1);
                assert(key_line_from(ls1, key, start, end + 1) == Some(end)) by {
                    match key_line_from(ls1, key, start, end + 1) {
                        Some(q) => {
                            if q < end {
                                assert(ls1[q] == ls[q]);
                            }
                        },
                        None => {},
                    }
                }
                assert(r == apply_settings(ls1, start, end + 1, tail));
                assert(e == settings_end(ls1, start, end + 1, tail));
                let r = apply_settings(ls1, start, end + 1, tail);
                let e = settings_end(ls1, start, end + 1, tail);
                lemma_apply_written(ls1, start, end + 1, tail);
                lemma_apply_keeps_position(ls1, start, end + 1, tail, key, end);
                assert(key_line_from(r, values[0].0, start, e) == Some(end));
                assert forall|j: int| start <= j < e implies #[trigger] kept_or_found(r, ls, start, e, end, values, j) by {
                    assert(kept_or_found(r, ls1, start, e, end + 1, tail, j));
                    if found_at(r, start, e, tail, j) {
                        let i = choose|i: int| 0 <= i < tail.len() && #[trigger] key_line_from(r, tail[i].0, start, e) == Some(j);
                        assert(key_line_from(r, values[i + 1].0, start, e) == Some(j));
                        assert(found_at(r, start, e, values, j));
                    } else if j == end {
                        assert(key_line_from(r, values[0].0, start, e) == Some(j));
                        assert(found_at(r, start, e, values, j));
                    } else {
                        assert(ls1[j] == ls[j]);
                    }
                }
            },
        }
    } else {
        assert(apply_settings(ls, start, end, values) == ls);
        assert(settings_end(ls, start, end, values) == end);
        assert forall|j: int| start <= j < end implies #[trigger] kept_or_found(ls, ls, start, end, end, values, j) by {}
    }
}

/// A line that holds no `'\n'`.
pub open spec fn one_line(l: Seq<char>) -> bool {
    forall|j: int| 0 <= j < l.len() ==> l[j] != '\n'
}

/// Lines that hold no `'\n'`, split again after they were joined, come back
/// as `strip_each` gives them.
proof fn lemma_lines_of_join_one_lines(r: Seq<Seq<char>>)
    requires
        forall|j: int| 0 <= j < r.len() ==> one_line(#[trigger] r[j]),
    ensures
        lines(join_lines(r)) == strip_each(r),
{
    assert forall|i: int, j: int| 0 <= i < r.len() && 0 <= j < r[i].len() implies #[trigger] r[i][j] != '\n' by {
        assert(one_line(r[i]));
    }
    lemma_lines_of_join_strips(r);
}

/// Writing the same settings into the text that an INI update produced
/// gives that text back, so the second update reports no change. This holds
/// when the lines of the existing text do not end with `'\r'`, the section
/// name holds no `'\n'`, no setting line holds a `'\n'` or reads as a section
/// header, and the keys hold no `=` and have nothing to trim.
pub proof fn ini_update_is_idempotent(existing: Seq<char>, section: Seq<char>, values: Seq<(Seq<char>, Seq<char>)>)
    requires
        forall|i: int|
            0 <= i < lines(existing).len() ==> (#[trigger] lines(existing)[i]).len() == 0 || lines(existing)[i].last() != '\r',
        forall|j: int| 0 <= j < section.len() ==> section[j] != '\n',
        forall|i: int|
            0 <= i < values.len() ==> one_line(#[trigger] setting_line(values[i].0, values[i].1))
                && !is_section_header(setting_line(values[i].0, values[i].1)),
        plain_keys(values),
    ensures
        join_lines(ini_lines(join_lines(ini_lines(existing, section, values)), section, values))
            == join_lines(ini_lines(existing, section, values)),
{
    let ls = lines(existing);
    let header = "["@ + section + "]"@;
    let r = ini_lines(existing, section, values);
    let t = strip_each(r);
    let not_header = |l: Seq<char>| !is_section_header(l);
    let newline_free = |l: Seq<char>| one_line(l);
    lemma_lines_have_no_newline(existing);
    assert forall|j: int| 0 <= j < ls.len() implies one_line(#[trigger] ls[j]) && strip_cr(ls[j]) == ls[j] by {
        assert forall|c: int| 0 <= c < ls[j].len() implies ls[j][c] != '\n' by {
            assert(lines(existing)[j][c] != '\n');
        }
    }
    assert forall|i: int| 0 <= i < values.len() implies newline_free(#[trigger] setting_line(values[i].0, values[i].1)) by {}
    assert forall|i: int| 0 <= i < values.len() implies not_header(#[trigger] setting_line(values[i].0, values[i].1)) by {}
    assert forall|j: int, i: int| 0 <= j < t.len() && 0 <= i < values.len()
        implies line_sets_key(#[trigger] t[j], #[trigger] values[i].0) == line_sets_key(r[j], values[i].0) by {
        lemma_strip_cr_sets(r[j], values[i].0);
    }
    lemma_header_index(ls, header, 0);
    lemma_header_shape(section, Seq::empty());
    match header_index_from(ls, header, 0) {
        Some(h) => {
            let start = h + 1;
            let end0 = next_header_from(ls, start);
            lemma_next_header(ls, start);
            assert(r == apply_settings(ls, start, end0, values));
            let e = settings_end(ls, start, end0, values);
            lemma_apply_frame(ls, start, end0, values);
            assert forall|j: int| start <= j < end0 implies not_header(#[trigger] ls[j]) by {}
            lemma_apply_keeps(ls, start, end0, values, not_header);
            assert forall|j: int| start <= j < end0 implies newline_free(#[trigger] ls[j]) by {}
            lemma_apply_keeps(ls, start, end0, values, newline_free);
            assert forall|j: int| 0 <= j < r.len() implies one_line(#[trigger] r[j]) && (!(start <= j < e) ==> t[j] == r[j]) by {
                if j < start {
                    assert(r[j] == ls[j]);
                } else if j < e {
                    assert(newline_free(r[j]));
                } else {
                    assert(r[j] == ls[j - (e - end0)]);
                }
            }
            lemma_lines_of_join_one_lines(r);
            assert(lines(join_lines(r)) == t);
            lemma_header_index(t, header, 0);
            assert(header_index_from(t, header, 0) == Some(h)) by {
                assert(t[h] == ls[h]);
                match header_index_from(t, header, 0) {
                    Some(q) => {
                        if q < h {
                            assert(t[q] == ls[q]);
                        }
                        assert(!(h < q));
                    },
                    None => {},
                }
            }
            lemma_next_header(t, start);
            assert(next_header_from(t, start) == e) by {
                let nh = next_header_from(t, start);
                if nh < e {
                    assert(not_header(r[nh]));
                    lemma_strip_cr_header(r[nh]);
                }
                if nh > e {
                    assert(t[e] == r[e]);
                    assert(r[e] == ls[end0]);
                }
            }
            assert(ini_lines(join_lines(r), section, values) == apply_settings(t, start, e, values));
            lemma_apply_places(ls, start, end0, values);
            lemma_apply_written(ls, start, end0, values);
            assert forall|j: int| 0 <= j < t.len() && t[j] != r[j] implies exists|i: int|
                0 <= i < values.len() && #[trigger] key_line_from(r, values[i].0, start, e) == Some(j) by {
                assert(start <= j < e);
                assert(kept_or_found(r, ls, start, e, end0, values, j));
                if j < end0 && r[j] == ls[j] {
                    assert(t[j] == strip_cr(ls[j]));
                }
            }
            lemma_apply_reaches(t, start, e, values, r);
        },
        None => {
            let padded = if ls.len() > 0 && ls.last().len() > 0 {
                ls.push(Seq::empty())
            } else {
                ls
            };
            let wh = padded.push(header);
            let n = wh.len() as int;
            assert(r == apply_settings(wh, n, n, values));
            let e = settings_end(wh, n, n, values);
            lemma_apply_frame(wh, n, n, values);
            lemma_apply_keeps(wh, n, n, values, not_header);
            lemma_apply_keeps(wh, n, n, values, newline_free);
            reveal_strlit("[");
            reveal_strlit("]");
            assert(one_line(header) && strip_cr(header) == header) by {
                assert forall|c: int| 0 <= c < header.len() implies header[c] != '\n' by {
                    if 0 < c < header.len() - 1 {
                        assert(header[c] == section[c - 1]);
                    }
                }
            }
            assert(one_line(Seq::<char>::empty()) && strip_cr(Seq::<char>::empty()) == Seq::<char>::empty());
            assert forall|j: int| 0 <= j < r.len() implies one_line(#[trigger] r[j]) && (j < n ==> t[j] == r[j]) by {
                if j < n {
                    assert(r[j] == wh[j]);
                    if j < ls.len() {
                        assert(wh[j] == ls[j]);
                    }
                } else {
                    assert(newline_free(r[j]));
                }
            }
            lemma_lines_of_join_one_lines(r);
            assert(lines(join_lines(r)) == t);
            lemma_header_index(t, header, 0);
            lemma_header_shape(section, header);
            assert(t[n - 1] == header);
            assert(eq_ci(trim(t[n - 1]), header));
            assert(header_index_from(t, header, 0) == Some(n - 1)) by {
                match header_index_from(t, header, 0) {
                    Some(q) => {
                        if q < n - 1 {
                            assert(t[q] == wh[q]);
                            if q < ls.len() {
                                assert(wh[q] == ls[q]);
                            } else {
                                assert(wh[q] == Seq::<char>::empty());
                            }
                        }
                        assert(!(n - 1 < q));
                    },
                    None => {},
                }
            }
            lemma_next_header(t, n);
            assert(next_header_from(t, n) == e) by {
                let nh = next_header_from(t, n);
                if nh < e {
                    assert(not_header(r[nh]));
                    lemma_strip_cr_header(r[nh]);
                }
            }
            assert(ini_lines(join_lines(r), section, values) == apply_settings(t, n, e, values));
            lemma_apply_places(wh, n, n, values);
            lemma_apply_written(wh, n, n, values);
            assert forall|j: int| 0 <= j < t.len() && t[j] != r[j] implies exists|i: int|
                0 <= i < values.len() && #[trigger] key_line_from(r, values[i].0, n, e) == Some(j) by {
                assert(n <= j < e);
                assert(kept_or_found(r, wh, n, e, n, values, j));
            }
            lemma_apply_reaches(t, n, e, values, r);
        },
    }
}

} // verus!

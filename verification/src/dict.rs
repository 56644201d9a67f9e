//! Dictionary declarations: how a settings text is scanned for one, how its
//! body is read into an ordered mapping, and how the mapping is written back.
//!
//! The mapping keeps its keys in the order in which they were first seen; a
//! key that is set again keeps its place and takes the new value.

use crate::literal::{format_chars, formatted_value};
use crate::text::{
    chars_of, extend_chars, find_char, find_char_index, line_at, next_line, same_chars,
    slice_of, starts_with, trim, trim_chars, trim_matches, trim_matches_chars, trim_start,
    trim_start_chars,
};
use vstd::prelude::*;

verus! {

/// Keys with their values, in order.
pub type Pairs = Seq<(Seq<char>, Seq<char>)>;

/// The pairs that `m` holds.
pub open spec fn pairs_of(m: Seq<(Vec<char>, Vec<char>)>) -> Pairs {
    Seq::new(m.len(), |i: int| (m[i].0@, m[i].1@))
}

/// The pairs that `entries` holds.
pub open spec fn pair_views(entries: Seq<(String, String)>) -> Pairs {
    Seq::new(entries.len(), |i: int| (entries[i].0@, entries[i].1@))
}

/// The key and the value that a line of a dictionary body holds: what stands
/// before the first colon, trimmed and without surrounding quotes, and what
/// follows it, trimmed and without surrounding commas. A line without a
/// colon holds none.
pub open spec fn parsed_entry(line: Seq<char>) -> Option<(Seq<char>, Seq<char>)> {
    let i = find_char(line, 0, ':');
    if i < line.len() {
        Some(
            (
                trim_matches(trim(line.subrange(0, i)), '\''),
                trim_matches(trim(line.subrange(i + 1, line.len() as int)), ','),
            ),
        )
    } else {
        None
    }
}

/// The text with which the line that declares `name` starts.
pub open spec fn header_prefix(name: Seq<char>) -> Seq<char> {
    name + " ="@
}

/// Whether `line` declares `name`: after its leading white space it starts
/// with the name, a space and an equals sign.
pub open spec fn is_header(line: Seq<char>, name: Seq<char>) -> bool {
    header_prefix(name).is_prefix_of(trim_start(line))
}

/// Whether `line` closes a dictionary: after its leading white space it
/// starts with a closing brace.
pub open spec fn is_closing(line: Seq<char>) -> bool {
    trim_start(line).len() > 0 && trim_start(line)[0] == '}'
}

/// The index where the first line at or after `i` that declares `name`
/// starts, or `s.len()` when there is none. `i` is the start of a line.
pub open spec fn find_header(s: Seq<char>, name: Seq<char>, i: int) -> int
    decreases s.len() - i,
{
    if i < 0 || i >= s.len() {
        s.len() as int
    } else if is_header(line_at(s, i), name) {
        i
    } else if i < next_line(s, i) <= s.len() {
        find_header(s, name, next_line(s, i))
    } else {
        s.len() as int
    }
}

/// The index just after the first closing line at or after `i`, or
/// `s.len()` when there is none. `i` is the start of a line.
pub open spec fn body_end(s: Seq<char>, i: int) -> int
    decreases s.len() - i,
{
    if i < 0 || i >= s.len() {
        s.len() as int
    } else if is_closing(line_at(s, i)) {
        next_line(s, i)
    } else if i < next_line(s, i) <= s.len() {
        body_end(s, next_line(s, i))
    } else {
        s.len() as int
    }
}

/// The entries held by the lines from `i` up to the first closing line, in
/// order. Lines without a colon hold none. `i` is the start of a line.
pub open spec fn body_entries(s: Seq<char>, i: int) -> Pairs
    decreases s.len() - i,
{
    if i < 0 || i >= s.len() || is_closing(line_at(s, i)) || !(i < next_line(s, i) <= s.len()) {
        Seq::empty()
    } else {
        match parsed_entry(line_at(s, i)) {
            Some(e) => seq![e] + body_entries(s, next_line(s, i)),
            None => body_entries(s, next_line(s, i)),
        }
    }
}

/// The first index at or after `i` where `m` holds the key `k`, or
/// `m.len()`.
pub open spec fn key_index(m: Pairs, k: Seq<char>, i: int) -> int
    decreases m.len() - i,
{
    if 0 <= i < m.len() && m[i].0 != k {
        key_index(m, k, i + 1)
    } else {
        i
    }
}

/// `m` with the key `k` set to `v`: in place where `m` holds `k`, else at
/// the end.
pub open spec fn upsert(m: Pairs, k: Seq<char>, v: Seq<char>) -> Pairs {
    let p = key_index(m, k, 0);
    if p < m.len() {
        m.update(p, (k, v))
    } else {
        m.push((k, v))
    }
}

/// `m` with the entries of `es` from index `i` on set one after the other.
pub open spec fn upsert_all(m: Pairs, es: Pairs, i: int) -> Pairs
    decreases es.len() - i,
{
    if i < 0 || i >= es.len() {
        m
    } else {
        upsert_all(upsert(m, es[i].0, es[i].1), es, i + 1)
    }
}

/// The line that holds the key `k` and the value `v` in a dictionary body.
pub open spec fn entry_line(k: Seq<char>, v: Seq<char>) -> Seq<char> {
    "    '"@ + k + "': "@ + formatted_value(v) + ",\n"@
}

/// The lines of the entries of `m` from index `i` on.
pub open spec fn entry_lines(m: Pairs, i: int) -> Seq<char>
    decreases m.len() - i,
{
    if i < 0 || i >= m.len() {
        Seq::empty()
    } else {
        entry_line(m[i].0, m[i].1) + entry_lines(m, i + 1)
    }
}

/// The declaration of the dictionary `name` with the entries of `m`: a
/// header line, one line for each entry, and a closing line.
pub open spec fn dict_block(name: Seq<char>, m: Pairs) -> Seq<char> {
    name + " = {\n"@ + entry_lines(m, 0) + "}\n"@
}

/// The mapping that the dictionary body starting at line `i` holds.
pub open spec fn body_mapping(s: Seq<char>, i: int) -> Pairs {
    upsert_all(Seq::empty(), body_entries(s, i), 0)
}

/// The settings text after `entries` have been merged into the dictionary
/// `name`.
///
/// Where a line declares `name`, the text from the first such line through
/// the first closing line after it is replaced: the new declaration holds
/// what the old body held, overlaid with `entries`. The text before and
/// after stays as it is. Where no line declares `name`, a declaration with
/// one line for each of `entries` is appended after a line feed.
pub open spec fn merged_dict(content: Seq<char>, name: Seq<char>, entries: Pairs) -> Seq<char> {
    let h = find_header(content, name, 0);
    if h < content.len() {
        let b = next_line(content, h);
        content.subrange(0, h) + dict_block(
            name,
            upsert_all(body_mapping(content, b), entries, 0),
        ) + content.subrange(body_end(content, b), content.len() as int)
    } else {
        content + "\n"@ + dict_block(name, entries)
    }
}

/// The key and the value that `line` holds, if it holds a colon.
pub fn parse_entry_chars(line: &[char]) -> (r: Option<(Vec<char>, Vec<char>)>)
    ensures
        match r {
            Some(e) => parsed_entry(line@) == Some((e.0@, e.1@)),
            None => parsed_entry(line@) is None,
        },
{
    let i = find_char_index(line, 0, ':');
    if i < line.len() {
        let left = slice_of(line, 0, i);
        let right = slice_of(line, i + 1, line.len());
        let key = trim_matches_chars(&trim_chars(&left), '\'');
        let value = trim_matches_chars(&trim_chars(&right), ',');
        Some((key, value))
    } else {
        None
    }
}

/// The entries of `entries` as characters.
pub fn entries_chars(entries: &[(String, String)]) -> (r: Vec<(Vec<char>, Vec<char>)>)
    ensures
        pairs_of(r@) == pair_views(entries@),
{
    let mut r: Vec<(Vec<char>, Vec<char>)> = Vec::new();
    let mut i: usize = 0;
    while i < entries.len()
        invariant
            i <= entries.len(),
            r@.len() == i,
            forall|j: int| 0 <= j < i ==> r@[j].0@ == entries@[j].0@ && r@[j].1@ == entries@[j].1@,
        decreases entries.len() - i,
    {
        let k = chars_of(entries[i].0.as_str());
        let v = chars_of(entries[i].1.as_str());
        r.push((k, v));
        i = i + 1;
    }
    assert(pairs_of(r@) =~= pair_views(entries@));
    r
}

/// The index where the first line of `v` that declares `name` starts, or
/// `v.len()`.
pub fn find_header_index(v: &[char], name: &[char]) -> (h: usize)
    ensures
        h == find_header(v@, name@, 0),
        h <= v.len(),
{
    let mut prefix = slice_of(name, 0, name.len());
    extend_chars(&mut prefix, &chars_of(" ="));
    assert(prefix@ == header_prefix(name@));
    let mut i: usize = 0;
    while i < v.len()
        invariant
            i <= v.len(),
            prefix@ == header_prefix(name@),
            find_header(v@, name@, i as int) == find_header(v@, name@, 0),
        decreases v.len() - i,
    {
        let e = find_char_index(v, i, '\n');
        let line = slice_of(v, i, e);
        if starts_with(&trim_start_chars(&line), &prefix) {
            return i;
        }
        i = if e < v.len() {
            e + 1
        } else {
            e
        };
    }
    i
}

/// Whether `line` closes a dictionary.
pub fn is_closing_line(line: &[char]) -> (r: bool)
    ensures
        r == is_closing(line@),
{
    let t = trim_start_chars(line);
    t.len() > 0 && t[0] == '}'
}

/// The entries of the dictionary body that starts at line `start`, and the
/// index just after its closing line.
pub fn scan_body(v: &[char], start: usize) -> (r: (Vec<(Vec<char>, Vec<char>)>, usize))
    requires
        start <= v.len(),
    ensures
        pairs_of(r.0@) == body_entries(v@, start as int),
        r.1 == body_end(v@, start as int),
        start <= r.1 <= v.len(),
{
    let mut found: Vec<(Vec<char>, Vec<char>)> = Vec::new();
    let mut i: usize = start;
    assert(pairs_of(found@) =~= Seq::empty());
    while i < v.len()
        invariant
            start <= i <= v.len(),
            pairs_of(found@) + body_entries(v@, i as int) == body_entries(v@, start as int),
            body_end(v@, i as int) == body_end(v@, start as int),
        decreases v.len() - i,
    {
        let e = find_char_index(v, i, '\n');
        let line = slice_of(v, i, e);
        let next: usize = if e < v.len() {
            e + 1
        } else {
            e
        };
        if is_closing_line(&line) {
            assert(body_entries(v@, i as int) == Seq::<(Seq<char>, Seq<char>)>::empty());
            assert(pairs_of(found@) + Seq::<(Seq<char>, Seq<char>)>::empty() == pairs_of(found@));
            return (found, next);
        }
        let ghost before = pairs_of(found@);
        match parse_entry_chars(&line) {
            Some(entry) => {
                let ghost pair = (entry.0@, entry.1@);
                found.push(entry);
                assert(pairs_of(found@) =~= before.push(pair));
                assert(before.push(pair) + body_entries(v@, next as int) =~= before + (seq![pair]
                    + body_entries(v@, next as int)));
            },
            None => {},
        }
        i = next;
    }
    assert(pairs_of(found@) + Seq::<(Seq<char>, Seq<char>)>::empty() == pairs_of(found@));
    (found, i)
}

/// Sets the key `k` to `v` in `m`.
pub fn upsert_chars(m: &mut Vec<(Vec<char>, Vec<char>)>, k: Vec<char>, v: Vec<char>)
    ensures
        pairs_of(final(m)@) == upsert(pairs_of(old(m)@), k@, v@),
{
    let mut p: usize = 0;
    while p < m.len() && !same_chars(&m[p].0, &k)
        invariant
            p <= m.len(),
            m@ == old(m)@,
            key_index(pairs_of(m@), k@, p as int) == key_index(pairs_of(m@), k@, 0),
        decreases m.len() - p,
    {
        p = p + 1;
    }
    let ghost before = pairs_of(m@);
    let ghost pair = (k@, v@);
    if p < m.len() {
        m.set(p, (k, v));
        assert(pairs_of(m@) =~= before.update(p as int, pair));
    } else {
        m.push((k, v));
        assert(pairs_of(m@) =~= before.push(pair));
    }
}

/// Sets the entries of `es` in `m`, one after the other.
pub fn upsert_all_chars(m: &mut Vec<(Vec<char>, Vec<char>)>, es: &Vec<(Vec<char>, Vec<char>)>)
    ensures
        pairs_of(final(m)@) == upsert_all(pairs_of(old(m)@), pairs_of(es@), 0),
{
    let mut i: usize = 0;
    while i < es.len()
        invariant
            i <= es.len(),
            upsert_all(pairs_of(m@), pairs_of(es@), i as int) == upsert_all(
                pairs_of(old(m)@),
                pairs_of(es@),
                0,
            ),
        decreases es.len() - i,
    {
        let k = slice_of(&es[i].0, 0, es[i].0.len());
        let v = slice_of(&es[i].1, 0, es[i].1.len());
        assert(k@ == pairs_of(es@)[i as int].0);
        assert(v@ == pairs_of(es@)[i as int].1);
        upsert_chars(m, k, v);
        i = i + 1;
    }
}

/// Appends the line that holds the key `k` and the value `v`.
pub fn push_entry_line(out: &mut Vec<char>, k: &[char], v: &[char])
    ensures
        final(out)@ == old(out)@ + entry_line(k@, v@),
{
    let mut line = chars_of("    '");
    extend_chars(&mut line, k);
    extend_chars(&mut line, &chars_of("': "));
    extend_chars(&mut line, &format_chars(v));
    extend_chars(&mut line, &chars_of(",\n"));
    extend_chars(out, &line);
}

/// Appends the declaration of the dictionary `name` with the entries of
/// `m`.
pub fn push_block(out: &mut Vec<char>, name: &[char], m: &Vec<(Vec<char>, Vec<char>)>)
    ensures
        final(out)@ == old(out)@ + dict_block(name@, pairs_of(m@)),
{
    let mut block = slice_of(name, 0, name.len());
    extend_chars(&mut block, &chars_of(" = {\n"));
    let ghost head = block@;
    assert(head == name@ + " = {\n"@);
    let mut i: usize = 0;
    assert(head + Seq::<char>::empty() == head);
    while i < m.len()
        invariant
            i <= m.len(),
            block@ + entry_lines(pairs_of(m@), i as int) == head + entry_lines(pairs_of(m@), 0),
        decreases m.len() - i,
    {
        let ghost before = block@;
        push_entry_line(&mut block, &m[i].0, &m[i].1);
        i = i + 1;
        assert(block@ + entry_lines(pairs_of(m@), i as int) == before + (entry_line(
            pairs_of(m@)[i - 1].0,
            pairs_of(m@)[i - 1].1,
        ) + entry_lines(pairs_of(m@), i as int)));
    }
    assert(block@ + Seq::<char>::empty() == block@);
    extend_chars(&mut block, &chars_of("}\n"));
    extend_chars(out, &block);
}

/// The settings text `content` after `entries` have been merged into the
/// dictionary `name`.
pub fn merge_dict_chars(content: &[char], name: &[char], entries: &Vec<(Vec<char>, Vec<char>)>) -> (r:
    Vec<char>)
    ensures
        r@ == merged_dict(content@, name@, pairs_of(entries@)),
{
    let h = find_header_index(content, name);
    if h < content.len() {
        let e = find_char_index(content, h, '\n');
        let b: usize = if e < content.len() {
            e + 1
        } else {
            e
        };
        let (found, end) = scan_body(content, b);
        let mut mapping: Vec<(Vec<char>, Vec<char>)> = Vec::new();
        assert(pairs_of(mapping@) =~= Seq::empty());
        upsert_all_chars(&mut mapping, &found);
        upsert_all_chars(&mut mapping, entries);
        let mut out = slice_of(content, 0, h);
        push_block(&mut out, name, &mapping);
        extend_chars(&mut out, &slice_of(content, end, content.len()));
        out
    } else {
        let mut out = slice_of(content, 0, content.len());
        assert(out@ == content@);
        extend_chars(&mut out, &chars_of("\n"));
        push_block(&mut out, name, entries);
        out
    }
}

} // verus!

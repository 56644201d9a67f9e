//! What holds of merging entries into a dictionary declaration.

use crate::dict::{
    body_end, body_entries, body_mapping, dict_block, entry_line, entry_lines, find_header,
    header_prefix, is_closing, is_header, merged_dict, parsed_entry, upsert, upsert_all, Pairs,
};
use crate::literal::{formatted_value, is_literal};
use crate::mapping_laws::{
    distinct_keys, lemma_entry_lines_rendered, lemma_formatted_twice, lemma_key_index,
    lemma_rendered_twice, lemma_rendered_upsert_all, lemma_upsert_all_distinct,
    lemma_upsert_all_of_distinct, lemma_upsert_all_twice, rendered,
};
use crate::text::{
    find_char, is_space, line_at, next_line, no_char, occurs_at, same_outside, skip_char,
    skip_char_back, skip_spaces, skip_spaces_back, trim, trim_matches, trim_start,
};
use crate::text_laws::{
    lemma_find_char, lemma_find_char_is, lemma_line_framed, lemma_skip_char,
    lemma_skip_char_back, lemma_skip_spaces, lemma_skip_spaces_back,
};
use vstd::prelude::*;

verus! {

/// The line after a line starts after it and inside the text.
pub proof fn lemma_next_line(s: Seq<char>, i: int)
    requires
        0 <= i < s.len(),
    ensures
        i < next_line(s, i) <= s.len(),
        forall|k: int| 0 <= k < line_at(s, i).len() ==> line_at(s, i)[k] != '\n',
{
    lemma_find_char(s, i, '\n');
}

/// A search for a header ends at or after the line it started from, and
/// inside the text.
pub proof fn lemma_find_header_bounds(s: Seq<char>, name: Seq<char>, i: int)
    requires
        0 <= i <= s.len(),
    ensures
        i <= find_header(s, name, i) <= s.len(),
    decreases s.len() - i,
{
    if i < s.len() && !is_header(line_at(s, i), name) {
        lemma_next_line(s, i);
        lemma_find_header_bounds(s, name, next_line(s, i));
    }
}

/// The body of a dictionary ends at or after the line it starts from, and
/// inside the text.
pub proof fn lemma_body_end_bounds(s: Seq<char>, i: int)
    requires
        0 <= i <= s.len(),
    ensures
        i <= body_end(s, i) <= s.len(),
    decreases s.len() - i,
{
    if i < s.len() {
        lemma_next_line(s, i);
        if !is_closing(line_at(s, i)) {
            lemma_body_end_bounds(s, next_line(s, i));
        }
    }
}

/// Merging into a dictionary leaves the text outside its declaration as it
/// is: what stands before the header line and what stands after the closing
/// line. Where the text declares no such dictionary, all of it stays.
pub proof fn lemma_merge_keeps_outside(content: Seq<char>, name: Seq<char>, entries: Pairs)
    ensures
        ({
            let h = find_header(content, name, 0);
            let merged = merged_dict(content, name, entries);
            if h < content.len() {
                same_outside(content, merged, h, body_end(content, next_line(content, h)))
            } else {
                same_outside(content, merged, content.len() as int, content.len() as int)
            }
        }),
{
    let h = find_header(content, name, 0);
    let merged = merged_dict(content, name, entries);
    lemma_find_header_bounds(content, name, 0);
    if h < content.len() {
        let b = next_line(content, h);
        lemma_next_line(content, h);
        lemma_body_end_bounds(content, b);
        let end = body_end(content, b);
        let block = dict_block(name, upsert_all(body_mapping(content, b), entries, 0));
        let tail = content.subrange(end, content.len() as int);
        assert(merged == content.subrange(0, h) + block + tail);
        assert(merged.subrange(0, h) =~= content.subrange(0, h));
        assert(merged.subrange(merged.len() - (content.len() - end), merged.len() as int) =~= tail);
    } else {
        let n = content.len() as int;
        assert(merged.subrange(0, n) =~= content.subrange(0, n));
        assert(merged.subrange(merged.len() - 0, merged.len() as int) =~= content.subrange(n, n));
    }
}

/// Merging into a dictionary that the text does not declare appends the
/// declaration: a line feed, the header line, one line for each of the
/// entries in their order, and the closing line.
pub proof fn lemma_merge_without_declaration(content: Seq<char>, name: Seq<char>, entries: Pairs)
    requires
        find_header(content, name, 0) >= content.len(),
    ensures
        merged_dict(content, name, entries) == content + "\n"@ + (name + " = {\n"@ + entry_lines(
            entries,
            0,
        ) + "}\n"@),
        forall|i: int|
            0 <= i < entries.len() ==> #[trigger] entry_lines(entries, i) == entry_line(
                entries[i].0,
                entries[i].1,
            ) + entry_lines(entries, i + 1),
        entry_lines(entries, entries.len() as int) == Seq::<char>::empty(),
{
}

/// Whether `name` can be found again as the name of a dictionary: it is not
/// empty, does not start with white space and holds no line feed.
pub open spec fn wf_name(name: Seq<char>) -> bool {
    name.len() > 0 && !is_space(name[0]) && no_char(name, '\n')
}

/// Whether `k` can be read back as a key: it holds no line feed and no
/// colon, and neither starts nor ends with a single quote.
pub open spec fn wf_key(k: Seq<char>) -> bool {
    &&& no_char(k, '\n')
    &&& no_char(k, ':')
    &&& k.len() > 0 ==> k.first() != '\'' && k.last() != '\''
}

/// Whether every key of `m` can be read back and no value holds a line
/// feed.
pub open spec fn wf_entries(m: Pairs) -> bool {
    forall|i: int| 0 <= i < m.len() ==> wf_key((#[trigger] m[i]).0) && no_char(m[i].1, '\n')
}

/// The line of an entry without its line feed.
pub open spec fn entry_text(k: Seq<char>, fv: Seq<char>) -> Seq<char> {
    seq![' ', ' ', ' ', ' ', '\''] + k + seq!['\'', ':', ' '] + fv + seq![',']
}

/// The line of an entry, character by character.
proof fn lemma_entry_line_text(k: Seq<char>, v: Seq<char>)
    ensures
        entry_line(k, v) == entry_text(k, formatted_value(v)).push('\n'),
{
    reveal_strlit("    '");
    reveal_strlit("': ");
    reveal_strlit(",\n");
    assert("    '"@ =~= seq![' ', ' ', ' ', ' ', '\'']);
    assert("': "@ =~= seq!['\'', ':', ' ']);
    assert(",\n"@ =~= seq![',', '\n']);
    assert(entry_line(k, v) =~= entry_text(k, formatted_value(v)).push('\n'));
}

/// The line of an entry is read back as the entry.
proof fn lemma_parse_entry_text(k: Seq<char>, fv: Seq<char>)
    requires
        wf_key(k),
        is_literal(fv),
    ensures
        parsed_entry(entry_text(k, fv)) == Some((k, fv)),
        !is_closing(entry_text(k, fv)),
{
    let line = entry_text(k, fv);
    let n = k.len() as int;
    let colon = n + 6;
    assert(line.len() == n + fv.len() + 9);
    assert forall|j: int| 0 <= j < colon implies line[j] != ':' by {
        if 5 <= j < 5 + n {
            assert(line[j] == k[j - 5]);
        }
    }
    assert(line[colon] == ':');
    lemma_find_char_is(line, 0, ':', colon);
    // what stands before the colon
    let left = line.subrange(0, colon);
    assert(left =~= seq![' ', ' ', ' ', ' ', '\''] + k + seq!['\'']);
    lemma_skip_spaces(left, 0);
    lemma_skip_spaces_back(left, left.len() as int);
    assert(skip_spaces(left, 0) == 4) by {
        assert(is_space(left[0]) && is_space(left[1]) && is_space(left[2]) && is_space(left[3]));
        assert(!is_space(left[4]));
    }
    assert(skip_spaces_back(left, left.len() as int) == left.len()) by {
        assert(!is_space(left[left.len() - 1]));
    }
    let q = trim(left);
    assert(q =~= seq!['\''] + k + seq!['\'']);
    lemma_skip_char(q, 0, '\'');
    lemma_skip_char_back(q, q.len() as int, '\'');
    if n > 0 {
        assert(q[0] == '\'');
        assert(q[1] == k[0]);
        assert(q[q.len() - 1] == '\'');
        assert(q[q.len() - 2] == k[n - 1]);
        assert(skip_char(q, 0, '\'') == 1);
        assert(skip_char_back(q, q.len() as int, '\'') == q.len() - 1);
        assert(trim_matches(q, '\'') =~= k);
    } else {
        assert(q[0] == '\'');
        assert(q[1] == '\'');
        assert(skip_char(q, 0, '\'') == 2);
        assert(trim_matches(q, '\'') =~= k);
    }
    // what stands after the colon
    let right = line.subrange(colon + 1, line.len() as int);
    assert(right =~= seq![' '] + fv + seq![',']);
    lemma_skip_spaces(right, 0);
    lemma_skip_spaces_back(right, right.len() as int);
    assert(right[0] == ' ');
    assert(right[1] == fv[0]);
    assert(right[right.len() - 1] == ',');
    assert(skip_spaces(right, 0) == 1) by {
        assert(is_space(right[0]));
        assert(!is_space(right[1]));
    }
    assert(skip_spaces_back(right, right.len() as int) == right.len()) by {
        assert(!is_space(right[right.len() - 1]));
    }
    let t = trim(right);
    assert(t =~= fv + seq![',']);
    lemma_skip_char(t, 0, ',');
    lemma_skip_char_back(t, t.len() as int, ',');
    assert(t[0] == fv[0]);
    assert(t[t.len() - 1] == ',');
    assert(t[t.len() - 2] == fv[fv.len() - 1]);
    assert(skip_char(t, 0, ',') == 0);
    assert(skip_char_back(t, t.len() as int, ',') == t.len() - 1);
    assert(trim_matches(t, ',') =~= fv);
    // the line does not close the dictionary
    lemma_skip_spaces(line, 0);
    assert(skip_spaces(line, 0) == 4) by {
        assert(is_space(line[0]) && is_space(line[1]) && is_space(line[2]) && is_space(line[3]));
        assert(!is_space(line[4]));
    }
    assert(trim_start(line)[0] == '\'');
}

/// The lines of the entries of a mapping, followed by a closing line, are
/// read back as the mapping with its values as they are written, and the
/// body ends after the closing line.
proof fn lemma_read_entries(s: Seq<char>, pos: int, m: Pairs, i: int)
    requires
        0 <= i <= m.len(),
        wf_entries(m),
        occurs_at(s, entry_lines(m, i) + "}\n"@, pos),
    ensures
        body_entries(s, pos) == rendered(m).subrange(i, m.len() as int),
        body_end(s, pos) == pos + entry_lines(m, i).len() + 2,
    decreases m.len() - i,
{
    reveal_strlit("}\n");
    let all = entry_lines(m, i) + "}\n"@;
    if i == m.len() {
        let l = seq!['}'];
        assert(all =~= seq!['}', '\n']);
        assert(s.subrange(pos, pos + 1) =~= all.subrange(0, 1));
        assert(s[pos + 1] == s.subrange(pos, pos + all.len())[1]);
        assert(all.subrange(0, 1) =~= l);
        lemma_line_framed(s, pos, l);
        lemma_skip_spaces(l, 0);
        assert(skip_spaces(l, 0) == 0);
        assert(trim_start(l) =~= l);
        assert(is_closing(line_at(s, pos)));
        assert(rendered(m).subrange(i, m.len() as int) =~= Seq::empty());
    } else {
        let k = m[i].0;
        let v = m[i].1;
        let fv = formatted_value(v);
        let l = entry_text(k, fv);
        let rest = entry_lines(m, i + 1);
        lemma_entry_line_text(k, v);
        lemma_formatted_twice(v);
        assert(no_char(l, '\n')) by {
            assert forall|j: int| 0 <= j < l.len() implies l[j] != '\n' by {
                if 5 <= j < 5 + k.len() {
                    assert(l[j] == k[j - 5]);
                } else if 8 + k.len() <= j < 8 + k.len() + fv.len() {
                    assert(l[j] == fv[j - 8 - k.len()]);
                    if is_literal(v) {
                    } else {
                        if 1 <= j - 8 - k.len() < 1 + v.len() {
                            assert(fv[j - 8 - k.len()] == v[j - 9 - k.len()]);
                        }
                    }
                }
            }
        }
        assert(all =~= l.push('\n') + (rest + "}\n"@));
        assert(s.subrange(pos, pos + l.len()) =~= all.subrange(0, l.len() as int));
        assert(all.subrange(0, l.len() as int) =~= l);
        assert(s[pos + l.len()] == s.subrange(pos, pos + all.len())[l.len() as int]);
        lemma_line_framed(s, pos, l);
        lemma_parse_entry_text(k, fv);
        let next = pos + l.len() + 1;
        assert(s.subrange(next, next + (rest + "}\n"@).len()) =~= all.subrange(
            l.len() as int + 1,
            all.len() as int,
        ));
        assert(all.subrange(l.len() as int + 1, all.len() as int) =~= rest + "}\n"@);
        lemma_read_entries(s, next, m, i + 1);
        assert(seq![(k, fv)] + rendered(m).subrange(i + 1, m.len() as int) =~= rendered(
            m,
        ).subrange(i, m.len() as int));
    }
}

/// The declaration of a dictionary is found again where it stands, and its
/// body is read back as the mapping with its values as they are written.
proof fn lemma_read_block(s: Seq<char>, pos: int, name: Seq<char>, m: Pairs)
    requires
        wf_name(name),
        wf_entries(m),
        occurs_at(s, dict_block(name, m), pos),
    ensures
        is_header(line_at(s, pos), name),
        pos < s.len(),
        next_line(s, pos) == pos + name.len() + 5,
        body_entries(s, pos + name.len() + 5) == rendered(m),
        body_end(s, pos + name.len() + 5) == pos + dict_block(name, m).len(),
{
    reveal_strlit(" = {\n");
    reveal_strlit(" =");
    reveal_strlit("}\n");
    let block = dict_block(name, m);
    let l = name + seq![' ', '=', ' ', '{'];
    let body = entry_lines(m, 0) + "}\n"@;
    assert(" = {\n"@ =~= seq![' ', '=', ' ', '{', '\n']);
    assert(block =~= l.push('\n') + body);
    assert(no_char(l, '\n')) by {
        assert forall|j: int| 0 <= j < l.len() implies l[j] != '\n' by {
            if j < name.len() {
                assert(l[j] == name[j]);
            }
        }
    }
    assert(s.subrange(pos, pos + l.len()) =~= block.subrange(0, l.len() as int));
    assert(block.subrange(0, l.len() as int) =~= l);
    assert(s[pos + l.len()] == s.subrange(pos, pos + block.len())[l.len() as int]);
    lemma_line_framed(s, pos, l);
    lemma_skip_spaces(l, 0);
    assert(l[0] == name[0]);
    assert(skip_spaces(l, 0) == 0);
    assert(trim_start(l) =~= l);
    assert(header_prefix(name) =~= name + seq![' ', '=']);
    assert(l.subrange(0, header_prefix(name).len() as int) =~= header_prefix(name));
    let next = pos + l.len() + 1;
    assert(s.subrange(next, next + body.len()) =~= block.subrange(l.len() as int + 1, block.len() as int));
    assert(block.subrange(l.len() as int + 1, block.len() as int) =~= body);
    lemma_read_entries(s, next, m, 0);
    assert(rendered(m).subrange(0, m.len() as int) =~= rendered(m));
}

/// A text that agrees with another up to the header of a dictionary holds
/// no header before that place either.
proof fn lemma_find_header_agrees(c: Seq<char>, r: Seq<char>, name: Seq<char>, i: int, h: int)
    requires
        0 <= i <= h < c.len(),
        h <= r.len(),
        r.subrange(0, h) == c.subrange(0, h),
        find_header(c, name, i) == h,
    ensures
        find_header(r, name, i) == find_header(r, name, h),
    decreases h - i,
{
    if i < h {
        let e = find_char(c, i, '\n');
        let n = next_line(c, i);
        lemma_find_char(c, i, '\n');
        lemma_find_header_bounds(c, name, n);
        assert(e < h);
        assert forall|k: int| 0 <= k < h implies r[k] == c[k] by {
            assert(r[k] == r.subrange(0, h)[k]);
            assert(c[k] == c.subrange(0, h)[k]);
        }
        lemma_find_char_is(r, i, '\n', e);
        assert(line_at(r, i) =~= line_at(c, i));
        lemma_find_header_agrees(c, r, name, n, h);
    }
}

/// A text that holds no header is searched to its end; so is the same text
/// when a line feed and more follow it.
proof fn lemma_find_header_past(c: Seq<char>, r: Seq<char>, name: Seq<char>, i: int)
    requires
        0 <= i <= c.len(),
        find_header(c, name, i) >= c.len(),
        r.len() > c.len(),
        r.subrange(0, c.len() as int) == c,
        r[c.len() as int] == '\n',
    ensures
        find_header(r, name, i) == find_header(r, name, c.len() as int + 1),
    decreases c.len() - i,
{
    reveal_strlit(" =");
    let end = c.len() as int;
    assert forall|k: int| 0 <= k < end implies r[k] == c[k] by {
        assert(r[k] == r.subrange(0, end)[k]);
    }
    if i == end {
        lemma_find_char_is(r, end, '\n', end);
        assert(line_at(r, end) =~= Seq::empty());
        lemma_skip_spaces(line_at(r, end), 0);
    } else {
        let e = find_char(c, i, '\n');
        lemma_find_char(c, i, '\n');
        lemma_find_char_is(r, i, '\n', e);
        assert(line_at(r, i) =~= line_at(c, i));
        if e < end {
            lemma_find_header_past(c, r, name, e + 1);
        }
    }
}

/// What a line holds can be read back: the key has no colon and no quote
/// at its ends, and neither key nor value holds a line feed.
proof fn lemma_parsed_entry_wf(line: Seq<char>)
    requires
        no_char(line, '\n'),
    ensures
        parsed_entry(line) matches Some(e) ==> wf_key(e.0) && no_char(e.1, '\n'),
{
    let i = find_char(line, 0, ':');
    lemma_find_char(line, 0, ':');
    if i < line.len() {
        let left = line.subrange(0, i);
        let right = line.subrange(i + 1, line.len() as int);
        lemma_skip_spaces(left, 0);
        lemma_skip_spaces_back(left, left.len() as int);
        let t = trim(left);
        assert(no_char(t, ':') && no_char(t, '\n')) by {
            assert forall|j: int| 0 <= j < t.len() implies t[j] != ':' && t[j] != '\n' by {
                assert(t[j] == line[skip_spaces(left, 0) + j]);
            }
        }
        lemma_skip_char(t, 0, '\'');
        lemma_skip_char_back(t, t.len() as int, '\'');
        let k = trim_matches(t, '\'');
        assert forall|j: int| 0 <= j < k.len() implies k[j] != ':' && k[j] != '\n' by {
            assert(k[j] == t[skip_char(t, 0, '\'') + j]);
        }
        lemma_skip_spaces(right, 0);
        lemma_skip_spaces_back(right, right.len() as int);
        let u = trim(right);
        assert forall|j: int| 0 <= j < u.len() implies u[j] != '\n' by {
            assert(u[j] == line[i + 1 + skip_spaces(right, 0) + j]);
        }
        lemma_skip_char(u, 0, ',');
        lemma_skip_char_back(u, u.len() as int, ',');
        let v = trim_matches(u, ',');
        assert forall|j: int| 0 <= j < v.len() implies v[j] != '\n' by {
            assert(v[j] == u[skip_char(u, 0, ',') + j]);
        }
    }
}

/// The entries that a dictionary body holds can be read back.
proof fn lemma_body_entries_wf(s: Seq<char>, i: int)
    requires
        0 <= i <= s.len(),
    ensures
        wf_entries(body_entries(s, i)),
    decreases s.len() - i,
{
    if i < s.len() && !is_closing(line_at(s, i)) {
        lemma_next_line(s, i);
        lemma_parsed_entry_wf(line_at(s, i));
        lemma_body_entries_wf(s, next_line(s, i));
    }
}

/// Merging entries that can be read back into a mapping that can be read
/// back gives one that can.
proof fn lemma_upsert_all_wf(m: Pairs, es: Pairs, i: int)
    requires
        0 <= i <= es.len(),
        wf_entries(m),
        wf_entries(es),
    ensures
        wf_entries(upsert_all(m, es, i)),
    decreases es.len() - i,
{
    if i < es.len() {
        lemma_key_index(m, es[i].0, 0);
        lemma_upsert_all_wf(upsert(m, es[i].0, es[i].1), es, i + 1);
    }
}

/// A mapping with distinct keys is what its written form is read into, and
/// merging `entries` into that gives the same lines as merging them into
/// the mapping itself.
proof fn lemma_overlay_on_rendered(m: Pairs, base: Pairs, entries: Pairs)
    requires
        distinct_keys(m),
        rendered(m) == upsert_all(rendered(base), rendered(entries), 0),
    ensures
        upsert_all(Seq::empty(), rendered(m), 0) == rendered(m),
        entry_lines(upsert_all(rendered(m), entries, 0), 0) == entry_lines(m, 0),
{
    let rm = rendered(m);
    assert(distinct_keys(rm));
    lemma_upsert_all_of_distinct(rm, 0);
    assert(rm.subrange(0, 0) =~= Seq::empty());
    let m2 = upsert_all(rm, entries, 0);
    lemma_rendered_upsert_all(rm, entries, 0);
    lemma_rendered_twice(m);
    lemma_upsert_all_twice(rendered(base), rendered(entries), 0);
    assert(rendered(m2) == rm);
    lemma_entry_lines_rendered(m2, 0);
    lemma_entry_lines_rendered(m, 0);
}

/// The mapping that the first dictionary `name` of the text holds: what its
/// body is read into. It is empty where the text declares no such
/// dictionary.
pub open spec fn dict_mapping(content: Seq<char>, name: Seq<char>) -> Pairs {
    let h = find_header(content, name, 0);
    if h < content.len() {
        body_mapping(content, next_line(content, h))
    } else {
        Seq::empty()
    }
}

/// Merging into a dictionary that the text does not declare gives a text
/// that declares it, right after the old text and a line feed, and the
/// declaration holds exactly the given entries, each with its value as it
/// is written.
///
/// This holds of names, keys and values that can be read back from what is
/// written, as `wf_name` and `wf_entries` say.
pub proof fn lemma_merge_without_declaration_reads_back(
    content: Seq<char>,
    name: Seq<char>,
    entries: Pairs,
)
    requires
        wf_name(name),
        wf_entries(entries),
        find_header(content, name, 0) >= content.len(),
    ensures
        ({
            let once = merged_dict(content, name, entries);
            let start = content.len() as int + 1;
            &&& find_header(once, name, 0) == start
            &&& body_entries(once, next_line(once, start)) == rendered(entries)
            &&& body_end(once, next_line(once, start)) == once.len()
        }),
{
    let once = merged_dict(content, name, entries);
    let block = dict_block(name, entries);
    let start = content.len() as int + 1;
    reveal_strlit("\n");
    lemma_find_header_bounds(content, name, 0);
    assert(once == content + "\n"@ + block);
    assert(once.subrange(0, content.len() as int) =~= content);
    lemma_find_header_past(content, once, name, 0);
    assert(once.subrange(start, start + block.len()) =~= block);
    lemma_read_block(once, start, name, entries);
}

/// Merging the same entries into the same dictionary a second time changes
/// nothing: the text after the second merge is the text after the first, and
/// so is the mapping that it holds.
///
/// This holds of names, keys and values that can be read back from what is
/// written: a name that is not empty, does not start with white space and
/// holds no line feed; keys without line feed or colon that neither start
/// nor end with a single quote; values without line feed. Where the text
/// declares no such dictionary, the keys of `entries` are distinct.
pub proof fn lemma_merge_twice(content: Seq<char>, name: Seq<char>, entries: Pairs)
    requires
        wf_name(name),
        wf_entries(entries),
        find_header(content, name, 0) >= content.len() ==> distinct_keys(entries),
    ensures
        merged_dict(merged_dict(content, name, entries), name, entries) == merged_dict(
            content,
            name,
            entries,
        ),
        dict_mapping(merged_dict(merged_dict(content, name, entries), name, entries), name)
            == dict_mapping(merged_dict(content, name, entries), name),
{
    let h = find_header(content, name, 0);
    let once = merged_dict(content, name, entries);
    lemma_find_header_bounds(content, name, 0);
    if h < content.len() {
        let b = next_line(content, h);
        lemma_next_line(content, h);
        lemma_body_end_bounds(content, b);
        let end = body_end(content, b);
        let found = body_entries(content, b);
        let base = body_mapping(content, b);
        let m = upsert_all(base, entries, 0);
        let block = dict_block(name, m);
        let head = content.subrange(0, h);
        let tail = content.subrange(end, content.len() as int);
        assert(once == head + block + tail);
        // what the mapping holds can be read back, under distinct keys
        lemma_body_entries_wf(content, b);
        assert(wf_entries(Seq::<(Seq<char>, Seq<char>)>::empty()));
        lemma_upsert_all_wf(Seq::empty(), found, 0);
        lemma_upsert_all_wf(base, entries, 0);
        assert(distinct_keys(Seq::<(Seq<char>, Seq<char>)>::empty()));
        lemma_upsert_all_distinct(Seq::empty(), found, 0);
        lemma_upsert_all_distinct(base, entries, 0);
        // the header is found where it was
        assert(once.subrange(0, h) =~= head);
        lemma_find_header_agrees(content, once, name, 0, h);
        assert(once.subrange(h, h + block.len()) =~= block);
        lemma_read_block(once, h, name, m);
        assert(find_header(once, name, 0) == h);
        // the body is read back as the mapping
        lemma_rendered_upsert_all(base, entries, 0);
        lemma_overlay_on_rendered(m, base, entries);
        let m2 = upsert_all(body_mapping(once, h + name.len() + 5), entries, 0);
        assert(dict_block(name, m2) == block);
        assert(once.subrange(h + block.len(), once.len() as int) =~= tail);
        assert(merged_dict(once, name, entries) == head + block + tail);
    } else {
        let block = dict_block(name, entries);
        let start = content.len() as int + 1;
        reveal_strlit("\n");
        assert(once == content + "\n"@ + block);
        assert(once.subrange(0, content.len() as int) =~= content);
        lemma_find_header_past(content, once, name, 0);
        assert(once.subrange(start, start + block.len()) =~= block);
        lemma_read_block(once, start, name, entries);
        assert(find_header(once, name, 0) == start);
        assert(rendered(Seq::<(Seq<char>, Seq<char>)>::empty()) =~= Seq::empty());
        lemma_rendered_upsert_all(Seq::empty(), entries, 0);
        assert(distinct_keys(rendered(entries)));
        lemma_upsert_all_of_distinct(rendered(entries), 0);
        assert(rendered(entries).subrange(0, 0) =~= Seq::empty());
        lemma_overlay_on_rendered(entries, Seq::empty(), entries);
        let m2 = upsert_all(body_mapping(once, start + name.len() + 5), entries, 0);
        assert(dict_block(name, m2) == block);
        assert(once.subrange(0, start) =~= content + "\n"@);
        assert(once.subrange(start + block.len(), once.len() as int) =~= Seq::empty());
        assert(merged_dict(once, name, entries) =~= content + "\n"@ + block);
    }
}

} // verus!

//! What holds of the scans that the text functions are made of.

use crate::text::{
    find_char, is_space, line_at, next_line, no_char, skip_char, skip_char_back, skip_spaces,
    skip_spaces_back,
};
use vstd::prelude::*;

verus! {

/// A scan for `c` stops inside the text, on `c` or at the end, and passes
/// over no `c`.
pub proof fn lemma_find_char(s: Seq<char>, i: int, c: char)
    requires
        0 <= i <= s.len(),
    ensures
        i <= find_char(s, i, c) <= s.len(),
        find_char(s, i, c) < s.len() ==> s[find_char(s, i, c)] == c,
        forall|k: int| i <= k < find_char(s, i, c) ==> s[k] != c,
    decreases s.len() - i,
{
    if i < s.len() && s[i] != c {
        lemma_find_char(s, i + 1, c);
    }
}

/// The place where a scan for `c` stops is the first place that holds `c`.
pub proof fn lemma_find_char_is(s: Seq<char>, i: int, c: char, e: int)
    requires
        0 <= i <= e <= s.len(),
        forall|k: int| i <= k < e ==> s[k] != c,
        e < s.len() ==> s[e] == c,
    ensures
        find_char(s, i, c) == e,
    decreases e - i,
{
    if i < e {
        lemma_find_char_is(s, i + 1, c, e);
    }
}

/// The line that stands at `pos`, followed by a line feed, is the line
/// that starts there.
pub proof fn lemma_line_framed(s: Seq<char>, pos: int, l: Seq<char>)
    requires
        0 <= pos,
        pos + l.len() < s.len(),
        s.subrange(pos, pos + l.len()) == l,
        s[pos + l.len()] == '\n',
        no_char(l, '\n'),
    ensures
        find_char(s, pos, '\n') == pos + l.len(),
        line_at(s, pos) == l,
        next_line(s, pos) == pos + l.len() + 1,
{
    assert forall|k: int| pos <= k < pos + l.len() implies s[k] != '\n' by {
        assert(s[k] == s.subrange(pos, pos + l.len())[k - pos]);
    }
    lemma_find_char_is(s, pos, '\n', pos + l.len());
}

/// A scan over white space stops inside the text, on a character that is
/// not white space or at the end, and passes over white space only.
pub proof fn lemma_skip_spaces(s: Seq<char>, i: int)
    requires
        0 <= i <= s.len(),
    ensures
        i <= skip_spaces(s, i) <= s.len(),
        skip_spaces(s, i) < s.len() ==> !is_space(s[skip_spaces(s, i)]),
        forall|k: int| i <= k < skip_spaces(s, i) ==> is_space(s[k]),
    decreases s.len() - i,
{
    if i < s.len() && is_space(s[i]) {
        lemma_skip_spaces(s, i + 1);
    }
}

/// A backward scan over white space stops inside the text, after a
/// character that is not white space or at the start.
pub proof fn lemma_skip_spaces_back(s: Seq<char>, j: int)
    requires
        0 <= j <= s.len(),
    ensures
        0 <= skip_spaces_back(s, j) <= j,
        skip_spaces_back(s, j) > 0 ==> !is_space(s[skip_spaces_back(s, j) - 1]),
        forall|k: int| skip_spaces_back(s, j) <= k < j ==> is_space(s[k]),
    decreases j,
{
    if 0 < j && is_space(s[j - 1]) {
        lemma_skip_spaces_back(s, j - 1);
    }
}

/// A scan over a run of `c` stops inside the text, on another character or
/// at the end.
pub proof fn lemma_skip_char(s: Seq<char>, i: int, c: char)
    requires
        0 <= i <= s.len(),
    ensures
        i <= skip_char(s, i, c) <= s.len(),
        skip_char(s, i, c) < s.len() ==> s[skip_char(s, i, c)] != c,
        forall|k: int| i <= k < skip_char(s, i, c) ==> s[k] == c,
    decreases s.len() - i,
{
    if i < s.len() && s[i] == c {
        lemma_skip_char(s, i + 1, c);
    }
}

/// A backward scan over a run of `c` stops inside the text, after another
/// character or at the start.
pub proof fn lemma_skip_char_back(s: Seq<char>, j: int, c: char)
    requires
        0 <= j <= s.len(),
    ensures
        0 <= skip_char_back(s, j, c) <= j,
        skip_char_back(s, j, c) > 0 ==> s[skip_char_back(s, j, c) - 1] != c,
        forall|k: int| skip_char_back(s, j, c) <= k < j ==> s[k] == c,
    decreases j,
{
    if 0 < j && s[j - 1] == c {
        lemma_skip_char_back(s, j - 1, c);
    }
}

} // verus!

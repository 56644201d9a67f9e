//! What holds of appending to a list declaration.

use crate::literal::quoted;
use crate::settings::{appended_to_list, list_opening, list_opening_with};
use crate::text::{contains, occurs_at, replaced_from, same_outside};
use vstd::prelude::*;

verus! {

/// Where `from` occurs nowhere from `i` on, replacing it changes nothing.
pub proof fn lemma_replaced_without_occurrence(
    s: Seq<char>,
    from: Seq<char>,
    to: Seq<char>,
    i: int,
)
    requires
        0 <= i <= s.len(),
        from.len() == 0 || forall|j: int| i <= j ==> !occurs_at(s, from, j),
    ensures
        replaced_from(s, from, to, i) == s.subrange(i, s.len() as int),
    decreases s.len() - i,
{
    if i < s.len() {
        lemma_replaced_without_occurrence(s, from, to, i + 1);
        assert(seq![s[i]] + s.subrange(i + 1, s.len() as int) =~= s.subrange(i, s.len() as int));
    }
}

/// The text before the first occurrence of `from` is copied as it is.
pub proof fn lemma_replaced_before_first(
    s: Seq<char>,
    from: Seq<char>,
    to: Seq<char>,
    i: int,
    p: int,
)
    requires
        0 <= i <= p <= s.len(),
        forall|j: int| i <= j < p ==> !occurs_at(s, from, j),
    ensures
        replaced_from(s, from, to, i) == s.subrange(i, p) + replaced_from(s, from, to, p),
    decreases p - i,
{
    if i < p {
        lemma_replaced_before_first(s, from, to, i + 1, p);
        assert(seq![s[i]] + (s.subrange(i + 1, p) + replaced_from(s, from, to, p)) =~= s.subrange(
            i,
            p,
        ) + replaced_from(s, from, to, p));
    } else {
        assert(s.subrange(i, p) + replaced_from(s, from, to, p) =~= replaced_from(s, from, to, p));
    }
}

/// The text after the last place where `from` can still reach is copied as
/// it is: it ends the result.
pub proof fn lemma_replaced_after_last(
    s: Seq<char>,
    from: Seq<char>,
    to: Seq<char>,
    i: int,
    q: int,
)
    requires
        0 <= i <= q <= s.len(),
        forall|j: int| j + from.len() > q ==> !occurs_at(s, from, j),
    ensures
        ({
            let r = replaced_from(s, from, to, i);
            &&& r.len() >= s.len() - q
            &&& r.subrange(r.len() - (s.len() - q), r.len() as int) == s.subrange(
                q,
                s.len() as int,
            )
        }),
    decreases s.len() - i,
{
    let r = replaced_from(s, from, to, i);
    let tail = s.subrange(q, s.len() as int);
    if i == q {
        lemma_replaced_without_occurrence(s, from, to, i);
        assert(r.subrange(0, r.len() as int) =~= r);
    } else if from.len() > 0 && occurs_at(s, from, i) {
        assert(i + from.len() <= q);
        lemma_replaced_after_last(s, from, to, i + from.len(), q);
        let rest = replaced_from(s, from, to, i + from.len());
        assert(r == to + rest);
        assert(r.subrange(r.len() - (s.len() - q), r.len() as int) =~= rest.subrange(
            rest.len() - (s.len() - q),
            rest.len() as int,
        ));
    } else {
        lemma_replaced_after_last(s, from, to, i + 1, q);
        let rest = replaced_from(s, from, to, i + 1);
        assert(r == seq![s[i]] + rest);
        assert(r.subrange(r.len() - (s.len() - q), r.len() as int) =~= rest.subrange(
            rest.len() - (s.len() - q),
            rest.len() as int,
        ));
    }
}

/// Where `from` occurs at or after `i`, the result holds `to`.
pub proof fn lemma_replaced_holds_replacement(
    s: Seq<char>,
    from: Seq<char>,
    to: Seq<char>,
    i: int,
    j: int,
)
    requires
        0 <= i <= j,
        from.len() > 0,
        occurs_at(s, from, j),
    ensures
        contains(replaced_from(s, from, to, i), to),
    decreases s.len() - i,
{
    let r = replaced_from(s, from, to, i);
    if occurs_at(s, from, i) {
        let rest = replaced_from(s, from, to, i + from.len());
        assert(r == to + rest);
        assert(r.subrange(0, to.len() as int) =~= to);
        assert(occurs_at(r, to, 0));
    } else {
        lemma_replaced_holds_replacement(s, from, to, i + 1, j);
        let rest = replaced_from(s, from, to, i + 1);
        let k = choose|k: int| occurs_at(rest, to, k);
        assert(r == seq![s[i]] + rest);
        assert(r.subrange(k + 1, k + 1 + to.len()) =~= rest.subrange(k, k + to.len()));
        assert(occurs_at(r, to, k + 1));
    }
}

/// What stands in a part of a text stands in the text.
pub proof fn lemma_contains_within(s: Seq<char>, part: Seq<char>, p: Seq<char>, at: int)
    requires
        occurs_at(s, part, at),
        contains(part, p),
    ensures
        contains(s, p),
{
    let k = choose|k: int| occurs_at(part, p, k);
    assert(s.subrange(at + k, at + k + p.len()) =~= s.subrange(at, at + part.len()).subrange(
        k,
        k + p.len(),
    ));
    assert(occurs_at(s, p, at + k));
}

/// Appending the same entry to the same list a second time changes
/// nothing.
pub proof fn lemma_append_twice(content: Seq<char>, name: Seq<char>, entry: Seq<char>)
    ensures
        appended_to_list(appended_to_list(content, name, entry), name, entry) == appended_to_list(
            content,
            name,
            entry,
        ),
{
    let opening = list_opening(name);
    let with_entry = list_opening_with(name, entry);
    let once = appended_to_list(content, name, entry);
    if !contains(content, quoted(entry)) && !contains(once, quoted(entry)) {
        reveal_strlit(" = [");
        if exists|j: int| 0 <= j && occurs_at(content, opening, j) {
            let j = choose|j: int| 0 <= j && occurs_at(content, opening, j);
            lemma_replaced_holds_replacement(content, opening, with_entry, 0, j);
            let at = choose|at: int| occurs_at(once, with_entry, at);
            let off: int = (opening.len() + "\n    "@.len()) as int;
            assert(with_entry.subrange(off, off + quoted(entry).len()) =~= quoted(entry));
            assert(occurs_at(with_entry, quoted(entry), off));
            lemma_contains_within(once, with_entry, quoted(entry), at);
        } else {
            lemma_replaced_without_occurrence(content, opening, with_entry, 0);
            assert(content.subrange(0, content.len() as int) =~= content);
        }
    }
}

/// Appending to a list leaves the text outside the list's openings as it
/// is: the text before `p` where no opening starts before `p`, and the text
/// from `q` on where no opening reaches beyond `q`.
pub proof fn lemma_append_keeps_outside(
    content: Seq<char>,
    name: Seq<char>,
    entry: Seq<char>,
    p: int,
    q: int,
)
    requires
        0 <= p <= q <= content.len(),
        forall|j: int| 0 <= j < p ==> !occurs_at(content, list_opening(name), j),
        forall|j: int| j + list_opening(name).len() > q ==> !occurs_at(content, list_opening(name), j),
    ensures
        same_outside(content, appended_to_list(content, name, entry), p, q),
{
    let opening = list_opening(name);
    let with_entry = list_opening_with(name, entry);
    let once = appended_to_list(content, name, entry);
    if contains(content, quoted(entry)) {
    } else {
        lemma_replaced_before_first(content, opening, with_entry, 0, p);
        lemma_replaced_after_last(content, opening, with_entry, p, q);
        let rest = replaced_from(content, opening, with_entry, p);
        assert(once == content.subrange(0, p) + rest);
        assert(once.subrange(0, p) =~= content.subrange(0, p));
        assert(once.subrange(once.len() - (content.len() - q), once.len() as int) =~= rest.subrange(
            rest.len() - (content.len() - q),
            rest.len() as int,
        ));
    }
}

/// Appending to a list that the text does not declare changes nothing.
pub proof fn lemma_append_without_declaration(
    content: Seq<char>,
    name: Seq<char>,
    entry: Seq<char>,
)
    requires
        !contains(content, list_opening(name)),
    ensures
        appended_to_list(content, name, entry) == content,
{
    lemma_replaced_without_occurrence(
        content,
        list_opening(name),
        list_opening_with(name, entry),
        0,
    );
    assert(content.subrange(0, content.len() as int) =~= content);
}

} // verus!

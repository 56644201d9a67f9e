//! Character sequences: the mathematical vocabulary of the patch engine and
//! the executable helpers that compute it.
//!
//! Text is modelled as `Seq<char>`. Scanning functions take a start index and
//! return the index where the scan stops, so that a loop over a buffer and the
//! specification it implements walk the same positions.

use vstd::prelude::*;
use vstd::string::*;

verus! {

/// Whether `c` is white space: the characters with the Unicode property
/// `White_Space`.
pub open spec fn is_space(c: char) -> bool {
    let u = c as u32;
    ||| 0x09 <= u <= 0x0D
    ||| u == 0x20
    ||| u == 0x85
    ||| u == 0xA0
    ||| u == 0x1680
    ||| 0x2000 <= u <= 0x200A
    ||| u == 0x2028
    ||| u == 0x2029
    ||| u == 0x202F
    ||| u == 0x205F
    ||| u == 0x3000
}

/// Whether `s` holds no `c`.
pub open spec fn no_char(s: Seq<char>, c: char) -> bool {
    forall|i: int| 0 <= i < s.len() ==> s[i] != c
}

/// Whether `p` stands in `s` at index `i`.
pub open spec fn occurs_at(s: Seq<char>, p: Seq<char>, i: int) -> bool {
    0 <= i && i + p.len() <= s.len() && s.subrange(i, i + p.len()) == p
}

/// Whether `p` stands somewhere in `s`.
pub open spec fn contains(s: Seq<char>, p: Seq<char>) -> bool {
    exists|i: int| occurs_at(s, p, i)
}

/// The first index at or after `i` where `s` holds `c`, or `s.len()`.
pub open spec fn find_char(s: Seq<char>, i: int, c: char) -> int
    decreases s.len() - i,
{
    if 0 <= i < s.len() && s[i] != c {
        find_char(s, i + 1, c)
    } else {
        i
    }
}

/// The first index at or after `i` where `s` holds no white space, or
/// `s.len()`.
pub open spec fn skip_spaces(s: Seq<char>, i: int) -> int
    decreases s.len() - i,
{
    if 0 <= i < s.len() && is_space(s[i]) {
        skip_spaces(s, i + 1)
    } else {
        i
    }
}

/// The least `k <= j` such that `s` holds only white space from `k` up to
/// `j`.
pub open spec fn skip_spaces_back(s: Seq<char>, j: int) -> int
    decreases j,
{
    if 0 < j <= s.len() && is_space(s[j - 1]) {
        skip_spaces_back(s, j - 1)
    } else {
        j
    }
}

/// The first index at or after `i` where `s` holds white space, or
/// `s.len()`.
pub open spec fn find_space(s: Seq<char>, i: int) -> int
    decreases s.len() - i,
{
    if 0 <= i < s.len() && !is_space(s[i]) {
        find_space(s, i + 1)
    } else {
        i
    }
}

/// The least `k <= j` such that `s` holds no white space from `k` up to
/// `j`.
pub open spec fn find_space_back(s: Seq<char>, j: int) -> int
    decreases j,
{
    if 0 < j <= s.len() && !is_space(s[j - 1]) {
        find_space_back(s, j - 1)
    } else {
        j
    }
}

/// The first index at or after `i` where `s` does not hold `c`, or
/// `s.len()`.
pub open spec fn skip_char(s: Seq<char>, i: int, c: char) -> int
    decreases s.len() - i,
{
    if 0 <= i < s.len() && s[i] == c {
        skip_char(s, i + 1, c)
    } else {
        i
    }
}

/// The least `k <= j` such that `s` holds only `c` from `k` up to `j`.
pub open spec fn skip_char_back(s: Seq<char>, j: int, c: char) -> int
    decreases j,
{
    if 0 < j <= s.len() && s[j - 1] == c {
        skip_char_back(s, j - 1, c)
    } else {
        j
    }
}

/// `s` without its leading white space.
pub open spec fn trim_start(s: Seq<char>) -> Seq<char> {
    s.subrange(skip_spaces(s, 0), s.len() as int)
}

/// `s` without its leading and trailing white space.
pub open spec fn trim(s: Seq<char>) -> Seq<char> {
    let a = skip_spaces(s, 0);
    let b = skip_spaces_back(s, s.len() as int);
    if a < b {
        s.subrange(a, b)
    } else {
        Seq::empty()
    }
}

/// `s` without the run of `c` at its start and the run of `c` at its end.
pub open spec fn trim_matches(s: Seq<char>, c: char) -> Seq<char> {
    let a = skip_char(s, 0, c);
    let b = skip_char_back(s, s.len() as int, c);
    if a < b {
        s.subrange(a, b)
    } else {
        Seq::empty()
    }
}

/// `s` from index `i` on, with every occurrence of `from` replaced by `to`,
/// taken from left to right without overlap. An empty `from` occurs nowhere.
pub open spec fn replaced_from(s: Seq<char>, from: Seq<char>, to: Seq<char>, i: int) -> Seq<char>
    decreases s.len() - i,
{
    if i < 0 || i >= s.len() {
        Seq::empty()
    } else if from.len() > 0 && occurs_at(s, from, i) {
        to + replaced_from(s, from, to, i + from.len())
    } else {
        seq![s[i]] + replaced_from(s, from, to, i + 1)
    }
}

/// `s` with every occurrence of `from` replaced by `to`.
pub open spec fn replaced(s: Seq<char>, from: Seq<char>, to: Seq<char>) -> Seq<char> {
    replaced_from(s, from, to, 0)
}

/// The line of `s` that starts at index `i`, without its line feed.
pub open spec fn line_at(s: Seq<char>, i: int) -> Seq<char> {
    s.subrange(i, find_char(s, i, '\n'))
}

/// The index where the line after the one starting at `i` starts, or
/// `s.len()` when that line is the last.
pub open spec fn next_line(s: Seq<char>, i: int) -> int {
    let e = find_char(s, i, '\n');
    if e < s.len() {
        e + 1
    } else {
        e
    }
}

/// Whether `new` is `old` with the part from `a` up to `b` replaced by
/// something: the two agree on what stands before `a` and on what stands
/// from `b` on.
pub open spec fn same_outside(old: Seq<char>, new: Seq<char>, a: int, b: int) -> bool {
    &&& 0 <= a <= b <= old.len()
    &&& new.len() >= a + (old.len() - b)
    &&& new.subrange(0, a) == old.subrange(0, a)
    &&& new.subrange(new.len() - (old.len() - b), new.len() as int) == old.subrange(
        b,
        old.len() as int,
    )
}

/// Appends one character to a string.
///
/// Wraps `String::push`, which appends the given `char` to the end of the
/// string: the new contents are the old ones followed by `c`.
#[verifier::external_body]
pub(crate) fn push_char(s: &mut String, c: char)
    ensures
        final(s)@ == old(s)@.push(c),
{
    s.push(c)
}

/// The characters of `s`, in order.
pub fn chars_of(s: &str) -> (v: Vec<char>)
    ensures
        v@ == s@,
{
    let mut v: Vec<char> = Vec::new();
    for c in it: s.chars()
        invariant
            v@ == it.seq().take(it.index() as int),
            it.seq() == s@,
    {
        v.push(c);
    }
    v
}

/// The string made of the characters of `v`, in order.
pub fn string_of(v: &[char]) -> (s: String)
    ensures
        s@ == v@,
{
    let mut s = String::new();
    let mut i: usize = 0;
    while i < v.len()
        invariant
            i <= v.len(),
            s@ == v@.take(i as int),
        decreases v.len() - i,
    {
        push_char(&mut s, v[i]);
        i = i + 1;
        assert(v@.take(i as int) == v@.take(i as int - 1).push(v@[i as int - 1]));
    }
    assert(v@.take(v.len() as int) == v@);
    s
}

/// Whether `c` is white space.
pub fn is_space_char(c: char) -> (b: bool)
    ensures
        b == is_space(c),
{
    let u: u32 = c as u32;
    (0x09 <= u && u <= 0x0D) || u == 0x20 || u == 0x85 || u == 0xA0 || u == 0x1680 || (0x2000 <= u
        && u <= 0x200A) || u == 0x2028 || u == 0x2029 || u == 0x202F || u == 0x205F || u == 0x3000
}

/// A copy of `v` from index `a` up to index `b`.
pub fn slice_of(v: &[char], a: usize, b: usize) -> (r: Vec<char>)
    requires
        a <= b <= v.len(),
    ensures
        r@ == v@.subrange(a as int, b as int),
{
    let mut r: Vec<char> = Vec::new();
    let mut i: usize = a;
    while i < b
        invariant
            a <= i <= b <= v.len(),
            r@ == v@.subrange(a as int, i as int),
        decreases b - i,
    {
        r.push(v[i]);
        i = i + 1;
    }
    r
}

/// Appends the characters of `tail` to `out`.
pub fn extend_chars(out: &mut Vec<char>, tail: &[char])
    ensures
        final(out)@ == old(out)@ + tail@,
{
    let mut i: usize = 0;
    while i < tail.len()
        invariant
            i <= tail.len(),
            out@ == old(out)@ + tail@.subrange(0, i as int),
        decreases tail.len() - i,
    {
        out.push(tail[i]);
        i = i + 1;
    }
    assert(tail@.subrange(0, tail.len() as int) == tail@);
}

/// Whether `p` stands in `v` at index `i`.
pub fn occurs_at_index(v: &[char], p: &[char], i: usize) -> (b: bool)
    ensures
        b == occurs_at(v@, p@, i as int),
{
    if p.len() > v.len() || i > v.len() - p.len() {
        return false;
    }
    let mut k: usize = 0;
    while k < p.len()
        invariant
            k <= p.len(),
            i + p.len() <= v.len(),
            forall|j: int| 0 <= j < k ==> v@[i + j] == p@[j],
        decreases p.len() - k,
    {
        if v[i + k] != p[k] {
            assert(v@.subrange(i as int, i + p.len())[k as int] != p@[k as int]);
            return false;
        }
        k = k + 1;
    }
    assert(v@.subrange(i as int, i + p.len()) =~= p@);
    true
}

/// Whether `v` starts with `p`.
pub fn starts_with(v: &[char], p: &[char]) -> (b: bool)
    ensures
        b == p@.is_prefix_of(v@),
{
    occurs_at_index(v, p, 0)
}

/// Whether `p` stands somewhere in `v`.
pub fn contains_chars(v: &[char], p: &[char]) -> (b: bool)
    ensures
        b == contains(v@, p@),
{
    if p.len() > v.len() {
        return false;
    }
    let last: usize = v.len() - p.len();
    let mut i: usize = 0;
    loop
        invariant
            i <= last,
            last == v.len() - p.len(),
            forall|j: int| 0 <= j < i ==> !occurs_at(v@, p@, j),
        decreases last - i,
    {
        if occurs_at_index(v, p, i) {
            return true;
        }
        if i == last {
            return false;
        }
        i = i + 1;
    }
}

/// `v` with every occurrence of `from` replaced by `to`.
pub fn replace_all(v: &[char], from: &[char], to: &[char]) -> (r: Vec<char>)
    ensures
        r@ == replaced(v@, from@, to@),
{
    let mut r: Vec<char> = Vec::new();
    let mut i: usize = 0;
    while i < v.len()
        invariant
            i <= v.len(),
            r@ + replaced_from(v@, from@, to@, i as int) == replaced(v@, from@, to@),
        decreases v.len() - i,
    {
        let ghost before = r@;
        if from.len() > 0 && occurs_at_index(v, from, i) {
            extend_chars(&mut r, to);
            i = i + from.len();
            assert(r@ + replaced_from(v@, from@, to@, i as int) == before + (to@ + replaced_from(
                v@,
                from@,
                to@,
                i as int,
            )));
        } else {
            r.push(v[i]);
            i = i + 1;
            assert(r@ + replaced_from(v@, from@, to@, i as int) == before + (seq![v@[i - 1]]
                + replaced_from(v@, from@, to@, i as int)));
        }
    }
    assert(r@ + Seq::<char>::empty() == r@);
    r
}

/// The first index at or after `i` where `v` holds `c`, or `v.len()`.
pub fn find_char_index(v: &[char], i: usize, c: char) -> (j: usize)
    requires
        i <= v.len(),
    ensures
        j == find_char(v@, i as int, c),
        i <= j <= v.len(),
{
    let mut j: usize = i;
    while j < v.len() && v[j] != c
        invariant
            i <= j <= v.len(),
            find_char(v@, j as int, c) == find_char(v@, i as int, c),
        decreases v.len() - j,
    {
        j = j + 1;
    }
    j
}

/// The first index at or after `i` where `v` holds no white space, or
/// `v.len()`.
pub fn skip_spaces_index(v: &[char], i: usize) -> (j: usize)
    requires
        i <= v.len(),
    ensures
        j == skip_spaces(v@, i as int),
        i <= j <= v.len(),
{
    let mut j: usize = i;
    while j < v.len() && is_space_char(v[j])
        invariant
            i <= j <= v.len(),
            skip_spaces(v@, j as int) == skip_spaces(v@, i as int),
        decreases v.len() - j,
    {
        j = j + 1;
    }
    j
}

/// The least `k <= j` such that `v` holds only white space from `k` up to
/// `j`.
pub fn skip_spaces_back_index(v: &[char], j: usize) -> (k: usize)
    requires
        j <= v.len(),
    ensures
        k == skip_spaces_back(v@, j as int),
        k <= j,
{
    let mut k: usize = j;
    while k > 0 && is_space_char(v[k - 1])
        invariant
            k <= j <= v.len(),
            skip_spaces_back(v@, k as int) == skip_spaces_back(v@, j as int),
        decreases k,
    {
        k = k - 1;
    }
    k
}

/// The first index at or after `i` where `v` holds white space, or
/// `v.len()`.
pub fn find_space_index(v: &[char], i: usize) -> (j: usize)
    requires
        i <= v.len(),
    ensures
        j == find_space(v@, i as int),
        i <= j <= v.len(),
{
    let mut j: usize = i;
    while j < v.len() && !is_space_char(v[j])
        invariant
            i <= j <= v.len(),
            find_space(v@, j as int) == find_space(v@, i as int),
        decreases v.len() - j,
    {
        j = j + 1;
    }
    j
}

/// The least `k <= j` such that `v` holds no white space from `k` up to
/// `j`.
pub fn find_space_back_index(v: &[char], j: usize) -> (k: usize)
    requires
        j <= v.len(),
    ensures
        k == find_space_back(v@, j as int),
        k <= j,
{
    let mut k: usize = j;
    while k > 0 && !is_space_char(v[k - 1])
        invariant
            k <= j <= v.len(),
            find_space_back(v@, k as int) == find_space_back(v@, j as int),
        decreases k,
    {
        k = k - 1;
    }
    k
}

/// `v` without its leading white space.
pub fn trim_start_chars(v: &[char]) -> (r: Vec<char>)
    ensures
        r@ == trim_start(v@),
{
    slice_of(v, skip_spaces_index(v, 0), v.len())
}

/// `v` without its leading and trailing white space.
pub fn trim_chars(v: &[char]) -> (r: Vec<char>)
    ensures
        r@ == trim(v@),
{
    let a = skip_spaces_index(v, 0);
    let b = skip_spaces_back_index(v, v.len());
    if a < b {
        slice_of(v, a, b)
    } else {
        Vec::new()
    }
}

/// `v` without the run of `c` at its start and the run of `c` at its end.
pub fn trim_matches_chars(v: &[char], c: char) -> (r: Vec<char>)
    ensures
        r@ == trim_matches(v@, c),
{
    let mut a: usize = 0;
    while a < v.len() && v[a] == c
        invariant
            a <= v.len(),
            skip_char(v@, a as int, c) == skip_char(v@, 0, c),
        decreases v.len() - a,
    {
        a = a + 1;
    }
    let mut b: usize = v.len();
    while b > 0 && v[b - 1] == c
        invariant
            b <= v.len(),
            skip_char_back(v@, b as int, c) == skip_char_back(v@, v.len() as int, c),
        decreases b,
    {
        b = b - 1;
    }
    if a < b {
        slice_of(v, a, b)
    } else {
        Vec::new()
    }
}

/// Whether `a` and `b` hold the same characters.
pub fn same_chars(a: &[char], b: &[char]) -> (r: bool)
    ensures
        r == (a@ == b@),
{
    if a.len() != b.len() {
        return false;
    }
    let r = occurs_at_index(a, b, 0);
    assert(a@.subrange(0, a@.len() as int) == a@);
    r
}

/// Whether `a` and `b` are the same text.
pub fn same_text(a: &str, b: &str) -> (r: bool)
    ensures
        r == (a@ == b@),
{
    same_chars(&chars_of(a), &chars_of(b))
}

/// Whether the text `s` starts with the text `p`.
pub fn text_starts_with(s: &str, p: &str) -> (r: bool)
    ensures
        r == p@.is_prefix_of(s@),
{
    starts_with(&chars_of(s), &chars_of(p))
}

} // verus!

//! Small decisions on names and versions.

use crate::text::{
    chars_of, find_char, find_char_index, same_chars, slice_of, string_of, trim, trim_chars,
};
use vstd::prelude::*;
use vstd::string::*;

verus! {

/// Whether `c` is a letter or a digit of any script.
pub uninterp spec fn is_alphanumeric(c: char) -> bool;

/// Tells letters and digits from other characters.
///
/// Wraps `char::is_alphanumeric`, which goes by the Unicode character
/// tables. The answer depends on the character alone.
#[verifier::external_body]
pub(crate) fn char_is_alphanumeric(c: char) -> (b: bool)
    ensures
        b == is_alphanumeric(c),
{
    c.is_alphanumeric()
}

/// The character that stands for `c` in a project name: `c` itself when it
/// is a letter, a digit or an underscore, else an underscore.
pub open spec fn sanitized_char(c: char) -> char {
    if is_alphanumeric(c) || c == '_' {
        c
    } else {
        '_'
    }
}

/// Whether `c` is one of the digits `0` to `9`.
pub open spec fn is_ascii_digit(c: char) -> bool {
    '0' <= c <= '9'
}

/// The project name made from `name`: trimmed, every character that is no
/// letter, digit or underscore replaced by an underscore, and an underscore
/// put in front where the first character is a digit.
pub open spec fn sanitized(name: Seq<char>) -> Seq<char> {
    let body = trim(name).map_values(|c: char| sanitized_char(c));
    if body.len() > 0 && is_ascii_digit(body[0]) {
        seq!['_'] + body
    } else {
        body
    }
}

/// Makes a project name that can serve as a Python identifier. The name
/// must hold something besides white space.
pub fn sanitize_project_name(name: &str) -> (r: String)
    requires
        trim(name@).len() > 0,
    ensures
        r@ == sanitized(name@),
{
    let trimmed = trim_chars(&chars_of(name));
    let mut body: Vec<char> = Vec::new();
    let mut i: usize = 0;
    while i < trimmed.len()
        invariant
            i <= trimmed.len(),
            body@ == trimmed@.subrange(0, i as int).map_values(|c: char| sanitized_char(c)),
        decreases trimmed.len() - i,
    {
        let c = trimmed[i];
        let kept = if char_is_alphanumeric(c) || c == '_' {
            c
        } else {
            '_'
        };
        body.push(kept);
        i = i + 1;
        assert(body@ =~= trimmed@.subrange(0, i as int).map_values(|c: char| sanitized_char(c)));
    }
    assert(trimmed@.subrange(0, trimmed.len() as int) == trimmed@);
    let first = body[0];
    if '0' <= first && first <= '9' {
        let mut r: Vec<char> = Vec::new();
        r.push('_');
        let mut k: usize = 0;
        while k < body.len()
            invariant
                k <= body.len(),
                r@ == seq!['_'] + body@.subrange(0, k as int),
            decreases body.len() - k,
        {
            r.push(body[k]);
            k = k + 1;
        }
        assert(body@.subrange(0, body.len() as int) == body@);
        string_of(&r)
    } else {
        string_of(&body)
    }
}

/// The first two dot-separated parts of a version, joined by a dot: `v` up
/// to its second dot.
pub open spec fn major_minor(v: Seq<char>) -> Seq<char> {
    let first = find_char(v, 0, '.');
    if first < v.len() {
        v.subrange(0, find_char(v, first + 1, '.'))
    } else {
        v
    }
}

/// Whether the given release of Django runs on the given release of
/// Python.
pub open spec fn supports(django: Seq<char>, python: Seq<char>) -> bool {
    ||| django == "5.0"@ && (python == "3.10"@ || python == "3.11"@ || python == "3.12"@)
    ||| django == "4.2"@ && (python == "3.8"@ || python == "3.9"@ || python == "3.10"@ || python
        == "3.11"@ || python == "3.12"@)
    ||| django == "4.1"@ && (python == "3.8"@ || python == "3.9"@ || python == "3.10"@ || python
        == "3.11"@)
    ||| django == "4.0"@ && (python == "3.8"@ || python == "3.9"@ || python == "3.10"@)
    ||| django == "3.2"@ && (python == "3.6"@ || python == "3.7"@ || python == "3.8"@ || python
        == "3.9"@ || python == "3.10"@)
}

/// The newest release of Django that runs on the given release of Python,
/// if there is one.
pub open spec fn newest_supporting(python: Seq<char>) -> Option<Seq<char>> {
    if supports("5.0"@, python) {
        Some("5.0"@)
    } else if supports("4.2"@, python) {
        Some("4.2"@)
    } else if supports("4.1"@, python) {
        Some("4.1"@)
    } else if supports("4.0"@, python) {
        Some("4.0"@)
    } else if supports("3.2"@, python) {
        Some("3.2"@)
    } else {
        None
    }
}

/// Whether `v` is the version written as `literal`.
fn is_version(v: &Vec<char>, literal: &str) -> (r: bool)
    ensures
        r == (v@ == literal@),
{
    same_chars(v, &chars_of(literal))
}

/// Whether the given release of Django runs on the given release of
/// Python.
pub fn django_supports(django: &str, python: &str) -> (r: bool)
    ensures
        r == supports(django@, python@),
{
    let d = chars_of(django);
    let p = chars_of(python);
    let p36 = is_version(&p, "3.6");
    let p37 = is_version(&p, "3.7");
    let p38 = is_version(&p, "3.8");
    let p39 = is_version(&p, "3.9");
    let p310 = is_version(&p, "3.10");
    let p311 = is_version(&p, "3.11");
    let p312 = is_version(&p, "3.12");
    (is_version(&d, "5.0") && (p310 || p311 || p312)) || (is_version(&d, "4.2") && (p38 || p39
        || p310 || p311 || p312)) || (is_version(&d, "4.1") && (p38 || p39 || p310 || p311)) || (
    is_version(&d, "4.0") && (p38 || p39 || p310)) || (is_version(&d, "3.2") && (p36 || p37 || p38
        || p39 || p310))
}

/// The first two dot-separated parts of `version`, joined by a dot.
pub fn normalize_version(version: &str) -> (r: String)
    ensures
        r@ == major_minor(version@),
{
    let v = chars_of(version);
    let first = find_char_index(&v, 0, '.');
    if first < v.len() {
        let second = find_char_index(&v, first + 1, '.');
        string_of(&slice_of(&v, 0, second))
    } else {
        string_of(&v)
    }
}

/// The newest release of Django that runs on the given version of Python,
/// of which only the first two parts count.
pub fn get_compatible_django_version(python_version: &str) -> (r: Option<&'static str>)
    ensures
        match r {
            Some(d) => newest_supporting(major_minor(python_version@)) == Some(d@),
            None => newest_supporting(major_minor(python_version@)) is None,
        },
{
    let normalized = normalize_version(python_version);
    if django_supports("5.0", normalized.as_str()) {
        Some("5.0")
    } else if django_supports("4.2", normalized.as_str()) {
        Some("4.2")
    } else if django_supports("4.1", normalized.as_str()) {
        Some("4.1")
    } else if django_supports("4.0", normalized.as_str()) {
        Some("4.0")
    } else if django_supports("3.2", normalized.as_str()) {
        Some("3.2")
    } else {
        None
    }
}

} // verus!

//! Reading what Python and Django say of themselves, and the decisions that
//! follow from it.

use crate::errors::ProjectError;
use crate::text::{
    chars_of, find_char, find_char_index, find_space, find_space_back, find_space_back_index,
    find_space_index, skip_spaces, skip_spaces_back, skip_spaces_back_index, skip_spaces_index,
    slice_of, string_of, text_starts_with, trim, trim_chars,
};
use crate::tools::{django_supports, major_minor, normalize_version, supports};
use vstd::prelude::*;
use vstd::string::*;

verus! {

/// Whether `c` is one of the digits `0` to `9`.
pub open spec fn is_digit(c: char) -> bool {
    '0' <= c <= '9'
}

/// The number that the first `n` digits of `s` write in base ten.
pub open spec fn digits_value(s: Seq<char>, n: int) -> nat
    decreases n,
{
    if n <= 0 || n > s.len() {
        0
    } else {
        (digits_value(s, n - 1) * 10 + (s[n - 1] as u32 - '0' as u32)) as nat
    }
}

/// Whether `s` holds digits only.
pub open spec fn all_digits(s: Seq<char>) -> bool {
    forall|i: int| 0 <= i < s.len() ==> is_digit(s[i])
}

/// `s` without a plus sign at its start.
pub open spec fn unsigned_part(s: Seq<char>) -> Seq<char> {
    if s.len() > 0 && s[0] == '+' {
        s.subrange(1, s.len() as int)
    } else {
        s
    }
}

/// The number that `s` writes in base ten, if it is one and not above
/// `max`: digits, at least one, after an optional plus sign.
pub open spec fn parsed_number(s: Seq<char>, max: u64) -> Option<u64> {
    let d = unsigned_part(s);
    if d.len() > 0 && all_digits(d) && digits_value(d, d.len() as int) <= max {
        Some(digits_value(d, d.len() as int) as u64)
    } else {
        None
    }
}

/// More digits write no smaller number.
proof fn lemma_digits_value_grows(s: Seq<char>, n: int, m: int)
    requires
        0 <= n <= m <= s.len(),
        all_digits(s),
    ensures
        digits_value(s, n) <= digits_value(s, m),
    decreases m - n,
{
    if n < m {
        lemma_digits_value_grows(s, n, m - 1);
        assert(is_digit(s[m - 1]));
    }
}

/// The number that `v` writes in base ten, if it is one and not above
/// `max`.
pub fn parse_number(v: &[char], max: u64) -> (r: Option<u64>)
    ensures
        r == parsed_number(v@, max),
{
    let start: usize = if v.len() > 0 && v[0] == '+' {
        1
    } else {
        0
    };
    let d = slice_of(v, start, v.len());
    if d.len() == 0 {
        return None;
    }
    let mut acc: u128 = 0;
    let mut i: usize = 0;
    while i < d.len()
        invariant
            i <= d.len(),
            d@ == unsigned_part(v@),
            forall|j: int| 0 <= j < i ==> is_digit(d@[j]),
            acc == digits_value(d@, i as int),
            acc <= max,
        decreases d.len() - i,
    {
        let c = d[i];
        if !('0' <= c && c <= '9') {
            return None;
        }
        let digit: u128 = (c as u32 - '0' as u32) as u128;
        let next: u128 = acc * 10 + digit;
        if next > max as u128 {
            proof {
                if all_digits(d@) {
                    lemma_digits_value_grows(d@, i as int + 1, d@.len() as int);
                }
            }
            return None;
        }
        acc = next;
        i = i + 1;
    }
    Some(acc as u64)
}

/// The second word of `s`: where it starts and where it ends. A text of
/// fewer than two words has none, and then both are `s.len()`.
pub open spec fn second_word(s: Seq<char>) -> (int, int) {
    let first_end = find_space(s, skip_spaces(s, 0));
    let start = skip_spaces(s, first_end);
    (start, find_space(s, start))
}

/// The major and minor number of the version that an interpreter reports
/// as `Python 3.12.1`: the first two dot-separated parts of the second word,
/// where both are numbers that fit in 32 bits.
pub open spec fn reported_version(output: Seq<char>) -> Option<(u32, u32)> {
    let (a, b) = second_word(output);
    let word = output.subrange(a, b);
    let dot = find_char(word, 0, '.');
    if a < output.len() && dot < word.len() {
        let major = parsed_number(word.subrange(0, dot), u32::MAX as u64);
        let minor = parsed_number(
            word.subrange(dot + 1, find_char(word, dot + 1, '.')),
            u32::MAX as u64,
        );
        match (major, minor) {
            (Some(x), Some(y)) => Some((x as u32, y as u32)),
            _ => None,
        }
    } else {
        None
    }
}

/// The major and minor number of the version in what an interpreter
/// printed when asked for its version.
pub fn parse_python_version(output: &str) -> (r: Option<(u32, u32)>)
    ensures
        r == reported_version(output@),
{
    let v = chars_of(output);
    let first = skip_spaces_index(&v, 0);
    let first_end = find_space_index(&v, first);
    let a = skip_spaces_index(&v, first_end);
    let b = find_space_index(&v, a);
    if a >= v.len() {
        return None;
    }
    let word = slice_of(&v, a, b);
    let dot = find_char_index(&word, 0, '.');
    if dot >= word.len() {
        return None;
    }
    let second = find_char_index(&word, dot + 1, '.');
    let major = parse_number(&slice_of(&word, 0, dot), 0xFFFF_FFFF);
    let minor = parse_number(&slice_of(&word, dot + 1, second), 0xFFFF_FFFF);
    match (major, minor) {
        (Some(x), Some(y)) => Some((x as u32, y as u32)),
        _ => None,
    }
}

/// The last word of `s`, or `Unknown` where `s` holds white space only.
pub open spec fn last_word(s: Seq<char>) -> Seq<char> {
    let end = skip_spaces_back(s, s.len() as int);
    if end > 0 {
        s.subrange(find_space_back(s, end), end)
    } else {
        "Unknown"@
    }
}

/// The version in what an interpreter printed when asked for it: the last
/// word, or `Unknown`.
pub fn version_from_output(output: &str) -> (r: String)
    ensures
        r@ == last_word(output@),
{
    let v = chars_of(output);
    let end = skip_spaces_back_index(&v, v.len());
    if end > 0 {
        let start = find_space_back_index(&v, end);
        string_of(&slice_of(&v, start, end))
    } else {
        String::from_str("Unknown")
    }
}

/// The command that installs packages for the given version of Python.
pub fn pip_command(python_version: &str) -> (r: &'static str)
    ensures
        r@ == (if "3"@.is_prefix_of(python_version@) {
            "pip3"@
        } else {
            "pip"@
        }),
{
    if text_starts_with(python_version, "3") {
        "pip3"
    } else {
        "pip"
    }
}

/// The command that runs the given version of Python.
pub fn python_command(python_version: &str) -> (r: &'static str)
    ensures
        r@ == (if "3"@.is_prefix_of(python_version@) {
            "python3"@
        } else {
            "python"@
        }),
{
    if text_starts_with(python_version, "3") {
        "python3"
    } else {
        "python"
    }
}

/// The known releases of Django, newest first.
pub open spec fn django_releases() -> Seq<Seq<char>> {
    seq!["5.0"@, "4.2"@, "4.1"@, "4.0"@, "3.2"@]
}

/// The releases among `releases` from index `i` on that run on the given
/// release of Python, in order.
pub open spec fn supporting(releases: Seq<Seq<char>>, python: Seq<char>, i: int) -> Seq<Seq<char>>
    decreases releases.len() - i,
{
    if i < 0 || i >= releases.len() {
        Seq::empty()
    } else if supports(releases[i], python) {
        seq![releases[i]] + supporting(releases, python, i + 1)
    } else {
        supporting(releases, python, i + 1)
    }
}

/// The texts that `v` holds.
pub open spec fn texts_of(v: Seq<&'static str>) -> Seq<Seq<char>> {
    Seq::new(v.len(), |i: int| v[i]@)
}

/// The releases of Django that run on the given version of Python, newest
/// first. Only the first two parts of the version count.
pub fn compatible_django_versions(python_version: &str) -> (r: Vec<&'static str>)
    ensures
        texts_of(r@) == supporting(django_releases(), major_minor(python_version@), 0),
{
    let normalized = normalize_version(python_version);
    let mut releases: Vec<&'static str> = Vec::new();
    releases.push("5.0");
    releases.push("4.2");
    releases.push("4.1");
    releases.push("4.0");
    releases.push("3.2");
    assert(texts_of(releases@) =~= django_releases());
    let mut r: Vec<&'static str> = Vec::new();
    let mut i: usize = 0;
    assert(texts_of(r@) =~= Seq::empty());
    while i < releases.len()
        invariant
            i <= releases.len(),
            texts_of(releases@) == django_releases(),
            normalized@ == major_minor(python_version@),
            texts_of(r@) + supporting(django_releases(), normalized@, i as int) == supporting(
                django_releases(),
                normalized@,
                0,
            ),
        decreases releases.len() - i,
    {
        let release = releases[i];
        assert(release@ == texts_of(releases@)[i as int]);
        let ghost before = texts_of(r@);
        if django_supports(release, normalized.as_str()) {
            r.push(release);
            assert(texts_of(r@) =~= before.push(release@));
            assert(before.push(release@) + supporting(django_releases(), normalized@, i + 1)
                =~= before + (seq![release@] + supporting(django_releases(), normalized@, i + 1)));
        }
        i = i + 1;
    }
    assert(texts_of(r@) + Seq::<Seq<char>>::empty() =~= texts_of(r@));
    r
}

/// What is said where no release of Django runs on the given version of
/// Python.
pub open spec fn no_release_message(python_version: Seq<char>) -> Seq<char> {
    "Python "@ + python_version + " runs none of the supported releases of Django."@
}

/// The releases of Django that run on the given version of Python, newest
/// first. Fails where there is none.
pub fn supported_django_versions(python_version: &str) -> (r: Result<
    Vec<&'static str>,
    ProjectError,
>)
    ensures
        match r {
            Ok(v) => v@.len() > 0 && texts_of(v@) == supporting(
                django_releases(),
                major_minor(python_version@),
                0,
            ),
            Err(e) => supporting(django_releases(), major_minor(python_version@), 0).len() == 0
                && (e matches ProjectError::UnsupportedFramework(m) && m@ == no_release_message(
                python_version@,
            )),
        },
{
    let releases = compatible_django_versions(python_version);
    if releases.len() == 0 {
        let mut m = String::from_str("Python ");
        m.append(python_version);
        m.append(" runs none of the supported releases of Django.");
        Err(ProjectError::UnsupportedFramework(m))
    } else {
        Ok(releases)
    }
}

/// Whether the installed version is one of the given releases: it starts
/// with the number of one of them.
pub fn is_installed_compatible(installed_version: &str, releases: &Vec<&'static str>) -> (r: bool)
    ensures
        r == exists|i: int| 0 <= i < releases.len() && (#[trigger] releases@[i])@.is_prefix_of(
            installed_version@,
        ),
{
    let mut i: usize = 0;
    while i < releases.len()
        invariant
            i <= releases.len(),
            forall|j: int| 0 <= j < i ==> !(#[trigger] releases@[j])@.is_prefix_of(installed_version@),
        decreases releases.len() - i,
    {
        if text_starts_with(installed_version, releases[i]) {
            return true;
        }
        i = i + 1;
    }
    false
}

/// The release of Django that is installed for the given version of
/// Python: 3.2 for Python 3.6 and 3.7, 4.2.8 for Python 3.8 to 3.12, none
/// for any other.
pub open spec fn release_for(major: u32, minor: u32) -> Option<Seq<char>> {
    if major == 3 && 6 <= minor <= 7 {
        Some("3.2"@)
    } else if major == 3 && 8 <= minor <= 12 {
        Some("4.2.8"@)
    } else {
        None
    }
}

/// The release of Django to install for the given version of Python, if
/// that version is one the generator installs for.
pub fn django_release_for(major: u32, minor: u32) -> (r: Option<&'static str>)
    ensures
        match r {
            Some(d) => release_for(major, minor) == Some(d@),
            None => release_for(major, minor) is None,
        },
{
    if major == 3 && (minor == 6 || minor == 7) {
        Some("3.2")
    } else if major == 3 && 8 <= minor && minor <= 12 {
        Some("4.2.8")
    } else {
        None
    }
}

/// The option that an answer picks among `count` numbered options, counted
/// from zero: the answer, trimmed, is a number from 1 to `count`.
pub open spec fn picked(answer: Seq<char>, count: usize) -> Option<usize> {
    match parsed_number(trim(answer), usize::MAX as u64) {
        Some(n) => if 1 <= n <= count {
            Some((n - 1) as usize)
        } else {
            None
        },
        None => None,
    }
}

/// The option that the typed answer picks among `count` numbered options,
/// or `None` where the question has to be asked again.
pub fn pick_option(answer: &str, count: usize) -> (r: Option<usize>)
    ensures
        r == picked(answer@, count),
{
    match parse_number(&trim_chars(&chars_of(answer)), usize::MAX as u64) {
        Some(n) => {
            if 1 <= n && n <= count as u64 {
                Some((n - 1) as usize)
            } else {
                None
            }
        },
        None => None,
    }
}

} // verus!

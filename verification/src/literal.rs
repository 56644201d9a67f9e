//! Values as they are written into a settings module.

use crate::text::extend_chars;
use vstd::prelude::*;

verus! {

/// `s` between single quotes.
pub open spec fn quoted(s: Seq<char>) -> Seq<char> {
    seq!['\''] + s + seq!['\'']
}

/// Whether `v` is written as a list literal or as a quoted string already.
pub open spec fn is_literal(v: Seq<char>) -> bool {
    v.len() > 0 && ((v.first() == '[' && v.last() == ']') || (v.first() == '\'' && v.last()
        == '\''))
}

/// The text that stands for `v` in the settings module: `v` itself when it
/// is a literal already, else `v` between single quotes.
pub open spec fn formatted_value(v: Seq<char>) -> Seq<char> {
    if is_literal(v) {
        v
    } else {
        quoted(v)
    }
}

/// `v` in the form in which it is written into the settings module.
pub fn format_chars(v: &[char]) -> (r: Vec<char>)
    ensures
        r@ == formatted_value(v@),
{
    let n = v.len();
    let mut r: Vec<char> = Vec::new();
    if n > 0 && ((v[0] == '[' && v[n - 1] == ']') || (v[0] == '\'' && v[n - 1] == '\'')) {
        extend_chars(&mut r, v);
    } else {
        r.push('\'');
        extend_chars(&mut r, v);
        r.push('\'');
    }
    r
}

/// `v` between single quotes.
pub fn quote_chars(v: &[char]) -> (r: Vec<char>)
    ensures
        r@ == quoted(v@),
{
    let mut r: Vec<char> = Vec::new();
    r.push('\'');
    extend_chars(&mut r, v);
    r.push('\'');
    r
}

} // verus!

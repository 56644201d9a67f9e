//! Searching a text with a regular expression.
//!
//! The `regex` crate does the matching. What it answers is named here, so
//! that contracts can speak of it; what is done with its answer is verified
//! for every answer that it can give.

use crate::text::same_outside;
use regex::Regex;
use vstd::prelude::*;
use vstd::string::*;
use vstd::utf8::{
    decode_utf8, decode_utf8_split, encode_utf8, encode_utf8_decode_utf8, encode_utf8_valid_utf8,
    is_char_boundary, is_char_boundary_iff_not_is_continuation_byte,
    is_char_boundary_start_end_of_seq, valid_utf8_split,
};

verus! {

/// `regex::Error`, which says why a pattern did not compile. It is handed
/// on as it is; only its message is ever read.
#[verifier::external_type_specification]
#[verifier::external_body]
pub struct ExRegexError(regex::Error);

/// Whether `c` has a meaning of its own in a pattern.
pub open spec fn is_meta_character(c: char) -> bool {
    ||| c == '\\'
    ||| c == '.'
    ||| c == '+'
    ||| c == '*'
    ||| c == '?'
    ||| c == '('
    ||| c == ')'
    ||| c == '|'
    ||| c == '['
    ||| c == ']'
    ||| c == '{'
    ||| c == '}'
    ||| c == '^'
    ||| c == '$'
    ||| c == '#'
    ||| c == '&'
    ||| c == '-'
    ||| c == '~'
}

/// `text` with a backslash before each of its meta characters: a pattern
/// that matches `text` and nothing else.
pub open spec fn escaped(text: Seq<char>) -> Seq<char>
    decreases text.len(),
{
    if text.len() == 0 {
        Seq::empty()
    } else if is_meta_character(text.last()) {
        escaped(text.drop_last()) + seq!['\\', text.last()]
    } else {
        escaped(text.drop_last()).push(text.last())
    }
}

/// Whether `pattern` can be compiled.
pub uninterp spec fn compiles(pattern: Seq<char>) -> bool;

/// Where the first match of `pattern` in `haystack` starts and ends, in
/// bytes of the UTF-8 form of `haystack`.
pub uninterp spec fn first_match(pattern: Seq<char>, haystack: Seq<char>) -> Option<
    (usize, usize),
>;

/// Whether `span` lies in the UTF-8 form of `text` and cuts no character in
/// two.
pub open spec fn valid_span(text: Seq<char>, span: (usize, usize)) -> bool {
    let bytes = encode_utf8(text);
    &&& span.0 <= span.1 <= bytes.len()
    &&& is_char_boundary(bytes, span.0 as int)
    &&& is_char_boundary(bytes, span.1 as int)
}

/// The characters of `text` that its first `offset` bytes encode.
pub open spec fn text_before(text: Seq<char>, offset: int) -> Seq<char> {
    decode_utf8(encode_utf8(text).subrange(0, offset))
}

/// The characters of `text` that its bytes from `offset` on encode.
pub open spec fn text_after(text: Seq<char>, offset: int) -> Seq<char> {
    decode_utf8(encode_utf8(text).subrange(offset, encode_utf8(text).len() as int))
}

/// `text` with the characters that `span` covers replaced by `with`.
pub open spec fn spliced(text: Seq<char>, span: (usize, usize), with: Seq<char>) -> Seq<char> {
    text_before(text, span.0 as int) + with + text_after(text, span.1 as int)
}

/// Escapes a text for use in a pattern.
///
/// Wraps `regex::escape`, which copies the text and puts a backslash before
/// each meta character. The set of meta characters is the one of
/// `regex_syntax::is_meta_character`.
#[verifier::external_body]
pub(crate) fn escape(text: &str) -> (r: String)
    ensures
        r@ == escaped(text@),
{
    regex::escape(text)
}

/// Compiles a pattern and finds its first match in a text.
///
/// Wraps `Regex::new` and `Regex::find`, and hands out `Match::start` and
/// `Match::end`. Whether the pattern compiles depends on the pattern alone,
/// and the match on the pattern and the text alone. The offsets count bytes
/// of the text: the first is not after the second, neither is beyond the
/// end, and both are on character boundaries.
#[verifier::external_body]
pub(crate) fn find_first(pattern: &str, haystack: &str) -> (r: Result<
    Option<(usize, usize)>,
    regex::Error,
>)
    ensures
        r is Ok <==> compiles(pattern@),
        r matches Ok(found) ==> found == first_match(pattern@, haystack@),
        r matches Ok(Some(span)) ==> valid_span(haystack@, span),
{
    match Regex::new(pattern) {
        Ok(re) => Ok(re.find(haystack).map(|m| (m.start(), m.end()))),
        Err(e) => Err(e),
    }
}

/// The message of a compilation failure.
///
/// Wraps the `Display` form of `regex::Error`. Nothing is claimed of it.
#[verifier::external_body]
pub(crate) fn error_message(e: &regex::Error) -> (r: String) {
    e.to_string()
}

/// A text splits at a character boundary into what stands before and what
/// stands after.
pub proof fn lemma_split_text(text: Seq<char>, offset: int)
    requires
        is_char_boundary(encode_utf8(text), offset),
    ensures
        text == text_before(text, offset) + text_after(text, offset),
{
    let bytes = encode_utf8(text);
    encode_utf8_valid_utf8(text);
    encode_utf8_decode_utf8(text);
    decode_utf8_split(bytes, offset);
}

/// Replacing what a span covers leaves the text outside the span as it is.
pub proof fn lemma_spliced_keeps_outside(text: Seq<char>, span: (usize, usize), with: Seq<char>)
    requires
        valid_span(text, span),
    ensures
        same_outside(
            text,
            spliced(text, span, with),
            text_before(text, span.0 as int).len() as int,
            text.len() - text_after(text, span.1 as int).len(),
        ),
{
    let bytes = encode_utf8(text);
    let a = span.0 as int;
    let b = span.1 as int;
    let head = text_before(text, a);
    let tail = text_after(text, b);
    let r = spliced(text, span, with);
    lemma_split_text(text, a);
    lemma_split_text(text, b);
    encode_utf8_valid_utf8(text);
    valid_utf8_split(bytes, b);
    let front = bytes.subrange(0, b);
    assert(is_char_boundary(front, a)) by {
        if a == b {
            is_char_boundary_start_end_of_seq(front);
        } else if a > 0 {
            is_char_boundary_iff_not_is_continuation_byte(bytes, a);
            is_char_boundary_iff_not_is_continuation_byte(front, a);
        }
    }
    decode_utf8_split(front, a);
    assert(front.subrange(0, a) =~= bytes.subrange(0, a));
    assert(text_before(text, b) == head + decode_utf8(front.subrange(a, front.len() as int)));
    assert(text.subrange(0, head.len() as int) =~= head);
    assert(text.subrange(text.len() - tail.len(), text.len() as int) =~= tail);
    assert(r.subrange(0, head.len() as int) =~= head);
    assert(r.subrange(r.len() - tail.len(), r.len() as int) =~= tail);
}

/// `text` with the characters that `span` covers replaced by `with`.
pub fn splice(text: &str, span: (usize, usize), with: &str) -> (r: String)
    requires
        valid_span(text@, span),
    ensures
        r@ == spliced(text@, span, with@),
{
    let (head, _) = text.split_at(span.0);
    let (_, tail) = text.split_at(span.1);
    proof {
        let bytes = encode_utf8(text@);
        encode_utf8_valid_utf8(text@);
        valid_utf8_split(bytes, span.0 as int);
        valid_utf8_split(bytes, span.1 as int);
        encode_utf8_decode_utf8(head@);
        encode_utf8_decode_utf8(tail@);
        assert(head@ == text_before(text@, span.0 as int));
        assert(tail@ == text_after(text@, span.1 as int));
    }
    let mut r = String::from_str(head);
    r.append(with);
    r.append(tail);
    r
}

} // verus!

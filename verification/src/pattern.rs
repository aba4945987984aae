//! Searching a text for a regular expression, and cutting out what was found.
//!
//! Positions are byte offsets into the UTF-8 encoding of the text.

use vstd::prelude::*;
use vstd::string::StringSliceAdditionalSpecFns;
use vstd::utf8::{
    decode_utf8, decode_utf8_split, encode_utf8, encode_utf8_decode_utf8, encode_utf8_valid_utf8, is_char_boundary,
    is_char_boundary_iff_not_is_continuation_byte, is_char_boundary_start_end_of_seq, valid_utf8,
    valid_utf8_split,
};

verus! {

/// A stretch of a text: the bytes from `start` up to, not including, `end`.
#[derive(Clone, Copy, Debug, PartialEq, Eq, Structural)]
pub struct Span {
    pub start: usize,
    pub end: usize,
}

impl Span {
    /// Whether the stretch lies inside `text` and neither end of it falls
    /// inside the encoding of a character.
    pub open spec fn within(self, text: Seq<char>) -> bool {
        let bytes = encode_utf8(text);
        &&& self.start <= self.end <= bytes.len()
        &&& is_char_boundary(bytes, self.start as int)
        &&& is_char_boundary(bytes, self.end as int)
    }

    /// The characters of `text` that the stretch covers.
    pub open spec fn cut(self, text: Seq<char>) -> Seq<char> {
        decode_utf8(encode_utf8(text).subrange(self.start as int, self.end as int))
    }

    /// The stretch from the start of a text up to this one.
    pub open spec fn lead(self) -> Span {
        Span { start: 0, end: self.start }
    }

    /// The characters of `text` that stand behind the stretch.
    pub open spec fn rest(self, text: Seq<char>) -> Seq<char> {
        decode_utf8(encode_utf8(text).subrange(self.end as int, encode_utf8(text).len() as int))
    }
}

/// What a search for the regular expression `pattern` in `haystack` gives for
/// the capture group `group`: the stretch that the group matched in the
/// leftmost match. `None` where `pattern` is no regular expression, where it
/// matches nowhere, and where the group took no part in the match.
pub uninterp spec fn regex_capture(pattern: Seq<char>, haystack: Seq<char>, group: usize) -> Option<
    Span,
>;

/// Compiles `pattern` with `regex::Regex::new`, searches `haystack` with
/// `Regex::captures` and reads the group with `Captures::get`. Trusted: the
/// result depends on the three arguments alone, and a stretch that is found
/// lies inside the haystack with both ends between characters, as the
/// documentation of `Match::start` and `Match::end` promises.
#[verifier::external_body]
fn search(pattern: &str, haystack: &str, group: usize) -> (found: Option<Span>)
    ensures
        found == regex_capture(pattern@, haystack@, group),
        found matches Some(span) ==> span.within(haystack@),
{
    let expression = regex::Regex::new(pattern).ok()?;
    let matched = expression.captures(haystack)?.get(group)?;
    Some(Span { start: matched.start(), end: matched.end() })
}

/// A position between two characters of a text is also one in every prefix
/// of the text that reaches it.
proof fn lemma_boundary_in_prefix(bytes: Seq<u8>, start: int, end: int)
    requires
        valid_utf8(bytes),
        0 <= start <= end <= bytes.len(),
        is_char_boundary(bytes, start),
        is_char_boundary(bytes, end),
    ensures
        valid_utf8(bytes.subrange(0, end)),
        is_char_boundary(bytes.subrange(0, end), start),
{
    valid_utf8_split(bytes, end);
    let head = bytes.subrange(0, end);
    if start == end {
        is_char_boundary_start_end_of_seq(head);
    } else {
        is_char_boundary_iff_not_is_continuation_byte(bytes, start);
        is_char_boundary_iff_not_is_continuation_byte(head, start);
    }
}

/// A stretch that lies within a text cuts the text in three: what stands in
/// front of it, what it covers, and what stands behind it. Put together
/// again, the three are the text.
pub proof fn lemma_cut_splits(text: Seq<char>, span: Span)
    requires
        span.within(text),
    ensures
        span.lead().within(text),
        text == span.lead().cut(text) + span.cut(text) + span.rest(text),
{
    let bytes = encode_utf8(text);
    let start = span.start as int;
    let end = span.end as int;
    encode_utf8_valid_utf8(text);
    encode_utf8_decode_utf8(text);
    is_char_boundary_start_end_of_seq(bytes);
    lemma_boundary_in_prefix(bytes, start, end);
    let head = bytes.subrange(0, end);
    decode_utf8_split(bytes, end);
    decode_utf8_split(head, start);
    assert(head.subrange(0, start) == bytes.subrange(0, start));
    assert(head.subrange(start, head.len() as int) == bytes.subrange(start, end));
}

/// The part of `text` that `span` covers.
pub fn slice<'t>(text: &'t str, span: Span) -> (piece: &'t str)
    requires
        span.within(text@),
    ensures
        piece@ == span.cut(text@),
{
    proof {
        encode_utf8_valid_utf8(text@);
        lemma_boundary_in_prefix(text.spec_bytes(), span.start as int, span.end as int);
    }
    let (head, _) = text.split_at(span.end);
    let (_, piece) = head.split_at(span.start);
    proof {
        assert(piece.spec_bytes() == text.spec_bytes().subrange(
            span.start as int,
            span.end as int,
        ));
        encode_utf8_decode_utf8(piece@);
    }
    piece
}

/// The part of `text` that `span` covers, where the span lies within the
/// text; `None` where it does not.
pub fn cut<'t>(text: &'t str, span: Span) -> (piece: Option<&'t str>)
    ensures
        piece is Some <==> span.within(text@),
        piece matches Some(p) ==> p@ == span.cut(text@),
{
    let length: usize = text.as_bytes().len();
    if span.start <= span.end && span.end <= length && text.is_char_boundary(span.start)
        && text.is_char_boundary(span.end) {
        Some(slice(text, span))
    } else {
        None
    }
}

/// What a search found: where it lies and what it reads.
#[derive(Clone, Copy, Debug)]
pub struct Capture<'t> {
    pub span: Span,
    pub text: &'t str,
}

/// Searches `haystack` for the regular expression `pattern` and gives what
/// the capture group `group` of the leftmost match covers. Group 0 is the
/// whole match. `None` where nothing is found, the group took no part, or
/// `pattern` is no regular expression.
pub fn find_group<'t>(pattern: &str, haystack: &'t str, group: usize) -> (found: Option<
    Capture<'t>,
>)
    ensures
        match found {
            Some(capture) => regex_capture(pattern@, haystack@, group) == Some(capture.span)
                && capture.span.within(haystack@) && capture.text@ == capture.span.cut(haystack@),
            None => regex_capture(pattern@, haystack@, group) is None,
        },
{
    match search(pattern, haystack, group) {
        Some(span) => Some(Capture { span, text: slice(haystack, span) }),
        None => None,
    }
}

} // verus!

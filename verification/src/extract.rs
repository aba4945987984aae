//! Cutting the search results out of a scraped page.
//!
//! The page carries the results as a JSON object somewhere in its text. Two
//! landmarks of the page's layout enclose it: one right in front of its
//! opening brace and one right behind its closing brace.

use vstd::prelude::*;
use crate::error::{Boundary, ExtractError};
use crate::json::{json_text_value, parse_json, Json, JsonValue};
use crate::pattern::{find_group, regex_capture, slice, Capture, Span};

verus! {

/// The landmark in front of the payload. Its group holds the opening brace of
/// the payload and the name of its first member.
pub const BEGIN_PATTERN: &'static str = r#"itemSectionRenderer":(\{"contents)""#;

/// The landmark behind the payload. Its group holds the closing brace of the
/// payload.
pub const END_PATTERN: &'static str =
    r#"\],"trackingParams":"[a-zA-Z0-9=_-]*"(\})\},\{"continuationItemRenderer""#;

/// The capture group that marks the payload in either landmark.
pub const BOUNDARY_GROUP: usize = 1;

/// Where the begin landmark puts the start of the payload in `text`.
pub open spec fn begin_span(text: Seq<char>) -> Option<Span> {
    regex_capture(BEGIN_PATTERN@, text, BOUNDARY_GROUP)
}

/// Where the end landmark puts the end of the payload in `text`.
pub open spec fn end_span(text: Seq<char>) -> Option<Span> {
    regex_capture(END_PATTERN@, text, BOUNDARY_GROUP)
}

/// The stretch of the page that holds the payload, given where the landmarks
/// were found: from the start of the first to the end of the second.
pub open spec fn payload_span(begin: Option<Span>, end: Option<Span>) -> Result<Span, ExtractError> {
    match (begin, end) {
        (None, _) => Err(ExtractError::BoundaryNotFound(Boundary::Begin)),
        (Some(_), None) => Err(ExtractError::BoundaryNotFound(Boundary::End)),
        (Some(b), Some(e)) => if b.start >= e.end {
            Err(ExtractError::InvalidRange)
        } else {
            Ok(Span { start: b.start, end: e.end })
        },
    }
}

/// The payload of the page `text`, or why there is none.
pub open spec fn extraction(text: Seq<char>) -> Result<JsonValue, ExtractError> {
    match payload_span(begin_span(text), end_span(text)) {
        Ok(span) => match json_text_value(span.cut(text)) {
            Some(value) => Ok(value),
            None => Err(ExtractError::MalformedPayload),
        },
        Err(e) => Err(e),
    }
}

/// A page that lacks a landmark has no payload: the failure is
/// `BoundaryNotFound`, and it names the begin landmark where that one is
/// missing, the end landmark otherwise.
pub proof fn lemma_missing_boundary(text: Seq<char>)
    requires
        begin_span(text) is None || end_span(text) is None,
    ensures
        extraction(text) == Err::<JsonValue, ExtractError>(
            ExtractError::BoundaryNotFound(
                if begin_span(text) is None {
                    Boundary::Begin
                } else {
                    Boundary::End
                },
            ),
        ),
{
}

/// A page whose end landmark closes the payload at or before the place where
/// the begin landmark opens it has no payload: the failure is `InvalidRange`,
/// whatever stands between the two.
pub proof fn lemma_inverted_range(text: Seq<char>)
    requires
        begin_span(text) is Some,
        end_span(text) is Some,
        begin_span(text)->0.start >= end_span(text)->0.end,
    ensures
        extraction(text) == Err::<JsonValue, ExtractError>(ExtractError::InvalidRange),
{
}

/// A page has a payload exactly where both landmarks are found, the first
/// opens before the second closes, and the text from the one to the other is
/// JSON; the payload is then what that text writes.
pub proof fn lemma_payload_found(text: Seq<char>)
    ensures
        extraction(text) is Ok <==> {
            &&& begin_span(text) is Some
            &&& end_span(text) is Some
            &&& begin_span(text)->0.start < end_span(text)->0.end
            &&& json_text_value(
                Span { start: begin_span(text)->0.start, end: end_span(text)->0.end }.cut(text),
            ) is Some
        },
        extraction(text) matches Ok(payload) ==> json_text_value(
            Span { start: begin_span(text)->0.start, end: end_span(text)->0.end }.cut(text),
        ) == Some(payload),
{
}

/// Looks for the begin landmark in `text`.
pub fn begin_boundary<'t>(text: &'t str) -> (found: Option<Capture<'t>>)
    ensures
        match found {
            Some(capture) => begin_span(text@) == Some(capture.span) && capture.span.within(text@)
                && capture.text@ == capture.span.cut(text@),
            None => begin_span(text@) is None,
        },
{
    find_group(BEGIN_PATTERN, text, BOUNDARY_GROUP)
}

/// Looks for the end landmark in `text`.
pub fn end_boundary<'t>(text: &'t str) -> (found: Option<Capture<'t>>)
    ensures
        match found {
            Some(capture) => end_span(text@) == Some(capture.span) && capture.span.within(text@)
                && capture.text@ == capture.span.cut(text@),
            None => end_span(text@) is None,
        },
{
    find_group(END_PATTERN, text, BOUNDARY_GROUP)
}

/// Decides from the two landmarks which stretch of the page is the payload.
///
/// A landmark that was not found gives `BoundaryNotFound`, the begin landmark
/// first. A payload that would not start before it ends gives `InvalidRange`.
pub fn payload_range(begin: Option<Span>, end: Option<Span>) -> (range: Result<Span, ExtractError>)
    ensures
        range == payload_span(begin, end),
{
    match begin {
        None => Err(ExtractError::BoundaryNotFound(Boundary::Begin)),
        Some(b) => match end {
            None => Err(ExtractError::BoundaryNotFound(Boundary::End)),
            Some(e) => {
                if b.start >= e.end {
                    Err(ExtractError::InvalidRange)
                } else {
                    Ok(Span { start: b.start, end: e.end })
                }
            },
        },
    }
}

/// What [`get_json`] gave, over the model of the payload.
pub open spec fn payload_view(payload: Result<Json, ExtractError>) -> Result<JsonValue, ExtractError> {
    match payload {
        Ok(json) => Ok(json@),
        Err(e) => Err(e),
    }
}

/// Finds the payload in the page `text` and reads it.
///
/// Fails with `BoundaryNotFound` where a landmark is missing, with
/// `InvalidRange` where the landmarks are out of order, and with
/// `MalformedPayload` where the text between them is not JSON.
pub fn get_json(text: &str) -> (payload: Result<Json, ExtractError>)
    ensures
        payload_view(payload) == extraction(text@),
{
    let begin = match begin_boundary(text) {
        Some(capture) => Some(capture.span),
        None => {
            return Err(ExtractError::BoundaryNotFound(Boundary::Begin));
        },
    };
    let end = match end_boundary(text) {
        Some(capture) => Some(capture.span),
        None => None,
    };
    match payload_range(begin, end) {
        Ok(span) => match parse_json(slice(text, span)) {
            Some(json) => Ok(json),
            None => Err(ExtractError::MalformedPayload),
        },
        Err(e) => Err(e),
    }
}

} // verus!

//! Telling absolute URLs from other text.

use vstd::prelude::*;

verus! {

/// Whether `text` reads as an absolute URL.
pub uninterp spec fn is_absolute_url(text: Seq<char>) -> bool;

/// Calls `reqwest::Url::parse` and keeps whether it succeeded. Trusted: the
/// answer depends on the text alone.
#[verifier::external_body]
pub(crate) fn parses_as_url(text: &str) -> (ok: bool)
    ensures
        ok == is_absolute_url(text@),
{
    reqwest::Url::parse(text).is_ok()
}

} // verus!

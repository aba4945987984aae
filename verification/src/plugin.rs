//! The catalogue as a search provider: what to ask it, and how to read what
//! it answers.

use vstd::prelude::*;
use vstd::string::StringExecFns;
use crate::error::{Failure, YouTubeError};
use crate::extract::{extraction, get_json};
use crate::results::{results_of, QueryResult};
use crate::track::Track;

verus! {

/// The address that answers searches.
pub const BASE_URL: &'static str = "https://youtube.com/results";

/// The name of the query parameter that carries the search text.
pub const QUERY_PARAMETER: &'static str = "search_query";

/// The name of the header that says which browser is asking.
pub const USER_AGENT_HEADER: &'static str = "user-agent";

/// The browser that a search claims to come from.
pub const USER_AGENT: &'static str =
    "Mozilla/5.0 (X11; Linux x86_64) AppleWebKit/537.36 (KHTML, like Gecko) Chrome/104.0.5112.102 Safari/537.36";

/// The method of an HTTP request.
#[derive(Clone, Copy, Debug, PartialEq, Eq, Structural)]
pub enum Method {
    Get,
}

/// A search, as the request to send: one query parameter and one header.
#[derive(Clone, Debug, PartialEq, Eq)]
pub struct SearchRequest {
    pub method: Method,
    pub url: String,
    pub parameter_name: String,
    pub parameter_value: String,
    pub header_name: String,
    pub header_value: String,
}

/// A [`SearchRequest`] over mathematical text.
pub struct Search {
    pub method: Method,
    pub url: Seq<char>,
    pub parameter_name: Seq<char>,
    pub parameter_value: Seq<char>,
    pub header_name: Seq<char>,
    pub header_value: Seq<char>,
}

impl View for SearchRequest {
    type V = Search;

    open spec fn view(&self) -> Search {
        Search {
            method: self.method,
            url: self.url@,
            parameter_name: self.parameter_name@,
            parameter_value: self.parameter_value@,
            header_name: self.header_name@,
            header_value: self.header_value@,
        }
    }
}

/// The request that searches for `raw`: the text goes out as it is.
pub open spec fn search_for(raw: Seq<char>) -> Search {
    Search {
        method: Method::Get,
        url: BASE_URL@,
        parameter_name: QUERY_PARAMETER@,
        parameter_value: raw,
        header_name: USER_AGENT_HEADER@,
        header_value: USER_AGENT@,
    }
}

/// The tracks that the page `text` answers a search with, or the first
/// failure on the way to them.
pub open spec fn search_results(text: Seq<char>) -> Result<Seq<Track>, Failure> {
    match extraction(text) {
        Ok(payload) => match results_of(payload) {
            Ok(tracks) => Ok(tracks),
            Err(e) => Err(Failure::Parse(e)),
        },
        Err(e) => Err(Failure::Extract(e)),
    }
}

/// What reading a page gave, over the models of the tracks and of the error.
pub open spec fn answer_view(found: Result<QueryResult, YouTubeError>) -> Result<
    Seq<Track>,
    Failure,
> {
    match found {
        Ok(result) => Ok(result@),
        Err(e) => Err(e@),
    }
}

/// The search provider.
#[derive(Clone, Copy, Debug)]
pub struct YouTube {}

impl YouTube {
    /// The method of a search request.
    pub fn method(&self) -> (method: Method)
        ensures
            method == Method::Get,
    {
        Method::Get
    }

    /// The address that answers searches.
    pub fn base_url(&self) -> (url: &'static str)
        ensures
            url@ == BASE_URL@,
    {
        BASE_URL
    }

    /// The request that searches the catalogue for the text `raw`.
    pub fn query(&self, raw: &str) -> (request: SearchRequest)
        ensures
            request@ == search_for(raw@),
    {
        SearchRequest {
            method: self.method(),
            url: String::from_str(self.base_url()),
            parameter_name: String::from_str(QUERY_PARAMETER),
            parameter_value: String::from_str(raw),
            header_name: String::from_str(USER_AGENT_HEADER),
            header_value: String::from_str(USER_AGENT),
        }
    }

    /// Reads the tracks out of the page `text` that answered a search.
    ///
    /// Fails with what [`get_json`] gives where the payload cannot be cut out
    /// of the page, and with what [`QueryResult::parse`] gives where an item
    /// of it cannot be read. On failure no track is returned.
    pub fn parse(&self, text: &str) -> (found: Result<QueryResult, YouTubeError>)
        ensures
            answer_view(found) == search_results(text@),
            found matches Ok(result) ==> forall|i: int|
                0 <= i < result@.len() ==> (#[trigger] result@[i]).well_formed(),
    {
        let payload = match get_json(text) {
            Ok(payload) => payload,
            Err(e) => {
                return Err(YouTubeError::Extract(e));
            },
        };
        match QueryResult::parse(&payload) {
            Ok(result) => Ok(result),
            Err(e) => Err(YouTubeError::Parse(e)),
        }
    }
}

} // verus!

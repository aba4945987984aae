//! What can go wrong, one type per stage.

use vstd::prelude::*;

verus! {

/// One of the two landmarks that enclose the result payload in a page.
#[derive(Clone, Copy, Debug, PartialEq, Eq, Structural)]
pub enum Boundary {
    /// The landmark in front of the payload.
    Begin,
    /// The landmark behind the payload.
    End,
}

/// Why no payload could be cut out of a page.
#[derive(Clone, Copy, Debug, PartialEq, Eq, Structural)]
pub enum ExtractError {
    /// The landmark named was found nowhere in the page.
    BoundaryNotFound(Boundary),
    /// Both landmarks were found, but the payload would not start before it ends.
    InvalidRange,
    /// The text between the landmarks is not JSON.
    MalformedPayload,
}

/// Why an item of the payload could not be read as a track.
#[derive(Clone, Debug, PartialEq, Eq)]
pub enum ParseError {
    /// The field of this name is not where the layout has it.
    MissingField(String),
    /// A field that should hold an address does not hold an absolute URL.
    InvalidUrl,
    /// The length of the track is not a colon-separated number.
    InvalidDuration,
}

/// A [`ParseError`] over mathematical text.
pub enum ParseFailure {
    MissingField(Seq<char>),
    InvalidUrl,
    InvalidDuration,
}

impl View for ParseError {
    type V = ParseFailure;

    open spec fn view(&self) -> ParseFailure {
        match self {
            ParseError::MissingField(name) => ParseFailure::MissingField(name@),
            ParseError::InvalidUrl => ParseFailure::InvalidUrl,
            ParseError::InvalidDuration => ParseFailure::InvalidDuration,
        }
    }
}

/// Why no playable address came out of a run of the resolution tool.
#[derive(Clone, Copy, Debug, PartialEq, Eq, Structural)]
pub enum ResolveError {
    /// The tool could not be started, or it ended with a failure status.
    ResolutionToolFailed,
    /// The tool ended well and printed nothing.
    NoOutputProduced,
    /// The tool printed something, but no address.
    NoUrlInOutput,
}

/// Why no download or transcoding process is running.
#[derive(Clone, Copy, Debug, PartialEq, Eq, Structural)]
pub enum ProcessError {
    /// The program could not be started.
    SpawnFailed,
}

/// Any failure of the library, by the stage that failed.
#[derive(Clone, Debug, PartialEq, Eq)]
pub enum YouTubeError {
    Extract(ExtractError),
    Parse(ParseError),
    Resolve(ResolveError),
    Process(ProcessError),
}

/// A [`YouTubeError`] over mathematical text.
pub enum Failure {
    Extract(ExtractError),
    Parse(ParseFailure),
    Resolve(ResolveError),
    Process(ProcessError),
}

impl View for YouTubeError {
    type V = Failure;

    open spec fn view(&self) -> Failure {
        match self {
            YouTubeError::Extract(e) => Failure::Extract(*e),
            YouTubeError::Parse(e) => Failure::Parse(e@),
            YouTubeError::Resolve(e) => Failure::Resolve(*e),
            YouTubeError::Process(e) => Failure::Process(*e),
        }
    }
}

} // verus!

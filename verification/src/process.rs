//! The external programs that fetch a track, described as plain data.
//!
//! Nothing here starts a process. A caller runs what an [`Invocation`]
//! describes and, for streaming, hands back how the first program ended.

use vstd::prelude::*;
use vstd::string::StringExecFns;
use crate::error::ResolveError;
use crate::resolve::{
    has_address_line, has_address_piece, lemma_output_without_address, resolution, resolve_media_url, ResolverRun,
};

verus! {

/// The program that downloads a track.
pub const DOWNLOADER: &'static str = "yt-dlp";

/// The program that resolves the page of a track to a playable address.
pub const RESOLVER: &'static str = "youtube-dl";

/// The program that transcodes a stream.
pub const TRANSCODER: &'static str = "ffmpeg";

/// What follows the base name of a download: the downloader puts the
/// extension of the file in its place.
pub const EXTENSION_TEMPLATE: &'static str = ".%(ext)s";

/// What precedes a destination path handed to the transcoder.
pub const FILE_PREFIX: &'static str = "file:";

/// What becomes of an output stream of a program.
#[derive(Clone, Copy, Debug, PartialEq, Eq, Structural)]
pub enum Stream {
    /// It is kept for the caller to read.
    Captured,
    /// It is thrown away.
    Discarded,
}

/// One run of an external program: its name, its arguments in order, and
/// what becomes of its two output streams.
#[derive(Clone, Debug, PartialEq, Eq)]
pub struct Invocation {
    pub program: String,
    pub arguments: Vec<String>,
    pub stdout: Stream,
    pub stderr: Stream,
}

/// An [`Invocation`] over mathematical text.
pub struct Plan {
    pub program: Seq<char>,
    pub arguments: Seq<Seq<char>>,
    pub stdout: Stream,
    pub stderr: Stream,
}

/// The texts of a list of strings.
pub open spec fn texts(list: Seq<String>) -> Seq<Seq<char>> {
    list.map_values(|text: String| text@)
}

impl View for Invocation {
    type V = Plan;

    open spec fn view(&self) -> Plan {
        Plan {
            program: self.program@,
            arguments: texts(self.arguments@),
            stdout: self.stdout,
            stderr: self.stderr,
        }
    }
}

/// The run that downloads the audio of the track at `url` as an MP3 file
/// named `file_name` plus the extension.
pub open spec fn download_plan(url: Seq<char>, file_name: Seq<char>) -> Plan {
    Plan {
        program: DOWNLOADER@,
        arguments: seq![
            "--extract-audio"@,
            "--audio-format"@,
            "mp3"@,
            "-o"@,
            file_name + EXTENSION_TEMPLATE@,
            url,
        ],
        stdout: Stream::Captured,
        stderr: Stream::Discarded,
    }
}

/// The run that asks for the playable address of the track at `url`.
pub open spec fn resolver_plan(url: Seq<char>) -> Plan {
    Plan {
        program: RESOLVER@,
        arguments: seq!["-g"@, url],
        stdout: Stream::Captured,
        stderr: Stream::Captured,
    }
}

/// The run that reads the stream at `address`, encodes it as MP3 and writes
/// it to `file_name`, over whatever is there.
pub open spec fn transcode_plan(address: Seq<char>, file_name: Seq<char>) -> Plan {
    Plan {
        program: TRANSCODER@,
        arguments: seq!["-i"@, address, "-c:a"@, "libmp3lame"@, FILE_PREFIX@ + file_name, "-y"@],
        stdout: Stream::Captured,
        stderr: Stream::Discarded,
    }
}

/// Adds `text` at the end of `list`.
fn push_text(list: &mut Vec<String>, text: &str)
    ensures
        texts(final(list)@) == texts(old(list)@).push(text@),
{
    list.push(String::from_str(text));
}

/// Describes the download of the track at `url` into the file `file_name`
/// plus the extension that the downloader finds: audio only, as MP3, with the
/// standard output kept and the standard error thrown away.
pub fn download_fn(url: &str, file_name: &str) -> (run: Invocation)
    ensures
        run@ == download_plan(url@, file_name@),
{
    let mut arguments: Vec<String> = Vec::new();
    assert(texts(arguments@) == Seq::<Seq<char>>::empty());
    push_text(&mut arguments, "--extract-audio");
    push_text(&mut arguments, "--audio-format");
    push_text(&mut arguments, "mp3");
    push_text(&mut arguments, "-o");
    let mut output_file = String::from_str(file_name);
    output_file.append(EXTENSION_TEMPLATE);
    push_text(&mut arguments, output_file.as_str());
    push_text(&mut arguments, url);
    assert(texts(arguments@) == download_plan(url@, file_name@).arguments);
    Invocation {
        program: String::from_str(DOWNLOADER),
        arguments,
        stdout: Stream::Captured,
        stderr: Stream::Discarded,
    }
}

/// Describes the run of the resolution tool for the track at `url`. The
/// caller waits for it and keeps all that it prints.
pub fn resolver_command(url: &str) -> (run: Invocation)
    ensures
        run@ == resolver_plan(url@),
{
    let mut arguments: Vec<String> = Vec::new();
    assert(texts(arguments@) == Seq::<Seq<char>>::empty());
    push_text(&mut arguments, "-g");
    push_text(&mut arguments, url);
    assert(texts(arguments@) == resolver_plan(url@).arguments);
    Invocation {
        program: String::from_str(RESOLVER),
        arguments,
        stdout: Stream::Captured,
        stderr: Stream::Captured,
    }
}

/// Describes the transcoding of the stream at `address` into the file
/// `file_name`: MP3, written over a file that is already there, with the
/// standard output kept and the standard error thrown away.
pub fn transcode_command(address: &str, file_name: &str) -> (run: Invocation)
    ensures
        run@ == transcode_plan(address@, file_name@),
{
    let mut arguments: Vec<String> = Vec::new();
    assert(texts(arguments@) == Seq::<Seq<char>>::empty());
    push_text(&mut arguments, "-i");
    push_text(&mut arguments, address);
    push_text(&mut arguments, "-c:a");
    push_text(&mut arguments, "libmp3lame");
    let mut file = String::from_str(FILE_PREFIX);
    file.append(file_name);
    push_text(&mut arguments, file.as_str());
    push_text(&mut arguments, "-y");
    assert(texts(arguments@) == transcode_plan(address@, file_name@).arguments);
    Invocation {
        program: String::from_str(TRANSCODER),
        arguments,
        stdout: Stream::Captured,
        stderr: Stream::Discarded,
    }
}

/// What has happened so far to a request to stream a track.
#[derive(Clone, Debug, PartialEq, Eq)]
pub enum StreamEvent {
    /// The request has come in.
    Requested,
    /// The resolution tool has been run, and ended so.
    Resolved(ResolverRun),
}

/// What to do next for a request to stream a track.
#[derive(Clone, Debug, PartialEq, Eq)]
pub enum StreamAction {
    /// Run the resolution tool, wait for it, and come back with how it ended.
    Resolve(Invocation),
    /// Start the transcoder and hand the running process to the caller.
    Transcode(Invocation),
    /// Give up with this error.
    Fail(ResolveError),
}

/// A [`StreamAction`] over mathematical text.
pub enum NextStep {
    Resolve(Plan),
    Transcode(Plan),
    Fail(ResolveError),
}

impl View for StreamAction {
    type V = NextStep;

    open spec fn view(&self) -> NextStep {
        match self {
            StreamAction::Resolve(run) => NextStep::Resolve(run@),
            StreamAction::Transcode(run) => NextStep::Transcode(run@),
            StreamAction::Fail(e) => NextStep::Fail(*e),
        }
    }
}

/// The step that follows `event` for the track at `url` and the destination
/// `file_name`.
pub open spec fn stream_step(url: Seq<char>, file_name: Seq<char>, event: StreamEvent) -> NextStep {
    match event {
        StreamEvent::Requested => NextStep::Resolve(resolver_plan(url)),
        StreamEvent::Resolved(run) => match resolution(run) {
            Ok(address) => NextStep::Transcode(transcode_plan(address, file_name)),
            Err(e) => NextStep::Fail(e),
        },
    }
}

/// Once the resolution tool has ended well and printed something in which no
/// line begins with `https://`, white space aside, the next step is to give
/// up with `NoUrlInOutput`, whatever the track and the destination.
pub proof fn lemma_stream_without_address(url: Seq<char>, file_name: Seq<char>, run: ResolverRun)
    requires
        run matches ResolverRun::Exited { success, output } && success && output@.len() > 0 && (
        !has_address_line(output@) || !has_address_piece(output@)),
    ensures
        stream_step(url, file_name, StreamEvent::Resolved(run)) == NextStep::Fail(
            ResolveError::NoUrlInOutput,
        ),
{
    lemma_output_without_address(run);
}

/// Decides the next step of streaming the track at `url` into `file_name`.
///
/// A new request is answered with the run of the resolution tool. Once that
/// run has ended, its output decides: an address in it is answered with the
/// run of the transcoder on that address, anything else with the error that
/// [`resolve_media_url`] gives. Nothing is tried twice.
pub fn stream_fn(url: &str, file_name: &str, event: &StreamEvent) -> (action: StreamAction)
    ensures
        action@ == stream_step(url@, file_name@, *event),
{
    match event {
        StreamEvent::Requested => StreamAction::Resolve(resolver_command(url)),
        StreamEvent::Resolved(run) => match resolve_media_url(run) {
            Ok(address) => StreamAction::Transcode(transcode_command(address.as_str(), file_name)),
            Err(e) => StreamAction::Fail(e),
        },
    }
}

} // verus!

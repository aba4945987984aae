use youtube::error::ResolveError;
use youtube::process::{
    download_fn, resolver_command, stream_fn, transcode_command, Invocation, Stream, StreamAction,
    StreamEvent,
};
use youtube::pattern::Span;
use youtube::resolve::{pick_url, resolve_media_url, ResolverRun};

fn exited(output: &str) -> ResolverRun {
    ResolverRun::Exited { success: true, output: output.to_string() }
}

fn strings(list: &[&str]) -> Vec<String> {
    list.iter().map(|s| s.to_string()).collect()
}

#[test]
fn resolver_no_match() {
    assert_eq!(
        resolve_media_url(&exited("ERROR: Video unavailable\nhttp://insecure.example/x\n")),
        Err(ResolveError::NoUrlInOutput)
    );
    assert_eq!(resolve_media_url(&exited("\n")), Err(ResolveError::NoUrlInOutput));
    assert_eq!(resolve_media_url(&exited("   ")), Err(ResolveError::NoUrlInOutput));
}

#[test]
fn resolver_no_output() {
    assert_eq!(resolve_media_url(&exited("")), Err(ResolveError::NoOutputProduced));
}

#[test]
fn resolver_tool_failed() {
    assert_eq!(
        resolve_media_url(&ResolverRun::LaunchFailed),
        Err(ResolveError::ResolutionToolFailed)
    );
    assert_eq!(
        resolve_media_url(&ResolverRun::Exited {
            success: false,
            output: "https://media.example/a\n".to_string()
        }),
        Err(ResolveError::ResolutionToolFailed)
    );
    assert_eq!(
        resolve_media_url(&ResolverRun::Exited { success: false, output: String::new() }),
        Err(ResolveError::ResolutionToolFailed)
    );
}

#[test]
fn resolver_takes_the_trailing_address() {
    assert_eq!(
        resolve_media_url(&exited("https://media.example/audio?x=1&y=2\n")),
        Ok("https://media.example/audio?x=1&y=2".to_string())
    );
    assert_eq!(
        resolve_media_url(&exited("https://media.example/video\nhttps://media.example/audio\n")),
        Ok("https://media.example/audio".to_string())
    );
    assert_eq!(
        resolve_media_url(&exited("WARNING: slow\nhttps://media.example/a  \r\n\n  ")),
        Ok("https://media.example/a".to_string())
    );
    assert_eq!(
        resolve_media_url(&exited("see https://media.example/a")),
        Err(ResolveError::NoUrlInOutput)
    );
}

#[test]
fn resolver_wants_the_address_to_start_its_line() {
    assert_eq!(
        resolve_media_url(&exited("url: https://a.example/au\n")),
        Err(ResolveError::NoUrlInOutput)
    );
    assert_eq!(
        resolve_media_url(&exited("https://media.example/a\nsee https://media.example/b\n")),
        Err(ResolveError::NoUrlInOutput)
    );
    assert_eq!(
        resolve_media_url(&exited("xhttps://media.example/a")),
        Err(ResolveError::NoUrlInOutput)
    );
    assert_eq!(
        resolve_media_url(&exited("\u{e9}\nsee https://media.example/a")),
        Err(ResolveError::NoUrlInOutput)
    );
}

#[test]
fn resolver_passes_over_white_space_in_front_of_the_address() {
    assert_eq!(
        resolve_media_url(&exited("  \t https://media.example/a\n")),
        Ok("https://media.example/a".to_string())
    );
    assert_eq!(
        resolve_media_url(&exited("Done.\r\n\u{a0} https://media.example/a\r\n")),
        Ok("https://media.example/a".to_string())
    );
    assert_eq!(
        resolve_media_url(&exited("see https://media.example/b\n\u{e9}t\u{e9}\nhttps://media.example/a")),
        Ok("https://media.example/a".to_string())
    );
    assert_eq!(
        resolve_media_url(&exited("https://media.example/a https://media.example/b\n")),
        Ok("https://media.example/a https://media.example/b".to_string())
    );
}

#[test]
fn resolver_wants_the_address_at_the_end() {
    assert_eq!(
        resolve_media_url(&exited("https://media.example/a\nDone.\n")),
        Err(ResolveError::NoUrlInOutput)
    );
}

#[test]
fn pick_url_decides() {
    let whole = |text: &str| Some(Span { start: 0, end: text.len() });
    assert_eq!(pick_url("", None), Err(ResolveError::NoOutputProduced));
    assert_eq!(
        pick_url("", Some(Span { start: 0, end: 0 })),
        Err(ResolveError::NoOutputProduced)
    );
    assert_eq!(pick_url("x", None), Err(ResolveError::NoUrlInOutput));

    let text = "https://a.example/b c\u{2003}\u{3000}\r\n";
    assert_eq!(pick_url(text, whole(text)), Ok("https://a.example/b c".to_string()));

    let text = " \t\u{a0}https://a.example \n";
    assert_eq!(pick_url(text, whole(text)), Ok("https://a.example".to_string()));
    assert_eq!(
        pick_url(text, Some(Span { start: 4, end: text.len() })),
        Ok("https://a.example".to_string())
    );
    assert_eq!(pick_url(text, Some(Span { start: 4, end: 12 })), Ok("https://".to_string()));
}

#[test]
fn pick_url_wants_an_address() {
    let whole = |text: &str| Some(Span { start: 0, end: text.len() });
    assert_eq!(pick_url(" \n ", whole(" \n ")), Err(ResolveError::NoUrlInOutput));
    assert_eq!(pick_url("http://a", whole("http://a")), Err(ResolveError::NoUrlInOutput));
    assert_eq!(pick_url("https:/", whole("https:/")), Err(ResolveError::NoUrlInOutput));
    assert_eq!(
        pick_url("\u{200b}https://a", whole("\u{200b}https://a")),
        Err(ResolveError::NoUrlInOutput)
    );
    let text = "ab https://a.example\n";
    assert_eq!(pick_url(text, Some(Span { start: 4, end: 11 })), Err(ResolveError::NoUrlInOutput));
}

#[test]
fn pick_url_wants_the_address_to_start_its_line() {
    let text = "url: https://a.example/au\n";
    assert_eq!(
        pick_url(text, Some(Span { start: 5, end: text.len() })),
        Err(ResolveError::NoUrlInOutput)
    );
    let text = "url:\n \r https://a.example/au\n";
    assert_eq!(
        pick_url(text, Some(Span { start: 8, end: text.len() })),
        Ok("https://a.example/au".to_string())
    );
    let text = "a\u{3000}https://a.example/au";
    assert_eq!(
        pick_url(text, Some(Span { start: 4, end: text.len() })),
        Err(ResolveError::NoUrlInOutput)
    );
}

#[test]
fn pick_url_wants_a_stretch_of_the_output() {
    let text = "\u{e9}https://a.example/au";
    assert_eq!(
        pick_url("https://a", Some(Span { start: 0, end: 10 })),
        Err(ResolveError::NoUrlInOutput)
    );
    assert_eq!(
        pick_url("https://a", Some(Span { start: 9, end: 0 })),
        Err(ResolveError::NoUrlInOutput)
    );
    assert_eq!(
        pick_url(text, Some(Span { start: 1, end: text.len() })),
        Err(ResolveError::NoUrlInOutput)
    );
}

#[test]
fn download_invocation() {
    assert_eq!(
        download_fn("https://youtube.com/watch?v=abc", "/tmp/music/song"),
        Invocation {
            program: "yt-dlp".to_string(),
            arguments: strings(&[
                "--extract-audio",
                "--audio-format",
                "mp3",
                "-o",
                "/tmp/music/song.%(ext)s",
                "https://youtube.com/watch?v=abc",
            ]),
            stdout: Stream::Captured,
            stderr: Stream::Discarded,
        }
    );
}

#[test]
fn resolver_invocation() {
    assert_eq!(
        resolver_command("https://youtube.com/watch?v=abc"),
        Invocation {
            program: "youtube-dl".to_string(),
            arguments: strings(&["-g", "https://youtube.com/watch?v=abc"]),
            stdout: Stream::Captured,
            stderr: Stream::Captured,
        }
    );
}

#[test]
fn transcode_invocation() {
    assert_eq!(
        transcode_command("https://media.example/a", "out.mp3"),
        Invocation {
            program: "ffmpeg".to_string(),
            arguments: strings(&[
                "-i",
                "https://media.example/a",
                "-c:a",
                "libmp3lame",
                "file:out.mp3",
                "-y",
            ]),
            stdout: Stream::Captured,
            stderr: Stream::Discarded,
        }
    );
}

#[test]
fn stream_starts_with_the_resolver() {
    assert_eq!(
        stream_fn("https://youtube.com/watch?v=abc", "out.mp3", &StreamEvent::Requested),
        StreamAction::Resolve(resolver_command("https://youtube.com/watch?v=abc"))
    );
}

#[test]
fn stream_goes_on_with_the_transcoder() {
    let event = StreamEvent::Resolved(exited("https://media.example/a\n"));
    assert_eq!(
        stream_fn("https://youtube.com/watch?v=abc", "out.mp3", &event),
        StreamAction::Transcode(transcode_command("https://media.example/a", "out.mp3"))
    );
}

#[test]
fn stream_gives_up_without_an_address() {
    let url = "https://youtube.com/watch?v=abc";
    assert_eq!(
        stream_fn(url, "out.mp3", &StreamEvent::Resolved(exited("no address here\n"))),
        StreamAction::Fail(ResolveError::NoUrlInOutput)
    );
    assert_eq!(
        stream_fn(url, "out.mp3", &StreamEvent::Resolved(exited("url: https://a.example/au\n"))),
        StreamAction::Fail(ResolveError::NoUrlInOutput)
    );
    assert_eq!(
        stream_fn(url, "out.mp3", &StreamEvent::Resolved(exited(""))),
        StreamAction::Fail(ResolveError::NoOutputProduced)
    );
    assert_eq!(
        stream_fn(url, "out.mp3", &StreamEvent::Resolved(ResolverRun::LaunchFailed)),
        StreamAction::Fail(ResolveError::ResolutionToolFailed)
    );
}

//! Track records, and reading them out of the items of a payload.

use vstd::prelude::*;
use vstd::string::StringExecFns;
use crate::address::{is_absolute_url, parses_as_url};
use crate::duration::{bounded, duration_seconds, parse_duration};
use crate::error::{ParseError, ParseFailure};
use crate::json::{Hop, Json, JsonValue};

verus! {

/// The page that plays a track; the identifier of the track goes behind it.
pub const SOURCE_URL: &'static str = "https://youtube.com/watch";

/// What stands between [`SOURCE_URL`] and the identifier of a track.
pub const ID_PARAMETER: &'static str = "?v=";

/// The member of an item that holds what is known of the artist's channel.
pub const CHANNEL_RENDERERS: &'static str = "channelThumbnailSupportedRenderers";

/// The member of the channel's description that holds its picture and link.
pub const CHANNEL_LINK: &'static str = "channelThumbnailWithLinkRenderer";

/// The member that holds a picture in its sizes.
pub const THUMBNAIL: &'static str = "thumbnail";

/// The member that lists the sizes of a picture.
pub const THUMBNAILS: &'static str = "thumbnails";

/// The member that holds the address of one size of a picture.
pub const URL: &'static str = "url";

/// The member of an item that holds the name of the artist.
pub const BYLINE: &'static str = "longBylineText";

/// The member that lists the parts of a formatted text.
pub const RUNS: &'static str = "runs";

/// The member that holds the characters of one part of a formatted text.
pub const TEXT: &'static str = "text";

/// The member of an item that holds the length of the track.
pub const LENGTH: &'static str = "lengthText";

/// The member that holds the characters of a plain text.
pub const SIMPLE_TEXT: &'static str = "simpleText";

/// The member of an item that holds the identifier of the track.
pub const VIDEO_ID: &'static str = "videoId";

/// The member of an item that holds the title of the track.
pub const TITLE: &'static str = "title";

/// One search result.
#[derive(Clone, Debug, PartialEq, Eq)]
pub struct TrackRecord {
    /// The identifier that the catalogue gives the track.
    pub id: String,
    pub title: String,
    pub artist_name: String,
    /// The page that plays the track.
    pub url: String,
    pub thumbnail_url: String,
    pub artist_thumbnail_url: String,
    /// The length of the track in seconds.
    pub duration: u64,
}

/// A [`TrackRecord`] over mathematical text and numbers.
pub struct Track {
    pub id: Seq<char>,
    pub title: Seq<char>,
    pub artist_name: Seq<char>,
    pub url: Seq<char>,
    pub thumbnail_url: Seq<char>,
    pub artist_thumbnail_url: Seq<char>,
    pub duration: nat,
}

impl View for TrackRecord {
    type V = Track;

    open spec fn view(&self) -> Track {
        Track {
            id: self.id@,
            title: self.title@,
            artist_name: self.artist_name@,
            url: self.url@,
            thumbnail_url: self.thumbnail_url@,
            artist_thumbnail_url: self.artist_thumbnail_url@,
            duration: self.duration as nat,
        }
    }
}

/// The address of the page that plays the track `id`.
pub open spec fn watch_url(id: Seq<char>) -> Seq<char> {
    SOURCE_URL@ + ID_PARAMETER@ + id
}

impl Track {
    /// What holds of every record that was read from a payload: identifier,
    /// title and artist name are not empty, the page address is made from the
    /// identifier, and all three addresses are absolute URLs.
    pub open spec fn well_formed(self) -> bool {
        &&& self.id.len() > 0
        &&& self.title.len() > 0
        &&& self.artist_name.len() > 0
        &&& self.url == watch_url(self.id)
        &&& is_absolute_url(self.url)
        &&& is_absolute_url(self.thumbnail_url)
        &&& is_absolute_url(self.artist_thumbnail_url)
        &&& self.duration <= u64::MAX
    }
}

/// Where an item keeps the picture of the artist.
pub open spec fn artist_thumbnail_path() -> Seq<Hop<'static>> {
    seq![
        Hop::Member(CHANNEL_RENDERERS),
        Hop::Member(CHANNEL_LINK),
        Hop::Member(THUMBNAIL),
        Hop::FirstOf(THUMBNAILS),
        Hop::Member(URL),
    ]
}

/// Where an item keeps the name of the artist.
pub open spec fn artist_name_path() -> Seq<Hop<'static>> {
    seq![Hop::Member(BYLINE), Hop::FirstOf(RUNS), Hop::Member(TEXT)]
}

/// Where an item keeps the length of the track.
pub open spec fn duration_path() -> Seq<Hop<'static>> {
    seq![Hop::Member(LENGTH), Hop::Member(SIMPLE_TEXT)]
}

/// Where an item keeps the identifier of the track.
pub open spec fn id_path() -> Seq<Hop<'static>> {
    seq![Hop::Member(VIDEO_ID)]
}

/// Where an item keeps the title of the track.
pub open spec fn title_path() -> Seq<Hop<'static>> {
    seq![Hop::Member(TITLE), Hop::FirstOf(RUNS), Hop::Member(TEXT)]
}

/// Where an item keeps the picture of the track.
pub open spec fn thumbnail_path() -> Seq<Hop<'static>> {
    seq![Hop::Member(THUMBNAIL), Hop::FirstOf(THUMBNAILS), Hop::Member(URL)]
}

/// The name of the field that `path` ends at; empty for the empty path.
pub open spec fn leaf_name(path: Seq<Hop>) -> Seq<char> {
    if path.len() > 0 {
        path.last().name()
    } else {
        Seq::empty()
    }
}

/// The text at the end of `path`. A value there that is no text, or a text
/// without a character, counts as a missing field, under the name of the last
/// step.
pub open spec fn text_at(item: JsonValue, path: Seq<Hop>) -> Result<Seq<char>, ParseFailure> {
    match item.follow(path) {
        Ok(JsonValue::Text(text)) => if text.len() > 0 {
            Ok(text)
        } else {
            Err(ParseFailure::MissingField(leaf_name(path)))
        },
        Ok(_) => Err(ParseFailure::MissingField(leaf_name(path))),
        Err(e) => Err(e),
    }
}

/// The address at the end of `path`: a text that is an absolute URL.
pub open spec fn url_at(item: JsonValue, path: Seq<Hop>) -> Result<Seq<char>, ParseFailure> {
    match item.follow(path) {
        Ok(JsonValue::Text(text)) => if is_absolute_url(text) {
            Ok(text)
        } else {
            Err(ParseFailure::InvalidUrl)
        },
        Ok(_) => Err(ParseFailure::InvalidUrl),
        Err(e) => Err(e),
    }
}

/// The length at the end of `path`, in seconds: a text that writes a length
/// of at most `u64::MAX` seconds.
pub open spec fn duration_at(item: JsonValue, path: Seq<Hop>) -> Result<nat, ParseFailure> {
    match item.follow(path) {
        Ok(JsonValue::Text(text)) => match bounded(duration_seconds(text)) {
            Some(seconds) => Ok(seconds as nat),
            None => Err(ParseFailure::InvalidDuration),
        },
        Ok(_) => Err(ParseFailure::InvalidDuration),
        Err(e) => Err(e),
    }
}

/// The track that `item` describes. The fields are read in the order artist
/// picture, artist name, length, identifier, title, picture, and the first
/// one that cannot be read decides the failure.
pub open spec fn track_of(item: JsonValue) -> Result<Track, ParseFailure> {
    match url_at(item, artist_thumbnail_path()) {
        Err(e) => Err(e),
        Ok(artist_thumbnail_url) => match text_at(item, artist_name_path()) {
            Err(e) => Err(e),
            Ok(artist_name) => match duration_at(item, duration_path()) {
                Err(e) => Err(e),
                Ok(duration) => match text_at(item, id_path()) {
                    Err(e) => Err(e),
                    Ok(id) => if !is_absolute_url(watch_url(id)) {
                        Err(ParseFailure::InvalidUrl)
                    } else {
                        match text_at(item, title_path()) {
                            Err(e) => Err(e),
                            Ok(title) => match url_at(item, thumbnail_path()) {
                                Err(e) => Err(e),
                                Ok(thumbnail_url) => Ok(
                                    Track {
                                        id,
                                        title,
                                        artist_name,
                                        url: watch_url(id),
                                        thumbnail_url,
                                        artist_thumbnail_url,
                                        duration,
                                    },
                                ),
                            },
                        }
                    },
                },
            },
        },
    }
}

/// There is no half-read track: whatever [`track_of`] gives is well formed.
pub proof fn lemma_track_well_formed(item: JsonValue)
    requires
        track_of(item) is Ok,
    ensures
        track_of(item)->Ok_0.well_formed(),
{
}

/// The address of a track that was read is [`SOURCE_URL`], `?v=` and the
/// identifier that the item holds under `videoId`, and nothing of it comes
/// from elsewhere in the item.
pub proof fn lemma_track_url(item: JsonValue)
    requires
        track_of(item) is Ok,
    ensures
        item.member(VIDEO_ID@) == Some(JsonValue::Text(track_of(item)->Ok_0.id)),
        track_of(item)->Ok_0.url == SOURCE_URL@ + ID_PARAMETER@ + track_of(item)->Ok_0.id,
{
    let path = id_path();
    assert(path.drop_first() == Seq::<Hop>::empty());
    assert(path[0] == Hop::Member(VIDEO_ID));
    reveal_with_fuel(JsonValue::follow, 2);
}

/// What reading a text gave, over the models of the text and of the error.
pub open spec fn text_view(found: Result<&str, ParseError>) -> Result<Seq<char>, ParseFailure> {
    match found {
        Ok(text) => Ok(text@),
        Err(e) => Err(e@),
    }
}

/// The name of the field that `path` ends at.
fn last_name<'a>(path: &[Hop<'a>]) -> (name: &'a str)
    ensures
        name@ == leaf_name(path@),
{
    if path.len() > 0 {
        match path[path.len() - 1] {
            Hop::Member(name) => name,
            Hop::FirstOf(name) => name,
        }
    } else {
        proof {
            reveal_strlit("");
        }
        ""
    }
}

/// Reads the text at the end of `path`: a string of at least one character.
pub fn read_text<'j>(item: &'j Json, path: &[Hop<'_>]) -> (found: Result<&'j str, ParseError>)
    ensures
        text_view(found) == text_at(item@, path@),
{
    match item.follow(path) {
        Ok(leaf) => match leaf.as_text() {
            Some(text) => {
                if text.is_empty() {
                    Err(ParseError::MissingField(last_name(path).to_owned()))
                } else {
                    Ok(text)
                }
            },
            None => Err(ParseError::MissingField(last_name(path).to_owned())),
        },
        Err(e) => Err(e),
    }
}

/// Reads the address at the end of `path`.
pub fn read_url<'j>(item: &'j Json, path: &[Hop<'_>]) -> (found: Result<&'j str, ParseError>)
    ensures
        text_view(found) == url_at(item@, path@),
{
    match item.follow(path) {
        Ok(leaf) => match leaf.as_text() {
            Some(text) => {
                if parses_as_url(text) {
                    Ok(text)
                } else {
                    Err(ParseError::InvalidUrl)
                }
            },
            None => Err(ParseError::InvalidUrl),
        },
        Err(e) => Err(e),
    }
}

/// Reads the length at the end of `path`, in seconds.
pub fn read_duration(item: &Json, path: &[Hop<'_>]) -> (found: Result<u64, ParseError>)
    ensures
        match found {
            Ok(seconds) => duration_at(item@, path@) == Ok::<nat, ParseFailure>(seconds as nat),
            Err(e) => duration_at(item@, path@) == Err::<nat, ParseFailure>(e@),
        },
{
    match item.follow(path) {
        Ok(leaf) => match leaf.as_text() {
            Some(text) => match parse_duration(text) {
                Some(seconds) => Ok(seconds),
                None => Err(ParseError::InvalidDuration),
            },
            None => Err(ParseError::InvalidDuration),
        },
        Err(e) => Err(e),
    }
}

/// What reading a track gave, over the models of the track and of the error.
pub open spec fn track_view(found: Result<TrackRecord, ParseError>) -> Result<Track, ParseFailure> {
    match found {
        Ok(track) => Ok(track@),
        Err(e) => Err(e@),
    }
}

impl TrackRecord {
    /// Reads the track that the item `source` describes.
    ///
    /// Fails with `MissingField` where a field is not where the layout has
    /// it or a text is empty, with `InvalidUrl` where a picture, or the page made from the
    /// identifier, is no absolute URL, and with `InvalidDuration` where the
    /// length is not a colon-separated number of at most `u64::MAX` seconds.
    pub fn parse(source: &Json) -> (found: Result<TrackRecord, ParseError>)
        ensures
            track_view(found) == track_of(source@),
            found matches Ok(track) ==> track@.well_formed(),
    {
        let artist_thumbnail_hops = [
            Hop::Member(CHANNEL_RENDERERS),
            Hop::Member(CHANNEL_LINK),
            Hop::Member(THUMBNAIL),
            Hop::FirstOf(THUMBNAILS),
            Hop::Member(URL),
        ];
        let artist_name_hops = [Hop::Member(BYLINE), Hop::FirstOf(RUNS), Hop::Member(TEXT)];
        let duration_hops = [Hop::Member(LENGTH), Hop::Member(SIMPLE_TEXT)];
        let id_hops = [Hop::Member(VIDEO_ID)];
        let title_hops = [Hop::Member(TITLE), Hop::FirstOf(RUNS), Hop::Member(TEXT)];
        let thumbnail_hops = [Hop::Member(THUMBNAIL), Hop::FirstOf(THUMBNAILS), Hop::Member(URL)];
        proof {
            assert(artist_thumbnail_hops@ == artist_thumbnail_path());
            assert(artist_name_hops@ == artist_name_path());
            assert(duration_hops@ == duration_path());
            assert(id_hops@ == id_path());
            assert(title_hops@ == title_path());
            assert(thumbnail_hops@ == thumbnail_path());
        }
        let artist_thumbnail_url = match read_url(source, artist_thumbnail_hops.as_slice()) {
            Ok(text) => text,
            Err(e) => {
                return Err(e);
            },
        };
        let artist_name = match read_text(source, artist_name_hops.as_slice()) {
            Ok(text) => text,
            Err(e) => {
                return Err(e);
            },
        };
        let duration = match read_duration(source, duration_hops.as_slice()) {
            Ok(seconds) => seconds,
            Err(e) => {
                return Err(e);
            },
        };
        let id = match read_text(source, id_hops.as_slice()) {
            Ok(text) => text,
            Err(e) => {
                return Err(e);
            },
        };
        let mut url = String::from_str(SOURCE_URL);
        url.append(ID_PARAMETER);
        url.append(id);
        if !parses_as_url(url.as_str()) {
            return Err(ParseError::InvalidUrl);
        }
        let title = match read_text(source, title_hops.as_slice()) {
            Ok(text) => text,
            Err(e) => {
                return Err(e);
            },
        };
        let thumbnail_url = match read_url(source, thumbnail_hops.as_slice()) {
            Ok(text) => text,
            Err(e) => {
                return Err(e);
            },
        };
        Ok(
            TrackRecord {
                id: id.to_owned(),
                title: title.to_owned(),
                artist_name: artist_name.to_owned(),
                url,
                thumbnail_url: thumbnail_url.to_owned(),
                artist_thumbnail_url: artist_thumbnail_url.to_owned(),
                duration,
            },
        )
    }
}

} // verus!

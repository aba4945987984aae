//! The list of tracks that a payload holds.
//!
//! The payload lists items of several kinds. Those that describe a track keep
//! the description under one fixed name; the others are passed over.

use vstd::prelude::*;
use crate::error::{ParseError, ParseFailure};
use crate::json::{Json, JsonValue};
use crate::track::{track_of, Track, TrackRecord};

verus! {

/// The member of the payload that lists the items.
pub const CONTENTS: &'static str = "contents";

/// The member under which an item that is a track keeps its description.
pub const ITEM_KIND: &'static str = "videoRenderer";

/// The tracks of a search, in the order in which the payload lists them.
#[derive(Clone, Debug, PartialEq, Eq)]
pub struct QueryResult {
    pub items: Vec<TrackRecord>,
}

impl View for QueryResult {
    type V = Seq<Track>;

    open spec fn view(&self) -> Seq<Track> {
        self.items@.map_values(|track: TrackRecord| track@)
    }
}

/// Whether `item` describes a track.
pub open spec fn is_track_item(item: JsonValue) -> bool {
    item.member(ITEM_KIND@) is Some
}

/// The tracks among `items`, in order. An item that describes no track is
/// passed over; the first track that cannot be read fails the whole list.
pub open spec fn tracks_of(items: Seq<JsonValue>) -> Result<Seq<Track>, ParseFailure>
    decreases items.len(),
{
    if items.len() == 0 {
        Ok(Seq::empty())
    } else {
        match tracks_of(items.drop_last()) {
            Err(e) => Err(e),
            Ok(before) => match items.last().member(ITEM_KIND@) {
                None => Ok(before),
                Some(description) => match track_of(description) {
                    Ok(track) => Ok(before.push(track)),
                    Err(e) => Err(e),
                },
            },
        }
    }
}

/// The tracks of a payload: those of the array that its member `contents`
/// holds. A payload without such an array misses the field `contents`.
pub open spec fn results_of(payload: JsonValue) -> Result<Seq<Track>, ParseFailure> {
    match payload.member(CONTENTS@) {
        Some(JsonValue::Array(items)) => tracks_of(items),
        _ => Err(ParseFailure::MissingField(CONTENTS@)),
    }
}

/// A list that fails on its first `k` items fails in the same way as a whole.
proof fn lemma_failure_stays(items: Seq<JsonValue>, k: int)
    requires
        0 <= k <= items.len(),
        tracks_of(items.take(k)) is Err,
    ensures
        tracks_of(items) == tracks_of(items.take(k)),
    decreases items.len() - k,
{
    if k == items.len() {
        assert(items.take(k) == items);
    } else {
        assert(items.take(k + 1).drop_last() == items.take(k));
        lemma_failure_stays(items, k + 1);
    }
}

/// Where a list can be read, its tracks are the items that describe a track,
/// each read by [`track_of`], in the order of the list: no other item adds a
/// track, and none changes the order.
pub proof fn lemma_tracks_follow_the_list(items: Seq<JsonValue>)
    requires
        tracks_of(items) is Ok,
    ensures
        ({
            let marked = items.filter(|item: JsonValue| is_track_item(item));
            let tracks = tracks_of(items)->Ok_0;
            &&& tracks.len() == marked.len()
            &&& forall|i: int|
                0 <= i < marked.len() ==> track_of(#[trigger] marked[i].member(ITEM_KIND@)->0)
                    == Ok::<Track, ParseFailure>(tracks[i])
        }),
    decreases items.len(),
{
    reveal(Seq::filter);
    if items.len() > 0 {
        lemma_tracks_follow_the_list(items.drop_last());
    }
}

/// Every track of a list that can be read is well formed.
pub proof fn lemma_results_well_formed(items: Seq<JsonValue>)
    requires
        tracks_of(items) is Ok,
    ensures
        forall|i: int|
            0 <= i < tracks_of(items)->Ok_0.len() ==> (#[trigger] tracks_of(items)->Ok_0[i]).well_formed(),
    decreases items.len(),
{
    if items.len() > 0 {
        lemma_results_well_formed(items.drop_last());
    }
}

/// What reading a list gave, over the models of the tracks and of the error.
pub open spec fn results_view(found: Result<QueryResult, ParseError>) -> Result<
    Seq<Track>,
    ParseFailure,
> {
    match found {
        Ok(result) => Ok(result@),
        Err(e) => Err(e@),
    }
}

impl QueryResult {
    /// Reads the tracks of `payload`.
    ///
    /// An item without the member `videoRenderer` is passed over. An item
    /// with it must be a complete track: the first one that is not fails the
    /// whole call with its error, and no tracks are returned.
    pub fn parse(payload: &Json) -> (found: Result<QueryResult, ParseError>)
        ensures
            results_view(found) == results_of(payload@),
            found matches Ok(result) ==> forall|i: int|
                0 <= i < result@.len() ==> (#[trigger] result@[i]).well_formed(),
    {
        let items = match payload.read(CONTENTS) {
            Ok(Json::Array(items)) => items,
            Ok(_) => {
                return Err(ParseError::MissingField(CONTENTS.to_owned()));
            },
            Err(e) => {
                return Err(e);
            },
        };
        let ghost list = payload@.member(CONTENTS@)->0->Array_0;
        let mut tracks: Vec<TrackRecord> = Vec::new();
        let mut i: usize = 0;
        proof {
            assert(list.take(0) == Seq::<JsonValue>::empty());
            assert(tracks@.map_values(|track: TrackRecord| track@) == Seq::<Track>::empty());
        }
        while i < items.len()
            invariant
                i <= items.len(),
                list.len() == items.len(),
                results_of(payload@) == tracks_of(list),
                forall|k: int| 0 <= k < items.len() ==> list[k] == (#[trigger] items@[k])@,
                tracks_of(list.take(i as int)) == Ok::<Seq<Track>, ParseFailure>(
                    tracks@.map_values(|track: TrackRecord| track@),
                ),
                forall|k: int| 0 <= k < tracks.len() ==> (#[trigger] tracks@[k])@.well_formed(),
            decreases items.len() - i,
        {
            let ghost before = tracks@.map_values(|track: TrackRecord| track@);
            proof {
                assert(list.take(i + 1).drop_last() == list.take(i as int));
                assert(list.take(i + 1).last() == items@[i as int]@);
            }
            match items[i].read(ITEM_KIND) {
                Ok(description) => match TrackRecord::parse(description) {
                    Ok(track) => {
                        tracks.push(track);
                        proof {
                            assert(tracks@.map_values(|track: TrackRecord| track@) == before.push(
                                track@,
                            ));
                        }
                    },
                    Err(e) => {
                        proof {
                            lemma_failure_stays(list, i + 1);
                        }
                        return Err(e);
                    },
                },
                Err(_) => {},
            }
            i = i + 1;
        }
        proof {
            assert(list.take(i as int) == list);
        }
        Ok(QueryResult { items: tracks })
    }
}

} // verus!

//! Canonical track identity and the entities derived from it.
//!
//! A track's identity is the exact pair of its artist and title character
//! sequences: case-, whitespace- and unicode-sensitive. Two tracks are the
//! same only on exact match; this is a design choice, not a heuristic.

use vstd::prelude::*;

verus! {

/// The exact-match identity key for a track.
#[derive(Debug, Clone)]
pub struct TrackId {
    pub artist: String,
    pub title: String,
}

/// The mathematical identity of a track: the character sequences of its
/// artist and title, compared exactly.
pub open spec fn id_key(id: TrackId) -> (Seq<char>, Seq<char>) {
    (id.artist@, id.title@)
}

impl PartialEq for TrackId {
    fn eq(&self, other: &TrackId) -> (r: bool) {
        self.artist == other.artist && self.title == other.title
    }
}

impl vstd::std_specs::cmp::PartialEqSpecImpl for TrackId {
    open spec fn obeys_eq_spec() -> bool {
        true
    }

    open spec fn eq_spec(&self, other: &TrackId) -> bool {
        id_key(*self) == id_key(*other)
    }
}

/// A track aggregated over a run: its identity and how often it was played.
/// Never constructed directly by a provider; only the aggregator makes one.
#[derive(Debug, Clone)]
pub struct Track {
    pub id: TrackId,
    pub play_count: usize,
}

impl Track {
    /// The artist of the track.
    pub fn artist(&self) -> (r: &str)
        ensures
            r@ == self.id.artist@,
    {
        self.id.artist.as_str()
    }

    /// The title of the track.
    pub fn title(&self) -> (r: &str)
        ensures
            r@ == self.id.title@,
    {
        self.id.title.as_str()
    }
}

/// One recorded play event, in the shape the providers hand over.
#[derive(Debug, Clone)]
pub struct Scrobble {
    pub artist: String,
    pub title: String,
}

/// The identity key a scrobble groups under.
pub open spec fn scrobble_key(s: Scrobble) -> (Seq<char>, Seq<char>) {
    (s.artist@, s.title@)
}

impl Scrobble {
    /// A scrobble for the given artist and title.
    pub fn new(artist: String, title: String) -> (r: Self)
        ensures
            r.artist == artist,
            r.title == title,
    {
        Self { artist, title }
    }
}

} // verus!

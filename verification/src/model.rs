//! The pipeline's working model: timestamped play events and the ranked
//! statistics of one run.
//!
//! Timestamps are unix seconds. All entities are created fresh per run and
//! held only in memory.

use vstd::prelude::*;

use crate::domain::aggregation;
use crate::domain::aggregation::{count_key, num_distinct_keys};
use crate::domain::track;

verus! {

/// A track as the pipeline carries it: artist and title, compared exactly.
#[derive(Debug, Clone)]
pub struct Track {
    pub artist: String,
    pub title: String,
}

/// One play event: a track and when it was played, in unix seconds.
#[derive(Debug, Clone)]
pub struct Scrobble {
    pub track: Track,
    pub played_at: i64,
}

/// The outcome of a run: the ranked top tracks, and totals computed over the
/// full deduplicated set before truncation.
#[derive(Debug)]
pub struct Statistics {
    pub top_tracks: Vec<(Track, usize)>,
    pub total_plays: usize,
    pub unique_tracks: usize,
}

/// The identity key a scrobble groups under.
pub open spec fn scrobble_key(s: Scrobble) -> (Seq<char>, Seq<char>) {
    (s.track.artist@, s.track.title@)
}

/// The identity key of a track.
pub open spec fn track_key(t: Track) -> (Seq<char>, Seq<char>) {
    (t.artist@, t.title@)
}

/// The identity keys of a scrobble sequence, in order.
pub open spec fn keys_of(scrobbles: Seq<Scrobble>) -> Seq<(Seq<char>, Seq<char>)> {
    scrobbles.map_values(|s: Scrobble| scrobble_key(s))
}

/// Merges and ranks the scrobbles of one run. Groups by exact track
/// identity, counts, sorts by count descending, and truncates to `top_n` —
/// but `total_plays` and `unique_tracks` are computed over the full
/// deduplicated set, so truncation does not distort them. The relative order
/// of tracks with equal counts is not specified.
pub fn aggregate_scrobbles(scrobbles: Vec<Scrobble>, top_n: usize) -> (r: Statistics)
    ensures
        r.total_plays == scrobbles@.len(),
        r.unique_tracks == num_distinct_keys(keys_of(scrobbles@)),
        r.top_tracks@.len() == vstd::math::min(top_n as int, r.unique_tracks as int),
        forall|i: int, j: int|
            0 <= i < j < r.top_tracks@.len() ==> r.top_tracks@[i].1 >= r.top_tracks@[j].1,
        forall|i: int|
            0 <= i < r.top_tracks@.len() ==> #[trigger] r.top_tracks@[i].1 == count_key(
                keys_of(scrobbles@),
                track_key(r.top_tracks@[i].0),
            ) && r.top_tracks@[i].1 >= 1,
        forall|i: int, j: int|
            0 <= i < j < r.top_tracks@.len() ==> track_key(r.top_tracks@[i].0) != track_key(
                r.top_tracks@[j].0,
            ),
        forall|i: int, k: (Seq<char>, Seq<char>)|
            #![trigger r.top_tracks@[i], count_key(keys_of(scrobbles@), k)]
            (0 <= i < r.top_tracks@.len() && count_key(keys_of(scrobbles@), k) > 0 && (forall|
                j: int,
            |
                0 <= j < r.top_tracks@.len() ==> track_key(#[trigger] r.top_tracks@[j].0) != k))
                ==> count_key(keys_of(scrobbles@), k) <= r.top_tracks@[i].1,
{
    let total_plays = scrobbles.len();

    // Hand the run's events to the aggregation engine.
    let mut events: Vec<track::Scrobble> = Vec::new();
    let mut i: usize = 0;
    while i < scrobbles.len()
        invariant
            i <= scrobbles@.len(),
            events@.len() == i,
            forall|m: int|
                0 <= m < i ==> track::scrobble_key(#[trigger] events@[m]) == scrobble_key(
                    scrobbles@[m],
                ),
        decreases scrobbles@.len() - i,
    {
        let s = &scrobbles[i];
        events.push(
            track::Scrobble { artist: s.track.artist.clone(), title: s.track.title.clone() },
        );
        i = i + 1;
    }
    proof {
        assert(aggregation::keys_of(events@) =~= keys_of(scrobbles@));
    }

    let mut groups = aggregation::aggregate_scrobbles(events);
    let unique_tracks = groups.len();
    let ghost full_groups = groups@;
    groups.truncate(top_n);
    proof {
        assert forall|i: int, j: int|
            0 <= i < j < groups@.len() implies groups@[i].play_count
            >= groups@[j].play_count by {
            assert(groups@[i] == full_groups[i] && groups@[j] == full_groups[j]);
        }
    }

    let ghost keys = keys_of(scrobbles@);
    let mut top_tracks: Vec<(Track, usize)> = Vec::new();
    let mut g: usize = 0;
    while g < groups.len()
        invariant
            g <= groups@.len(),
            top_tracks@.len() == g,
            forall|m: int|
                0 <= m < g ==> track_key(#[trigger] top_tracks@[m].0) == track::id_key(
                    groups@[m].id,
                ) && top_tracks@[m].1 == groups@[m].play_count,
        decreases groups@.len() - g,
    {
        let entry = &groups[g];
        top_tracks.push(
            (
                Track { artist: entry.id.artist.clone(), title: entry.id.title.clone() },
                entry.play_count,
            ),
        );
        g = g + 1;
    }

    proof {
        assert forall|i: int, j: int|
            0 <= i < j < top_tracks@.len() implies top_tracks@[i].1 >= top_tracks@[j].1 by {
            assert(track_key(top_tracks@[i].0) == track::id_key(groups@[i].id));
            assert(track_key(top_tracks@[j].0) == track::id_key(groups@[j].id));
        }
        // Truncation keeps the dominant groups: any key it dropped has a
        // count no larger than any kept entry's.
        assert forall|i: int, k: (Seq<char>, Seq<char>)|
            #![trigger top_tracks@[i], count_key(keys, k)]
            (0 <= i < top_tracks@.len() && count_key(keys, k) > 0 && (forall|j: int|
                0 <= j < top_tracks@.len() ==> track_key(#[trigger] top_tracks@[j].0)
                    != k)) implies count_key(keys, k) <= top_tracks@[i].1 by {
            aggregation::lemma_count_key_pos(keys, k);
            let w = choose|w: int| 0 <= w < keys.len() && keys[w] == k;
            let gi = choose|gi: int|
                0 <= gi < full_groups.len() && track::id_key(full_groups[gi].id) == keys[w];
            if gi < groups@.len() {
                assert(groups@[gi] == full_groups[gi]);
                assert(track_key(top_tracks@[gi].0) == track::id_key(groups@[gi].id));
                assert(false);
            }
            assert(full_groups[gi].play_count == count_key(
                keys,
                track::id_key(full_groups[gi].id),
            ));
            assert(full_groups[i].play_count >= full_groups[gi].play_count);
            assert(groups@[i] == full_groups[i]);
            assert(track_key(top_tracks@[i].0) == track::id_key(groups@[i].id));
        }
    }
    Statistics { top_tracks, total_plays, unique_tracks }
}

} // verus!

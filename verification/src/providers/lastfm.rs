//! The Last.fm provider: the shapes its pages answer with and the rule that
//! turns a raw item into a timestamped play event. A raw item becomes one
//! only if it carries a parseable timestamp; anything else is dropped
//! silently, never an error.

use vstd::prelude::*;

use crate::model::{Scrobble, Track};
use crate::text::{parse_u64, spec_parse_u64};

verus! {

/// One raw item of a page: title, artist, and the recorded date when the
/// item is not playing right now.
#[derive(Debug)]
pub struct ApiTrack {
    pub name: String,
    pub artist: ArtistInfo,
    pub date: Option<DateInfo>,
}

/// The artist of a raw item.
#[derive(Debug)]
pub struct ArtistInfo {
    pub text: String,
}

/// The recorded date of a raw item, as unix-seconds text.
#[derive(Debug)]
pub struct DateInfo {
    pub uts: String,
}

/// The play event a raw item yields, if any: it must carry a date whose
/// unix-seconds text parses.
pub open spec fn spec_scrobble_of(t: ApiTrack) -> Option<Scrobble> {
    match t.date {
        Some(d) => match spec_parse_u64(d.uts@) {
            Some(v) => if v <= i64::MAX {
                Some(
                    Scrobble {
                        track: Track { artist: t.artist.text, title: t.name },
                        played_at: v as i64,
                    },
                )
            } else {
                None
            },
            None => None,
        },
        None => None,
    }
}

impl ApiTrack {
    /// Turns the raw item into a play event, if it carries a parseable
    /// timestamp.
    pub fn to_scrobble(self) -> (r: Option<Scrobble>)
        ensures
            r == spec_scrobble_of(self),
    {
        let date = match self.date {
            Some(d) => d,
            None => {
                return None;
            },
        };
        let timestamp = match parse_u64(date.uts.as_str()) {
            Some(v) => v,
            None => {
                return None;
            },
        };
        if timestamp > i64::MAX as u64 {
            return None;
        }
        Some(
            Scrobble {
                track: Track { artist: self.artist.text, title: self.name },
                played_at: timestamp as i64,
            },
        )
    }
}

/// The play events of the raw items that carry parseable timestamps, in
/// order.
pub open spec fn spec_collect_scrobbles(tracks: Seq<ApiTrack>) -> Seq<Scrobble> {
    tracks.filter(|t: ApiTrack| spec_scrobble_of(t) is Some).map_values(
        |t: ApiTrack| spec_scrobble_of(t)->0,
    )
}

/// Keeps every raw item that carries a parseable timestamp, as a play
/// event.
pub fn collect_scrobbles(tracks: Vec<ApiTrack>) -> (r: Vec<Scrobble>)
    ensures
        r@ == spec_collect_scrobbles(tracks@),
{
    let ghost all = tracks@;
    let mut out: Vec<Scrobble> = Vec::new();
    let mut i: usize = 0;
    proof {
        assert(all.take(0) =~= Seq::<ApiTrack>::empty());
        assert(spec_collect_scrobbles(all.take(0)) =~= Seq::<Scrobble>::empty()) by {
            reveal(Seq::filter);
        }
    }
    while i < tracks.len()
        invariant
            tracks@ == all,
            i <= all.len(),
            out@ == spec_collect_scrobbles(all.take(i as int)),
        decreases all.len() - i,
    {
        let t = &tracks[i];
        let item = ApiTrack {
            name: t.name.clone(),
            artist: ArtistInfo { text: t.artist.text.clone() },
            date: match &t.date {
                Some(d) => Some(DateInfo { uts: d.uts.clone() }),
                None => None,
            },
        };
        proof {
            assert(item == all[i as int]);
            let p = |t: ApiTrack| spec_scrobble_of(t) is Some;
            assert(all.take(i + 1).drop_last() =~= all.take(i as int));
            assert(all.take(i + 1).last() == all[i as int]);
            reveal(Seq::filter);
            if p(all[i as int]) {
                assert(all.take(i + 1).filter(p) =~= all.take(i as int).filter(p).push(
                    all[i as int],
                ));
            } else {
                assert(all.take(i + 1).filter(p) =~= all.take(i as int).filter(p));
            }
        }
        match item.to_scrobble() {
            Some(s) => {
                out.push(s);
                proof {
                    assert(out@ =~= spec_collect_scrobbles(all.take(i + 1)));
                }
            },
            None => {
                proof {
                    assert(out@ =~= spec_collect_scrobbles(all.take(i + 1)));
                }
            },
        }
        i = i + 1;
    }
    proof {
        assert(all.take(all.len() as int) =~= all);
    }
    out
}

} // verus!

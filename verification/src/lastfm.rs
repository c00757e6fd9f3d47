//! The Last.fm side of the pipeline: the shapes its API answers with, the
//! pagination rule that drains them, and the summarising client that turns
//! a raw listing into ranked plays of the last three days.
//!
//! The summary keys each play by the text `"artist - name"`, exactly as it
//! is later shown, and splits that text back apart on the first separators
//! it finds; an artist whose own name contains the separator is split there.

use vstd::prelude::*;

use crate::domain::aggregation;
use crate::domain::track;
use crate::text::{
    chars_to_string, dec_rep, find_seq_from, matches_at, parse_u64, spec_parse_u64, str_to_chars,
    u64_to_string,
};

pub mod api_types;
pub mod client;
pub mod pagination;

verus! {

use vstd::string::StringExecFns;

/// How many items one page may carry at most.
pub const PAGE_LIMIT: usize = 200;

/// The hard cap on pages drained in one run.
pub const MAX_PAGES: usize = 10;

/// The politeness delay between two page requests, in milliseconds.
pub const RATE_LIMIT_MS: u64 = 200;

/// The summarising client's lookback window, in seconds.
pub const THREE_DAYS_IN_SECONDS: u64 = 259200;

/// One raw item of a recent-tracks listing, as the summarising client
/// reads it: artist, name, and the unix-seconds text of the play, absent
/// for an item playing right now.
#[derive(Debug)]
pub struct RecentTrack {
    pub artist: String,
    pub name: String,
    pub uts: Option<String>,
}

/// One line of the summary: a track and how often it was played.
#[derive(Debug)]
pub struct TrackPlay {
    pub artist: String,
    pub name: String,
    pub play_count: usize,
}

/// The summarising client's recent-tracks request URL.
pub open spec fn spec_recent_tracks_url(user: Seq<char>, api_key: Seq<char>, limit: nat) -> Seq<
    char,
> {
    "http://ws.audioscrobbler.com/2.0/?method=user.getrecenttracks&user="@ + user + "&api_key="@
        + api_key + "&limit="@ + dec_rep(limit) + "&format=json"@
}

/// Builds the summarising client's recent-tracks request URL.
pub fn recent_tracks_url(user: &str, api_key: &str, limit: usize) -> (r: String)
    ensures
        r@ == spec_recent_tracks_url(user@, api_key@, limit as nat),
{
    let mut url = "http://ws.audioscrobbler.com/2.0/?method=user.getrecenttracks&user=".to_owned();
    url.append(user);
    url.append("&api_key=");
    url.append(api_key);
    url.append("&limit=");
    let digits = u64_to_string(limit as u64);
    url.append(digits.as_str());
    url.append("&format=json");
    url
}

/// The text a play is keyed and grouped by.
pub open spec fn joined_key(t: RecentTrack) -> Seq<char> {
    t.artist@ + " - "@ + t.name@
}

/// Whether an item enters the summary: it carries a parseable timestamp
/// within the lookback window measured from `now`.
pub open spec fn track_kept(t: RecentTrack, now: u64) -> bool {
    &&& t.uts matches Some(u)
    &&& spec_parse_u64(u@) matches Some(v)
    &&& v >= now - THREE_DAYS_IN_SECONDS
}

/// The keys of the items that enter the summary, in order.
pub open spec fn kept_keys(tracks: Seq<RecentTrack>, now: u64) -> Seq<Seq<char>> {
    tracks.filter(|t: RecentTrack| track_kept(t, now)).map_values(|t: RecentTrack| joined_key(t))
}

/// How many times `k` occurs in `keys`.
pub open spec fn count_skey(keys: Seq<Seq<char>>, k: Seq<char>) -> nat
    decreases keys.len(),
{
    if keys.len() == 0 {
        0
    } else {
        count_skey(keys.drop_last(), k) + (if keys.last() == k {
            1nat
        } else {
            0nat
        })
    }
}

/// How many distinct keys occur in `keys`.
pub open spec fn num_distinct_skeys(keys: Seq<Seq<char>>) -> nat
    decreases keys.len(),
{
    if keys.len() == 0 {
        0
    } else {
        num_distinct_skeys(keys.drop_last()) + (if count_skey(keys.drop_last(), keys.last()) > 0 {
            0nat
        } else {
            1nat
        })
    }
}

/// A key carried into the aggregation engine, which groups by pairs.
pub open spec fn wrap_key(k: Seq<char>) -> (Seq<char>, Seq<char>) {
    (k, Seq::<char>::empty())
}

/// The position of the first `" - "` separator at or after `i`, or -1.
pub open spec fn find_sep_from(k: Seq<char>, i: int) -> int
    decreases k.len() - i,
{
    if i < 0 || i + 3 > k.len() {
        -1
    } else if k.subrange(i, i + 3) == " - "@ {
        i
    } else {
        find_sep_from(k, i + 1)
    }
}

/// The artist a key splits back into: the text before the first separator,
/// or the whole key if it holds none.
pub open spec fn split_artist(k: Seq<char>) -> Seq<char> {
    let p = find_sep_from(k, 0);
    if p < 0 {
        k
    } else {
        k.take(p)
    }
}

/// The name a key splits back into: the text between the first and second
/// separators, the rest of the key if there is no second one, and a fixed
/// fallback if there is no first one.
pub open spec fn split_name(k: Seq<char>) -> Seq<char> {
    let p = find_sep_from(k, 0);
    if p < 0 {
        "Unknown"@
    } else {
        let q = find_sep_from(k, p + 3);
        if q < 0 {
            k.skip(p + 3)
        } else {
            k.subrange(p + 3, q)
        }
    }
}

proof fn lemma_find_sep_at(k: Seq<char>, start: int, p: int)
    requires
        0 <= start <= p,
        matches_at(k, " - "@, p),
        forall|j: int| start <= j < p ==> !matches_at(k, " - "@, j),
    ensures
        find_sep_from(k, start) == p,
    decreases p - start,
{
    reveal_strlit(" - ");
    if start == p {
    } else {
        assert(!matches_at(k, " - "@, start));
        lemma_find_sep_at(k, start + 1, p);
    }
}

proof fn lemma_find_sep_none(k: Seq<char>, start: int)
    requires
        0 <= start,
        forall|j: int| start <= j ==> !matches_at(k, " - "@, j),
    ensures
        find_sep_from(k, start) == -1,
    decreases k.len() - start,
{
    reveal_strlit(" - ");
    if start + 3 <= k.len() {
        assert(!matches_at(k, " - "@, start));
        lemma_find_sep_none(k, start + 1);
    }
}

/// Splits a key back into artist and name, on the first separators found.
fn split_key(key: &str) -> (r: (String, String))
    ensures
        r.0@ == split_artist(key@),
        r.1@ == split_name(key@),
{
    proof {
        reveal_strlit(" - ");
    }
    let chars = str_to_chars(key);
    let total = chars.len();
    let sep = str_to_chars(" - ");
    match find_seq_from(chars.as_slice(), sep.as_slice(), 0) {
        None => {
            proof {
                lemma_find_sep_none(key@, 0);
            }
            (key.to_owned(), "Unknown".to_owned())
        },
        Some(p) => {
            proof {
                lemma_find_sep_at(key@, 0, p as int);
                assert(p + 3 <= chars@.len());
            }
            let artist = chars_to_string(slice_range(chars.as_slice(), 0, p));
            let rest_start = p + 3;
            let name_chars = match find_seq_from(chars.as_slice(), sep.as_slice(), rest_start) {
                None => {
                    proof {
                        lemma_find_sep_none(key@, rest_start as int);
                    }
                    slice_range(chars.as_slice(), rest_start, total)
                },
                Some(q) => {
                    proof {
                        lemma_find_sep_at(key@, rest_start as int, q as int);
                    }
                    slice_range(chars.as_slice(), rest_start, q)
                },
            };
            let name = chars_to_string(name_chars);
            proof {
                assert(artist@ =~= key@.take(p as int));
                let fp = find_sep_from(key@, 0);
                let q2 = find_sep_from(key@, fp + 3);
                if q2 < 0 {
                    assert(name@ =~= key@.skip(fp + 3));
                } else {
                    assert(name@ =~= key@.subrange(fp + 3, q2));
                }
            }
            (artist, name)
        },
    }
}

/// The characters of `s` between `from` and `to`.
fn slice_range(s: &[char], from: usize, to: usize) -> (r: &[char])
    requires
        from <= to <= s@.len(),
    ensures
        r@ == s@.subrange(from as int, to as int),
{
    vstd::slice::slice_subrange(s, from, to)
}

proof fn lemma_wrap_count(keys: Seq<Seq<char>>, k: Seq<char>)
    ensures
        aggregation::count_key(keys.map_values(|x: Seq<char>| wrap_key(x)), wrap_key(k))
            == count_skey(keys, k),
    decreases keys.len(),
{
    let mapped = keys.map_values(|x: Seq<char>| wrap_key(x));
    if keys.len() > 0 {
        assert(mapped.drop_last() =~= keys.drop_last().map_values(|x: Seq<char>| wrap_key(x)));
        assert(mapped.last() == wrap_key(keys.last()));
        lemma_wrap_count(keys.drop_last(), k);
    }
}

proof fn lemma_wrap_distinct(keys: Seq<Seq<char>>)
    ensures
        aggregation::num_distinct_keys(keys.map_values(|x: Seq<char>| wrap_key(x)))
            == num_distinct_skeys(keys),
    decreases keys.len(),
{
    let mapped = keys.map_values(|x: Seq<char>| wrap_key(x));
    if keys.len() > 0 {
        assert(mapped.drop_last() =~= keys.drop_last().map_values(|x: Seq<char>| wrap_key(x)));
        assert(mapped.last() == wrap_key(keys.last()));
        lemma_wrap_count(keys.drop_last(), keys.last());
        lemma_wrap_distinct(keys.drop_last());
    }
}

/// One line of the summary is accounted for by a key: the key entered the
/// summary, the line's count is the key's exact count, and artist and name
/// are the key split back apart.
pub open spec fn play_from_key(
    tracks: Seq<RecentTrack>,
    now: u64,
    p: TrackPlay,
    k: Seq<char>,
) -> bool {
    &&& kept_keys(tracks, now).contains(k)
    &&& p.play_count == count_skey(kept_keys(tracks, now), k)
    &&& p.artist@ == split_artist(k)
    &&& p.name@ == split_name(k)
}

/// The line is accounted for by some kept key.
pub open spec fn line_accounted(tracks: Seq<RecentTrack>, now: u64, p: TrackPlay) -> bool {
    exists|k: Seq<char>| play_from_key(tracks, now, p, k)
}

/// Summarises a raw recent-tracks listing: keeps the plays of the last
/// three days, groups them by their `"artist - name"` key, counts each
/// group, orders by count descending, and truncates to `limit`. Each line
/// of the summary is the exact count of one kept key; the order of equal
/// counts is not specified.
pub fn summarize_recent_tracks(tracks: Vec<RecentTrack>, now: u64, limit: usize) -> (r: Vec<
    TrackPlay,
>)
    requires
        now >= THREE_DAYS_IN_SECONDS,
    ensures
        r@.len() == vstd::math::min(
            limit as int,
            num_distinct_skeys(kept_keys(tracks@, now)) as int,
        ),
        forall|i: int, j: int| 0 <= i < j < r@.len() ==> r@[i].play_count >= r@[j].play_count,
        forall|i: int| 0 <= i < r@.len() ==> line_accounted(tracks@, now, #[trigger] r@[i]),
        forall|i: int, k: Seq<char>|
            #![trigger r@[i], count_skey(kept_keys(tracks@, now), k)]
            (0 <= i < r@.len() && count_skey(kept_keys(tracks@, now), k) > 0 && (forall|j: int|
                0 <= j < r@.len() ==> !play_from_key(tracks@, now, #[trigger] r@[j], k)))
                ==> count_skey(kept_keys(tracks@, now), k) <= r@[i].play_count,
{
    let ghost keys = kept_keys(tracks@, now);
    let ghost wrapped_keys = keys.map_values(|x: Seq<char>| wrap_key(x));
    let cutoff = now - THREE_DAYS_IN_SECONDS;

    // Keep the plays of the window, each as its key wrapped for the engine.
    let mut events: Vec<track::Scrobble> = Vec::new();
    let mut i: usize = 0;
    let ghost all = tracks@;
    proof {
        assert(all.take(0) =~= Seq::<RecentTrack>::empty());
        assert(kept_keys(all.take(0), now) =~= Seq::<Seq<char>>::empty()) by {
            reveal(Seq::filter);
        }
    }
    while i < tracks.len()
        invariant
            tracks@ == all,
            i <= all.len(),
            cutoff == now - THREE_DAYS_IN_SECONDS,
            aggregation::keys_of(events@) =~= kept_keys(all.take(i as int), now).map_values(
                |x: Seq<char>| wrap_key(x),
            ),
        decreases all.len() - i,
    {
        let t = &tracks[i];
        let keep: bool = match &t.uts {
            Some(u) => {
                match parse_u64(u.as_str()) {
                    Some(v) => v >= cutoff,
                    None => false,
                }
            },
            None => false,
        };
        proof {
            let p = |t: RecentTrack| track_kept(t, now);
            assert(keep == p(all[i as int]));
            assert(all.take(i + 1).drop_last() =~= all.take(i as int));
            assert(all.take(i + 1).last() == all[i as int]);
            reveal(Seq::filter);
            if p(all[i as int]) {
                assert(all.take(i + 1).filter(p) =~= all.take(i as int).filter(p).push(
                    all[i as int],
                ));
            } else {
                assert(all.take(i + 1).filter(p) =~= all.take(i as int).filter(p));
            }
        }
        let ghost prev = kept_keys(all.take(i as int), now);
        let ghost cur = kept_keys(all.take(i + 1), now);
        if keep {
            let mut key = t.artist.clone();
            key.append(" - ");
            key.append(t.name.as_str());
            let ghost key_view = key@;
            proof {
                assert(key_view == joined_key(all[i as int]));
                assert(cur =~= prev.push(key_view));
            }
            let ghost before_events = aggregation::keys_of(events@);
            events.push(track::Scrobble { artist: key, title: String::new() });
            proof {
                assert(aggregation::keys_of(events@) =~= before_events.push(
                    (key_view, Seq::<char>::empty()),
                ));
                assert(aggregation::keys_of(events@) =~= cur.map_values(
                    |x: Seq<char>| wrap_key(x),
                ));
            }
        } else {
            proof {
                assert(cur =~= prev);
                assert(aggregation::keys_of(events@) =~= cur.map_values(
                    |x: Seq<char>| wrap_key(x),
                ));
            }
        }
        i = i + 1;
    }
    proof {
        assert(all.take(all.len() as int) =~= all);
        assert(aggregation::keys_of(events@) == wrapped_keys);
    }

    // Group, count and rank, then truncate to the requested length.
    let mut groups = aggregation::aggregate_scrobbles(events);
    proof {
        lemma_wrap_distinct(keys);
    }
    let ghost ranked = groups@;
    groups.truncate(limit);
    proof {
        assert forall|i: int, j: int|
            0 <= i < j < groups@.len() implies groups@[i].play_count
            >= groups@[j].play_count by {
            assert(groups@[i] == ranked[i] && groups@[j] == ranked[j]);
        }
        assert forall|i: int| 0 <= i < groups@.len() implies #[trigger] groups@[i].play_count
            == aggregation::count_key(wrapped_keys, track::id_key(groups@[i].id))
            && groups@[i].play_count >= 1 by {
            assert(groups@[i] == ranked[i]);
        }
    }

    // Split each key back into artist and name.
    let mut out: Vec<TrackPlay> = Vec::new();
    let mut g: usize = 0;
    while g < groups.len()
        invariant
            g <= groups@.len(),
            out@.len() == g,
            forall|m: int| #![trigger out@[m]]
                0 <= m < g ==> (out@[m].artist@ == split_artist(groups@[m].id.artist@)
                    && out@[m].name@ == split_name(groups@[m].id.artist@) && out@[m].play_count
                    == groups@[m].play_count),
        decreases groups@.len() - g,
    {
        let entry = &groups[g];
        let (artist, name) = split_key(entry.id.artist.as_str());
        out.push(TrackPlay { artist, name, play_count: entry.play_count });
        g = g + 1;
    }

    proof {
        assert forall|i: int, j: int|
            0 <= i < j < out@.len() implies out@[i].play_count >= out@[j].play_count by {
            assert(out@[i].play_count == groups@[i].play_count);
            assert(out@[j].play_count == groups@[j].play_count);
        }
        assert forall|i: int| 0 <= i < out@.len() implies line_accounted(
            tracks@,
            now,
            #[trigger] out@[i],
        ) by {
            let grp = groups@[i];
            let gk = track::id_key(grp.id);
            assert(grp.play_count == aggregation::count_key(wrapped_keys, gk));
            assert(grp.play_count >= 1);
            aggregation::lemma_count_key_pos(wrapped_keys, gk);
            let w = choose|w: int| 0 <= w < wrapped_keys.len() && wrapped_keys[w] == gk;
            let k = keys[w];
            assert(wrapped_keys[w] == wrap_key(keys[w]));
            assert(gk == wrap_key(k));
            assert(k == grp.id.artist@);
            assert(keys.contains(k));
            lemma_wrap_count(keys, k);
            assert(play_from_key(tracks@, now, out@[i], k));
        }
        // Truncation keeps the dominant keys: any kept key that no line
        // accounts for has a count no larger than any line's.
        assert forall|i: int, k: Seq<char>|
            #![trigger out@[i], count_skey(keys, k)]
            (0 <= i < out@.len() && count_skey(keys, k) > 0 && (forall|j: int|
                0 <= j < out@.len() ==> !play_from_key(tracks@, now, #[trigger] out@[j], k)))
            implies count_skey(keys, k) <= out@[i].play_count by {
            lemma_wrap_count(keys, k);
            aggregation::lemma_count_key_pos(wrapped_keys, wrap_key(k));
            let w2 = choose|w: int| 0 <= w < wrapped_keys.len() && wrapped_keys[w] == wrap_key(k);
            let gi = choose|gi: int|
                0 <= gi < ranked.len() && track::id_key(ranked[gi].id) == wrapped_keys[w2];
            assert(wrapped_keys[w2] == wrap_key(keys[w2]));
            assert(keys[w2] == k);
            if gi < groups@.len() {
                assert(groups@[gi] == ranked[gi]);
                assert(track::id_key(groups@[gi].id) == wrap_key(k));
                assert(groups@[gi].id.artist@ == k);
                assert(out@[gi].artist@ == split_artist(k) && out@[gi].name@ == split_name(k)
                    && out@[gi].play_count == groups@[gi].play_count);
                assert(groups@[gi].play_count == aggregation::count_key(
                    wrapped_keys,
                    wrap_key(k),
                ));
                assert(keys.contains(k));
                assert(play_from_key(tracks@, now, out@[gi], k));
                assert(false);
            }
            assert(ranked[gi].play_count == aggregation::count_key(
                wrapped_keys,
                track::id_key(ranked[gi].id),
            ));
            assert(ranked[i].play_count >= ranked[gi].play_count);
            assert(groups@[i] == ranked[i]);
            assert(out@[i].play_count == groups@[i].play_count);
        }
    }
    out
}

} // verus!

//! Plain-text rendering of a run's `Statistics`, one line per ranked track.

use vstd::prelude::*;

use crate::format::{
    calculate_padding, format_play_count, spec_track_line, truncate_with_ellipsis,
    MAX_ARTIST_WIDTH, MAX_TITLE_WIDTH,
};
use crate::model::{Statistics, Track};
use crate::text::push_char;

verus! {

use vstd::string::StringExecFns;

fn format_track_line(title: &str, artist: &str, play_count: usize) -> (r: String)
    ensures
        r@ == spec_track_line(title@, artist@, play_count as nat),
{
    let truncated_title = truncate_with_ellipsis(title, MAX_TITLE_WIDTH);
    let truncated_artist = truncate_with_ellipsis(artist, MAX_ARTIST_WIDTH);
    let padding = calculate_padding(truncated_title.as_str());
    let count_suffix = format_play_count(play_count);
    let mut out = truncated_title;
    out.append(padding.as_str());
    out.append(truncated_artist.as_str());
    out.append(count_suffix.as_str());
    out
}

/// The rendered lines of the ranked `(track, count)` pairs, joined with
/// newlines.
pub open spec fn spec_stats_report(top: Seq<(Track, usize)>) -> Seq<char>
    decreases top.len(),
{
    if top.len() == 0 {
        Seq::<char>::empty()
    } else if top.len() == 1 {
        spec_track_line(top[0].0.title@, top[0].0.artist@, top[0].1 as nat)
    } else {
        spec_stats_report(top.drop_last()) + seq!['\n'] + spec_track_line(
            top.last().0.title@,
            top.last().0.artist@,
            top.last().1 as nat,
        )
    }
}

/// Renders a run's statistics as one line per top track: truncated title,
/// alignment padding, truncated artist, and a play-count suffix for tracks
/// played more than once. An empty run renders as a fixed notice.
pub fn stats_to_text(statistics: &Statistics) -> (r: String)
    ensures
        statistics.top_tracks@.len() == 0 ==> r@ == "No tracks played recently"@,
        statistics.top_tracks@.len() > 0 ==> r@ == spec_stats_report(statistics.top_tracks@),
{
    let top = &statistics.top_tracks;
    if top.len() == 0 {
        return "No tracks played recently".to_owned();
    }
    let mut out = String::new();
    let mut i: usize = 0;
    proof {
        assert(top@.take(0) =~= Seq::<(Track, usize)>::empty());
    }
    while i < top.len()
        invariant
            i <= top@.len(),
            out@ == spec_stats_report(top@.take(i as int)),
        decreases top@.len() - i,
    {
        let entry = &top[i];
        let line = format_track_line(
            entry.0.title.as_str(),
            entry.0.artist.as_str(),
            entry.1,
        );
        proof {
            assert(top@.take(i + 1).drop_last() =~= top@.take(i as int));
            assert(top@.take(i + 1).last() == top@[i as int]);
        }
        if i > 0 {
            push_char(&mut out, '\n');
        }
        out.append(line.as_str());
        i = i + 1;
    }
    proof {
        assert(top@.take(top@.len() as int) =~= top@);
    }
    out
}

} // verus!

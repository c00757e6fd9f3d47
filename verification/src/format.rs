//! Plain-text rendering of ranked tracks: column-aligned lines of truncated
//! title, artist and play count, measured in display columns.

use vstd::prelude::*;

use crate::domain::track::Track;
use crate::text::{push_char, str_to_chars, u64_to_string, dec_rep};

verus! {

use vstd::string::StringExecFns;

pub const MAX_TITLE_WIDTH: usize = 35;

pub const MAX_ARTIST_WIDTH: usize = 25;

pub const ALIGN_POSITION: usize = 40;

/// The display width of one character, as the terminal-column convention has
/// it; control characters count as zero.
pub uninterp spec fn char_width(c: char) -> nat;

/// Relies on `unicode_width::UnicodeWidthChar::width`: the display width in
/// columns of a single character, a function of the character alone; `None`
/// (a control character) is taken as zero, as the rendering treats it.
#[verifier::external_body]
fn char_display_width(c: char) -> (r: usize)
    ensures
        r == char_width(c),
{
    unicode_width::UnicodeWidthChar::width(c).unwrap_or(0)
}

/// The display width of a character sequence: the sum of its characters'
/// widths.
pub open spec fn str_width(s: Seq<char>) -> nat
    decreases s.len(),
{
    if s.len() == 0 {
        0
    } else {
        str_width(s.drop_last()) + char_width(s.last())
    }
}

/// How many leading characters of `s` the truncation keeps within `budget`
/// columns, always leaving one column for the ellipsis.
pub open spec fn fit_len(s: Seq<char>, budget: int) -> int
    decreases s.len(),
{
    if s.len() == 0 {
        0
    } else if char_width(s.first()) + 1 > budget {
        0
    } else {
        1 + fit_len(s.drop_first(), budget - char_width(s.first()))
    }
}

/// What truncation produces: the text itself if it fits in `max` columns,
/// else the widest prefix that leaves room for an ellipsis, plus the
/// ellipsis.
pub open spec fn spec_truncate(s: Seq<char>, max: int) -> Seq<char> {
    if str_width(s) <= max {
        s
    } else {
        s.take(fit_len(s, max)) + "…"@
    }
}

/// A run of `n` spaces.
pub open spec fn spaces(n: int) -> Seq<char> {
    Seq::new(if n >= 0 {
        n as nat
    } else {
        0
    }, |i: int| ' ')
}

/// The padding after a (truncated) title: spaces up to the alignment column.
pub open spec fn spec_padding(title: Seq<char>) -> Seq<char> {
    spaces(ALIGN_POSITION - str_width(title))
}

/// The play-count suffix: nothing for a single play, " (n×)" otherwise.
pub open spec fn spec_play_count(count: nat) -> Seq<char> {
    if count > 1 {
        " ("@ + dec_rep(count) + "×)"@
    } else {
        Seq::<char>::empty()
    }
}

/// One rendered line: truncated title, alignment padding, truncated artist,
/// play-count suffix.
pub open spec fn spec_track_line(title: Seq<char>, artist: Seq<char>, count: nat) -> Seq<char> {
    let t = spec_truncate(title, MAX_TITLE_WIDTH as int);
    t + spec_padding(t) + spec_truncate(artist, MAX_ARTIST_WIDTH as int) + spec_play_count(count)
}

proof fn lemma_str_width_take_step(s: Seq<char>, i: int)
    requires
        0 <= i < s.len(),
    ensures
        str_width(s.take(i + 1)) == str_width(s.take(i)) + char_width(s[i]),
{
    assert(s.take(i + 1).drop_last() =~= s.take(i));
    assert(s.take(i + 1).last() == s[i]);
}

proof fn lemma_str_width_prefix(s: Seq<char>, i: int)
    requires
        0 <= i <= s.len(),
    ensures
        str_width(s.take(i)) <= str_width(s),
    decreases s.len() - i,
{
    if i == s.len() {
        assert(s.take(i) =~= s);
    } else {
        lemma_str_width_take_step(s, i);
        lemma_str_width_prefix(s, i + 1);
    }
}

/// Whether `s` fits within `max` display columns.
fn fits_width(chars: &[char], max: usize) -> (r: bool)
    ensures
        r == (str_width(chars@) <= max),
{
    let mut remaining: usize = max;
    let mut i: usize = 0;
    proof {
        assert(chars@.take(0) =~= Seq::<char>::empty());
    }
    while i < chars.len()
        invariant
            i <= chars@.len(),
            remaining <= max,
            str_width(chars@.take(i as int)) == max - remaining,
        decreases chars@.len() - i,
    {
        let cw = char_display_width(chars[i]);
        proof {
            lemma_str_width_take_step(chars@, i as int);
        }
        if cw > remaining {
            proof {
                lemma_str_width_prefix(chars@, i + 1);
            }
            return false;
        }
        remaining = remaining - cw;
        i = i + 1;
    }
    proof {
        assert(chars@.take(chars@.len() as int) =~= chars@);
    }
    true
}

/// Truncates `text` to at most `max_width` display columns, appending an
/// ellipsis when anything was cut.
pub(crate) fn truncate_with_ellipsis(text: &str, max_width: usize) -> (r: String)
    requires
        1 <= max_width,
    ensures
        r@ == spec_truncate(text@, max_width as int),
{
    let chars = str_to_chars(text);
    if fits_width(chars.as_slice(), max_width) {
        return text.to_owned();
    }
    let ghost s = text@;
    let mut result = String::new();
    let mut width: usize = 0;
    let mut i: usize = 0;
    proof {
        assert(s.skip(0) =~= s);
        assert(s.take(0) =~= Seq::<char>::empty());
    }
    loop
        invariant_except_break
            chars@ == s,
            i <= s.len(),
            1 <= max_width,
            width + 1 <= max_width,
            width == str_width(s.take(i as int)),
            result@ == s.take(i as int),
            fit_len(s, max_width as int) == i + fit_len(s.skip(i as int), max_width - width),
        ensures
            result@ == s.take(fit_len(s, max_width as int)),
        decreases s.len() - i,
    {
        if i >= chars.len() {
            proof {
                assert(s.skip(i as int) =~= Seq::<char>::empty());
            }
            break ;
        }
        let cw = char_display_width(chars[i]);
        proof {
            assert(s.skip(i as int).first() == s[i as int]);
            assert(s.skip(i as int).drop_first() =~= s.skip(i + 1));
            lemma_str_width_take_step(s, i as int);
        }
        if cw > max_width - width - 1 {
            proof {
                assert(char_width(s[i as int]) + 1 > max_width - width);
                assert(fit_len(s.skip(i as int), max_width - width) == 0);
            }
            break ;
        }
        proof {
            assert(char_width(s[i as int]) + 1 <= max_width - width);
        }
        push_char(&mut result, chars[i]);
        proof {
            assert(result@ =~= s.take(i + 1));
        }
        width = width + cw;
        i = i + 1;
    }
    result.append("…");
    result
}

/// The spaces that align the artist column after a (truncated) title.
pub(crate) fn calculate_padding(title: &str) -> (r: String)
    ensures
        r@ == spec_padding(title@),
{
    let chars = str_to_chars(title);
    let mut remaining: usize = ALIGN_POSITION;
    let mut i: usize = 0;
    proof {
        assert(chars@.take(0) =~= Seq::<char>::empty());
    }
    while i < chars.len() && remaining > 0
        invariant
            chars@ == title@,
            i <= title@.len(),
            remaining <= ALIGN_POSITION,
            remaining > 0 ==> remaining == ALIGN_POSITION - str_width(title@.take(i as int)),
            remaining == 0 ==> str_width(title@.take(i as int)) >= ALIGN_POSITION,
        decreases title@.len() - i,
    {
        let cw = char_display_width(chars[i]);
        proof {
            lemma_str_width_take_step(title@, i as int);
        }
        if cw > remaining {
            remaining = 0;
        } else {
            remaining = remaining - cw;
        }
        i = i + 1;
    }
    proof {
        if i == chars.len() {
            assert(title@.take(i as int) =~= title@);
        } else {
            lemma_str_width_prefix(title@, i as int);
        }
    }
    let mut pad = String::new();
    let mut p: usize = 0;
    while p < remaining
        invariant
            p <= remaining,
            pad@ =~= spaces(p as int),
        decreases remaining - p,
    {
        push_char(&mut pad, ' ');
        proof {
            assert(pad@ =~= spaces(p + 1));
        }
        p = p + 1;
    }
    proof {
        assert(pad@ =~= spaces(remaining as int));
        assert(spaces(remaining as int) =~= spec_padding(title@));
    }
    pad
}

/// The play-count suffix of a line: empty for one play, " (n×)" otherwise.
pub(crate) fn format_play_count(count: usize) -> (r: String)
    ensures
        r@ == spec_play_count(count as nat),
{
    if count > 1 {
        let mut out = " (".to_owned();
        let digits = u64_to_string(count as u64);
        out.append(digits.as_str());
        out.append("×)");
        out
    } else {
        String::new()
    }
}

fn format_track(track: &Track) -> (r: String)
    ensures
        r@ == spec_track_line(track.id.title@, track.id.artist@, track.play_count as nat),
{
    let title = truncate_with_ellipsis(track.title(), MAX_TITLE_WIDTH);
    let artist = truncate_with_ellipsis(track.artist(), MAX_ARTIST_WIDTH);
    let padding = calculate_padding(title.as_str());
    let count = format_play_count(track.play_count);
    let mut out = title;
    out.append(padding.as_str());
    out.append(artist.as_str());
    out.append(count.as_str());
    out
}

/// The rendered lines of a track sequence, joined with newlines.
pub open spec fn spec_report(tracks: Seq<Track>) -> Seq<char>
    decreases tracks.len(),
{
    if tracks.len() == 0 {
        Seq::<char>::empty()
    } else if tracks.len() == 1 {
        spec_track_line(tracks[0].id.title@, tracks[0].id.artist@, tracks[0].play_count as nat)
    } else {
        spec_report(tracks.drop_last()) + seq!['\n'] + spec_track_line(
            tracks.last().id.title@,
            tracks.last().id.artist@,
            tracks.last().play_count as nat,
        )
    }
}

/// Renders the ranked tracks as one line each: truncated title, padding to
/// the alignment column, truncated artist, and a play-count suffix for
/// tracks played more than once. An empty list renders as a fixed notice.
pub fn format_tracks(tracks: &[Track]) -> (r: String)
    ensures
        tracks@.len() == 0 ==> r@ == "No tracks played recently"@,
        tracks@.len() > 0 ==> r@ == spec_report(tracks@),
{
    if tracks.len() == 0 {
        return "No tracks played recently".to_owned();
    }
    let mut out = String::new();
    let mut i: usize = 0;
    proof {
        assert(tracks@.take(0) =~= Seq::<Track>::empty());
    }
    while i < tracks.len()
        invariant
            i <= tracks@.len(),
            out@ == spec_report(tracks@.take(i as int)),
        decreases tracks@.len() - i,
    {
        let line = format_track(&tracks[i]);
        proof {
            assert(tracks@.take(i + 1).drop_last() =~= tracks@.take(i as int));
            assert(tracks@.take(i + 1).last() == tracks@[i as int]);
        }
        if i > 0 {
            push_char(&mut out, '\n');
        }
        out.append(line.as_str());
        i = i + 1;
    }
    proof {
        assert(tracks@.take(tracks@.len() as int) =~= tracks@);
    }
    out
}

} // verus!

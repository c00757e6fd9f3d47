//! The shapes the recent-tracks endpoint answers with, and the rule that
//! turns a raw item into a play event: an item without a date never becomes
//! one.

use vstd::prelude::*;

use crate::domain::track::Scrobble;

verus! {

/// A whole recent-tracks answer.
#[derive(Debug)]
pub struct ApiResponse {
    pub recenttracks: RecentTracks,
}

/// The track list of one page, with the page attributes when present.
#[derive(Debug)]
pub struct RecentTracks {
    pub track: Vec<ApiTrack>,
    pub attr: Option<PageAttr>,
}

/// The page attributes: how many pages the server declares in all.
#[derive(Debug)]
pub struct PageAttr {
    pub total_pages: String,
}

/// One raw item: its title, artist, and date when the play was recorded.
/// An item that is playing right now has no date.
#[derive(Debug)]
pub struct ApiTrack {
    pub name: String,
    pub artist: ArtistInfo,
    pub date: Option<DateInfo>,
}

/// The artist of a raw item.
#[derive(Debug)]
pub struct ArtistInfo {
    pub text: String,
}

/// The date marker of a raw item; carrying one is what admits the item.
#[derive(Debug)]
pub struct DateInfo {}

/// Turns a raw item into a play event exactly when it carries a date.
pub fn to_scrobble(track: ApiTrack) -> (r: Option<Scrobble>)
    ensures
        track.date is Some ==> (r matches Some(s) && s.artist == track.artist.text && s.title
            == track.name),
        track.date is None ==> r is None,
{
    match track.date {
        Some(_) => Some(Scrobble::new(track.artist.text, track.name)),
        None => None,
    }
}

} // verus!

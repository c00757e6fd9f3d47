//! The computable parts of one page fetch: the request URL, the judgement
//! of the answer's status, and the conversion of raw items into play
//! events. The HTTP exchange itself lives outside the library.

use vstd::prelude::*;

use super::api_types::{to_scrobble, ApiTrack};
use super::PAGE_LIMIT;
use crate::domain::track::Scrobble;
use crate::errors::Error;
use crate::text::{dec_rep, u64_to_string};

verus! {

use vstd::string::StringExecFns;

/// The recent-tracks request URL for one page.
pub open spec fn spec_page_url(user: Seq<char>, api_key: Seq<char>, from: nat, page: nat) -> Seq<
    char,
> {
    "https://ws.audioscrobbler.com/2.0/?method=user.getrecenttracks&user="@ + user + "&api_key="@
        + api_key + "&limit="@ + dec_rep(PAGE_LIMIT as nat) + "&from="@ + dec_rep(from) + "&page="@
        + dec_rep(page) + "&format=json"@
}

/// Builds the recent-tracks request URL for one page.
pub fn build_page_url(username: &str, api_key: &str, from: u64, page: usize) -> (r: String)
    ensures
        r@ == spec_page_url(username@, api_key@, from as nat, page as nat),
{
    let mut url =
        "https://ws.audioscrobbler.com/2.0/?method=user.getrecenttracks&user=".to_owned();
    url.append(username);
    url.append("&api_key=");
    url.append(api_key);
    url.append("&limit=");
    let limit_digits = u64_to_string(PAGE_LIMIT as u64);
    url.append(limit_digits.as_str());
    url.append("&from=");
    let from_digits = u64_to_string(from);
    url.append(from_digits.as_str());
    url.append("&page=");
    let page_digits = u64_to_string(page as u64);
    url.append(page_digits.as_str());
    url.append("&format=json");
    url
}

/// Judges the answer to a page request: a success status (2xx) carries a
/// body worth parsing; anything else is an API-level error with the status
/// and body, distinguished from transport failures so that only those are
/// retried.
pub fn page_outcome(status: u16, body: String) -> (r: Result<(), Error>)
    ensures
        (200 <= status < 300) <==> r is Ok,
        !(200 <= status < 300) ==> (r matches Err(Error::LastFmApi { status: s, message: m })
            && s == status && m == body),
{
    if 200 <= status && status < 300 {
        Ok(())
    } else {
        Err(Error::LastFmApi { status, message: body })
    }
}

/// The play events of the raw items that carry a date, in order.
pub open spec fn spec_scrobbles_of(tracks: Seq<ApiTrack>) -> Seq<Scrobble> {
    tracks.filter(|t: ApiTrack| t.date is Some).map_values(
        |t: ApiTrack| Scrobble { artist: t.artist.text, title: t.name },
    )
}

/// Keeps every raw item that carries a date, as a play event; items without
/// a date are dropped silently.
pub fn scrobbles_from_tracks(tracks: Vec<ApiTrack>) -> (r: Vec<Scrobble>)
    ensures
        r@ == spec_scrobbles_of(tracks@),
{
    let ghost all = tracks@;
    let mut out: Vec<Scrobble> = Vec::new();
    let mut tracks = tracks;
    let mut i: usize = 0;
    proof {
        assert(all.take(0) =~= Seq::<ApiTrack>::empty());
        assert(spec_scrobbles_of(all.take(0)) =~= Seq::<Scrobble>::empty()) by {
            reveal(Seq::filter);
        }
    }
    while i < tracks.len()
        invariant
            tracks@ == all,
            i <= all.len(),
            out@ == spec_scrobbles_of(all.take(i as int)),
        decreases all.len() - i,
    {
        let t = &tracks[i];
        let item = ApiTrack {
            name: t.name.clone(),
            artist: super::api_types::ArtistInfo { text: t.artist.text.clone() },
            date: match &t.date {
                Some(_) => Some(super::api_types::DateInfo {  }),
                None => None,
            },
        };
        proof {
            let p = |t: ApiTrack| t.date is Some;
            assert(all.take(i + 1).drop_last() =~= all.take(i as int));
            assert(all.take(i + 1).last() == all[i as int]);
            reveal(Seq::filter);
            if p(all[i as int]) {
                assert(all.take(i + 1).filter(p) =~= all.take(i as int).filter(p).push(
                    all[i as int],
                ));
            } else {
                assert(all.take(i + 1).filter(p) =~= all.take(i as int).filter(p));
            }
        }
        match to_scrobble(item) {
            Some(s) => {
                out.push(s);
                proof {
                    let p = |t: ApiTrack| t.date is Some;
                    assert(out@ =~= spec_scrobbles_of(all.take(i + 1)));
                }
            },
            None => {
                proof {
                    assert(out@ =~= spec_scrobbles_of(all.take(i + 1)));
                }
            },
        }
        i = i + 1;
    }
    proof {
        assert(all.take(all.len() as int) =~= all);
    }
    out
}

} // verus!

//! The publish step's computable parts: building the gist-update payload and
//! judging the server's answer. The HTTP exchange itself lives outside the
//! library; it hands the status and body back in as plain values.

use vstd::prelude::*;

use crate::errors::Error;
use crate::types::{GistFile, GistUpdate};

verus! {

use vstd::string::StringExecFns;

/// The payload that replaces the gist's track listing with `content`.
pub fn build_gist_update(content: &str) -> (r: GistUpdate)
    ensures
        r.description@ == "What I've been listening to"@,
        r.files@.len() == 1,
        r.files@[0].0@ == "lastfm-recent-tracks"@,
        r.files@[0].1.content@ == content@,
{
    let mut files: Vec<(String, GistFile)> = Vec::new();
    files.push(("lastfm-recent-tracks".to_owned(), GistFile { content: content.to_owned() }));
    GistUpdate { description: "What I've been listening to".to_owned(), files }
}

/// Judges the answer to a gist update: a success status (2xx) completes the
/// run; anything else is a fatal publish failure carrying the full detail.
pub fn gist_outcome(gist_id: &str, status: u16, body: String) -> (r: Result<(), Error>)
    ensures
        (200 <= status < 300) <==> r is Ok,
        !(200 <= status < 300) ==> (r matches Err(
            Error::GistUpdate { gist_id: g, status: s, body: b },
        ) && g@ == gist_id@ && s == status && b == body),
{
    if 200 <= status && status < 300 {
        Ok(())
    } else {
        Err(Error::GistUpdate { gist_id: gist_id.to_owned(), status, body })
    }
}

} // verus!

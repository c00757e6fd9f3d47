//! Building the gist-update payload for the run that publishes a streaming
//! service's top tracks. The HTTP exchange lives outside the library.

use vstd::prelude::*;

use crate::types::{GistFile, GistUpdate};

verus! {

use vstd::string::StringExecFns;

/// The payload that replaces the gist's track listing with `content`.
pub fn build_gist_update(content: String) -> (r: GistUpdate)
    ensures
        r.description@ == "🎵 What I've been listening to"@,
        r.files@.len() == 1,
        r.files@[0].0@ == "lastfm-recent-tracks"@,
        r.files@[0].1.content@ == content@,
{
    let mut files: Vec<(String, GistFile)> = Vec::new();
    files.push(("lastfm-recent-tracks".to_owned(), GistFile { content }));
    GistUpdate { description: "🎵 What I've been listening to".to_owned(), files }
}

} // verus!

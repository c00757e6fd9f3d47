//! Plain data shapes shared with the edges of the system: credentials, the
//! track listings the streaming API answers with, and the publish payload.

use vstd::prelude::*;

verus! {

/// The credentials of a run that publishes a streaming service's top tracks.
#[derive(Debug)]
pub struct Config {
    pub gist_id: String,
    pub gh_token: String,
    pub spotify_client_id: String,
    pub spotify_client_secret: String,
    pub spotify_refresh_token: String,
}

/// A token-exchange answer: the access token to call the API with.
#[derive(Debug)]
pub struct TokenResponse {
    pub access_token: String,
}

/// The top-tracks listing the API answers with.
#[derive(Debug)]
pub struct TopTracksResponse {
    pub items: Vec<Track>,
}

/// One listed track, with its artists, album and canonical link.
#[derive(Debug)]
pub struct Track {
    pub name: String,
    pub artists: Vec<Artist>,
    pub album: Album,
    pub external_urls: ExternalUrls,
}

/// An artist credited on a listed track.
#[derive(Debug)]
pub struct Artist {
    pub name: String,
}

/// The album a listed track belongs to.
#[derive(Debug)]
pub struct Album {
    pub name: String,
}

/// The canonical links of a listed track.
#[derive(Debug)]
pub struct ExternalUrls {
    pub spotify: String,
}

/// The payload of a gist update: a description and the files to replace,
/// each file named once.
#[derive(Debug)]
pub struct GistUpdate {
    pub description: String,
    pub files: Vec<(String, GistFile)>,
}

/// One file of a gist update.
#[derive(Debug)]
pub struct GistFile {
    pub content: String,
}

} // verus!

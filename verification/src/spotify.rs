//! The computable parts of the streaming-service client: the basic
//! authorisation header built from the client credentials, and the
//! top-tracks request URL. The token exchange and the requests themselves
//! live outside the library.

use base64::Engine;
use vstd::prelude::*;

use crate::text::{dec_rep, u64_to_string};

verus! {

use vstd::string::StringExecFns;

/// The standard base64 encoding (with padding) of a text's UTF-8 bytes.
pub uninterp spec fn base64_std_of(s: Seq<char>) -> Seq<char>;

/// Relies on the `base64` crate's `STANDARD` engine: the standard alphabet
/// with padding, applied to the input's UTF-8 bytes, a function of the
/// input alone.
#[verifier::external_body]
fn base64_encode(input: &str) -> (r: String)
    ensures
        r@ == base64_std_of(input@),
{
    base64::engine::general_purpose::STANDARD.encode(input.as_bytes())
}

/// The basic authorisation header value for a pair of client credentials.
pub open spec fn spec_basic_auth(client_id: Seq<char>, client_secret: Seq<char>) -> Seq<char> {
    "Basic "@ + base64_std_of(client_id + ":"@ + client_secret)
}

/// Builds the basic authorisation header of the token exchange: the
/// credentials joined with a colon and base64-encoded.
pub fn basic_auth_value(client_id: &str, client_secret: &str) -> (r: String)
    ensures
        r@ == spec_basic_auth(client_id@, client_secret@),
{
    let mut credentials = client_id.to_owned();
    credentials.append(":");
    credentials.append(client_secret);
    let encoded = base64_encode(credentials.as_str());
    let mut out = "Basic ".to_owned();
    out.append(encoded.as_str());
    out
}

/// The top-tracks request URL for a listing of `limit` tracks over the
/// last four weeks.
pub open spec fn spec_top_tracks_url(limit: nat) -> Seq<char> {
    "https://api.spotify.com/v1/me/top/tracks?limit="@ + dec_rep(limit)
        + "&time_range=medium_term"@
}

/// Builds the top-tracks request URL.
pub fn top_tracks_url(limit: usize) -> (r: String)
    ensures
        r@ == spec_top_tracks_url(limit as nat),
{
    let mut url = "https://api.spotify.com/v1/me/top/tracks?limit=".to_owned();
    let digits = u64_to_string(limit as u64);
    url.append(digits.as_str());
    url.append("&time_range=medium_term");
    url
}

} // verus!

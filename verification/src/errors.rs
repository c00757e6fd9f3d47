//! The error taxonomy of the pipeline: configuration errors, provider
//! transport and API errors, rate-limit signals, scraper authentication and
//! structural errors, and publish failures.

use vstd::prelude::*;

use crate::text::{dec_rep, u64_to_string};

verus! {

use vstd::string::StringExecFns;

/// Every failure the pipeline can report. Transport-level details from the
/// HTTP client are carried as plain text in `detail` so that errors can be
/// constructed, inspected and compared without the client itself.
#[derive(Debug, Clone)]
pub enum Error {
    /// A required environment variable is absent or blank.
    MissingEnvVar { variable: String },
    /// No provider at all is configured; the run cannot do anything.
    NoProviders,
    /// A configuration value is present but unusable.
    InvalidConfig { field: String, reason: String },
    /// The Last.fm API answered with a non-success status.
    LastFmApi { status: u16, message: String },
    /// The session cookie did not yield a usable identifier, or the history
    /// page rejected the credentials.
    YouTubeAuth { reason: String },
    /// The history page's HTML or embedded JSON deviated from the expected
    /// structure.
    YouTubeScraping { detail: String },
    /// A transport-level failure: the request never produced a response.
    Network { url: String, detail: String },
    /// The server signalled rate limiting; `retry_after` is in seconds.
    RateLimit { retry_after: Option<u64> },
    /// The final publish step failed.
    GistUpdate { gist_id: String, status: u16, body: String },
}

impl Error {
    /// An error is transient exactly when retrying can help: transport
    /// failures and rate-limit signals. All other classes are permanent.
    pub fn is_transient(&self) -> (r: bool)
        ensures
            r == (self is Network || self is RateLimit),
    {
        match self {
            Error::Network { .. } => true,
            Error::RateLimit { .. } => true,
            _ => false,
        }
    }

    /// Renders the error for a human, naming the failing piece and carrying
    /// the detail the server or the environment gave.
    pub fn message(&self) -> (r: String)
        ensures
            r@ == spec_message(*self),
    {
        match self {
            Error::MissingEnvVar { variable } => {
                let mut out = "Missing required environment variable: ".to_owned();
                out.append(variable.as_str());
                out
            },
            Error::NoProviders => {
                "No music providers configured. Set either LASTFM_API_KEY or YOUTUBE_COOKIE".to_owned()
            },
            Error::InvalidConfig { field, reason } => {
                let mut out = "Invalid configuration for ".to_owned();
                out.append(field.as_str());
                out.append(": ");
                out.append(reason.as_str());
                out
            },
            Error::LastFmApi { status, message } => {
                let mut out = "Last.fm API error (status ".to_owned();
                let digits = u64_to_string(*status as u64);
                out.append(digits.as_str());
                out.append("): ");
                out.append(message.as_str());
                out
            },
            Error::YouTubeAuth { reason } => {
                let mut out = "YouTube authentication failed: ".to_owned();
                out.append(reason.as_str());
                out.append(". Make sure your cookie includes __Secure-3PAPISID");
                out
            },
            Error::YouTubeScraping { detail } => {
                let mut out = "YouTube scraping failed: ".to_owned();
                out.append(detail.as_str());
                out
            },
            Error::Network { url, detail } => {
                let mut out = "Network error accessing ".to_owned();
                out.append(url.as_str());
                out.append(": ");
                out.append(detail.as_str());
                out
            },
            Error::RateLimit { retry_after } => {
                match retry_after {
                    Some(seconds) => {
                        let mut out = "Rate limited. Retry after ".to_owned();
                        let digits = u64_to_string(*seconds);
                        out.append(digits.as_str());
                        out.append("s");
                        out
                    },
                    None => "Rate limited".to_owned(),
                }
            },
            Error::GistUpdate { gist_id, status, body } => {
                let mut out = "Failed to update gist ".to_owned();
                out.append(gist_id.as_str());
                out.append(" (status ");
                let digits = u64_to_string(*status as u64);
                out.append(digits.as_str());
                out.append("): ");
                out.append(body.as_str());
                out
            },
        }
    }
}

/// What `message` renders for each error.
pub open spec fn spec_message(e: Error) -> Seq<char> {
    match e {
        Error::MissingEnvVar { variable } => "Missing required environment variable: "@
            + variable@,
        Error::NoProviders => "No music providers configured. Set either LASTFM_API_KEY or YOUTUBE_COOKIE"@,
        Error::InvalidConfig { field, reason } => "Invalid configuration for "@ + field@ + ": "@
            + reason@,
        Error::LastFmApi { status, message } => "Last.fm API error (status "@ + dec_rep(
            status as nat,
        ) + "): "@ + message@,
        Error::YouTubeAuth { reason } => "YouTube authentication failed: "@ + reason@
            + ". Make sure your cookie includes __Secure-3PAPISID"@,
        Error::YouTubeScraping { detail } => "YouTube scraping failed: "@ + detail@,
        Error::Network { url, detail } => "Network error accessing "@ + url@ + ": "@ + detail@,
        Error::RateLimit { retry_after } => match retry_after {
            Some(seconds) => "Rate limited. Retry after "@ + dec_rep(seconds as nat) + "s"@,
            None => "Rate limited"@,
        },
        Error::GistUpdate { gist_id, status, body } => "Failed to update gist "@ + gist_id@
            + " (status "@ + dec_rep(status as nat) + "): "@ + body@,
    }
}

} // verus!

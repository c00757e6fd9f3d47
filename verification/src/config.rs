//! The configuration surface the pipeline consumes: per-provider
//! credentials, the lookback window in days, and the top-N cutoff.
//!
//! Reading the environment happens outside the library; the validation rules
//! live here: the window and the cutoff must be positive, and at least one
//! provider must be configured.

use vstd::prelude::*;

use crate::errors::Error;
use crate::text::{is_blank, str_is_blank};

verus! {

use vstd::string::StringExecFns;

/// Everything one run needs: publish target, providers, window and cutoff.
#[derive(Debug, Clone)]
pub struct Config {
    pub gist_id: String,
    pub github_token: String,
    pub lastfm: Option<LastFmConfig>,
    pub youtube_cookie: Option<String>,
    pub days: u64,
    pub top_n: usize,
}

/// The credentials of the Last.fm provider.
#[derive(Debug, Clone)]
pub struct LastFmConfig {
    pub api_key: String,
    pub username: String,
}

impl LastFmConfig {
    /// Accepts the provider's credentials only as a pair: both values must
    /// be present and neither may be blank, else the provider is not
    /// configured at all.
    pub fn from_values(api_key: Option<String>, username: Option<String>) -> (r: Option<
        LastFmConfig,
    >)
        ensures
            match r {
                Some(c) => {
                    &&& api_key matches Some(k) && c.api_key == k && !is_blank(k@)
                    &&& username matches Some(u) && c.username == u && !is_blank(u@)
                },
                None => !((api_key matches Some(k) && !is_blank(k@)) && (username matches Some(u)
                    && !is_blank(u@))),
            },
    {
        match (api_key, username) {
            (Some(key), Some(user)) => {
                if !str_is_blank(key.as_str()) && !str_is_blank(user.as_str()) {
                    Some(LastFmConfig { api_key: key, username: user })
                } else {
                    None
                }
            },
            _ => None,
        }
    }
}

/// What `validate` demands of a usable configuration.
pub open spec fn config_valid(config: Config) -> bool {
    &&& config.lastfm is Some || config.youtube_cookie is Some
    &&& config.days > 0
    &&& config.top_n > 0
}

/// Checks a configuration before any fetch: at least one provider, a
/// positive lookback window, a positive top-N cutoff. Each violation is
/// reported as its own configuration error, providers first.
pub fn validate(config: &Config) -> (r: Result<(), Error>)
    ensures
        r is Ok <==> config_valid(*config),
        (config.lastfm is None && config.youtube_cookie is None) ==> r matches Err(
            Error::NoProviders,
        ),
        !(config.lastfm is None && config.youtube_cookie is None) && config.days == 0 ==> (r
            matches Err(Error::InvalidConfig { field: f, reason: m }) && f@ == "DAYS"@ && m@
            == "must be greater than 0"@),
        !(config.lastfm is None && config.youtube_cookie is None) && config.days > 0
            && config.top_n == 0 ==> (r matches Err(Error::InvalidConfig { field: f, reason: m })
            && f@ == "TOP_N"@ && m@ == "must be greater than 0"@),
{
    if config.lastfm.is_none() && config.youtube_cookie.is_none() {
        return Err(Error::NoProviders);
    }
    if config.days == 0 {
        return Err(
            Error::InvalidConfig {
                field: "DAYS".to_owned(),
                reason: "must be greater than 0".to_owned(),
            },
        );
    }
    if config.top_n == 0 {
        return Err(
            Error::InvalidConfig {
                field: "TOP_N".to_owned(),
                reason: "must be greater than 0".to_owned(),
            },
        );
    }
    Ok(())
}

} // verus!

//! Collects recent music-listening events from heterogeneous sources,
//! reconciles them into canonical track identities, counts plays within a
//! time window, and produces a ranked top-N listing.

use vstd::prelude::*;

pub mod app;
pub mod config;
pub mod domain;
pub mod errors;
pub mod format;
pub mod github;
pub mod http;
pub mod lastfm;
pub mod model;
pub mod output;
pub mod providers;
pub mod spotify;
pub mod text;
pub mod types;

verus! {

} // verus!

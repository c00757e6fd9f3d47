//! The domain model: exact track identity, play events, and the aggregation
//! that deduplicates and ranks them.

use vstd::prelude::*;

pub mod aggregation;
pub mod track;

pub use aggregation::aggregate_scrobbles;
pub use track::Scrobble;
pub use track::Track;
pub use track::TrackId;

verus! {

} // verus!

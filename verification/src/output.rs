//! Rendering of a run's statistics and the shape of the publish payload.

use vstd::prelude::*;

pub mod format;
pub mod github;

verus! {

} // verus!

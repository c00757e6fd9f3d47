//! The run's merge point: every configured provider contributes a list of
//! play events, and a provider's failure never aborts the run — it is
//! isolated and its contribution becomes nothing.

use vstd::prelude::*;

use crate::errors::Error;
use crate::model::Scrobble;

verus! {

/// The play events the run keeps: the concatenation of every provider's
/// successful contribution, in provider order; a failed provider
/// contributes nothing.
pub open spec fn spec_combined(results: Seq<Result<Vec<Scrobble>, Error>>) -> Seq<Scrobble>
    decreases results.len(),
{
    if results.len() == 0 {
        Seq::<Scrobble>::empty()
    } else {
        (match results[0] {
            Ok(v) => v@,
            Err(_) => Seq::<Scrobble>::empty(),
        }) + spec_combined(results.drop_first())
    }
}

/// Merges the providers' outcomes: successful contributions are kept in
/// provider order; a failed provider is isolated and contributes nothing,
/// so one source's failure never aborts the run.
pub fn combine_provider_results(results: Vec<Result<Vec<Scrobble>, Error>>) -> (r: Vec<Scrobble>)
    ensures
        r@ == spec_combined(results@),
{
    let ghost all = results@;
    let mut remaining = results;
    let mut out: Vec<Scrobble> = Vec::new();
    proof {
        assert(out@ + spec_combined(remaining@) =~= spec_combined(all));
    }
    while remaining.len() > 0
        invariant
            spec_combined(all) == out@ + spec_combined(remaining@),
        decreases remaining@.len(),
    {
        let ghost before = remaining@;
        let first = remaining.remove(0);
        proof {
            assert(before.remove(0) =~= before.drop_first());
            assert(before[0] == first);
        }
        match first {
            Ok(mut contribution) => {
                out.append(&mut contribution);
            },
            Err(_) => {},
        }
    }
    proof {
        assert(spec_combined(remaining@) =~= Seq::<Scrobble>::empty());
        assert(out@ =~= out@ + spec_combined(remaining@));
    }
    out
}

} // verus!

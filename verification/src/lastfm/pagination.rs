//! The pagination rule of the recent-tracks endpoint: pages are drained in
//! order, stopping at the declared total or at the hard cap of ten pages,
//! whichever comes first. The cap protects against API irregularities
//! producing unbounded pagination.

use vstd::prelude::*;

use super::api_types::PageAttr;
use super::MAX_PAGES;
use crate::text::{parse_u64, spec_parse_u64};

verus! {

/// The page count an answer declares: the parsed `totalPages` when it
/// parses and fits, one otherwise.
pub open spec fn declared_total_pages(attr: Option<PageAttr>) -> int {
    match attr {
        Some(a) => match spec_parse_u64(a.total_pages@) {
            Some(v) => if v <= usize::MAX {
                v as int
            } else {
                1
            },
            None => 1,
        },
        None => 1,
    }
}

/// The page to request after `page`, if any: pagination stops when the
/// current page reaches the declared total or the hard cap.
pub open spec fn spec_next_page(page: int, attr: Option<PageAttr>) -> Option<int> {
    if page >= declared_total_pages(attr) || page >= MAX_PAGES {
        None
    } else {
        Some(page + 1)
    }
}

/// Decides whether another page follows `page`, given the answer's page
/// attributes. `None` ends the drain.
pub fn next_page(page: usize, attr: &Option<PageAttr>) -> (r: Option<usize>)
    requires
        page < usize::MAX,
    ensures
        r matches Some(n) ==> spec_next_page(page as int, *attr) == Some(n as int),
        r is None ==> spec_next_page(page as int, *attr) is None,
{
    let total_pages: usize = match attr {
        Some(a) => {
            match parse_u64(a.total_pages.as_str()) {
                Some(v) => {
                    if v <= usize::MAX as u64 {
                        v as usize
                    } else {
                        1
                    }
                },
                None => 1,
            }
        },
        None => 1,
    };
    if page >= total_pages || page >= MAX_PAGES {
        None
    } else {
        Some(page + 1)
    }
}

} // verus!

//! The YouTube Music provider: authentication from a session cookie, and
//! the scraping of the history page's embedded data. The HTTP exchange
//! lives outside the library; everything computable stands here.

use vstd::prelude::*;

pub mod dates;
pub mod http;
pub mod parse;

verus! {

} // verus!

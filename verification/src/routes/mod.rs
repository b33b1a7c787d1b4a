//! The older pass-through endpoints and their one-call summary.

use vstd::prelude::*;

pub mod lastfm;
pub mod now;

verus! {

/// A failed pass-through, carrying the text that is served.
#[derive(Debug, PartialEq, Eq)]
pub struct AppError(pub String);

} // verus!

//! The Last.fm pass-through endpoints.

use vstd::prelude::*;

verus! {

/// The query of the artist-tags endpoint.
#[derive(Debug, PartialEq, Eq)]
pub struct ArtistQuery {
    pub artist: String,
}

} // verus!

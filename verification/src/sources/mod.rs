//! One module per upstream source: what is kept of each response.

pub mod discord;
pub mod lastfm;
pub mod steam;
pub mod github;
pub mod vndb;
pub mod osu;
pub mod leetify;

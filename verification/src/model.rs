//! The normalised shapes served to the frontend, and their mathematical views.

use vstd::prelude::*;
use crate::json::opt_string_view;

verus! {

/// The views of a vector of strings.
pub open spec fn string_views(v: Seq<String>) -> Seq<Seq<char>> {
    v.map_values(|s: String| s@)
}

/// Discord presence.
#[derive(Debug, PartialEq, Eq)]
pub struct Presence {
    pub name: String,
    /// One of: online, idle, dnd, offline.
    pub status: String,
    pub activity: Option<String>,
}

pub struct PresenceView {
    pub name: Seq<char>,
    pub status: Seq<char>,
    pub activity: Option<Seq<char>>,
}

impl View for Presence {
    type V = PresenceView;

    open spec fn view(&self) -> PresenceView {
        PresenceView { name: self.name@, status: self.status@, activity: opt_string_view(self.activity) }
    }
}

/// A scrobbled track.
#[derive(Debug, PartialEq, Eq)]
pub struct Track {
    pub name: String,
    pub artist: String,
    pub art: Option<String>,
    pub live: bool,
}

pub struct TrackView {
    pub name: Seq<char>,
    pub artist: Seq<char>,
    pub art: Option<Seq<char>>,
    pub live: bool,
}

impl View for Track {
    type V = TrackView;

    open spec fn view(&self) -> TrackView {
        TrackView { name: self.name@, artist: self.artist@, art: opt_string_view(self.art), live: self.live }
    }
}

/// The game currently running on Steam.
#[derive(Debug, PartialEq, Eq)]
pub struct PlayingGame {
    pub name: String,
    pub app_id: Option<String>,
}

pub struct PlayingGameView {
    pub name: Seq<char>,
    pub app_id: Option<Seq<char>>,
}

impl View for PlayingGame {
    type V = PlayingGameView;

    open spec fn view(&self) -> PlayingGameView {
        PlayingGameView { name: self.name@, app_id: opt_string_view(self.app_id) }
    }
}

/// Last.fm listening profile.
#[derive(Debug, PartialEq, Eq)]
pub struct Lastfm {
    pub total_scrobbles: u64,
    pub recent: Vec<Track>,
    pub top_artists: Vec<TopArtist>,
    pub top_tracks: Vec<TopTrack>,
    pub genres: Vec<String>,
}

pub struct LastfmView {
    pub total_scrobbles: u64,
    pub recent: Seq<TrackView>,
    pub top_artists: Seq<TopArtistView>,
    pub top_tracks: Seq<TopTrackView>,
    pub genres: Seq<Seq<char>>,
}

impl View for Lastfm {
    type V = LastfmView;

    open spec fn view(&self) -> LastfmView {
        LastfmView {
            total_scrobbles: self.total_scrobbles,
            recent: self.recent@.map_values(|t: Track| t@),
            top_artists: self.top_artists@.map_values(|a: TopArtist| a@),
            top_tracks: self.top_tracks@.map_values(|t: TopTrack| t@),
            genres: string_views(self.genres@),
        }
    }
}

#[derive(Debug, PartialEq, Eq)]
pub struct TopArtist {
    pub name: String,
    pub playcount: u64,
}

pub struct TopArtistView {
    pub name: Seq<char>,
    pub playcount: u64,
}

impl View for TopArtist {
    type V = TopArtistView;

    open spec fn view(&self) -> TopArtistView {
        TopArtistView { name: self.name@, playcount: self.playcount }
    }
}

#[derive(Debug, PartialEq, Eq)]
pub struct TopTrack {
    pub name: String,
    pub artist: String,
    pub playcount: u64,
}

pub struct TopTrackView {
    pub name: Seq<char>,
    pub artist: Seq<char>,
    pub playcount: u64,
}

impl View for TopTrack {
    type V = TopTrackView;

    open spec fn view(&self) -> TopTrackView {
        TopTrackView { name: self.name@, artist: self.artist@, playcount: self.playcount }
    }
}

/// Steam profile.
#[derive(Debug, PartialEq, Eq)]
pub struct Steam {
    pub persona: String,
    pub avatar: String,
    /// One of: offline, online, busy, away, snooze.
    pub state: String,
    pub level: u64,
    pub friends: u64,
    pub recent: Vec<RecentGame>,
}

pub struct SteamView {
    pub persona: Seq<char>,
    pub avatar: Seq<char>,
    pub state: Seq<char>,
    pub level: u64,
    pub friends: u64,
    pub recent: Seq<RecentGameView>,
}

impl View for Steam {
    type V = SteamView;

    open spec fn view(&self) -> SteamView {
        SteamView {
            persona: self.persona@,
            avatar: self.avatar@,
            state: self.state@,
            level: self.level,
            friends: self.friends,
            recent: self.recent@.map_values(|g: RecentGame| g@),
        }
    }
}

#[derive(Debug, PartialEq, Eq)]
pub struct RecentGame {
    pub app_id: u64,
    pub name: String,
    pub minutes_2weeks: u64,
    pub minutes_total: u64,
    pub thumb: String,
}

pub struct RecentGameView {
    pub app_id: u64,
    pub name: Seq<char>,
    pub minutes_2weeks: u64,
    pub minutes_total: u64,
    pub thumb: Seq<char>,
}

impl View for RecentGame {
    type V = RecentGameView;

    open spec fn view(&self) -> RecentGameView {
        RecentGameView {
            app_id: self.app_id,
            name: self.name@,
            minutes_2weeks: self.minutes_2weeks,
            minutes_total: self.minutes_total,
            thumb: self.thumb@,
        }
    }
}

/// One of the best osu! scores.
#[derive(Debug, PartialEq, Eq)]
pub struct OsuScore {
    pub title: String,
    pub artist: String,
    pub version: String,
    pub pp: u64,
    /// One of: XH, X, SH, S, A, B, C, D.
    pub rank: String,
}

/// A visual novel on the reading list.
#[derive(Debug, PartialEq, Eq)]
pub struct VnEntry {
    pub title: String,
    pub developer: Option<String>,
    pub image: Option<String>,
}

pub struct VnEntryView {
    pub title: Seq<char>,
    pub developer: Option<Seq<char>>,
    pub image: Option<Seq<char>>,
}

impl View for VnEntry {
    type V = VnEntryView;

    open spec fn view(&self) -> VnEntryView {
        VnEntryView {
            title: self.title@,
            developer: opt_string_view(self.developer),
            image: opt_string_view(self.image),
        }
    }
}

/// GitHub profile.
#[derive(Debug, PartialEq, Eq)]
pub struct Github {
    pub repos: u64,
    pub followers: u64,
    pub languages: Vec<String>,
    pub recent: Vec<Repo>,
}

pub struct GithubView {
    pub repos: u64,
    pub followers: u64,
    pub languages: Seq<Seq<char>>,
    pub recent: Seq<RepoView>,
}

impl View for Github {
    type V = GithubView;

    open spec fn view(&self) -> GithubView {
        GithubView {
            repos: self.repos,
            followers: self.followers,
            languages: string_views(self.languages@),
            recent: self.recent@.map_values(|r: Repo| r@),
        }
    }
}

#[derive(Debug, PartialEq, Eq)]
pub struct Repo {
    pub name: String,
    pub description: Option<String>,
    pub language: Option<String>,
    pub stars: u64,
    pub url: String,
}

pub struct RepoView {
    pub name: Seq<char>,
    pub description: Option<Seq<char>>,
    pub language: Option<Seq<char>>,
    pub stars: u64,
    pub url: Seq<char>,
}

impl View for Repo {
    type V = RepoView;

    open spec fn view(&self) -> RepoView {
        RepoView {
            name: self.name@,
            description: opt_string_view(self.description),
            language: opt_string_view(self.language),
            stars: self.stars,
            url: self.url@,
        }
    }
}

/// What is live right now: the stage of the page.
#[derive(Debug, PartialEq, Eq)]
pub struct Now {
    pub discord: Option<Presence>,
    pub listening: Option<Track>,
    pub playing: Option<PlayingGame>,
}

} // verus!

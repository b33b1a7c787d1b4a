//! Assembling the page's snapshot from what each source returned. A failed source becomes
//! `None`, and no other part of the snapshot depends on it.

use vstd::prelude::*;
use crate::http::AppError;
use crate::json::{strings_at, Json, JsonView};
use crate::model::{Github, Lastfm, Now, Steam};
use crate::rank::is_top_ranking;
use crate::sources::{discord, github, lastfm, steam};

verus! {

/// The whole page: the live stage and one section per source. The sections whose numbers
/// are fractional (CS2, osu!, VNDB, maimai) are carried as given.
pub struct Snapshot<C, O, V, M> {
    pub now: Now,
    pub lastfm: Option<Lastfm>,
    pub steam: Option<Steam>,
    pub cs2: Option<C>,
    pub osu: Option<O>,
    pub maimai: Option<M>,
    pub vndb: Option<V>,
    pub github: Option<Github>,
}

/// The view of an optional value.
pub open spec fn opt_view<T: View>(o: Option<T>) -> Option<T::V> {
    match o {
        Some(t) => Some(t@),
        None => None,
    }
}

/// The stage: presence from Discord, the live track from Last.fm's recent tracks, the
/// running game from Steam's summary. Nothing else reaches it.
pub open spec fn stage_is(
    now: Now,
    discord_raw: Result<Json, AppError>,
    lastfm_raw: Result<(Json, Json, Json, Vec<String>), AppError>,
    steam_raw: Result<(Json, Json, Json, Json), AppError>,
) -> bool {
    &&& opt_view(now.discord) == match discord_raw {
        Ok(v) => discord::presence(v@),
        Err(_) => None,
    }
    &&& opt_view(now.listening) == match lastfm_raw {
        Ok((recent, _, _, _)) => lastfm::playing_now(recent@),
        Err(_) => None,
    }
    &&& opt_view(now.playing) == match steam_raw {
        Ok((summary, _, _, _)) => steam::playing_game(summary@),
        Err(_) => None,
    }
}

/// The GitHub section, when the source answered.
pub open spec fn github_is(g: Option<Github>, github_raw: Result<(Json, Json), AppError>) -> bool {
    match github_raw {
        Ok((user, repos)) => g matches Some(g) && github::profile_counts_and_recent(user@, repos@, g@)
            && is_top_ranking(g@.languages, strings_at(github::repo_entries(repos@), "language"@), 6),
        Err(_) => g is None,
    }
}

/// Puts the snapshot together. Each section depends on its own source alone; a failed
/// source leaves its section empty. The fractional sections are normalised by the given
/// functions; maimai passes through untouched.
pub fn assemble<C, O, V, M, FC, FO, FV>(
    discord_raw: Result<Json, AppError>,
    lastfm_raw: Result<(Json, Json, Json, Vec<String>), AppError>,
    steam_raw: Result<(Json, Json, Json, Json), AppError>,
    leetify_raw: Result<Json, AppError>,
    osu_raw: Result<(Json, Json), AppError>,
    maimai: Option<M>,
    vndb_raw: Result<(Json, Json, Json, Json), AppError>,
    github_raw: Result<(Json, Json), AppError>,
    cs2_of: FC,
    osu_of: FO,
    vndb_of: FV,
) -> (s: Snapshot<C, O, V, M>) where
    FC: FnOnce(Json) -> C,
    FO: FnOnce(Json, Json) -> Option<O>,
    FV: FnOnce(Json, Json, Json, Json) -> V,

    requires
        forall|p: Json| call_requires(cs2_of, (p,)),
        forall|u: Json, b: Json| call_requires(osu_of, (u, b)),
        forall|a: Json, b: Json, c: Json, d: Json| call_requires(vndb_of, (a, b, c, d)),
    ensures
        stage_is(s.now, discord_raw, lastfm_raw, steam_raw),
        opt_view(s.lastfm) == match lastfm_raw {
            Ok((recent, artists, tracks, genres)) => Some(
                lastfm::profile(recent@, artists@, tracks@, crate::model::string_views(genres@)),
            ),
            Err(_) => None,
        },
        opt_view(s.steam) == match steam_raw {
            Ok((summary, level, friends, recent)) => steam::profile(summary@, level@, friends@, recent@),
            Err(_) => None,
        },
        match leetify_raw {
            Ok(p) => s.cs2 matches Some(c) && call_ensures(cs2_of, (p,), c),
            Err(_) => s.cs2 is None,
        },
        match osu_raw {
            Ok((u, b)) => call_ensures(osu_of, (u, b), s.osu),
            Err(_) => s.osu is None,
        },
        s.maimai == maimai,
        match vndb_raw {
            Ok((a, b, c, d)) => s.vndb matches Some(v) && call_ensures(vndb_of, (a, b, c, d), v),
            Err(_) => s.vndb is None,
        },
        github_is(s.github, github_raw),
{
    let discord = match &discord_raw {
        Ok(v) => discord::normalize(v),
        Err(_) => None,
    };
    let listening = match &lastfm_raw {
        Ok((recent, _, _, _)) => lastfm::now_playing(recent),
        Err(_) => None,
    };
    let playing = match &steam_raw {
        Ok((summary, _, _, _)) => steam::playing(summary),
        Err(_) => None,
    };
    let now = Now { discord, listening, playing };
    let lastfm_section = match lastfm_raw {
        Ok((recent, artists, tracks, genres)) => Some(lastfm::normalize(&recent, &artists, &tracks, genres)),
        Err(_) => None,
    };
    let steam_section = match &steam_raw {
        Ok((summary, level, friends, recent)) => steam::normalize(summary, level, friends, recent),
        Err(_) => None,
    };
    let cs2 = match leetify_raw {
        Ok(p) => Some(cs2_of(p)),
        Err(_) => None,
    };
    let osu = match osu_raw {
        Ok((u, b)) => osu_of(u, b),
        Err(_) => None,
    };
    let vndb = match vndb_raw {
        Ok((a, b, c, d)) => Some(vndb_of(a, b, c, d)),
        Err(_) => None,
    };
    let github_section = match &github_raw {
        Ok((user, repos)) => Some(github::normalize(user, repos)),
        Err(_) => None,
    };
    Snapshot {
        now,
        lastfm: lastfm_section,
        steam: steam_section,
        cs2,
        osu,
        maimai,
        vndb,
        github: github_section,
    }
}

} // verus!

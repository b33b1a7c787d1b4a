//! Steam: persona, level, friends and recently played games.

use vstd::prelude::*;
use vstd::string::*;
use crate::json::{array_of, field, or_null, str_of, text_of, u64_of, views, Json, JsonView};
use crate::model::{PlayingGame, PlayingGameView, RecentGame, RecentGameView, Steam, SteamView};
use crate::text::{decimal_text, owned, owned_or_empty, push_decimal};

verus! {

/// A non-negative integer field, zero when absent.
pub open spec fn u64_or_zero(j: JsonView) -> u64 {
    match u64_of(j) {
        Some(n) => n,
        None => 0,
    }
}

/// The first player of a player-summaries response.
pub open spec fn first_player(summary: JsonView) -> Option<JsonView> {
    match array_of(field(field(summary, "response"@), "players"@)) {
        Some(ps) => if ps.len() > 0 {
            Some(ps[0])
        } else {
            None
        },
        None => None,
    }
}

/// The name of a Steam persona state code; unknown codes read as offline.
pub open spec fn state_label(code: u64) -> Seq<char> {
    if code == 1 {
        "online"@
    } else if code == 2 {
        "busy"@
    } else if code == 3 {
        "away"@
    } else if code == 4 {
        "snooze"@
    } else {
        "offline"@
    }
}

/// The game the player is in, if any.
pub open spec fn playing_game(summary: JsonView) -> Option<PlayingGameView> {
    match first_player(summary) {
        Some(p) => match str_of(field(p, "gameextrainfo"@)) {
            Some(name) => Some(PlayingGameView { name, app_id: str_of(field(p, "gameid"@)) }),
            None => None,
        },
        None => None,
    }
}

/// The header image of a game on the Steam CDN.
pub open spec fn thumb_url(app_id: u64) -> Seq<char> {
    "https://media.steampowered.com/steam/apps/"@ + crate::text::decimal_text(app_id as nat) + "/header.jpg"@
}

pub open spec fn recent_game(g: JsonView) -> RecentGameView {
    RecentGameView {
        app_id: u64_or_zero(field(g, "appid"@)),
        name: text_of(field(g, "name"@)),
        minutes_2weeks: u64_or_zero(field(g, "playtime_2weeks"@)),
        minutes_total: u64_or_zero(field(g, "playtime_forever"@)),
        thumb: thumb_url(u64_or_zero(field(g, "appid"@))),
    }
}

/// The profile built from the four responses; none without a player.
pub open spec fn profile(
    summary: JsonView,
    level: JsonView,
    friends: JsonView,
    recent: JsonView,
) -> Option<SteamView> {
    match first_player(summary) {
        Some(p) => Some(
            SteamView {
                persona: text_of(field(p, "personaname"@)),
                avatar: text_of(field(p, "avatarmedium"@)),
                state: state_label(u64_or_zero(field(p, "personastate"@))),
                level: u64_or_zero(field(field(level, "response"@), "player_level"@)),
                friends: match array_of(field(field(friends, "friendslist"@), "friends"@)) {
                    Some(a) => a.len() as u64,
                    None => 0,
                },
                recent: match array_of(field(field(recent, "response"@), "games"@)) {
                    Some(games) => games.map_values(|g: JsonView| recent_game(g)),
                    None => Seq::empty(),
                },
            },
        ),
        None => None,
    }
}

/// The first player of a player-summaries response.
pub fn player(summary: &Json) -> (r: Option<&Json>)
    ensures
        match r {
            Some(p) => first_player(summary@) == Some(p@),
            None => first_player(summary@) is None,
        },
{
    match Json::array_in(Json::get(Json::get(Some(summary), "response"), "players")) {
        Some(ps) => if ps.len() > 0 {
            Some(&ps[0])
        } else {
            None
        },
        None => None,
    }
}

/// The name of a Steam persona state code.
pub fn state_name(code: u64) -> (r: &'static str)
    ensures
        r@ == state_label(code),
{
    if code == 1 {
        "online"
    } else if code == 2 {
        "busy"
    } else if code == 3 {
        "away"
    } else if code == 4 {
        "snooze"
    } else {
        "offline"
    }
}

/// The game the player is in right now.
pub fn playing(summary: &Json) -> (r: Option<PlayingGame>)
    ensures
        match r {
            Some(g) => playing_game(summary@) == Some(g@),
            None => playing_game(summary@) is None,
        },
{
    let p = match player(summary) {
        Some(p) => p,
        None => return None,
    };
    let name = match Json::str_in(Json::get(Some(p), "gameextrainfo")) {
        Some(n) => String::from_str(n),
        None => return None,
    };
    let app_id = owned(Json::str_in(Json::get(Some(p), "gameid")));
    Some(PlayingGame { name, app_id })
}

/// A non-negative integer field, zero when absent.
fn u64_field(j: Option<&Json>, key: &str) -> (r: u64)
    ensures
        r == u64_or_zero(field(or_null(j), key@)),
{
    match Json::u64_in(Json::get(j, key)) {
        Some(n) => n,
        None => 0,
    }
}

/// The header image of a game.
pub fn thumb(app_id: u64) -> (r: String)
    ensures
        r@ == thumb_url(app_id),
{
    let mut url = String::from_str("https://media.steampowered.com/steam/apps/");
    push_decimal(&mut url, app_id);
    url.append("/header.jpg");
    url
}

/// Builds the Steam profile from the summary, level, friends and recent-games responses.
pub fn normalize(summary: &Json, level: &Json, friends: &Json, recent: &Json) -> (r: Option<Steam>)
    ensures
        match r {
            Some(s) => profile(summary@, level@, friends@, recent@) == Some(s@),
            None => profile(summary@, level@, friends@, recent@) is None,
        },
{
    let p = match player(summary) {
        Some(p) => p,
        None => return None,
    };
    let persona = owned_or_empty(Json::str_in(Json::get(Some(p), "personaname")));
    let avatar = owned_or_empty(Json::str_in(Json::get(Some(p), "avatarmedium")));
    let state = String::from_str(state_name(u64_field(Some(p), "personastate")));
    let lvl = u64_field(Json::get(Some(level), "response"), "player_level");
    let friend_count = match Json::array_in(Json::get(Json::get(Some(friends), "friendslist"), "friends")) {
        Some(a) => a.len() as u64,
        None => 0,
    };
    let mut games: Vec<RecentGame> = Vec::new();
    match Json::array_in(Json::get(Json::get(Some(recent), "response"), "games")) {
        Some(gs) => {
            let mut i: usize = 0;
            while i < gs.len()
                invariant
                    i <= gs.len(),
                    games.len() == i,
                    forall|k: int| 0 <= k < i ==> (#[trigger] games@[k])@ == recent_game(gs@[k]@),
                decreases gs.len() - i,
            {
                let g = Some(&gs[i]);
                let app_id = u64_field(g, "appid");
                games.push(
                    RecentGame {
                        app_id,
                        name: owned_or_empty(Json::str_in(Json::get(g, "name"))),
                        minutes_2weeks: u64_field(g, "playtime_2weeks"),
                        minutes_total: u64_field(g, "playtime_forever"),
                        thumb: thumb(app_id),
                    },
                );
                i += 1;
            }
            proof {
                assert(games@.map_values(|g: RecentGame| g@) =~= views(gs@).map_values(|g: JsonView| recent_game(g)));
            }
        },
        None => {
            proof {
                assert(games@.map_values(|g: RecentGame| g@) =~= Seq::<RecentGameView>::empty());
            }
        },
    }
    Some(Steam { persona, avatar, state, level: lvl, friends: friend_count, recent: games })
}

/// The player-summaries URL.
pub open spec fn summary_url_text(key: Seq<char>, id: Seq<char>) -> Seq<char> {
    "https://api.steampowered.com/ISteamUser/GetPlayerSummaries/v0002/?key="@ + key + "&steamids="@ + id
        + "&format=json"@
}

/// The Steam-level URL.
pub open spec fn level_url_text(key: Seq<char>, id: Seq<char>) -> Seq<char> {
    "https://api.steampowered.com/IPlayerService/GetSteamLevel/v1/?key="@ + key + "&steamid="@ + id
        + "&format=json"@
}

/// The friend-list URL.
pub open spec fn friends_url_text(key: Seq<char>, id: Seq<char>) -> Seq<char> {
    "https://api.steampowered.com/ISteamUser/GetFriendList/v0001/?key="@ + key + "&steamid="@ + id
        + "&relationship=friend&format=json"@
}

/// The recently-played URL.
pub open spec fn recent_url_text(key: Seq<char>, id: Seq<char>) -> Seq<char> {
    "https://api.steampowered.com/IPlayerService/GetRecentlyPlayedGames/v0001/?key="@ + key + "&steamid="@
        + id + "&count=4&format=json"@
}

fn url_of(start: &str, key: &str, mid: &str, id: &str, end: &str) -> (r: String)
    ensures
        r@ == start@ + key@ + mid@ + id@ + end@,
{
    let mut u = String::from_str(start);
    u.append(key);
    u.append(mid);
    u.append(id);
    u.append(end);
    u
}

/// The player-summaries URL.
pub fn summary_url(key: &str, id: &str) -> (r: String)
    ensures
        r@ == summary_url_text(key@, id@),
{
    url_of("https://api.steampowered.com/ISteamUser/GetPlayerSummaries/v0002/?key=", key, "&steamids=", id, "&format=json")
}

/// The Steam-level URL.
pub fn level_url(key: &str, id: &str) -> (r: String)
    ensures
        r@ == level_url_text(key@, id@),
{
    url_of("https://api.steampowered.com/IPlayerService/GetSteamLevel/v1/?key=", key, "&steamid=", id, "&format=json")
}

/// The friend-list URL.
pub fn friends_url(key: &str, id: &str) -> (r: String)
    ensures
        r@ == friends_url_text(key@, id@),
{
    url_of(
        "https://api.steampowered.com/ISteamUser/GetFriendList/v0001/?key=",
        key,
        "&steamid=",
        id,
        "&relationship=friend&format=json",
    )
}

/// The recently-played URL.
pub fn recent_url(key: &str, id: &str) -> (r: String)
    ensures
        r@ == recent_url_text(key@, id@),
{
    url_of(
        "https://api.steampowered.com/IPlayerService/GetRecentlyPlayedGames/v0001/?key=",
        key,
        "&steamid=",
        id,
        "&count=4&format=json",
    )
}

/// The persona state is always one of offline, online, busy, away and snooze.
pub proof fn law_state_is_one_of_five(code: u64)
    ensures
        state_label(code) == "offline"@ || state_label(code) == "online"@ || state_label(code) == "busy"@
            || state_label(code) == "away"@ || state_label(code) == "snooze"@,
{
}

/// The game on the stage and the profile read the same player: there is a game only
/// when there is a profile.
pub proof fn law_playing_needs_a_player(summary: JsonView, level: JsonView, friends: JsonView, recent: JsonView)
    ensures
        playing_game(summary) is Some ==> profile(summary, level, friends, recent) is Some,
{
}


/// Every recently played game of the response is listed, in order: entry `k` is read from
/// the `k`-th game, with its app id, name, play times and the header image of that app id.
pub proof fn law_recent_games_are_all_listed(summary: JsonView, level: JsonView, friends: JsonView, recent: JsonView)
    ensures
        profile(summary, level, friends, recent) matches Some(p) ==> match array_of(
            field(field(recent, "response"@), "games"@),
        ) {
            Some(gs) => {
                &&& p.recent.len() == gs.len()
                &&& forall|k: int|
                    0 <= k < gs.len() ==> {
                        &&& (#[trigger] p.recent[k]).app_id == u64_or_zero(field(gs[k], "appid"@))
                        &&& p.recent[k].name == text_of(field(gs[k], "name"@))
                        &&& p.recent[k].minutes_2weeks == u64_or_zero(field(gs[k], "playtime_2weeks"@))
                        &&& p.recent[k].minutes_total == u64_or_zero(field(gs[k], "playtime_forever"@))
                        &&& p.recent[k].thumb == thumb_url(u64_or_zero(field(gs[k], "appid"@)))
                    }
            },
            None => p.recent.len() == 0,
        },
{
}

} // verus!

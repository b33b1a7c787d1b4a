use kiiyo_api::json::{Json, JsonNumber};
use kiiyo_api::sources::steam::{
    friends_url, level_url, normalize, playing, recent_url, state_name, summary_url, thumb,
};

fn conv(v: &serde_json::Value) -> Json {
    match v {
        serde_json::Value::Null => Json::Null,
        serde_json::Value::Bool(b) => Json::Bool(*b),
        serde_json::Value::Number(n) => {
            if let Some(u) = n.as_u64() {
                Json::Number(JsonNumber::PosInt(u))
            } else if let Some(i) = n.as_i64() {
                Json::Number(JsonNumber::NegInt(i))
            } else {
                Json::Number(JsonNumber::Float(n.to_string()))
            }
        }
        serde_json::Value::String(s) => Json::Str(s.clone()),
        serde_json::Value::Array(a) => Json::Array(a.iter().map(conv).collect()),
        serde_json::Value::Object(o) => {
            Json::Object(o.iter().map(|(k, v)| (k.clone(), conv(v))).collect())
        }
    }
}

fn j(text: &str) -> Json {
    conv(&serde_json::from_str::<serde_json::Value>(text).unwrap())
}

fn value(text: &str) -> serde_json::Value {
    serde_json::from_str(text).unwrap()
}

fn steam_summary() -> serde_json::Value {
    value(r#"{ "response": { "players": [ {
        "steamid": "76561198000000000", "personaname": "kiiyo", "personastate": 1,
        "avatarmedium": "https://avatars.example.test/kiiyo_medium.jpg",
        "gameextrainfo": "Counter-Strike 2", "gameid": "730"
    } ] } }"#)
}

fn steam_recent() -> Json {
    j(r#"{ "response": { "total_count": 2, "games": [
        { "appid": 730, "name": "Counter-Strike 2", "playtime_2weeks": 630, "playtime_forever": 74400 },
        { "appid": 413150, "name": "Stardew Valley", "playtime_2weeks": 12, "playtime_forever": 3100 }
    ] } }"#)
}

#[test]
fn playing_returns_the_current_game() {
    let g = playing(&conv(&steam_summary())).unwrap();
    assert_eq!(g.name, "Counter-Strike 2");
    assert_eq!(g.app_id.as_deref(), Some("730"));
}

#[test]
fn playing_is_none_when_no_game_is_running() {
    let mut s = steam_summary();
    s["response"]["players"][0].as_object_mut().unwrap().remove("gameextrainfo");
    assert_eq!(playing(&conv(&s)), None);
}

#[test]
fn normalize_maps_the_persona_state_number_to_a_name() {
    let s = normalize(
        &conv(&steam_summary()),
        &j(r#"{ "response": { "player_level": 21 } }"#),
        &j(r#"{ "friendslist": { "friends": [ {}, {}, {} ] } }"#),
        &steam_recent(),
    )
    .unwrap();
    assert_eq!(s.state, "online");
    assert_eq!(s.level, 21);
    assert_eq!(s.friends, 3);
    assert_eq!(s.persona, "kiiyo");
}

#[test]
fn normalize_maps_every_known_persona_state() {
    for (code, name) in [(0u64, "offline"), (1, "online"), (2, "busy"), (3, "away"), (4, "snooze")] {
        let mut sum = steam_summary();
        sum["response"]["players"][0]["personastate"] = serde_json::Value::from(code);
        let s = normalize(&conv(&sum), &j("{}"), &j("{}"), &j("{}")).unwrap();
        assert_eq!(s.state, name, "persona state {code}");
    }
}

#[test]
fn normalize_falls_back_to_offline_for_an_unknown_state() {
    let mut sum = steam_summary();
    sum["response"]["players"][0]["personastate"] = serde_json::Value::from(99u64);
    assert_eq!(normalize(&conv(&sum), &j("{}"), &j("{}"), &j("{}")).unwrap().state, "offline");
}

#[test]
fn normalize_builds_the_header_thumbnail_url_from_the_appid() {
    let s = normalize(&conv(&steam_summary()), &j("{}"), &j("{}"), &steam_recent()).unwrap();
    assert_eq!(s.recent[0].thumb, "https://media.steampowered.com/steam/apps/730/header.jpg");
    assert_eq!(s.recent[0].minutes_2weeks, 630);
    assert_eq!(s.recent[0].minutes_total, 74400);
}

#[test]
fn normalize_is_none_without_a_player() {
    assert_eq!(normalize(&j("{}"), &j("{}"), &j("{}"), &j("{}")), None);
}

#[test]
fn normalize_reads_the_avatar_and_every_recent_game() {
    let s = normalize(&conv(&steam_summary()), &j("{}"), &j("{}"), &steam_recent()).unwrap();
    assert_eq!(s.avatar, "https://avatars.example.test/kiiyo_medium.jpg");
    assert_eq!(s.recent.len(), 2);
    assert_eq!(s.recent[1].app_id, 413150);
    assert_eq!(s.recent[1].thumb, "https://media.steampowered.com/steam/apps/413150/header.jpg");
    assert_eq!(s.level, 0);
    assert_eq!(s.friends, 0);
}

#[test]
fn a_negative_state_reads_as_offline() {
    let mut sum = steam_summary();
    sum["response"]["players"][0]["personastate"] = serde_json::Value::from(-1i64);
    assert_eq!(normalize(&conv(&sum), &j("{}"), &j("{}"), &j("{}")).unwrap().state, "offline");
}

#[test]
fn state_name_maps_each_code() {
    assert_eq!(state_name(0), "offline");
    assert_eq!(state_name(1), "online");
    assert_eq!(state_name(2), "busy");
    assert_eq!(state_name(3), "away");
    assert_eq!(state_name(4), "snooze");
    assert_eq!(state_name(5), "offline");
}

#[test]
fn thumb_writes_the_app_id_in_decimal() {
    assert_eq!(thumb(0), "https://media.steampowered.com/steam/apps/0/header.jpg");
    assert_eq!(thumb(18446744073709551615), "https://media.steampowered.com/steam/apps/18446744073709551615/header.jpg");
}

#[test]
fn the_steam_request_urls() {
    assert_eq!(summary_url("K", "1"), "https://api.steampowered.com/ISteamUser/GetPlayerSummaries/v0002/?key=K&steamids=1&format=json");
    assert_eq!(level_url("K", "1"), "https://api.steampowered.com/IPlayerService/GetSteamLevel/v1/?key=K&steamid=1&format=json");
    assert_eq!(friends_url("K", "1"), "https://api.steampowered.com/ISteamUser/GetFriendList/v0001/?key=K&steamid=1&relationship=friend&format=json");
    assert_eq!(recent_url("K", "1"), "https://api.steampowered.com/IPlayerService/GetRecentlyPlayedGames/v0001/?key=K&steamid=1&count=4&format=json");
}

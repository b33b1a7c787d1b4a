use kiiyo_api::json::{Json, JsonNumber};
use kiiyo_api::sources::discord::{lanyard_url, normalize};

fn conv(v: &serde_json::Value) -> Json {
    match v {
        serde_json::Value::Null => Json::Null,
        serde_json::Value::Bool(b) => Json::Bool(*b),
        serde_json::Value::Number(n) => {
            if let Some(u) = n.as_u64() {
                Json::Number(JsonNumber::PosInt(u))
            } else if let Some(i) = n.as_i64() {
                Json::Number(JsonNumber::NegInt(i))
            } else {
                Json::Number(JsonNumber::Float(n.to_string()))
            }
        }
        serde_json::Value::String(s) => Json::Str(s.clone()),
        serde_json::Value::Array(a) => Json::Array(a.iter().map(conv).collect()),
        serde_json::Value::Object(o) => {
            Json::Object(o.iter().map(|(k, v)| (k.clone(), conv(v))).collect())
        }
    }
}

fn j(text: &str) -> Json {
    conv(&serde_json::from_str::<serde_json::Value>(text).unwrap())
}

fn value(text: &str) -> serde_json::Value {
    serde_json::from_str(text).unwrap()
}

/// A Lanyard response: a playing game listed after a custom status, no Spotify session.
fn lanyard() -> serde_json::Value {
    value(
        r#"{
        "success": true,
        "data": {
            "discord_user": { "id": "1", "username": "kiiyo", "global_name": "Kiiyo" },
            "discord_status": "online",
            "activities": [
                { "type": 4, "name": "Custom Status", "state": "wonderful everyday" },
                { "type": 0, "name": "Counter-Strike 2" }
            ],
            "spotify": null
        }
    }"#,
    )
}

#[test]
fn normalize_prefers_the_global_name() {
    let p = normalize(&conv(&lanyard())).unwrap();
    assert_eq!(p.name, "Kiiyo");
    assert_eq!(p.status, "online");
}

#[test]
fn normalize_falls_back_to_the_username() {
    let mut l = lanyard();
    l["data"]["discord_user"]["global_name"] = serde_json::Value::Null;
    assert_eq!(normalize(&conv(&l)).unwrap().name, "kiiyo");
}

#[test]
fn a_playing_activity_wins_over_a_custom_status() {
    assert_eq!(normalize(&conv(&lanyard())).unwrap().activity.as_deref(), Some("Counter-Strike 2"));
}

#[test]
fn spotify_wins_over_a_playing_activity() {
    let mut l = lanyard();
    l["data"]["spotify"] = value(r#"{ "song": "Song", "artist": "Artist", "album_art_url": "x" }"#);
    assert_eq!(normalize(&conv(&l)).unwrap().activity.as_deref(), Some("Song, Artist"));
}

#[test]
fn a_custom_status_is_used_when_nothing_else_is_running() {
    let mut l = lanyard();
    l["data"]["activities"] = value(r#"[ { "type": 4, "name": "Custom Status", "state": "wonderful everyday" } ]"#);
    assert_eq!(normalize(&conv(&l)).unwrap().activity.as_deref(), Some("wonderful everyday"));
}

#[test]
fn normalize_is_none_when_lanyard_reports_failure() {
    assert_eq!(normalize(&j(r#"{ "success": false }"#)), None);
}

#[test]
fn an_unknown_status_becomes_offline() {
    let mut l = lanyard();
    l["data"]["discord_status"] = value(r#""something_new""#);
    assert_eq!(normalize(&conv(&l)).unwrap().status, "offline");
}

#[test]
fn every_known_status_is_kept() {
    for s in ["online", "idle", "dnd", "offline"] {
        let mut l = lanyard();
        l["data"]["discord_status"] = serde_json::Value::String(s.to_string());
        assert_eq!(normalize(&conv(&l)).unwrap().status, s);
    }
}

#[test]
fn a_spotify_session_without_an_artist_key_gives_no_activity() {
    let mut l = lanyard();
    l["data"]["spotify"] = value(r#"{ "song": "Song" }"#);
    assert_eq!(normalize(&conv(&l)).unwrap().activity, None);
}

#[test]
fn a_spotify_session_with_a_null_artist_keeps_the_song() {
    let mut l = lanyard();
    l["data"]["spotify"] = value(r#"{ "song": "Song", "artist": null }"#);
    assert_eq!(normalize(&conv(&l)).unwrap().activity.as_deref(), Some("Song, "));
}

#[test]
fn a_missing_name_is_empty() {
    let p = normalize(&j(r#"{ "success": true, "data": {} }"#)).unwrap();
    assert_eq!(p.name, "");
    assert_eq!(p.status, "offline");
    assert_eq!(p.activity, None);
}

#[test]
fn the_lanyard_url_names_the_user() {
    assert_eq!(lanyard_url("42"), "https://api.lanyard.rest/v1/users/42");
}

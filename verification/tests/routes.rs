use kiiyo_api::json::{Json, JsonNumber};
use kiiyo_api::routes::now::{artists_url, recent_url, summarize};
use kiiyo_api::routes::AppError;
use kiiyo_api::sources::leetify::profile_url;
use kiiyo_api::sources::osu::{beatmap_id_of, beatmap_url, best_url, enrich, enrich_all, user_url};

fn conv(v: &serde_json::Value) -> Json {
    match v {
        serde_json::Value::Null => Json::Null,
        serde_json::Value::Bool(b) => Json::Bool(*b),
        serde_json::Value::Number(n) => {
            if let Some(u) = n.as_u64() {
                Json::Number(JsonNumber::PosInt(u))
            } else if let Some(i) = n.as_i64() {
                Json::Number(JsonNumber::NegInt(i))
            } else {
                Json::Number(JsonNumber::Float(n.to_string()))
            }
        }
        serde_json::Value::String(s) => Json::Str(s.clone()),
        serde_json::Value::Array(a) => Json::Array(a.iter().map(conv).collect()),
        serde_json::Value::Object(o) => {
            Json::Object(o.iter().map(|(k, v)| (k.clone(), conv(v))).collect())
        }
    }
}

fn j(text: &str) -> Json {
    conv(&serde_json::from_str::<serde_json::Value>(text).unwrap())
}

fn down() -> Result<Json, AppError> {
    Err(AppError("down".into()))
}

fn field<'a>(v: &'a Json, key: &str) -> &'a Json {
    match v {
        Json::Object(m) => &m.iter().find(|(k, _)| k == key).unwrap().1,
        _ => panic!("not an object"),
    }
}

#[test]
fn the_summary_reads_null_for_every_failed_source() {
    let s = summarize(down(), down(), down(), down(), down(), down(), down(), down());
    assert_eq!(*field(&s, "discord"), Json::Null);
    assert_eq!(*field(field(&s, "lastfm"), "now_playing"), Json::Null);
    assert_eq!(*field(field(&s, "lastfm"), "top_artist"), Json::Null);
    assert_eq!(*field(field(&s, "steam"), "summary"), Json::Null);
    assert_eq!(*field(field(&s, "steam"), "level"), Json::Null);
    assert_eq!(*field(field(&s, "steam"), "recent"), Json::Array(vec![]));
    assert_eq!(*field(&s, "leetify"), Json::Null);
    assert_eq!(*field(&s, "osu"), Json::Null);
}

#[test]
fn the_summary_picks_the_headline_of_each_source() {
    let s = summarize(
        Ok(j(r#"{ "success": true }"#)),
        Ok(j(r##"{ "recenttracks": { "track": [ { "name": "N", "artist": { "#text": "A" },
            "album": { "#text": "L" }, "@attr": { "nowplaying": "true" } } ] } }"##)),
        Ok(j(r#"{ "topartists": { "artist": [ { "name": "Top" }, { "name": "Second" } ] } }"#)),
        Ok(j(r#"{ "response": { "players": [ { "personaname": "kiiyo" } ] } }"#)),
        Ok(j(r#"{ "response": { "player_level": 21 } }"#)),
        Ok(j(r#"{ "response": { "games": [ { "appid": 730 } ] } }"#)),
        Ok(j(r#"{ "ranks": { "leetify": 1.84, "premier": 18432, "faceit": null } }"#)),
        Ok(j(r#"[ { "username": "-Flux", "pp_raw": "4821.4", "pp_rank": "84213", "pp_country_rank": "1204" } ]"#)),
    );
    assert_eq!(*field(&s, "discord"), j(r#"{ "success": true }"#));
    let now = field(field(&s, "lastfm"), "now_playing");
    assert_eq!(*field(now, "name"), j(r#""N""#));
    assert_eq!(*field(now, "artist"), j(r#""A""#));
    assert_eq!(*field(now, "album"), j(r#""L""#));
    assert_eq!(*field(field(&s, "lastfm"), "top_artist"), j(r#""Top""#));
    assert_eq!(*field(field(&s, "steam"), "summary"), j(r#"{ "personaname": "kiiyo" }"#));
    assert_eq!(*field(field(&s, "steam"), "level"), Json::Number(JsonNumber::PosInt(21)));
    assert_eq!(*field(field(&s, "steam"), "recent"), j(r#"[ { "appid": 730 } ]"#));
    let l = field(&s, "leetify");
    assert_eq!(*field(l, "rating"), j("1.84"));
    assert_eq!(*field(l, "premier"), j("18432"));
    assert_eq!(*field(l, "faceit"), Json::Null);
    let o = field(&s, "osu");
    assert_eq!(*field(o, "username"), j(r#""-Flux""#));
    assert_eq!(*field(o, "pp"), j(r#""4821.4""#));
    assert_eq!(*field(o, "rank"), j(r#""84213""#));
    assert_eq!(*field(o, "country_rank"), j(r#""1204""#));
}

#[test]
fn a_track_that_is_not_live_is_not_now_playing() {
    let s = summarize(
        down(),
        Ok(j(r#"{ "recenttracks": { "track": [ { "name": "Old" } ] } }"#)),
        down(), down(), down(), down(), down(), down(),
    );
    assert_eq!(*field(field(&s, "lastfm"), "now_playing"), Json::Null);
}

#[test]
fn a_score_is_joined_with_its_beatmap() {
    let score = j(r#"{ "beatmap_id": "9", "pp": "413.2", "rank": "SH", "title": "stale" }"#);
    let map = j(r#"{ "title": "Map Title", "artist": "Map Artist", "version": "Insane", "bpm": "200" }"#);
    let e = enrich(&score, Some(&map));
    assert_eq!(*field(&e, "title"), j(r#""Map Title""#));
    assert_eq!(*field(&e, "artist"), j(r#""Map Artist""#));
    assert_eq!(*field(&e, "version"), j(r#""Insane""#));
    assert_eq!(*field(&e, "pp"), j(r#""413.2""#));
    assert_eq!(*field(&e, "rank"), j(r#""SH""#));
    if let Json::Object(m) = &e {
        assert_eq!(m.len(), 6);
        assert!(m.iter().all(|(k, _)| k != "bpm"));
    }
}

#[test]
fn a_failed_lookup_keeps_the_score() {
    let score = j(r#"{ "beatmap_id": "9", "pp": "10.5", "rank": "B" }"#);
    assert_eq!(enrich(&score, None), score);
    let not_an_object = j("[1]");
    assert_eq!(enrich(&not_an_object, Some(&j("{}"))), not_an_object);
}

#[test]
fn a_beatmap_without_metadata_gives_nulls() {
    let e = enrich(&j(r#"{ "pp": "1" }"#), Some(&j("{}")));
    assert_eq!(*field(&e, "title"), Json::Null);
}

#[test]
fn every_score_is_kept_in_order() {
    let scores = vec![j(r#"{ "beatmap_id": "1" }"#), j(r#"{ "beatmap_id": "2" }"#)];
    let maps = vec![None, Some(j(r#"{ "title": "T" }"#))];
    let all = enrich_all(&scores, &maps);
    match all {
        Json::Array(v) => {
            assert_eq!(v.len(), 2);
            assert_eq!(v[0], scores[0]);
            assert_eq!(*field(&v[1], "title"), j(r#""T""#));
        }
        _ => panic!("not an array"),
    }
}

#[test]
fn the_beatmap_id_defaults_to_zero() {
    assert_eq!(beatmap_id_of(&j(r#"{ "beatmap_id": "129891" }"#)), "129891");
    assert_eq!(beatmap_id_of(&j(r#"{ "beatmap_id": 129891 }"#)), "0");
    assert_eq!(beatmap_id_of(&j("{}")), "0");
}

#[test]
fn the_osu_urls_encode_the_user() {
    assert_eq!(user_url("K", "-Flux x"), "https://osu.ppy.sh/api/get_user?k=K&u=-Flux%20x&m=0");
    assert_eq!(best_url("K", "a/b"), "https://osu.ppy.sh/api/get_user_best?k=K&u=a%2Fb&m=0&limit=5");
    assert_eq!(beatmap_url("K", "9"), "https://osu.ppy.sh/api/get_beatmaps?k=K&b=9");
}

#[test]
fn the_summary_urls_ask_for_one_item() {
    assert_eq!(
        recent_url("u", "K"),
        "https://ws.audioscrobbler.com/2.0/?method=user.getrecenttracks&user=u&api_key=K&limit=1&format=json"
    );
    assert_eq!(
        artists_url("u", "K"),
        "https://ws.audioscrobbler.com/2.0/?method=user.gettopartists&user=u&api_key=K&limit=1&period=1month&format=json"
    );
    assert_eq!(profile_url("765"), "https://api-public.cs-prod.leetify.com/v3/profile?steam64_id=765");
}

use kiiyo_api::json::{Json, JsonNumber};
use kiiyo_api::model::{TopArtist, TopTrack};
use kiiyo_api::sources::lastfm::{
    artists_url, genre_seed_names, normalize, now_playing, rank_genres, recent_url, tags_cache_key,
    tags_url, tracks_url,
};

fn conv(v: &serde_json::Value) -> Json {
    match v {
        serde_json::Value::Null => Json::Null,
        serde_json::Value::Bool(b) => Json::Bool(*b),
        serde_json::Value::Number(n) => {
            if let Some(u) = n.as_u64() {
                Json::Number(JsonNumber::PosInt(u))
            } else if let Some(i) = n.as_i64() {
                Json::Number(JsonNumber::NegInt(i))
            } else {
                Json::Number(JsonNumber::Float(n.to_string()))
            }
        }
        serde_json::Value::String(s) => Json::Str(s.clone()),
        serde_json::Value::Array(a) => Json::Array(a.iter().map(conv).collect()),
        serde_json::Value::Object(o) => {
            Json::Object(o.iter().map(|(k, v)| (k.clone(), conv(v))).collect())
        }
    }
}

fn j(text: &str) -> Json {
    conv(&serde_json::from_str::<serde_json::Value>(text).unwrap())
}

fn value(text: &str) -> serde_json::Value {
    serde_json::from_str(text).unwrap()
}

fn lastfm_recent() -> serde_json::Value {
    value(r##"{ "recenttracks": {
        "track": [
            { "name": "Live Song", "artist": { "#text": "Live Artist" },
              "image": [ { "size": "small", "#text": "https://example.test/s.png" },
                         { "size": "medium", "#text": "https://example.test/m.png" } ],
              "@attr": { "nowplaying": "true" } },
            { "name": "Past Song", "artist": { "#text": "Past Artist" },
              "image": [ { "size": "medium",
                           "#text": "https://lastfm.freetls.fastly.net/i/u/64s/2a96cbd8b46e442fc41c2b86b821562f.png" } ] },
            { "name": "Older Song", "artist": { "#text": "Older Artist" }, "image": [] }
        ],
        "@attr": { "user": "kiiyo", "total": "48213" }
    } }"##)
}

fn lastfm_top_artists() -> Json {
    j(r##"{ "topartists": { "artist": [
        { "name": "Artist One", "playcount": "412" },
        { "name": "Artist Two", "playcount": "300" }
    ] } }"##)
}

fn lastfm_top_tracks() -> Json {
    j(r##"{ "toptracks": { "track": [
        { "name": "Track One", "artist": { "name": "Artist One" }, "playcount": "51" }
    ] } }"##)
}

#[test]
fn now_playing_returns_the_live_track_with_its_art() {
    let track = now_playing(&conv(&lastfm_recent())).unwrap();
    assert_eq!(track.name, "Live Song");
    assert_eq!(track.artist, "Live Artist");
    assert_eq!(track.art.as_deref(), Some("https://example.test/m.png"));
    assert!(track.live);
}

#[test]
fn now_playing_is_none_when_the_first_track_is_not_live() {
    let mut recent = lastfm_recent();
    recent["recenttracks"]["track"].as_array_mut().unwrap().remove(0);
    assert_eq!(now_playing(&conv(&recent)), None);
}

#[test]
fn now_playing_is_none_for_an_empty_response() {
    assert_eq!(now_playing(&j("{}")), None);
}

#[test]
fn normalize_parses_the_string_total_into_a_number() {
    let l = normalize(&conv(&lastfm_recent()), &lastfm_top_artists(), &lastfm_top_tracks(), vec![]);
    assert_eq!(l.total_scrobbles, 48213);
}

#[test]
fn normalize_drops_the_lastfm_placeholder_image() {
    let l = normalize(&conv(&lastfm_recent()), &lastfm_top_artists(), &lastfm_top_tracks(), vec![]);
    let past = l.recent.iter().find(|t| t.name == "Past Song").unwrap();
    assert_eq!(past.art, None, "the known placeholder hash must not become an <img> src");
}

#[test]
fn normalize_parses_string_playcounts() {
    let l = normalize(
        &conv(&lastfm_recent()),
        &lastfm_top_artists(),
        &lastfm_top_tracks(),
        vec!["shoegaze".into()],
    );
    assert_eq!(l.top_artists[0], TopArtist { name: "Artist One".into(), playcount: 412 });
    assert_eq!(l.top_tracks[0], TopTrack { name: "Track One".into(), artist: "Artist One".into(), playcount: 51 });
    assert_eq!(l.genres, vec!["shoegaze".to_string()]);
}

#[test]
fn normalize_survives_a_completely_empty_response() {
    let empty = j("{}");
    let l = normalize(&empty, &empty, &empty, vec![]);
    assert_eq!(l.total_scrobbles, 0);
    assert!(l.recent.is_empty());
    assert!(l.top_artists.is_empty());
    assert!(l.top_tracks.is_empty());
}

#[test]
fn normalize_keeps_every_recent_track_in_order() {
    let l = normalize(&conv(&lastfm_recent()), &j("{}"), &j("{}"), vec![]);
    let names: Vec<&str> = l.recent.iter().map(|t| t.name.as_str()).collect();
    assert_eq!(names, vec!["Live Song", "Past Song", "Older Song"]);
    assert!(l.recent[0].live);
    assert!(!l.recent[1].live);
    assert_eq!(l.recent[2].art, None);
}

#[test]
fn an_empty_medium_image_is_no_art() {
    let t = j(r##"{ "recenttracks": { "track": [
        { "name": "S", "image": [ { "size": "medium", "#text": "" } ], "@attr": { "nowplaying": "true" } }
    ] } }"##);
    let track = now_playing(&t).unwrap();
    assert_eq!(track.art, None);
    assert_eq!(track.artist, "");
}

#[test]
fn unparseable_counts_read_as_zero() {
    let artists = j(r##"{ "topartists": { "artist": [
        { "name": "a", "playcount": "+7" }, { "name": "b", "playcount": "-1" },
        { "name": "c", "playcount": "18446744073709551616" }, { "name": "d", "playcount": 12 },
        { "name": "e", "playcount": "18446744073709551615" }, { "name": "f", "playcount": "12x" }
    ] } }"##);
    let l = normalize(&j("{}"), &artists, &j("{}"), vec![]);
    let counts: Vec<u64> = l.top_artists.iter().map(|a| a.playcount).collect();
    assert_eq!(counts, vec![7, 0, 0, 0, 18446744073709551615]);
}

#[test]
fn genres_come_from_the_named_top_three_artists() {
    let artists = j(r##"{ "topartists": { "artist": [
        { "name": "A" }, { "nameless": true }, { "name": "C" }, { "name": "D" }
    ] } }"##);
    assert_eq!(genre_seed_names(&artists), vec!["A".to_string(), "C".to_string()]);
}

#[test]
fn genres_rank_lowercased_tags_by_count_then_name() {
    let a = j(r##"{ "toptags": { "tag": [
        { "name": "Shoegaze" }, { "name": "dream pop" }, { "name": "Rock" }, { "name": "indie" },
        { "name": "noise" }, { "name": "ignored sixth" }
    ] } }"##);
    let b = j(r##"{ "toptags": { "tag": [ { "name": "shoegaze" }, { "name": "Rock" }, { "name": "ambient" } ] } }"##);
    let c = j(r##"{ "error": 6 }"##);
    let genres = rank_genres(&vec![Some(a), Some(b), Some(c)]);
    assert_eq!(genres, vec!["rock", "shoegaze", "ambient", "dream pop", "indie", "noise"]);
}

#[test]
fn the_lastfm_request_urls() {
    assert_eq!(
        recent_url("kiiyo", "K"),
        "https://ws.audioscrobbler.com/2.0/?method=user.getrecenttracks&user=kiiyo&api_key=K&limit=6&format=json"
    );
    assert_eq!(
        artists_url("kiiyo", "K"),
        "https://ws.audioscrobbler.com/2.0/?method=user.gettopartists&user=kiiyo&api_key=K&limit=5&period=1month&format=json"
    );
    assert_eq!(
        tracks_url("kiiyo", "K"),
        "https://ws.audioscrobbler.com/2.0/?method=user.gettoptracks&user=kiiyo&api_key=K&limit=5&period=1month&format=json"
    );
    assert_eq!(tags_cache_key("Sigur Rós"), "lastfm:tags:Sigur Rós");
}

#[test]
fn the_tags_url_percent_encodes_the_artist() {
    assert_eq!(
        tags_url("K", "Sigur Rós & co"),
        "https://ws.audioscrobbler.com/2.0/?method=artist.gettoptags&artist=Sigur%20R%C3%B3s%20%26%20co&api_key=K&format=json"
    );
}

#[test]
fn a_failed_tag_lookup_only_drops_that_artists_tags() {
    let a = || j(r##"{ "toptags": { "tag": [ { "name": "Shoegaze" }, { "name": "Rock" } ] } }"##);
    let c = || j(r##"{ "toptags": { "tag": [ { "name": "rock" }, { "name": "Ambient" } ] } }"##);
    let with_failure = rank_genres(&vec![Some(a()), None, Some(c())]);
    let with_empty = rank_genres(&vec![Some(a()), Some(j("{}")), Some(c())]);
    assert_eq!(with_failure, vec!["rock", "ambient", "shoegaze"]);
    assert_eq!(with_failure, with_empty);
    assert!(rank_genres(&vec![None, None]).is_empty());
}

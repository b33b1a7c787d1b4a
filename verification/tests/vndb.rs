use kiiyo_api::json::{Json, JsonNumber};
use kiiyo_api::sources::vndb::{
    all_query, count_of, finished_query, reading_of, reading_query, top_rated, voted_of, wishlist_query, Voted,
};

fn conv(v: &serde_json::Value) -> Json {
    match v {
        serde_json::Value::Null => Json::Null,
        serde_json::Value::Bool(b) => Json::Bool(*b),
        serde_json::Value::Number(n) => {
            if let Some(u) = n.as_u64() {
                Json::Number(JsonNumber::PosInt(u))
            } else if let Some(i) = n.as_i64() {
                Json::Number(JsonNumber::NegInt(i))
            } else {
                Json::Number(JsonNumber::Float(n.to_string()))
            }
        }
        serde_json::Value::String(s) => Json::Str(s.clone()),
        serde_json::Value::Array(a) => Json::Array(a.iter().map(conv).collect()),
        serde_json::Value::Object(o) => {
            Json::Object(o.iter().map(|(k, v)| (k.clone(), conv(v))).collect())
        }
    }
}

fn j(text: &str) -> Json {
    conv(&serde_json::from_str::<serde_json::Value>(text).unwrap())
}

fn vndb_reading() -> Json {
    j(r#"{ "results": [ { "id": "r1", "vn": { "id": "v1", "title": "Subarashiki Hibi",
        "image": { "url": "https://example.test/cover.jpg" }, "developers": [ { "name": "KeroQ" } ] } } ],
        "more": false }"#)
}

fn vndb_all() -> Json {
    j(r#"{ "results": [
        { "vn": { "title": "Middle", "image": { "url": "https://example.test/m.jpg" } }, "vote": 80 },
        { "vn": { "title": "Unvoted", "image": null }, "vote": null },
        { "vn": { "title": "Highest Rated" }, "vote": 95 }
    ], "more": false }"#)
}

fn counted(n: usize, more: bool) -> Json {
    Json::Object(vec![
        ("results".to_string(), Json::Array((0..n).map(|_| Json::Object(vec![])).collect())),
        ("more".to_string(), Json::Bool(more)),
    ])
}

#[test]
fn normalize_reads_the_reading_list_with_developer_and_cover() {
    let reading = reading_of(&vndb_reading());
    assert_eq!(reading.len(), 1);
    assert_eq!(reading[0].title, "Subarashiki Hibi");
    assert_eq!(reading[0].developer.as_deref(), Some("KeroQ"));
    assert_eq!(reading[0].image.as_deref(), Some("https://example.test/cover.jpg"));
}

#[test]
fn normalize_carries_the_more_flags_through() {
    let (finished, finished_more) = count_of(&counted(100, true));
    let (wishlist, wishlist_more) = count_of(&counted(4, false));
    assert_eq!(finished, 100);
    assert!(finished_more, "100 results with more:true means the count is a floor");
    assert_eq!(wishlist, 4);
    assert!(!wishlist_more);
}

#[test]
fn normalize_survives_empty_responses() {
    let empty = j("{}");
    assert!(reading_of(&empty).is_empty());
    assert!(voted_of(&empty).is_empty());
    assert_eq!(count_of(&empty), (0, false));
}

#[test]
fn only_voted_entries_are_kept_in_list_order() {
    let voted = voted_of(&vndb_all());
    assert_eq!(voted.len(), 2, "the unvoted entry is excluded");
    assert_eq!(voted[0].title, "Middle");
    assert_eq!(voted[0].image.as_deref(), Some("https://example.test/m.jpg"));
    assert_eq!(voted[0].vote, JsonNumber::PosInt(80));
    assert_eq!(voted[1].title, "Highest Rated");
    assert_eq!(voted[1].image, None);
}

#[test]
fn a_reading_entry_without_developers_has_none() {
    let r = reading_of(&j(r#"{ "results": [ { "vn": { "title": "T", "developers": [] } } ] }"#));
    assert_eq!(r[0].developer, None);
    assert_eq!(r[0].image, None);
}

#[test]
fn the_list_queries() {
    let v: serde_json::Value = serde_json::from_str(
        r#"{ "user": "u1", "filters": ["label", "=", 1], "fields": "vn{id,title,image{url},developers{name}}", "results": 3 }"#,
    ).unwrap();
    assert_eq!(reading_query("u1"), conv_sorted(&v));
    let v: serde_json::Value = serde_json::from_str(
        r#"{ "user": "u1", "fields": "vn{id,title,image{url}},vote", "results": 100 }"#,
    ).unwrap();
    assert_eq!(all_query("u1"), conv_sorted(&v));
    let v: serde_json::Value = serde_json::from_str(r#"{ "user": "u1", "filters": ["label", "=", 2], "results": 100 }"#).unwrap();
    assert_eq!(finished_query("u1"), conv_sorted(&v));
    let v: serde_json::Value = serde_json::from_str(r#"{ "user": "u1", "filters": ["label", "=", 5], "results": 100 }"#).unwrap();
    assert_eq!(wishlist_query("u1"), conv_sorted(&v));
}

/// The members in the order the body lists them: user, filters, fields, results.
fn conv_sorted(v: &serde_json::Value) -> Json {
    let order = ["user", "filters", "fields", "results"];
    let o = v.as_object().unwrap();
    Json::Object(
        order.iter().filter_map(|k| o.get(*k).map(|x| (k.to_string(), conv(x)))).collect(),
    )
}

fn voted(title: &str, vote: u64) -> Voted {
    Voted { title: title.to_string(), image: None, vote: JsonNumber::PosInt(vote) }
}

fn vote_key(v: &Voted) -> u64 {
    match v.vote {
        JsonNumber::PosInt(n) => n,
        _ => 0,
    }
}

#[test]
fn voted_titles_are_ordered_high_to_low() {
    let all = voted_of(&vndb_all());
    let keys: Vec<u64> = all.iter().map(vote_key).collect();
    let rated = top_rated(all, keys);
    assert_eq!(rated.len(), 2, "the unvoted entry is excluded");
    assert_eq!(rated[0].title, "Highest Rated");
    assert_eq!(rated[1].title, "Middle");
}

#[test]
fn at_most_seven_titles_are_rated_and_ties_keep_their_order() {
    let titles = [("a", 50), ("b", 90), ("c", 70), ("d", 90), ("e", 10), ("f", 70), ("g", 100), ("h", 30), ("i", 90)];
    let all: Vec<Voted> = titles.iter().map(|(t, v)| voted(t, *v)).collect();
    let keys: Vec<u64> = all.iter().map(vote_key).collect();
    let rated = top_rated(all, keys);
    let order: Vec<&str> = rated.iter().map(|v| v.title.as_str()).collect();
    assert_eq!(order, vec!["g", "b", "d", "i", "c", "f", "a"]);
}

#[test]
fn no_votes_rate_nothing() {
    assert!(top_rated(Vec::new(), Vec::new()).is_empty());
}

#[test]
fn the_keys_decide_the_order_not_the_votes() {
    let all = vec![voted("low vote", 10), voted("high vote", 100)];
    let rated = top_rated(all, vec![2, 1]);
    assert_eq!(rated[0].title, "low vote");
    assert_eq!(rated[1].title, "high vote");
}

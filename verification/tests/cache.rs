use kiiyo_api::cache::{all_fresh, Cache};
use kiiyo_api::json::{Json, JsonNumber};

fn num(n: u64) -> Json {
    Json::Number(JsonNumber::PosInt(n))
}

fn obj_a1() -> Json {
    Json::Object(vec![("a".to_string(), num(1))])
}

const SIXTY_SECONDS: u64 = 60_000_000_000;

#[test]
fn returns_none_for_a_key_never_written() {
    let cache = Cache::new();
    assert_eq!(cache.get("absent", SIXTY_SECONDS, 0), None);
}

#[test]
fn returns_the_value_within_ttl() {
    let mut cache = Cache::new();
    cache.put("k", obj_a1(), 100);
    assert_eq!(cache.get("k", SIXTY_SECONDS, 100), Some(obj_a1()));
}

#[test]
fn returns_none_once_the_entry_is_older_than_ttl() {
    let mut cache = Cache::new();
    cache.put("k", obj_a1(), 100);
    assert_eq!(cache.get("k", 0, 100), None);
}

#[test]
fn a_second_put_replaces_the_first() {
    let mut cache = Cache::new();
    cache.put("k", num(1), 0);
    cache.put("k", num(2), 0);
    assert_eq!(cache.get("k", SIXTY_SECONDS, 0), Some(num(2)));
}

#[test]
fn keys_do_not_collide() {
    let mut cache = Cache::new();
    cache.put("a", num(1), 0);
    cache.put("b", num(2), 0);
    assert_eq!(cache.get("a", SIXTY_SECONDS, 0), Some(num(1)));
    assert_eq!(cache.get("b", SIXTY_SECONDS, 0), Some(num(2)));
}

#[test]
fn an_entry_expires_exactly_at_its_ttl() {
    let mut cache = Cache::new();
    cache.put("k", num(7), 1_000);
    assert_eq!(cache.get("k", 500, 1_499), Some(num(7)));
    assert_eq!(cache.get("k", 500, 1_500), None);
}

#[test]
fn a_clock_reading_before_the_write_counts_as_fresh() {
    let mut cache = Cache::new();
    cache.put("k", num(7), 1_000);
    assert_eq!(cache.get("k", 1, 10), Some(num(7)));
}

#[test]
fn a_group_of_reads_is_fresh_only_when_every_read_hit() {
    let hits = vec![Some(Json::Bool(true)), Some(Json::Null), Some(Json::Str("x".to_string()))];
    assert_eq!(
        all_fresh(hits),
        Some(vec![Json::Bool(true), Json::Null, Json::Str("x".to_string())])
    );
    assert_eq!(all_fresh(vec![Some(Json::Bool(true)), None, Some(Json::Null)]), None);
    assert_eq!(all_fresh(vec![None]), None);
    assert_eq!(all_fresh(vec![]), Some(vec![]));
}

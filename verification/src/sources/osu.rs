//! osu!: the profile and best scores. osu!'s v1 API sends every number as text; turning
//! that text into numbers is fractional work done outside this library. What is kept here
//! is how the requests are made and how each score is joined with its beatmap.

use vstd::prelude::*;
use vstd::string::*;
use crate::json::{lemma_with_member_reads, field, member_views, or_null, str_of, views, with_member, Json, JsonView};
use crate::text::{percent_encoded, url_encode};

verus! {

/// The beatmap a score was set on, `"0"` when the score does not say.
pub open spec fn beatmap_id(score: JsonView) -> Seq<char> {
    match str_of(field(score, "beatmap_id"@)) {
        Some(id) => id,
        None => "0"@,
    }
}

/// A score joined with its beatmap: title, artist and version are copied over when the
/// score is an object and the beatmap was found; otherwise the score is left as it is.
pub open spec fn enriched(score: JsonView, map: Option<JsonView>) -> JsonView {
    match (score, map) {
        (JsonView::Object(m), Some(b)) => JsonView::Object(
            with_member(
                with_member(with_member(m, "title"@, field(b, "title"@)), "artist"@, field(b, "artist"@)),
                "version"@,
                field(b, "version"@),
            ),
        ),
        _ => score,
    }
}

/// The user-lookup URL.
pub open spec fn user_url_text(key: Seq<char>, user: Seq<char>) -> Seq<char> {
    "https://osu.ppy.sh/api/get_user?k="@ + key + "&u="@ + percent_encoded(vstd::utf8::encode_utf8(user)) + "&m=0"@
}

/// The best-scores URL.
pub open spec fn best_url_text(key: Seq<char>, user: Seq<char>) -> Seq<char> {
    "https://osu.ppy.sh/api/get_user_best?k="@ + key + "&u="@ + percent_encoded(vstd::utf8::encode_utf8(user)) + "&m=0&limit=5"@
}

/// The beatmap-lookup URL.
pub open spec fn beatmap_url_text(key: Seq<char>, beatmap: Seq<char>) -> Seq<char> {
    "https://osu.ppy.sh/api/get_beatmaps?k="@ + key + "&b="@ + beatmap
}

/// The beatmap a score was set on.
pub fn beatmap_id_of(score: &Json) -> (r: String)
    ensures
        r@ == beatmap_id(score@),
{
    match Json::str_in(Json::get(Some(score), "beatmap_id")) {
        Some(id) => String::from_str(id),
        None => String::from_str("0"),
    }
}

/// A copy of the value under `key`, null when there is none.
fn copy_field(j: &Json, key: &str) -> (r: Json)
    ensures
        r@ == field(j@, key@),
{
    match Json::get(Some(j), key) {
        Some(v) => v.copy(),
        None => Json::Null,
    }
}

/// Joins a score with the beatmap looked up for it, if that lookup succeeded.
pub fn enrich(score: &Json, map: Option<&Json>) -> (r: Json)
    ensures
        r@ == enriched(score@, match map {
            Some(b) => Some(b@),
            None => None,
        }),
{
    match (score, map) {
        (Json::Object(m), Some(b)) => {
            proof {
                crate::json::lemma_object_view(*m);
            }
            let mut members: Vec<(String, Json)> = Vec::new();
            let mut i: usize = 0;
            while i < m.len()
                invariant
                    i <= m.len(),
                    members.len() == i,
                    forall|k: int| 0 <= k < i ==> (#[trigger] members@[k]).0@ == m@[k].0@ && members@[k].1@ == m@[k].1@,
                decreases m.len() - i,
            {
                members.push((m[i].0.clone(), m[i].1.copy()));
                i += 1;
            }
            assert(member_views(members@) =~= member_views(m@));
            Json::insert_member(&mut members, "title", copy_field(b, "title"));
            Json::insert_member(&mut members, "artist", copy_field(b, "artist"));
            Json::insert_member(&mut members, "version", copy_field(b, "version"));
            proof {
                crate::json::lemma_object_view(members);
            }
            Json::Object(members)
        },
        _ => score.copy(),
    }
}

/// Joins each score with the beatmap looked up for it, in order.
pub fn enrich_all(scores: &Vec<Json>, maps: &Vec<Option<Json>>) -> (r: Json)
    requires
        scores.len() == maps.len(),
    ensures
        r@ == JsonView::Array(
            Seq::new(
                scores.len() as nat,
                |i: int|
                    enriched(
                        scores@[i]@,
                        match maps@[i] {
                            Some(b) => Some(b@),
                            None => None,
                        },
                    ),
            ),
        ),
{
    let mut out: Vec<Json> = Vec::new();
    let mut i: usize = 0;
    while i < scores.len()
        invariant
            scores.len() == maps.len(),
            i <= scores.len(),
            out.len() == i,
            forall|k: int|
                0 <= k < i ==> (#[trigger] out@[k])@ == enriched(
                    scores@[k]@,
                    match maps@[k] {
                        Some(b) => Some(b@),
                        None => None,
                    },
                ),
        decreases scores.len() - i,
    {
        let e = match &maps[i] {
            Some(b) => enrich(&scores[i], Some(b)),
            None => enrich(&scores[i], None),
        };
        out.push(e);
        i += 1;
    }
    proof {
        crate::json::lemma_array_view(out);
        assert(views(out@) =~= Seq::new(
            scores.len() as nat,
            |i: int|
                enriched(
                    scores@[i]@,
                    match maps@[i] {
                        Some(b) => Some(b@),
                        None => None,
                    },
                ),
        ));
    }
    Json::Array(out)
}

/// The user-lookup URL.
pub fn user_url(key: &str, user: &str) -> (r: String)
    ensures
        r@ == user_url_text(key@, user@),
{
    let mut u = String::from_str("https://osu.ppy.sh/api/get_user?k=");
    u.append(key);
    u.append("&u=");
    let enc = url_encode(user);
    u.append(enc.as_str());
    u.append("&m=0");
    u
}

/// The best-scores URL.
pub fn best_url(key: &str, user: &str) -> (r: String)
    ensures
        r@ == best_url_text(key@, user@),
{
    let mut u = String::from_str("https://osu.ppy.sh/api/get_user_best?k=");
    u.append(key);
    u.append("&u=");
    let enc = url_encode(user);
    u.append(enc.as_str());
    u.append("&m=0&limit=5");
    u
}

/// The beatmap-lookup URL.
pub fn beatmap_url(key: &str, beatmap: &str) -> (r: String)
    ensures
        r@ == beatmap_url_text(key@, beatmap@),
{
    let mut u = String::from_str("https://osu.ppy.sh/api/get_beatmaps?k=");
    u.append(key);
    u.append("&b=");
    u.append(beatmap);
    u
}

/// A failed beatmap lookup leaves the score as it was.
pub proof fn law_failed_lookup_keeps_the_score(score: JsonView)
    ensures
        enriched(score, None) == score,
{
}

/// A score joined with its beatmap carries the beatmap's title, artist and version, and
/// keeps every other field it had.
pub proof fn law_joined_score_carries_the_beatmap(
    m: Seq<(Seq<char>, JsonView)>,
    b: JsonView,
    other: Seq<char>,
)
    ensures
        field(enriched(JsonView::Object(m), Some(b)), "title"@) == field(b, "title"@),
        field(enriched(JsonView::Object(m), Some(b)), "artist"@) == field(b, "artist"@),
        field(enriched(JsonView::Object(m), Some(b)), "version"@) == field(b, "version"@),
        other != "title"@ && other != "artist"@ && other != "version"@ ==> field(
            enriched(JsonView::Object(m), Some(b)),
            other,
        ) == field(JsonView::Object(m), other),
{
    let m1 = with_member(m, "title"@, field(b, "title"@));
    let m2 = with_member(m1, "artist"@, field(b, "artist"@));
    reveal_strlit("title");
    reveal_strlit("artist");
    reveal_strlit("version");
    lemma_with_member_reads(m, "title"@, field(b, "title"@), other);
    lemma_with_member_reads(m1, "artist"@, field(b, "artist"@), other);
    lemma_with_member_reads(m2, "version"@, field(b, "version"@), other);
    lemma_with_member_reads(m1, "artist"@, field(b, "artist"@), "title"@);
    lemma_with_member_reads(m2, "version"@, field(b, "version"@), "title"@);
    lemma_with_member_reads(m2, "version"@, field(b, "version"@), "artist"@);
}

} // verus!

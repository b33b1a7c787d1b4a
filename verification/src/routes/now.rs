//! The one-call summary of the pass-through sources: each piece is read out of its
//! response, and a failed source reads as null.

use vstd::prelude::*;
use vstd::string::*;
use crate::json::{
    array_of, field, lemma_array_view, lemma_object_view, member_views, or_null, str_of, u64_of,
    views, Json, JsonNumber, JsonView, NumberView,
};
use crate::routes::AppError;
use crate::sources::steam::first_player;

verus! {

/// The value of a response, if it arrived.
pub open spec fn ok_view(r: Result<Json, AppError>) -> Option<JsonView> {
    match r {
        Ok(v) => Some(v@),
        Err(_) => None,
    }
}

/// An optional value, written as null when absent.
pub open spec fn or_json_null(o: Option<JsonView>) -> JsonView {
    match o {
        Some(v) => v,
        None => JsonView::Null,
    }
}

/// The live track of a recent-tracks response: name, artist and album.
pub open spec fn live_track(recent: JsonView) -> Option<JsonView> {
    match array_of(field(field(recent, "recenttracks"@), "track"@)) {
        Some(ts) => if ts.len() > 0 && str_of(field(field(ts[0], "@attr"@), "nowplaying"@)) == Some("true"@) {
            Some(
                JsonView::Object(
                    seq![
                        ("name"@, field(ts[0], "name"@)),
                        ("artist"@, field(field(ts[0], "artist"@), "#text"@)),
                        ("album"@, field(field(ts[0], "album"@), "#text"@)),
                    ],
                ),
            )
        } else {
            None
        },
        None => None,
    }
}

/// The name of the month's top artist.
pub open spec fn top_artist_name(artists: JsonView) -> Option<Seq<char>> {
    match array_of(field(field(artists, "topartists"@), "artist"@)) {
        Some(a) => if a.len() > 0 {
            str_of(field(a[0], "name"@))
        } else {
            None
        },
        None => None,
    }
}

/// The headline ranks of a Leetify profile.
pub open spec fn leetify_ranks(p: JsonView) -> JsonView {
    let ranks = field(p, "ranks"@);
    JsonView::Object(
        seq![
            ("rating"@, field(ranks, "leetify"@)),
            ("premier"@, field(ranks, "premier"@)),
            ("faceit"@, field(ranks, "faceit"@)),
        ],
    )
}

/// The headline figures of an osu! user response.
pub open spec fn osu_headline(v: JsonView) -> Option<JsonView> {
    match array_of(v) {
        Some(us) => if us.len() > 0 {
            Some(
                JsonView::Object(
                    seq![
                        ("username"@, field(us[0], "username"@)),
                        ("pp"@, field(us[0], "pp_raw"@)),
                        ("rank"@, field(us[0], "pp_rank"@)),
                        ("country_rank"@, field(us[0], "pp_country_rank"@)),
                    ],
                ),
            )
        } else {
            None
        },
        None => None,
    }
}

/// The summary of all pass-through sources.
pub open spec fn summary(
    discord: Option<JsonView>,
    lastfm_recent: Option<JsonView>,
    lastfm_artists: Option<JsonView>,
    steam_summary: Option<JsonView>,
    steam_level: Option<JsonView>,
    steam_recent: Option<JsonView>,
    leetify: Option<JsonView>,
    osu_user: Option<JsonView>,
) -> JsonView {
    JsonView::Object(
        seq![
            ("discord"@, or_json_null(discord)),
            (
                "lastfm"@,
                JsonView::Object(
                    seq![
                        (
                            "now_playing"@,
                            or_json_null(
                                match lastfm_recent {
                                    Some(r) => live_track(r),
                                    None => None,
                                },
                            ),
                        ),
                        (
                            "top_artist"@,
                            match lastfm_artists {
                                Some(a) => match top_artist_name(a) {
                                    Some(n) => JsonView::Str(n),
                                    None => JsonView::Null,
                                },
                                None => JsonView::Null,
                            },
                        ),
                    ],
                ),
            ),
            (
                "steam"@,
                JsonView::Object(
                    seq![
                        (
                            "summary"@,
                            or_json_null(
                                match steam_summary {
                                    Some(s) => first_player(s),
                                    None => None,
                                },
                            ),
                        ),
                        (
                            "level"@,
                            match steam_level {
                                Some(l) => match u64_of(field(field(l, "response"@), "player_level"@)) {
                                    Some(n) => JsonView::Number(NumberView::PosInt(n)),
                                    None => JsonView::Null,
                                },
                                None => JsonView::Null,
                            },
                        ),
                        (
                            "recent"@,
                            JsonView::Array(
                                match steam_recent {
                                    Some(r) => match array_of(field(field(r, "response"@), "games"@)) {
                                        Some(g) => g,
                                        None => Seq::empty(),
                                    },
                                    None => Seq::empty(),
                                },
                            ),
                        ),
                    ],
                ),
            ),
            (
                "leetify"@,
                match leetify {
                    Some(p) => leetify_ranks(p),
                    None => JsonView::Null,
                },
            ),
            (
                "osu"@,
                or_json_null(
                    match osu_user {
                        Some(u) => osu_headline(u),
                        None => None,
                    },
                ),
            ),
        ],
    )
}

/// A copy of `j[key]`, null when absent.
fn copy_at(j: Option<&Json>, key: &str) -> (r: Json)
    ensures
        r@ == field(or_null(j), key@),
{
    match Json::get(j, key) {
        Some(v) => v.copy(),
        None => Json::Null,
    }
}

/// An object from members given in order.
fn object3(k0: &str, v0: Json, k1: &str, v1: Json, k2: &str, v2: Json) -> (r: Json)
    ensures
        r@ == JsonView::Object(seq![(k0@, v0@), (k1@, v1@), (k2@, v2@)]),
{
    let m = vec![(String::from_str(k0), v0), (String::from_str(k1), v1), (String::from_str(k2), v2)];
    proof {
        lemma_object_view(m);
        assert(member_views(m@) =~= seq![(k0@, v0@), (k1@, v1@), (k2@, v2@)]);
    }
    Json::Object(m)
}

fn live_track_of(recent: &Json) -> (r: Option<Json>)
    ensures
        match r {
            Some(v) => live_track(recent@) == Some(v@),
            None => live_track(recent@) is None,
        },
{
    let ts = match Json::array_in(Json::get(Json::get(Some(recent), "recenttracks"), "track")) {
        Some(ts) => ts,
        None => return None,
    };
    if ts.len() == 0 {
        return None;
    }
    let t = Some(&ts[0]);
    let live = match Json::str_in(Json::get(Json::get(t, "@attr"), "nowplaying")) {
        Some(v) => crate::text::same(v, "true"),
        None => false,
    };
    if !live {
        return None;
    }
    Some(object3("name", copy_at(t, "name"), "artist", copy_at(Json::get(t, "artist"), "#text"), "album", copy_at(Json::get(t, "album"), "#text")))
}

fn top_artist_of(artists: &Json) -> (r: Json)
    ensures
        r@ == match top_artist_name(artists@) {
            Some(n) => JsonView::Str(n),
            None => JsonView::Null,
        },
{
    match Json::array_in(Json::get(Json::get(Some(artists), "topartists"), "artist")) {
        Some(a) => if a.len() > 0 {
            match Json::str_in(Json::get(Some(&a[0]), "name")) {
                Some(n) => Json::text(n),
                None => Json::Null,
            }
        } else {
            Json::Null
        },
        None => Json::Null,
    }
}

fn osu_headline_of(v: &Json) -> (r: Json)
    ensures
        r@ == or_json_null(osu_headline(v@)),
{
    match Json::array_in(Some(v)) {
        Some(us) => if us.len() > 0 {
            let u = Some(&us[0]);
            let m = vec![
                (String::from_str("username"), copy_at(u, "username")),
                (String::from_str("pp"), copy_at(u, "pp_raw")),
                (String::from_str("rank"), copy_at(u, "pp_rank")),
                (String::from_str("country_rank"), copy_at(u, "pp_country_rank")),
            ];
            proof {
                lemma_object_view(m);
                assert(member_views(m@) =~= osu_headline(v@)->Some_0->Object_0);
            }
            Json::Object(m)
        } else {
            Json::Null
        },
        None => Json::Null,
    }
}

/// Reads the summary out of the pass-through responses.
pub fn summarize(
    discord: Result<Json, AppError>,
    lastfm_recent: Result<Json, AppError>,
    lastfm_artists: Result<Json, AppError>,
    steam_summary: Result<Json, AppError>,
    steam_level: Result<Json, AppError>,
    steam_recent: Result<Json, AppError>,
    leetify: Result<Json, AppError>,
    osu_user: Result<Json, AppError>,
) -> (r: Json)
    ensures
        r@ == summary(
            ok_view(discord),
            ok_view(lastfm_recent),
            ok_view(lastfm_artists),
            ok_view(steam_summary),
            ok_view(steam_level),
            ok_view(steam_recent),
            ok_view(leetify),
            ok_view(osu_user),
        ),
{
    let now_playing = match &lastfm_recent {
        Ok(v) => match live_track_of(v) {
            Some(t) => t,
            None => Json::Null,
        },
        Err(_) => Json::Null,
    };
    let top_artist = match &lastfm_artists {
        Ok(v) => top_artist_of(v),
        Err(_) => Json::Null,
    };
    let player = match &steam_summary {
        Ok(v) => match crate::sources::steam::player(v) {
            Some(p) => p.copy(),
            None => Json::Null,
        },
        Err(_) => Json::Null,
    };
    let level = match &steam_level {
        Ok(v) => match Json::u64_in(Json::get(Json::get(Some(v), "response"), "player_level")) {
            Some(n) => Json::Number(JsonNumber::PosInt(n)),
            None => Json::Null,
        },
        Err(_) => Json::Null,
    };
    let mut games: Vec<Json> = Vec::new();
    match &steam_recent {
        Ok(v) => match Json::array_in(Json::get(Json::get(Some(v), "response"), "games")) {
            Some(gs) => {
                let ghost whole = views(gs@);
                let mut i: usize = 0;
                while i < gs.len()
                    invariant
                        i <= gs.len(),
                        games.len() == i,
                        forall|k: int| 0 <= k < i ==> (#[trigger] games@[k])@ == gs@[k]@,
                    decreases gs.len() - i,
                {
                    games.push(gs[i].copy());
                    i += 1;
                }
                assert(views(games@) =~= views(gs@));
                assert(views(games@) == match ok_view(steam_recent) {
                    Some(r) => match array_of(field(field(r, "response"@), "games"@)) {
                        Some(g) => g,
                        None => Seq::<JsonView>::empty(),
                    },
                    None => Seq::<JsonView>::empty(),
                });
            },
            None => {
                assert(views(games@) =~= Seq::<JsonView>::empty());
            },
        },
        Err(_) => {
            assert(views(games@) =~= Seq::<JsonView>::empty());
        },
    }
    proof {
        lemma_array_view(games);
        let expected = match ok_view(steam_recent) {
            Some(r) => match array_of(field(field(r, "response"@), "games"@)) {
                Some(g) => g,
                None => Seq::<JsonView>::empty(),
            },
            None => Seq::<JsonView>::empty(),
        };
        if games.len() == 0 {
            assert(views(games@) =~= Seq::<JsonView>::empty());
        }
        assert(views(games@) == expected);
    }
    let leetify_part = match &leetify {
        Ok(p) => {
            let ranks = Json::get(Some(p), "ranks");
            object3("rating", copy_at(ranks, "leetify"), "premier", copy_at(ranks, "premier"), "faceit", copy_at(ranks, "faceit"))
        },
        Err(_) => Json::Null,
    };
    let osu_part = match &osu_user {
        Ok(v) => osu_headline_of(v),
        Err(_) => Json::Null,
    };
    let discord_part = match discord {
        Ok(v) => v,
        Err(_) => Json::Null,
    };
    let lastfm_part = vec![(String::from_str("now_playing"), now_playing), (String::from_str("top_artist"), top_artist)];
    proof {
        lemma_object_view(lastfm_part);
    }
    let lastfm_obj = Json::Object(lastfm_part);
    let steam_obj = object3("summary", player, "level", level, "recent", Json::Array(games));
    let top = vec![
        (String::from_str("discord"), discord_part),
        (String::from_str("lastfm"), lastfm_obj),
        (String::from_str("steam"), steam_obj),
        (String::from_str("leetify"), leetify_part),
        (String::from_str("osu"), osu_part),
    ];
    proof {
        lemma_object_view(top);
        let want = summary(
            ok_view(discord),
            ok_view(lastfm_recent),
            ok_view(lastfm_artists),
            ok_view(steam_summary),
            ok_view(steam_level),
            ok_view(steam_recent),
            ok_view(leetify),
            ok_view(osu_user),
        );
        assert(member_views(top@)[1].1 == want->Object_0[1].1) by {
            assert(member_views(lastfm_part@) =~= want->Object_0[1].1->Object_0);
        }
        let w = want->Object_0;
        let t = member_views(top@);
        assert(t.len() == w.len());
        assert(t[0] == w[0]);
        let sv = t[2].1->Object_0;
        let sw = w[2].1->Object_0;
        assert(sv.len() == 3);
        assert(sw.len() == 3);
        assert(sv[0] == sw[0]);
        assert(sv[1] == sw[1]);
        assert(sv[2] == sw[2]);
        assert(sv =~= sw);
        assert(t[2] == w[2]);
        assert(t[3] == w[3]);
        assert(t[4] == w[4]);
        assert(t =~= w);
    }
    Json::Object(top)
}

/// The single most recent track's URL, as the summary asks for it.
pub fn recent_url(user: &str, key: &str) -> (r: String)
    ensures
        r@ == "https://ws.audioscrobbler.com/2.0/?method=user.getrecenttracks&user="@ + user@ + "&api_key="@
            + key@ + "&limit=1&format=json"@,
{
    let mut u = String::from_str("https://ws.audioscrobbler.com/2.0/?method=user.getrecenttracks&user=");
    u.append(user);
    u.append("&api_key=");
    u.append(key);
    u.append("&limit=1&format=json");
    u
}

/// The month's single top artist's URL, as the summary asks for it.
pub fn artists_url(user: &str, key: &str) -> (r: String)
    ensures
        r@ == "https://ws.audioscrobbler.com/2.0/?method=user.gettopartists&user="@ + user@ + "&api_key="@
            + key@ + "&limit=1&period=1month&format=json"@,
{
    let mut u = String::from_str("https://ws.audioscrobbler.com/2.0/?method=user.gettopartists&user=");
    u.append(user);
    u.append("&api_key=");
    u.append(key);
    u.append("&limit=1&period=1month&format=json");
    u
}


/// The summary passes the recently played games through whole: its `steam.recent` is the
/// `response.games` array of the recent-games response, every element in order, and empty
/// when that response failed or holds no such array.
pub proof fn law_summary_passes_recent_games_whole(
    discord: Option<JsonView>,
    lastfm_recent: Option<JsonView>,
    lastfm_artists: Option<JsonView>,
    steam_summary: Option<JsonView>,
    steam_level: Option<JsonView>,
    steam_recent: Option<JsonView>,
    leetify: Option<JsonView>,
    osu_user: Option<JsonView>,
)
    ensures
        field(
            field(
                summary(
                    discord,
                    lastfm_recent,
                    lastfm_artists,
                    steam_summary,
                    steam_level,
                    steam_recent,
                    leetify,
                    osu_user,
                ),
                "steam"@,
            ),
            "recent"@,
        ) == JsonView::Array(
            match steam_recent {
                Some(r) => match array_of(field(field(r, "response"@), "games"@)) {
                    Some(g) => g,
                    None => Seq::empty(),
                },
                None => Seq::empty(),
            },
        ),
{
    reveal_strlit("discord");
    reveal_strlit("lastfm");
    reveal_strlit("steam");
    reveal_strlit("summary");
    reveal_strlit("level");
    reveal_strlit("recent");
    reveal_with_fuel(crate::json::first_match, 4);
    let s = summary(
        discord,
        lastfm_recent,
        lastfm_artists,
        steam_summary,
        steam_level,
        steam_recent,
        leetify,
        osu_user,
    );
    let top = s->Object_0;
    assert(top[0].0 == "discord"@);
    assert(top[1].0 == "lastfm"@);
    assert(top[2].0 == "steam"@);
    assert("discord"@.len() == 7 && "lastfm"@.len() == 6 && "steam"@.len() == 5);
    assert(top[0].0 != "steam"@);
    assert(top[1].0 != "steam"@);
    assert(top.drop_first().drop_first()[0] == top[2]);
    let st = field(s, "steam"@);
    let inner = st->Object_0;
    assert(inner[0].0 == "summary"@);
    assert(inner[1].0 == "level"@);
    assert("summary"@.len() == 7 && "level"@.len() == 5 && "recent"@.len() == 6);
    assert(inner[0].0 != "recent"@);
    assert(inner[1].0 != "recent"@);
    assert(inner.drop_first().drop_first()[0] == inner[2]);
}

} // verus!

//! Discord presence, as reported by Lanyard.

use vstd::prelude::*;
use vstd::string::*;
use crate::json::{
    array_of, bool_of, field, first_match, lemma_first_match_at, lemma_first_match_none, member,
    opt_str_view, opt_string_view, or_null, str_of, text_of, u64_of, views, Json, JsonView,
    member_of, member_views,
};
use crate::model::{Presence, PresenceView};
use crate::text::{owned, same};

verus! {

/// Whether an activity is of the given Discord activity type.
pub open spec fn has_type(a: JsonView, t: u64) -> bool {
    u64_of(field(a, "type"@)) == Some(t)
}

/// The activity line of a Spotify session: "song, artist".
pub open spec fn spotify_line(s: Seq<(Seq<char>, JsonView)>) -> Option<Seq<char>> {
    match member(s, "song"@) {
        Some(song) => match str_of(song) {
            Some(song) => match member(s, "artist"@) {
                Some(artist) => Some(song + ", "@ + text_of(artist)),
                None => None,
            },
            None => None,
        },
        None => None,
    }
}

/// The activity line: Spotify first, then a running game (type 0), then a custom
/// status (type 4).
pub open spec fn activity(data: JsonView) -> Option<Seq<char>> {
    match field(data, "spotify"@) {
        JsonView::Object(s) => spotify_line(s),
        _ => match array_of(field(data, "activities"@)) {
            None => None,
            Some(acts) => match first_match(acts, |a: JsonView| has_type(a, 0)) {
                Some(game) => str_of(field(game, "name"@)),
                None => match first_match(acts, |a: JsonView| has_type(a, 4)) {
                    Some(custom) => str_of(field(custom, "state"@)),
                    None => None,
                },
            },
        },
    }
}

/// The presence status, clamped to online, idle, dnd and offline.
pub open spec fn status(j: JsonView) -> Seq<char> {
    match str_of(j) {
        Some(s) => if s == "online"@ || s == "idle"@ || s == "dnd"@ {
            s
        } else {
            "offline"@
        },
        None => "offline"@,
    }
}

/// The display name: the global name, else the username, else empty.
pub open spec fn display_name(user: JsonView) -> Seq<char> {
    match str_of(field(user, "global_name"@)) {
        Some(n) => n,
        None => text_of(field(user, "username"@)),
    }
}

/// The presence that a Lanyard response describes; none unless it reports success.
pub open spec fn presence(lanyard: JsonView) -> Option<PresenceView> {
    if bool_of(field(lanyard, "success"@)) != Some(true) {
        None
    } else {
        let data = field(lanyard, "data"@);
        Some(
            PresenceView {
                name: display_name(field(data, "discord_user"@)),
                status: status(field(data, "discord_status"@)),
                activity: activity(data),
            },
        )
    }
}

/// The first activity of the given type.
fn first_of_type<'a>(acts: &'a Vec<Json>, t: u64) -> (r: Option<&'a Json>)
    ensures
        match r {
            Some(a) => first_match(views(acts@), |a: JsonView| has_type(a, t)) == Some(a@),
            None => first_match(views(acts@), |a: JsonView| has_type(a, t)) is None,
        },
{
    let ghost s = views(acts@);
    let ghost p = |a: JsonView| has_type(a, t);
    let mut i: usize = 0;
    while i < acts.len()
        invariant
            i <= acts.len(),
            s == views(acts@),
            p == (|a: JsonView| has_type(a, t)),
            forall|j: int| 0 <= j < i ==> !p(#[trigger] s[j]),
        decreases acts.len() - i,
    {
        if Json::u64_in(Json::get(Some(&acts[i]), "type")) == Some(t) {
            proof {
                lemma_first_match_at(s, p, i as int);
            }
            return Some(&acts[i]);
        }
        i += 1;
    }
    proof {
        lemma_first_match_none(s, p);
    }
    None
}

/// The activity line of a presence.
pub fn activity_of(data: Option<&Json>) -> (r: Option<String>)
    ensures
        opt_string_view(r) == activity(or_null(data)),
{
    let spotify = Json::get(data, "spotify");
    if let Some(s) = Json::object_in(spotify) {
        let song = match member_of(s, "song") {
            Some(v) => v,
            None => return None,
        };
        let song = match Json::str_in(Some(song)) {
            Some(t) => t,
            None => return None,
        };
        let artist = match member_of(s, "artist") {
            Some(v) => v,
            None => return None,
        };
        let mut line = String::from_str(song);
        line.append(", ");
        match Json::str_in(Some(artist)) {
            Some(a) => line.append(a),
            None => {},
        }
        proof {
            assert(member_views(s@) == or_null(spotify)->Object_0);
        }
        return Some(line);
    }
    let acts = match Json::array_in(Json::get(data, "activities")) {
        Some(a) => a,
        None => return None,
    };
    if let Some(game) = first_of_type(acts, 0) {
        return owned(Json::str_in(Json::get(Some(game), "name")));
    }
    match first_of_type(acts, 4) {
        Some(custom) => owned(Json::str_in(Json::get(Some(custom), "state"))),
        None => None,
    }
}

/// The presence status, clamped to the four values the page knows.
fn status_of(j: Option<&Json>) -> (r: String)
    ensures
        r@ == status(or_null(j)),
{
    match Json::str_in(j) {
        Some(s) => {
            if same(s, "online") || same(s, "idle") || same(s, "dnd") {
                String::from_str(s)
            } else {
                String::from_str("offline")
            }
        },
        None => String::from_str("offline"),
    }
}

/// Reads the presence out of a Lanyard response.
pub fn normalize(lanyard: &Json) -> (r: Option<Presence>)
    ensures
        match r {
            Some(p) => presence(lanyard@) == Some(p@),
            None => presence(lanyard@) is None,
        },
{
    if Json::bool_in(Json::get(Some(lanyard), "success")) != Some(true) {
        return None;
    }
    let data = Json::get(Some(lanyard), "data");
    let user = Json::get(data, "discord_user");
    let name = match Json::str_in(Json::get(user, "global_name")) {
        Some(n) => String::from_str(n),
        None => match Json::str_in(Json::get(user, "username")) {
            Some(n) => String::from_str(n),
            None => String::new(),
        },
    };
    let status = status_of(Json::get(data, "discord_status"));
    let activity = activity_of(data);
    Some(Presence { name, status, activity })
}

/// The Lanyard URL of a Discord user.
pub fn lanyard_url(id: &str) -> (r: String)
    ensures
        r@ == "https://api.lanyard.rest/v1/users/"@ + id@,
{
    let mut u = String::from_str("https://api.lanyard.rest/v1/users/");
    u.append(id);
    u
}

/// The presence status is always one of online, idle, dnd and offline.
pub proof fn law_status_is_one_of_four(j: JsonView)
    ensures
        status(j) == "online"@ || status(j) == "idle"@ || status(j) == "dnd"@ || status(j) == "offline"@,
{
}

/// A Lanyard response that does not report success gives no presence; one that does
/// always gives one.
pub proof fn law_presence_iff_success(lanyard: JsonView)
    ensures
        presence(lanyard) is Some <==> bool_of(field(lanyard, "success"@)) == Some(true),
{
}

} // verus!

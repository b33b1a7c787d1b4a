//! Last.fm: the recent tracks, the month's top artists and tracks, and the genres.

use vstd::prelude::*;
use vstd::string::*;
use crate::json::{
    first_n, push_strings, strings_at, array_of, field, first_match, lemma_first_match_at, lemma_first_match_none, or_null, str_of,
    text_of, views, Json, JsonView,
};
use crate::model::{
    string_views, Lastfm, LastfmView, TopArtist, TopArtistView, TopTrack, TopTrackView, Track,
    TrackView,
};
use crate::rank::{is_top_ranking, top_ranked};
use crate::text::{
    percent_encoded, url_encode,
    contains, lowercase, occurs_in, owned, owned_or_empty, parse_u64, parsed_u64, same,
    to_lowercase,
};

verus! {

/// Last.fm serves this image hash when a track has no cover art.
pub const PLACEHOLDER_ART: &'static str = "2a96cbd8b46e442fc41c2b86b821562f";

/// An image entry in the size the page shows.
pub open spec fn is_medium(i: JsonView) -> bool {
    str_of(field(i, "size"@)) == Some("medium"@)
}

/// The cover art of a track: the medium image's URL, unless it is empty or the placeholder.
pub open spec fn art(track: JsonView) -> Option<Seq<char>> {
    match array_of(field(track, "image"@)) {
        Some(imgs) => match first_match(imgs, |i: JsonView| is_medium(i)) {
            Some(img) => match str_of(field(img, "#text"@)) {
                Some(url) => if url.len() == 0 || occurs_in(url, PLACEHOLDER_ART@) {
                    None
                } else {
                    Some(url)
                },
                None => None,
            },
            None => None,
        },
        None => None,
    }
}

/// A track as the page shows it.
pub open spec fn track(t: JsonView) -> TrackView {
    TrackView {
        name: text_of(field(t, "name"@)),
        artist: text_of(field(field(t, "artist"@), "#text"@)),
        art: art(t),
        live: str_of(field(field(t, "@attr"@), "nowplaying"@)) == Some("true"@),
    }
}

/// Last.fm sends every count as a string; an unparseable one counts as zero.
pub open spec fn count(v: JsonView) -> u64 {
    match str_of(v) {
        Some(s) => match parsed_u64(s) {
            Some(n) => n,
            None => 0,
        },
        None => 0,
    }
}

/// The tracks of a recent-tracks response.
pub open spec fn recent_tracks(recent: JsonView) -> Option<Seq<JsonView>> {
    array_of(field(field(recent, "recenttracks"@), "track"@))
}

/// The track playing right now: the first recent track, when it is live.
pub open spec fn playing_now(recent: JsonView) -> Option<TrackView> {
    match recent_tracks(recent) {
        Some(ts) => if ts.len() > 0 && track(ts[0]).live {
            Some(track(ts[0]))
        } else {
            None
        },
        None => None,
    }
}

pub open spec fn top_artist(x: JsonView) -> TopArtistView {
    TopArtistView { name: text_of(field(x, "name"@)), playcount: count(field(x, "playcount"@)) }
}

pub open spec fn top_track(x: JsonView) -> TopTrackView {
    TopTrackView {
        name: text_of(field(x, "name"@)),
        artist: text_of(field(field(x, "artist"@), "name"@)),
        playcount: count(field(x, "playcount"@)),
    }
}

/// The entries of a top-artists response.
pub open spec fn artist_entries(artists: JsonView) -> Option<Seq<JsonView>> {
    array_of(field(field(artists, "topartists"@), "artist"@))
}

/// The profile built from the three responses and the derived genres.
pub open spec fn profile(
    recent: JsonView,
    artists: JsonView,
    tracks: JsonView,
    genres: Seq<Seq<char>>,
) -> LastfmView {
    LastfmView {
        total_scrobbles: count(field(field(field(recent, "recenttracks"@), "@attr"@), "total"@)),
        recent: match recent_tracks(recent) {
            Some(ts) => ts.map_values(|t: JsonView| track(t)),
            None => Seq::empty(),
        },
        top_artists: match artist_entries(artists) {
            Some(a) => first_n(a, 5).map_values(|x: JsonView| top_artist(x)),
            None => Seq::empty(),
        },
        top_tracks: match array_of(field(field(tracks, "toptracks"@), "track"@)) {
            Some(a) => first_n(a, 5).map_values(|x: JsonView| top_track(x)),
            None => Seq::empty(),
        },
        genres,
    }
}

/// The artists whose tags decide the genres: the named ones among the top three.
pub open spec fn genre_seeds(artists: JsonView) -> Seq<Seq<char>> {
    match artist_entries(artists) {
        Some(a) => strings_at(first_n(a, 3), "name"@),
        None => Seq::empty(),
    }
}

/// The lowercased names of the first five tags of a top-tags response.
pub open spec fn tag_names(r: JsonView) -> Seq<Seq<char>> {
    match array_of(field(field(r, "toptags"@), "tag"@)) {
        Some(l) => strings_at(first_n(l, 5), "name"@).map_values(|t: Seq<char>| lowercase(t)),
        None => Seq::empty(),
    }
}

/// The tag names of one lookup: none when the lookup failed.
pub open spec fn lookup_tags(o: Option<JsonView>) -> Seq<Seq<char>> {
    match o {
        Some(r) => tag_names(r),
        None => Seq::empty(),
    }
}

/// All tag names of the tag lookups, in order; a failed lookup adds none.
pub open spec fn genre_tags(rs: Seq<Option<JsonView>>) -> Seq<Seq<char>>
    decreases rs.len(),
{
    if rs.len() == 0 {
        Seq::empty()
    } else {
        genre_tags(rs.drop_last()) + lookup_tags(rs.last())
    }
}

/// The views of the outcomes of the tag lookups.
pub open spec fn lookup_views(v: Seq<Option<Json>>) -> Seq<Option<JsonView>> {
    Seq::new(
        v.len(),
        |i: int|
            match v[i] {
                Some(j) => Some(j@),
                None => None,
            },
    )
}

/// The cover art of a track.
pub fn art_of(track: Option<&Json>) -> (r: Option<String>)
    ensures
        match r {
            Some(u) => art(or_null(track)) == Some(u@),
            None => art(or_null(track)) is None,
        },
{
    let imgs = match Json::array_in(Json::get(track, "image")) {
        Some(v) => v,
        None => return None,
    };
    let ghost s = views(imgs@);
    let ghost p = |i: JsonView| is_medium(i);
    let mut k: usize = 0;
    while k < imgs.len()
        invariant
            k <= imgs.len(),
            s == views(imgs@),
            p == (|i: JsonView| is_medium(i)),
            forall|j: int| 0 <= j < k ==> !p(#[trigger] s[j]),
        ensures
            k <= imgs.len(),
            forall|j: int| 0 <= j < k ==> !p(#[trigger] s[j]),
            k < imgs.len() ==> p(s[k as int]),
        decreases imgs.len() - k,
    {
        let medium = match Json::str_in(Json::get(Some(&imgs[k]), "size")) {
            Some(sz) => same(sz, "medium"),
            None => false,
        };
        if medium {
            break;
        }
        k += 1;
    }
    if k == imgs.len() {
        proof {
            lemma_first_match_none(s, p);
        }
        return None;
    }
    proof {
        lemma_first_match_at(s, p, k as int);
    }
    let url = match Json::str_in(Json::get(Some(&imgs[k]), "#text")) {
        Some(u) => u,
        None => return None,
    };
    if url.unicode_len() == 0 || contains(url, PLACEHOLDER_ART) {
        return None;
    }
    Some(String::from_str(url))
}

/// A track as the page shows it.
pub fn track_of(t: Option<&Json>) -> (r: Track)
    ensures
        r@ == track(or_null(t)),
{
    let name = owned_or_empty(Json::str_in(Json::get(t, "name")));
    let artist = owned_or_empty(Json::str_in(Json::get(Json::get(t, "artist"), "#text")));
    let art = art_of(t);
    let live = match Json::str_in(Json::get(Json::get(t, "@attr"), "nowplaying")) {
        Some(v) => same(v, "true"),
        None => false,
    };
    Track { name, artist, art, live }
}

/// A count sent as a string.
pub fn count_of(v: Option<&Json>) -> (r: u64)
    ensures
        r == count(or_null(v)),
{
    match Json::str_in(v) {
        Some(s) => match parse_u64(s) {
            Some(n) => n,
            None => 0,
        },
        None => 0,
    }
}

/// The live track, if the most recent scrobble is still playing.
pub fn now_playing(recent: &Json) -> (r: Option<Track>)
    ensures
        match r {
            Some(t) => playing_now(recent@) == Some(t@),
            None => playing_now(recent@) is None,
        },
{
    let tracks = match Json::array_in(Json::get(Json::get(Some(recent), "recenttracks"), "track")) {
        Some(v) => v,
        None => return None,
    };
    if tracks.len() == 0 {
        return None;
    }
    let t = track_of(Some(&tracks[0]));
    if t.live {
        Some(t)
    } else {
        None
    }
}

/// Builds the Last.fm profile from the recent tracks, the top artists, the top tracks and
/// the derived genres.
pub fn normalize(recent: &Json, artists: &Json, tracks: &Json, genres: Vec<String>) -> (r: Lastfm)
    ensures
        r@ == profile(recent@, artists@, tracks@, string_views(genres@)),
{
    let total = count_of(Json::get(Json::get(Json::get(Some(recent), "recenttracks"), "@attr"), "total"));
    let mut all: Vec<Track> = Vec::new();
    match Json::array_in(Json::get(Json::get(Some(recent), "recenttracks"), "track")) {
        Some(ts) => {
            let mut i: usize = 0;
            while i < ts.len()
                invariant
                    i <= ts.len(),
                    all.len() == i,
                    forall|k: int| 0 <= k < i ==> (#[trigger] all@[k])@ == track(ts@[k]@),
                decreases ts.len() - i,
            {
                all.push(track_of(Some(&ts[i])));
                i += 1;
            }
            proof {
                assert(all@.map_values(|t: Track| t@) =~= views(ts@).map_values(|t: JsonView| track(t)));
            }
        },
        None => {
            proof {
                assert(all@.map_values(|t: Track| t@) =~= Seq::<TrackView>::empty());
            }
        },
    }
    let mut top_artists: Vec<TopArtist> = Vec::new();
    match Json::array_in(Json::get(Json::get(Some(artists), "topartists"), "artist")) {
        Some(xs) => {
            let mut i: usize = 0;
            while i < xs.len() && i < 5
                invariant
                    i <= xs.len(),
                    i <= 5,
                    top_artists.len() == i,
                    forall|k: int| 0 <= k < i ==> (#[trigger] top_artists@[k])@ == top_artist(xs@[k]@),
                decreases xs.len() - i,
            {
                let name = owned_or_empty(Json::str_in(Json::get(Some(&xs[i]), "name")));
                let playcount = count_of(Json::get(Some(&xs[i]), "playcount"));
                top_artists.push(TopArtist { name, playcount });
                i += 1;
            }
            proof {
                assert(top_artists@.map_values(|a: TopArtist| a@) =~= first_n(views(xs@), 5).map_values(
                    |x: JsonView| top_artist(x),
                ));
            }
        },
        None => {
            proof {
                assert(top_artists@.map_values(|a: TopArtist| a@) =~= Seq::<TopArtistView>::empty());
            }
        },
    }
    let mut top_tracks: Vec<TopTrack> = Vec::new();
    match Json::array_in(Json::get(Json::get(Some(tracks), "toptracks"), "track")) {
        Some(xs) => {
            let mut i: usize = 0;
            while i < xs.len() && i < 5
                invariant
                    i <= xs.len(),
                    i <= 5,
                    top_tracks.len() == i,
                    forall|k: int| 0 <= k < i ==> (#[trigger] top_tracks@[k])@ == top_track(xs@[k]@),
                decreases xs.len() - i,
            {
                let name = owned_or_empty(Json::str_in(Json::get(Some(&xs[i]), "name")));
                let artist = owned_or_empty(Json::str_in(Json::get(Json::get(Some(&xs[i]), "artist"), "name")));
                let playcount = count_of(Json::get(Some(&xs[i]), "playcount"));
                top_tracks.push(TopTrack { name, artist, playcount });
                i += 1;
            }
            proof {
                assert(top_tracks@.map_values(|t: TopTrack| t@) =~= first_n(views(xs@), 5).map_values(
                    |x: JsonView| top_track(x),
                ));
            }
        },
        None => {
            proof {
                assert(top_tracks@.map_values(|t: TopTrack| t@) =~= Seq::<TopTrackView>::empty());
            }
        },
    }
    Lastfm { total_scrobbles: total, recent: all, top_artists, top_tracks, genres }
}

/// The artists whose tags decide the genres.
pub fn genre_seed_names(artists: &Json) -> (r: Vec<String>)
    ensures
        string_views(r@) == genre_seeds(artists@),
{
    let mut out: Vec<String> = Vec::new();
    assert(string_views(out@) =~= Seq::<Seq<char>>::empty());
    match Json::array_in(Json::get(Json::get(Some(artists), "topartists"), "artist")) {
        Some(xs) => {
            push_strings(&mut out, xs, "name", 3);
            assert(string_views(out@) =~= genre_seeds(artists@));
        },
        None => {},
    }
    out
}

/// The genres: the six most frequent lowercased tags among the first five tags of each
/// tag response, most frequent first, ties by name. Lookups are best effort: a failed one
/// (`None`) adds no tag.
pub fn rank_genres(tag_responses: &Vec<Option<Json>>) -> (r: Vec<String>)
    ensures
        is_top_ranking(string_views(r@), genre_tags(lookup_views(tag_responses@)), 6),
{
    let ghost rs = lookup_views(tag_responses@);
    let mut names: Vec<String> = Vec::new();
    let mut i: usize = 0;
    assert(rs.take(0) =~= Seq::<Option<JsonView>>::empty());
    assert(string_views(names@) =~= Seq::<Seq<char>>::empty());
    while i < tag_responses.len()
        invariant
            rs == lookup_views(tag_responses@),
            i <= tag_responses.len(),
            string_views(names@) == genre_tags(rs.take(i as int)),
        decreases tag_responses.len() - i,
    {
        assert(rs.take(i + 1).drop_last() =~= rs.take(i as int));
        assert(rs.take(i + 1).last() == rs[i as int]);
        let found = match &tag_responses[i] {
            Some(r) => Json::array_in(Json::get(Json::get(Some(r), "toptags"), "tag")),
            None => None,
        };
        match found {
            Some(list) => {
                let mut raw: Vec<String> = Vec::new();
                assert(string_views(raw@) =~= Seq::<Seq<char>>::empty());
                push_strings(&mut raw, list, "name", 5);
                assert(string_views(raw@) =~= strings_at(first_n(views(list@), 5), "name"@));
                let ghost before = string_views(names@);
                let mut k: usize = 0;
                while k < raw.len()
                    invariant
                        k <= raw.len(),
                        string_views(names@) == before + string_views(raw@).take(k as int).map_values(
                            |t: Seq<char>| lowercase(t),
                        ),
                    decreases raw.len() - k,
                {
                    let low = to_lowercase(raw[k].as_str());
                    let ghost prev = names@;
                    names.push(low);
                    assert(string_views(names@) =~= string_views(prev).push(lowercase(raw@[k as int]@)));
                    assert(string_views(raw@).take(k + 1) =~= string_views(raw@).take(k as int).push(raw@[k as int]@));
                    assert(string_views(names@) =~= before + string_views(raw@).take(k + 1).map_values(
                        |t: Seq<char>| lowercase(t),
                    ));
                    k += 1;
                }
                assert(string_views(raw@).take(raw.len() as int) =~= string_views(raw@));
                assert(string_views(names@) =~= genre_tags(rs.take(i + 1)));
            },
            None => {
                assert(genre_tags(rs.take(i + 1)) =~= genre_tags(rs.take(i as int)));
            },
        }
        i += 1;
    }
    assert(rs.take(tag_responses.len() as int) =~= rs);
    top_ranked(&names, 6)
}

/// The recent-tracks URL.
pub open spec fn recent_url_text(user: Seq<char>, key: Seq<char>) -> Seq<char> {
    "https://ws.audioscrobbler.com/2.0/?method=user.getrecenttracks&user="@ + user + "&api_key="@ + key
        + "&limit=6&format=json"@
}

/// The month's top-artists URL.
pub open spec fn artists_url_text(user: Seq<char>, key: Seq<char>) -> Seq<char> {
    "https://ws.audioscrobbler.com/2.0/?method=user.gettopartists&user="@ + user + "&api_key="@ + key
        + "&limit=5&period=1month&format=json"@
}

/// The month's top-tracks URL.
pub open spec fn tracks_url_text(user: Seq<char>, key: Seq<char>) -> Seq<char> {
    "https://ws.audioscrobbler.com/2.0/?method=user.gettoptracks&user="@ + user + "&api_key="@ + key
        + "&limit=5&period=1month&format=json"@
}

/// An artist's top-tags URL, with the artist's name percent-encoded.
pub open spec fn tags_url_text(key: Seq<char>, artist: Seq<char>) -> Seq<char> {
    "https://ws.audioscrobbler.com/2.0/?method=artist.gettoptags&artist="@ + percent_encoded(
        vstd::utf8::encode_utf8(artist),
    ) + "&api_key="@ + key + "&format=json"@
}

/// The recent-tracks URL.
pub fn recent_url(user: &str, key: &str) -> (r: String)
    ensures
        r@ == recent_url_text(user@, key@),
{
    let mut u = String::from_str("https://ws.audioscrobbler.com/2.0/?method=user.getrecenttracks&user=");
    u.append(user);
    u.append("&api_key=");
    u.append(key);
    u.append("&limit=6&format=json");
    u
}

/// The month's top-artists URL.
pub fn artists_url(user: &str, key: &str) -> (r: String)
    ensures
        r@ == artists_url_text(user@, key@),
{
    let mut u = String::from_str("https://ws.audioscrobbler.com/2.0/?method=user.gettopartists&user=");
    u.append(user);
    u.append("&api_key=");
    u.append(key);
    u.append("&limit=5&period=1month&format=json");
    u
}

/// The month's top-tracks URL.
pub fn tracks_url(user: &str, key: &str) -> (r: String)
    ensures
        r@ == tracks_url_text(user@, key@),
{
    let mut u = String::from_str("https://ws.audioscrobbler.com/2.0/?method=user.gettoptracks&user=");
    u.append(user);
    u.append("&api_key=");
    u.append(key);
    u.append("&limit=5&period=1month&format=json");
    u
}

/// An artist's top-tags URL.
pub fn tags_url(key: &str, artist: &str) -> (r: String)
    ensures
        r@ == tags_url_text(key@, artist@),
{
    let mut u = String::from_str("https://ws.audioscrobbler.com/2.0/?method=artist.gettoptags&artist=");
    let enc = url_encode(artist);
    u.append(enc.as_str());
    u.append("&api_key=");
    u.append(key);
    u.append("&format=json");
    u
}

/// The cache key of an artist's tags.
pub fn tags_cache_key(artist: &str) -> (r: String)
    ensures
        r@ == "lastfm:tags:"@ + artist@,
{
    let mut k = String::from_str("lastfm:tags:");
    k.append(artist);
    k
}

/// Cover art is never empty and never the placeholder image.
pub proof fn law_placeholder_is_never_cover_art(t: JsonView)
    ensures
        art(t) matches Some(u) ==> u.len() > 0 && !occurs_in(u, PLACEHOLDER_ART@),
{
}

/// The live track is the head of the recent list, when the head is live.
pub proof fn law_live_track_heads_recent_list(
    recent: JsonView,
    artists: JsonView,
    tracks: JsonView,
    genres: Seq<Seq<char>>,
)
    ensures
        ({
            let list = profile(recent, artists, tracks, genres).recent;
            playing_now(recent) == if list.len() > 0 && list[0].live {
                Some(list[0])
            } else {
                None
            }
        }),
{
}

/// At most five top artists and five top tracks are kept.
pub proof fn law_top_lists_hold_at_most_five(
    recent: JsonView,
    artists: JsonView,
    tracks: JsonView,
    genres: Seq<Seq<char>>,
)
    ensures
        profile(recent, artists, tracks, genres).top_artists.len() <= 5,
        profile(recent, artists, tracks, genres).top_tracks.len() <= 5,
{
}

proof fn lemma_failed_lookup_adds_no_tags(rs: Seq<Option<JsonView>>, i: int)
    requires
        0 <= i < rs.len(),
        rs[i] is None,
    ensures
        genre_tags(rs) == genre_tags(rs.update(i, Some(JsonView::Object(Seq::empty())))),
    decreases rs.len(),
{
    let e = Some(JsonView::Object(Seq::empty()));
    let u = rs.update(i, e);
    assert(tag_names(JsonView::Object(Seq::empty())) =~= Seq::<Seq<char>>::empty());
    if i == rs.len() - 1 {
        assert(u.drop_last() =~= rs.drop_last());
    } else {
        lemma_failed_lookup_adds_no_tags(rs.drop_last(), i);
        assert(u.drop_last() =~= rs.drop_last().update(i, e));
        assert(u.last() == rs.last());
    }
}

/// Tag lookups are best effort: a failed lookup counts as a response with no tags, so the
/// genres ranked with it are those ranked with an empty response in its place.
pub proof fn law_failed_lookup_ranks_as_no_tags(
    rs: Seq<Option<JsonView>>,
    i: int,
    with_failure: Seq<Seq<char>>,
    with_empty: Seq<Seq<char>>,
)
    requires
        0 <= i < rs.len(),
        rs[i] is None,
        is_top_ranking(with_failure, genre_tags(rs), 6),
        is_top_ranking(with_empty, genre_tags(rs.update(i, Some(JsonView::Object(Seq::empty())))), 6),
    ensures
        genre_tags(rs) == genre_tags(rs.update(i, Some(JsonView::Object(Seq::empty())))),
        with_failure == with_empty,
{
    lemma_failed_lookup_adds_no_tags(rs, i);
    crate::rank::law_top_ranking_is_unique(with_failure, with_empty, genre_tags(rs), 6);
}


/// The top lists keep the response's order: entry `k` of the top tracks (and of the top
/// artists) is read from the `k`-th entry of the response, for the first five entries.
pub proof fn law_top_lists_keep_response_order(
    recent: JsonView,
    artists: JsonView,
    tracks: JsonView,
    genres: Seq<Seq<char>>,
)
    ensures
        ({
            let p = profile(recent, artists, tracks, genres);
            match array_of(field(field(tracks, "toptracks"@), "track"@)) {
                Some(a) => {
                    &&& p.top_tracks.len() == if a.len() < 5 { a.len() as int } else { 5 }
                    &&& forall|k: int|
                        0 <= k < p.top_tracks.len() ==> {
                            &&& (#[trigger] p.top_tracks[k]).name == text_of(field(a[k], "name"@))
                            &&& p.top_tracks[k].artist == text_of(field(field(a[k], "artist"@), "name"@))
                            &&& p.top_tracks[k].playcount == count(field(a[k], "playcount"@))
                        }
                },
                None => p.top_tracks.len() == 0,
            }
        }),
        ({
            let p = profile(recent, artists, tracks, genres);
            match array_of(field(field(artists, "topartists"@), "artist"@)) {
                Some(a) => {
                    &&& p.top_artists.len() == if a.len() < 5 { a.len() as int } else { 5 }
                    &&& forall|k: int|
                        0 <= k < p.top_artists.len() ==> {
                            &&& (#[trigger] p.top_artists[k]).name == text_of(field(a[k], "name"@))
                            &&& p.top_artists[k].playcount == count(field(a[k], "playcount"@))
                        }
                },
                None => p.top_artists.len() == 0,
            }
        }),
{
}

} // verus!

//! VNDB: the reading list, the voted titles and the finished and wishlist counts. The
//! scores themselves are fractional and are computed from the votes kept here; the rated
//! titles are ordered here by integer keys that order them as their scores do.

use vstd::prelude::*;
use vstd::string::*;
use crate::json::{member_views, array_of, bool_of, field, item, or_null, str_of, text_of, views, Json, JsonNumber, JsonView, NumberView};
use crate::model::{VnEntry, VnEntryView};
use crate::text::{owned, owned_or_empty};

verus! {

/// VNDB's built-in label ids.
pub const LABEL_READING: u64 = 1;
pub const LABEL_FINISHED: u64 = 2;
pub const LABEL_WISHLIST: u64 = 5;

/// The results of a list query.
pub open spec fn results(v: JsonView) -> Option<Seq<JsonView>> {
    array_of(field(v, "results"@))
}

/// How many results a list query returned, and whether VNDB holds more of them.
pub open spec fn count_and_more(v: JsonView) -> (u64, bool) {
    (
        match results(v) {
            Some(a) => a.len() as u64,
            None => 0,
        },
        match bool_of(field(v, "more"@)) {
            Some(b) => b,
            None => false,
        },
    )
}

/// A reading-list entry: title, first developer and cover.
pub open spec fn vn_entry(e: JsonView) -> VnEntryView {
    let vn = field(e, "vn"@);
    VnEntryView {
        title: text_of(field(vn, "title"@)),
        developer: str_of(field(item(field(vn, "developers"@), 0), "name"@)),
        image: str_of(field(field(vn, "image"@), "url"@)),
    }
}

/// The reading list of a reading query.
pub open spec fn reading_list(reading: JsonView) -> Seq<VnEntryView> {
    match results(reading) {
        Some(a) => a.map_values(|e: JsonView| vn_entry(e)),
        None => Seq::empty(),
    }
}

/// A title that carries a vote.
pub struct Voted {
    pub title: String,
    pub image: Option<String>,
    /// The vote out of 100.
    pub vote: JsonNumber,
}

pub struct VotedView {
    pub title: Seq<char>,
    pub image: Option<Seq<char>>,
    pub vote: NumberView,
}

impl View for Voted {
    type V = VotedView;

    open spec fn view(&self) -> VotedView {
        VotedView {
            title: self.title@,
            image: crate::json::opt_string_view(self.image),
            vote: self.vote@,
        }
    }
}

/// The voted entries of a full-list query, in order, with their votes.
pub open spec fn voted_entries(s: Seq<JsonView>) -> Seq<VotedView>
    decreases s.len(),
{
    if s.len() == 0 {
        Seq::empty()
    } else {
        let rest = voted_entries(s.drop_last());
        let e = s.last();
        match field(e, "vote"@) {
            JsonView::Number(n) => rest.push(
                VotedView {
                    title: text_of(field(field(e, "vn"@), "title"@)),
                    image: str_of(field(field(field(e, "vn"@), "image"@), "url"@)),
                    vote: n,
                },
            ),
            _ => rest,
        }
    }
}

/// The result count and the more-flag of a list query.
pub fn count_of(v: &Json) -> (r: (u64, bool))
    ensures
        r == count_and_more(v@),
{
    let n = match Json::array_in(Json::get(Some(v), "results")) {
        Some(a) => a.len() as u64,
        None => 0,
    };
    let more = match Json::bool_in(Json::get(Some(v), "more")) {
        Some(b) => b,
        None => false,
    };
    (n, more)
}

fn entry_of(e: &Json) -> (r: VnEntry)
    ensures
        r@ == vn_entry(e@),
{
    let vn = Json::get(Some(e), "vn");
    VnEntry {
        title: owned_or_empty(Json::str_in(Json::get(vn, "title"))),
        developer: owned(Json::str_in(Json::get(Json::at(Json::get(vn, "developers"), 0), "name"))),
        image: owned(Json::str_in(Json::get(Json::get(vn, "image"), "url"))),
    }
}

/// The reading list.
pub fn reading_of(reading: &Json) -> (r: Vec<VnEntry>)
    ensures
        r@.map_values(|e: VnEntry| e@) == reading_list(reading@),
{
    let mut out: Vec<VnEntry> = Vec::new();
    match Json::array_in(Json::get(Some(reading), "results")) {
        Some(es) => {
            let mut i: usize = 0;
            while i < es.len()
                invariant
                    i <= es.len(),
                    out.len() == i,
                    forall|k: int| 0 <= k < i ==> (#[trigger] out@[k])@ == vn_entry(es@[k]@),
                decreases es.len() - i,
            {
                out.push(entry_of(&es[i]));
                i += 1;
            }
            assert(out@.map_values(|e: VnEntry| e@) =~= views(es@).map_values(|e: JsonView| vn_entry(e)));
        },
        None => {
            assert(out@.map_values(|e: VnEntry| e@) =~= Seq::<VnEntryView>::empty());
        },
    }
    out
}

/// The entries of a full-list query that carry a vote, in order.
pub fn voted_of(all: &Json) -> (r: Vec<Voted>)
    ensures
        r@.map_values(|v: Voted| v@) == match results(all@) {
            Some(a) => voted_entries(a),
            None => Seq::empty(),
        },
{
    let mut out: Vec<Voted> = Vec::new();
    assert(out@.map_values(|v: Voted| v@) =~= Seq::<VotedView>::empty());
    match Json::array_in(Json::get(Some(all), "results")) {
        Some(es) => {
            let ghost s = views(es@);
            let mut i: usize = 0;
            assert(s.take(0) =~= Seq::<JsonView>::empty());
            while i < es.len()
                invariant
                    s == views(es@),
                    i <= es.len(),
                    out@.map_values(|v: Voted| v@) == voted_entries(s.take(i as int)),
                decreases es.len() - i,
            {
                assert(s.take(i + 1).drop_last() =~= s.take(i as int));
                assert(s.take(i + 1).last() == es@[i as int]@);
                let e = Some(&es[i]);
                match Json::number_in(Json::get(e, "vote")) {
                    Some(n) => {
                        let vn = Json::get(e, "vn");
                        let ghost prev = out@;
                        out.push(
                            Voted {
                                title: owned_or_empty(Json::str_in(Json::get(vn, "title"))),
                                image: owned(Json::str_in(Json::get(Json::get(vn, "image"), "url"))),
                                vote: n.copy(),
                            },
                        );
                        assert(out@.map_values(|v: Voted| v@) =~= prev.map_values(|v: Voted| v@).push(out@.last()@));
                    },
                    None => {},
                }
                i += 1;
            }
            assert(s.take(es.len() as int) =~= s);
        },
        None => {},
    }
    out
}

/// The body of a list query: the user, an optional label filter, optional fields and the
/// number of results wanted.
pub open spec fn list_query(user: Seq<char>, label: Option<u64>, fields: Option<Seq<char>>, results: u64) -> JsonView {
    JsonView::Object(
        seq![("user"@, JsonView::Str(user))] + match label {
            Some(l) => seq![
                (
                    "filters"@,
                    JsonView::Array(
                        seq![
                            JsonView::Str("label"@),
                            JsonView::Str("="@),
                            JsonView::Number(NumberView::PosInt(l)),
                        ],
                    ),
                ),
            ],
            None => Seq::empty(),
        } + match fields {
            Some(f) => seq![("fields"@, JsonView::Str(f))],
            None => Seq::empty(),
        } + seq![("results"@, JsonView::Number(NumberView::PosInt(results)))],
    )
}

/// Builds the body of a list query.
pub fn list_query_body(user: &str, label: Option<u64>, fields: Option<&str>, results: u64) -> (r: Json)
    ensures
        r@ == list_query(
            user@,
            label,
            match fields {
                Some(f) => Some(f@),
                None => None,
            },
            results,
        ),
{
    let mut m: Vec<(String, Json)> = Vec::new();
    m.push((String::from_str("user"), Json::text(user)));
    let ghost a = member_views(m@);
    assert(a =~= seq![("user"@, JsonView::Str(user@))]);
    match label {
        Some(l) => {
            let filter = vec![Json::text("label"), Json::text("="), Json::Number(JsonNumber::PosInt(l))];
            proof {
                crate::json::lemma_array_view(filter);
                assert(views(filter@) =~= seq![
                    JsonView::Str("label"@),
                    JsonView::Str("="@),
                    JsonView::Number(NumberView::PosInt(l)),
                ]);
            }
            m.push((String::from_str("filters"), Json::Array(filter)));
        },
        None => {},
    }
    let ghost b = member_views(m@);
    match fields {
        Some(f) => m.push((String::from_str("fields"), Json::text(f))),
        None => {},
    }
    let ghost c = member_views(m@);
    m.push((String::from_str("results"), Json::Number(JsonNumber::PosInt(results))));
    proof {
        crate::json::lemma_object_view(m);
        let want = list_query(
            user@,
            label,
            match fields {
                Some(f) => Some(f@),
                None => None,
            },
            results,
        );
        assert(member_views(m@) =~= want->Object_0);
    }
    Json::Object(m)
}

/// The reading list: three titles with cover and developer.
pub fn reading_query(user: &str) -> (r: Json)
    ensures
        r@ == list_query(user@, Some(LABEL_READING), Some("vn{id,title,image{url},developers{name}}"@), 3),
{
    list_query_body(user, Some(LABEL_READING), Some("vn{id,title,image{url},developers{name}}"), 3)
}

/// Every listed title with its vote.
pub fn all_query(user: &str) -> (r: Json)
    ensures
        r@ == list_query(user@, None, Some("vn{id,title,image{url}},vote"@), 100),
{
    list_query_body(user, None, Some("vn{id,title,image{url}},vote"), 100)
}

/// The finished titles, counted.
pub fn finished_query(user: &str) -> (r: Json)
    ensures
        r@ == list_query(user@, Some(LABEL_FINISHED), None, 100),
{
    list_query_body(user, Some(LABEL_FINISHED), None, 100)
}

/// The wishlist, counted.
pub fn wishlist_query(user: &str) -> (r: Json)
    ensures
        r@ == list_query(user@, Some(LABEL_WISHLIST), None, 100),
{
    list_query_body(user, Some(LABEL_WISHLIST), None, 100)
}

/// How many voted titles the page shows.
pub const RATED_SHOWN: usize = 7;

/// `x` placed into `t` ahead of the first entry whose key is not above its own.
pub open spec fn place<A>(t: Seq<(u64, A)>, x: (u64, A)) -> Seq<(u64, A)>
    decreases t.len(),
{
    if t.len() == 0 {
        seq![x]
    } else if t[0].0 <= x.0 {
        seq![x] + t
    } else {
        seq![t[0]] + place(t.drop_first(), x)
    }
}

/// The entries ordered by key, highest first; entries of equal key keep the order they
/// were given in.
pub open spec fn by_key_desc<A>(s: Seq<(u64, A)>) -> Seq<(u64, A)>
    decreases s.len(),
{
    if s.len() == 0 {
        Seq::empty()
    } else {
        place(by_key_desc(s.drop_first()), s[0])
    }
}

/// Each voted title paired with its key.
pub open spec fn keyed(keys: Seq<u64>, voted: Seq<Voted>) -> Seq<(u64, VotedView)> {
    Seq::new(keys.len(), |i: int| (keys[i], voted[i]@))
}

/// The titles shown: the first seven of the voted titles ordered by key, highest first.
pub open spec fn rated(s: Seq<(u64, VotedView)>) -> Seq<VotedView> {
    let o = by_key_desc(s);
    o.take(if o.len() < RATED_SHOWN { o.len() as int } else { RATED_SHOWN as int }).map_values(
        |p: (u64, VotedView)| p.1,
    )
}

proof fn lemma_place_len<A>(t: Seq<(u64, A)>, x: (u64, A))
    ensures
        place(t, x).len() == t.len() + 1,
    decreases t.len(),
{
    if t.len() > 0 && t[0].0 > x.0 {
        lemma_place_len(t.drop_first(), x);
    }
}

proof fn lemma_by_key_desc_len<A>(s: Seq<(u64, A)>)
    ensures
        by_key_desc(s).len() == s.len(),
    decreases s.len(),
{
    if s.len() > 0 {
        lemma_by_key_desc_len(s.drop_first());
        lemma_place_len(by_key_desc(s.drop_first()), s[0]);
    }
}

/// Placing `x` is inserting it at the first position whose entry's key is not above its own.
proof fn lemma_place_at<A>(t: Seq<(u64, A)>, x: (u64, A), j: int)
    requires
        0 <= j <= t.len(),
        forall|i: int| 0 <= i < j ==> t[i].0 > x.0,
        j < t.len() ==> t[j].0 <= x.0,
    ensures
        place(t, x) == t.take(j) + seq![x] + t.skip(j),
    decreases j,
{
    if j == 0 {
        assert(t.skip(0) =~= t);
        assert(t.take(0) + seq![x] + t.skip(0) =~= seq![x] + t);
    } else {
        let r = t.drop_first();
        assert forall|i: int| 0 <= i < j - 1 implies r[i].0 > x.0 by {
            assert(r[i] == t[i + 1]);
        }
        if j - 1 < r.len() {
            assert(r[j - 1] == t[j]);
        }
        lemma_place_at(r, x, j - 1);
        assert(t.take(j) + seq![x] + t.skip(j) =~= seq![t[0]] + (r.take(j - 1) + seq![x] + r.skip(j - 1)));
    }
}

/// Orders the voted titles by their keys, highest first, titles of equal key in the order
/// given, and keeps the first seven. The keys order the titles as their scores do.
pub fn top_rated(voted: Vec<Voted>, keys: Vec<u64>) -> (r: Vec<Voted>)
    requires
        voted.len() == keys.len(),
    ensures
        r@.map_values(|v: Voted| v@) == rated(keyed(keys@, voted@)),
{
    let ghost s = keyed(keys@, voted@);
    let ghost n = voted.len() as int;
    let mut voted = voted;
    let mut keys = keys;
    let mut out_keys: Vec<u64> = Vec::new();
    let mut out: Vec<Voted> = Vec::new();
    assert(keyed(keys@, voted@) =~= s.take(n));
    assert(keyed(out_keys@, out@) =~= by_key_desc(s.skip(n)));
    while voted.len() > 0
        invariant
            s.len() == n,
            voted.len() == keys.len(),
            voted.len() <= n,
            keyed(keys@, voted@) == s.take(voted.len() as int),
            out_keys.len() == out.len(),
            keyed(out_keys@, out@) == by_key_desc(s.skip(voted.len() as int)),
        decreases voted.len(),
    {
        let ghost m = voted.len() as int;
        let ghost t = keyed(out_keys@, out@);
        let ghost before = keyed(keys@, voted@);
        let v = match voted.pop() {
            Some(v) => v,
            None => {
                return out;
            },
        };
        let k = match keys.pop() {
            Some(k) => k,
            None => {
                return out;
            },
        };
        assert(before[m - 1] == (k, v@));
        assert(s[m - 1] == (k, v@));
        assert(keyed(keys@, voted@) =~= s.take(m - 1));
        let mut j: usize = 0;
        while j < out_keys.len() && out_keys[j] > k
            invariant
                j <= out_keys.len(),
                forall|i: int| 0 <= i < j ==> out_keys@[i] > k,
            decreases out_keys.len() - j,
        {
            j += 1;
        }
        proof {
            assert forall|i: int| 0 <= i < j implies t[i].0 > k by {}
            lemma_place_at(t, (k, v@), j as int);
            assert(s.skip(m - 1).drop_first() =~= s.skip(m));
            assert(s.skip(m - 1)[0] == s[m - 1]);
        }
        out_keys.insert(j, k);
        out.insert(j, v);
        assert(keyed(out_keys@, out@) =~= t.take(j as int) + seq![(k, v@)] + t.skip(j as int));
    }
    proof {
        assert(s.skip(0) =~= s);
        lemma_by_key_desc_len(s);
    }
    out.truncate(RATED_SHOWN);
    assert(out@.map_values(|v: Voted| v@) =~= rated(s));
    out
}

/// No entry has a higher key than one before it.
pub open spec fn highest_first<A>(t: Seq<(u64, A)>) -> bool {
    forall|i: int, j: int| 0 <= i < j < t.len() ==> t[i].0 >= t[j].0
}

proof fn lemma_place_highest_first<A>(t: Seq<(u64, A)>, x: (u64, A))
    requires
        highest_first(t),
    ensures
        highest_first(place(t, x)),
        forall|k: int| 0 <= k < place(t, x).len() ==> place(t, x)[k] == x || t.contains(#[trigger] place(t, x)[k]),
    decreases t.len(),
{
    lemma_place_len(t, x);
    if t.len() == 0 {
    } else if t[0].0 <= x.0 {
        let p = seq![x] + t;
        assert forall|k: int| 0 < k < p.len() implies t.contains(#[trigger] p[k]) by {
            assert(p[k] == t[k - 1]);
        }
    } else {
        let r = t.drop_first();
        lemma_place_highest_first(r, x);
        let q = place(r, x);
        let p = seq![t[0]] + q;
        assert(p == place(t, x));
        assert forall|k: int| 0 < k < p.len() implies p[k] == x || t.contains(#[trigger] p[k]) by {
            assert(p[k] == q[k - 1]);
            if q[k - 1] != x {
                let i = choose|i: int| 0 <= i < r.len() && r[i] == q[k - 1];
                assert(t[i + 1] == q[k - 1]);
            }
        }
        assert forall|i: int, j: int| 0 <= i < j < p.len() implies p[i].0 >= p[j].0 by {
            if i > 0 {
                assert(p[i] == q[i - 1]);
            }
            assert(p[j] == q[j - 1]);
            if q[j - 1] != x {
                let m = choose|m: int| 0 <= m < r.len() && r[m] == q[j - 1];
                assert(t[m + 1] == q[j - 1]);
            }
        }
    }
}

proof fn lemma_place_multiset<A>(t: Seq<(u64, A)>, x: (u64, A))
    ensures
        place(t, x).to_multiset() == t.to_multiset().insert(x),
    decreases t.len(),
{
    broadcast use vstd::seq_lib::group_to_multiset_ensures;

    if t.len() == 0 {
        assert(seq![x] =~= Seq::<(u64, A)>::empty().push(x));
        assert(t =~= Seq::<(u64, A)>::empty());
    } else if t[0].0 <= x.0 {
        assert(seq![x] + t =~= t.insert(0, x));
    } else {
        let r = t.drop_first();
        lemma_place_multiset(r, x);
        assert(seq![t[0]] + place(r, x) =~= place(r, x).insert(0, t[0]));
        assert(t =~= r.insert(0, t[0]));
        assert(r.to_multiset().insert(x).insert(t[0]) =~= r.to_multiset().insert(t[0]).insert(x));
    }
}

/// Ordering by key keeps every entry, once each, and puts the highest keys first; at
/// most seven titles are shown.
pub proof fn law_rated_highest_first(s: Seq<(u64, VotedView)>)
    ensures
        highest_first(by_key_desc(s)),
        by_key_desc(s).to_multiset() == s.to_multiset(),
        rated(s).len() <= RATED_SHOWN,
    decreases s.len(),
{
    broadcast use vstd::seq_lib::group_to_multiset_ensures;

    lemma_by_key_desc_len(s);
    if s.len() > 0 {
        law_rated_highest_first(s.drop_first());
        lemma_place_highest_first(by_key_desc(s.drop_first()), s[0]);
        lemma_place_multiset(by_key_desc(s.drop_first()), s[0]);
        assert(s =~= s.drop_first().insert(0, s[0]));
    }
}


/// The reading list has one entry per result, in order, and the developer of each is the
/// name of the first of its developers (none when there is no first developer or it has
/// no name); the title and cover are read from `vn.title` and `vn.image.url`.
pub proof fn law_reading_entry_names_the_first_developer(reading: JsonView)
    ensures
        match results(reading) {
            Some(a) => {
                &&& reading_list(reading).len() == a.len()
                &&& forall|k: int|
                    0 <= k < a.len() ==> {
                        let vn = field(a[k], "vn"@);
                        &&& (#[trigger] reading_list(reading)[k]).developer == match array_of(
                            field(vn, "developers"@),
                        ) {
                            Some(d) => if d.len() > 0 {
                                str_of(field(d[0], "name"@))
                            } else {
                                None
                            },
                            None => None,
                        }
                        &&& reading_list(reading)[k].title == text_of(field(vn, "title"@))
                        &&& reading_list(reading)[k].image == str_of(field(field(vn, "image"@), "url"@))
                    }
            },
            None => reading_list(reading).len() == 0,
        },
{
}

} // verus!

//! A JSON value model: what the normalisers read of an upstream response.

use vstd::prelude::*;
use crate::text::same;
use crate::model::string_views;
use vstd::string::*;

verus! {

/// A JSON number as the upstream decoder classifies it.
#[derive(Debug, PartialEq, Eq)]
pub enum JsonNumber {
    /// A non-negative integer.
    PosInt(u64),
    /// A negative integer.
    NegInt(i64),
    /// Any other number, held as its shortest round-trip decimal text.
    Float(String),
}

/// A JSON value. Objects keep their members in order; keys are unique.
#[derive(Debug, PartialEq, Eq)]
pub enum Json {
    Null,
    Bool(bool),
    Number(JsonNumber),
    Str(String),
    Array(Vec<Json>),
    Object(Vec<(String, Json)>),
}

/// The mathematical view of a number.
pub enum NumberView {
    PosInt(u64),
    NegInt(i64),
    Float(Seq<char>),
}

/// The mathematical view of a JSON value: strings as character sequences.
pub enum JsonView {
    Null,
    Bool(bool),
    Number(NumberView),
    Str(Seq<char>),
    Array(Seq<JsonView>),
    Object(Seq<(Seq<char>, JsonView)>),
}

impl View for JsonNumber {
    type V = NumberView;

    open spec fn view(&self) -> NumberView {
        match self {
            JsonNumber::PosInt(n) => NumberView::PosInt(*n),
            JsonNumber::NegInt(n) => NumberView::NegInt(*n),
            JsonNumber::Float(s) => NumberView::Float(s@),
        }
    }
}

pub open spec fn json_view(j: Json) -> JsonView
    decreases j,
{
    match j {
        Json::Null => JsonView::Null,
        Json::Bool(b) => JsonView::Bool(b),
        Json::Number(n) => JsonView::Number(n@),
        Json::Str(s) => JsonView::Str(s@),
        Json::Array(v) => JsonView::Array(
            Seq::new(v.len() as nat, |i: int| if 0 <= i < v.len() { json_view(v[i]) } else { JsonView::Null }),
        ),
        Json::Object(v) => JsonView::Object(
            Seq::new(
                v.len() as nat,
                |i: int| if 0 <= i < v.len() { (v[i].0@, json_view(v[i].1)) } else { (Seq::empty(), JsonView::Null) },
            ),
        ),
    }
}

impl View for Json {
    type V = JsonView;

    open spec fn view(&self) -> JsonView {
        json_view(*self)
    }
}

/// The first element of `s` that satisfies `p`.
pub open spec fn first_match<A>(s: Seq<A>, p: spec_fn(A) -> bool) -> Option<A>
    decreases s.len(),
{
    if s.len() == 0 {
        None
    } else if p(s[0]) {
        Some(s[0])
    } else {
        first_match(s.drop_first(), p)
    }
}

/// Skipping a prefix in which nothing matches does not change the first match.
pub proof fn lemma_first_match_skip<A>(s: Seq<A>, p: spec_fn(A) -> bool, i: int)
    requires
        0 <= i <= s.len(),
        forall|j: int| 0 <= j < i ==> !p(#[trigger] s[j]),
    ensures
        first_match(s, p) == first_match(s.skip(i), p),
    decreases i,
{
    if i > 0 {
        assert(!p(s[0]));
        lemma_first_match_skip(s.drop_first(), p, i - 1);
        assert(s.drop_first().skip(i - 1) =~= s.skip(i));
    } else {
        assert(s.skip(0) =~= s);
    }
}

/// The first match found at position `i`, after a prefix with no match.
pub proof fn lemma_first_match_at<A>(s: Seq<A>, p: spec_fn(A) -> bool, i: int)
    requires
        0 <= i < s.len(),
        forall|j: int| 0 <= j < i ==> !p(#[trigger] s[j]),
        p(s[i]),
    ensures
        first_match(s, p) == Some(s[i]),
{
    lemma_first_match_skip(s, p, i);
    assert(s.skip(i)[0] == s[i]);
}

/// No element matches.
pub proof fn lemma_first_match_none<A>(s: Seq<A>, p: spec_fn(A) -> bool)
    requires
        forall|j: int| 0 <= j < s.len() ==> !p(#[trigger] s[j]),
    ensures
        first_match(s, p) is None,
{
    lemma_first_match_skip(s, p, s.len() as int);
    assert(s.skip(s.len() as int).len() == 0);
}

/// The value stored under `key` in the members of an object, if there is one.
pub open spec fn member(m: Seq<(Seq<char>, JsonView)>, key: Seq<char>) -> Option<JsonView> {
    match first_match(m, |e: (Seq<char>, JsonView)| e.0 == key) {
        Some(e) => Some(e.1),
        None => None,
    }
}

/// The value stored under `key` when `j` is an object that has the key.
pub open spec fn field_opt(j: JsonView, key: Seq<char>) -> Option<JsonView> {
    match j {
        JsonView::Object(m) => member(m, key),
        _ => None,
    }
}

/// `j[key]`: the value under `key`, null when `j` is not an object or lacks the key.
pub open spec fn field(j: JsonView, key: Seq<char>) -> JsonView {
    match field_opt(j, key) {
        Some(v) => v,
        None => JsonView::Null,
    }
}

/// `j[i]`: the `i`-th element, null when `j` is not an array or is too short.
pub open spec fn item(j: JsonView, i: int) -> JsonView {
    match j {
        JsonView::Array(a) => if 0 <= i < a.len() { a[i] } else { JsonView::Null },
        _ => JsonView::Null,
    }
}

/// The text of a string value.
pub open spec fn str_of(j: JsonView) -> Option<Seq<char>> {
    match j {
        JsonView::Str(s) => Some(s),
        _ => None,
    }
}

/// A non-negative integer value.
pub open spec fn u64_of(j: JsonView) -> Option<u64> {
    match j {
        JsonView::Number(NumberView::PosInt(n)) => Some(n),
        _ => None,
    }
}

/// A boolean value.
pub open spec fn bool_of(j: JsonView) -> Option<bool> {
    match j {
        JsonView::Bool(b) => Some(b),
        _ => None,
    }
}

/// The elements of an array value.
pub open spec fn array_of(j: JsonView) -> Option<Seq<JsonView>> {
    match j {
        JsonView::Array(a) => Some(a),
        _ => None,
    }
}

/// The text of a string value, or the empty string.
pub open spec fn text_of(j: JsonView) -> Seq<char> {
    match str_of(j) {
        Some(s) => s,
        None => Seq::empty(),
    }
}

/// An optional reference read as a value: a missing value reads as null.
pub open spec fn or_null(o: Option<&Json>) -> JsonView {
    match o {
        Some(j) => j@,
        None => JsonView::Null,
    }
}

/// The view of an optional borrowed string.
pub open spec fn opt_str_view(o: Option<&str>) -> Option<Seq<char>> {
    match o {
        Some(s) => Some(s@),
        None => None,
    }
}

/// The view of an optional owned string.
pub open spec fn opt_string_view(o: Option<String>) -> Option<Seq<char>> {
    match o {
        Some(s) => Some(s@),
        None => None,
    }
}

/// The views of the elements of a vector of values.
pub open spec fn views(v: Seq<Json>) -> Seq<JsonView> {
    Seq::new(v.len(), |i: int| v[i]@)
}

pub proof fn lemma_array_view(v: Vec<Json>)
    ensures
        Json::Array(v)@ == JsonView::Array(views(v@)),
{
    let s = json_view(Json::Array(v))->Array_0;
    assert(s =~= views(v@));
}

/// The view of the members of an object.
pub open spec fn member_views(m: Seq<(String, Json)>) -> Seq<(Seq<char>, JsonView)> {
    Seq::new(m.len(), |i: int| (m[i].0@, m[i].1@))
}

pub proof fn lemma_object_view(m: Vec<(String, Json)>)
    ensures
        Json::Object(m)@ == JsonView::Object(member_views(m@)),
{
    let s = json_view(Json::Object(m))->Object_0;
    assert(s =~= member_views(m@));
}

/// Looks `key` up among the members of an object.
pub fn member_of<'a>(m: &'a Vec<(String, Json)>, key: &str) -> (r: Option<&'a Json>)
    ensures
        match r {
            Some(v) => member(member_views(m@), key@) == Some(v@),
            None => member(member_views(m@), key@) is None,
        },
{
    let ghost ms = member_views(m@);
    let ghost p = |e: (Seq<char>, JsonView)| e.0 == key@;
    let mut i: usize = 0;
    while i < m.len()
        invariant
            i <= m.len(),
            ms == member_views(m@),
            p == (|e: (Seq<char>, JsonView)| e.0 == key@),
            forall|j: int| 0 <= j < i ==> !p(#[trigger] ms[j]),
        decreases m.len() - i,
    {
        if same(m[i].0.as_str(), key) {
            proof {
                lemma_first_match_at(ms, p, i as int);
            }
            return Some(&m[i].1);
        }
        i += 1;
    }
    proof {
        lemma_first_match_none(ms, p);
    }
    None
}

impl Json {
    /// `j[key]`, reading a missing value as null.
    pub fn get<'a>(j: Option<&'a Json>, key: &str) -> (r: Option<&'a Json>)
        ensures
            or_null(r) == field(or_null(j), key@),
    {
        match j {
            Some(Json::Object(m)) => {
                proof {
                    lemma_object_view(*m);
                }
                member_of(m, key)
            },
            _ => None,
        }
    }

    /// `j[i]`, reading a missing value as null.
    pub fn at<'a>(j: Option<&'a Json>, i: usize) -> (r: Option<&'a Json>)
        ensures
            or_null(r) == item(or_null(j), i as int),
    {
        match j {
            Some(Json::Array(v)) => {
                proof {
                    lemma_array_view(*v);
                }
                if i < v.len() {
                    Some(&v[i])
                } else {
                    None
                }
            },
            _ => None,
        }
    }

    /// The text of a string value.
    pub fn str_in<'a>(j: Option<&'a Json>) -> (r: Option<&'a str>)
        ensures
            opt_str_view(r) == str_of(or_null(j)),
    {
        match j {
            Some(Json::Str(s)) => Some(s.as_str()),
            _ => None,
        }
    }

    /// A non-negative integer value.
    pub fn u64_in(j: Option<&Json>) -> (r: Option<u64>)
        ensures
            r == u64_of(or_null(j)),
    {
        match j {
            Some(Json::Number(JsonNumber::PosInt(n))) => Some(*n),
            _ => None,
        }
    }

    /// A number value.
    pub fn number_in<'a>(j: Option<&'a Json>) -> (r: Option<&'a JsonNumber>)
        ensures
            match r {
                Some(n) => or_null(j) == JsonView::Number(n@),
                None => !(or_null(j) is Number),
            },
    {
        match j {
            Some(Json::Number(n)) => Some(n),
            _ => None,
        }
    }

    /// A boolean value.
    pub fn bool_in(j: Option<&Json>) -> (r: Option<bool>)
        ensures
            r == bool_of(or_null(j)),
    {
        match j {
            Some(Json::Bool(b)) => Some(*b),
            _ => None,
        }
    }

    /// The elements of an array value.
    pub fn array_in<'a>(j: Option<&'a Json>) -> (r: Option<&'a Vec<Json>>)
        ensures
            match r {
                Some(v) => array_of(or_null(j)) == Some(views(v@)),
                None => array_of(or_null(j)) is None,
            },
    {
        match j {
            Some(Json::Array(v)) => {
                proof {
                    lemma_array_view(*v);
                }
                Some(v)
            },
            _ => None,
        }
    }

    /// The members of an object value.
    pub fn object_in<'a>(j: Option<&'a Json>) -> (r: Option<&'a Vec<(String, Json)>>)
        ensures
            match r {
                Some(m) => or_null(j) == JsonView::Object(member_views(m@)),
                None => !(or_null(j) is Object),
            },
    {
        match j {
            Some(Json::Object(m)) => {
                proof {
                    lemma_object_view(*m);
                }
                Some(m)
            },
            _ => None,
        }
    }
}

impl JsonNumber {
    /// An equal copy of this number.
    pub fn copy(&self) -> (r: JsonNumber)
        ensures
            r@ == self@,
    {
        match self {
            JsonNumber::PosInt(n) => JsonNumber::PosInt(*n),
            JsonNumber::NegInt(n) => JsonNumber::NegInt(*n),
            JsonNumber::Float(s) => JsonNumber::Float(s.clone()),
        }
    }
}

impl Json {
    /// An equal copy of this value.
    pub fn copy(&self) -> (r: Json)
        ensures
            r@ == self@,
        decreases self,
    {
        match self {
            Json::Null => Json::Null,
            Json::Bool(b) => Json::Bool(*b),
            Json::Number(n) => Json::Number(n.copy()),
            Json::Str(s) => Json::Str(s.clone()),
            Json::Array(v) => {
                let mut out: Vec<Json> = Vec::new();
                let mut i: usize = 0;
                while i < v.len()
                    invariant
                        *self == Json::Array(*v),
                        i <= v.len(),
                        out.len() == i,
                        forall|k: int| 0 <= k < i ==> (#[trigger] out@[k])@ == v@[k]@,
                    decreases v.len() - i,
                {
                    proof {
                        assert(decreases_to!(*self => self->Array_0));
                        vstd::std_specs::vec::axiom_vec_index_decreases(self->Array_0, i as int);
                    }
                    out.push(v[i].copy());
                    i += 1;
                }
                proof {
                    lemma_array_view(*v);
                    lemma_array_view(out);
                    assert(views(out@) =~= views(v@));
                }
                Json::Array(out)
            },
            Json::Object(m) => {
                let mut out: Vec<(String, Json)> = Vec::new();
                let mut i: usize = 0;
                while i < m.len()
                    invariant
                        *self == Json::Object(*m),
                        i <= m.len(),
                        out.len() == i,
                        forall|k: int|
                            0 <= k < i ==> (#[trigger] out@[k]).0@ == m@[k].0@ && out@[k].1@ == m@[k].1@,
                    decreases m.len() - i,
                {
                    proof {
                        assert(decreases_to!(*self => self->Object_0));
                        vstd::std_specs::vec::axiom_vec_index_decreases(self->Object_0, i as int);
                        assert(decreases_to!(self->Object_0[i as int] => self->Object_0[i as int].1));
                    }
                    let v = m[i].1.copy();
                    out.push((m[i].0.clone(), v));
                    i += 1;
                }
                proof {
                    lemma_object_view(*m);
                    lemma_object_view(out);
                    assert(member_views(out@) =~= member_views(m@));
                }
                Json::Object(out)
            },
        }
    }
}

/// At most the first `n` elements.
pub open spec fn first_n<A>(s: Seq<A>, n: int) -> Seq<A> {
    if s.len() <= n {
        s
    } else {
        s.take(n)
    }
}

/// The strings stored under `key` in the entries, in order, skipping entries without one.
pub open spec fn strings_at(s: Seq<JsonView>, key: Seq<char>) -> Seq<Seq<char>>
    decreases s.len(),
{
    if s.len() == 0 {
        Seq::empty()
    } else {
        let rest = strings_at(s.drop_last(), key);
        match str_of(field(s.last(), key)) {
            Some(n) => rest.push(n),
            None => rest,
        }
    }
}

/// Appends the strings stored under `key` in the first `limit` entries.
pub fn push_strings(out: &mut Vec<String>, entries: &Vec<Json>, key: &str, limit: usize)
    ensures
        string_views(final(out)@) == string_views(old(out)@) + strings_at(first_n(views(entries@), limit as int), key@),
{
    let ghost s = views(entries@);
    let ghost start = string_views(out@);
    let mut i: usize = 0;
    assert(s.take(0) =~= Seq::<JsonView>::empty());
    assert(start + strings_at(s.take(0), key@) =~= start);
    while i < entries.len() && i < limit
        invariant
            s == views(entries@),
            i <= entries.len(),
            i <= limit,
            string_views(out@) == start + strings_at(s.take(i as int), key@),
        decreases entries.len() - i,
    {
        assert(s.take(i + 1).drop_last() =~= s.take(i as int));
        assert(s.take(i + 1).last() == entries@[i as int]@);
        match Json::str_in(Json::get(Some(&entries[i]), key)) {
            Some(n) => {
                let ghost prev = out@;
                out.push(String::from_str(n));
                assert(string_views(out@) =~= string_views(prev).push(n@));
                assert(strings_at(s.take(i + 1), key@) == strings_at(s.take(i as int), key@).push(n@));
                assert(string_views(out@) =~= start + strings_at(s.take(i + 1), key@));
            },
            None => {
                assert(strings_at(s.take(i + 1), key@) == strings_at(s.take(i as int), key@));
            },
        }
        i += 1;
    }
    assert(s.take(i as int) =~= first_n(s, limit as int));
}


/// The members of an object after `insert(key, value)`: the value replaces the one stored
/// under `key`, or is added at the end.
pub open spec fn with_member(m: Seq<(Seq<char>, JsonView)>, key: Seq<char>, value: JsonView) -> Seq<(Seq<char>, JsonView)>
    decreases m.len(),
{
    if m.len() == 0 {
        seq![(key, value)]
    } else if m[0].0 == key {
        m.update(0, (key, value))
    } else {
        seq![m[0]] + with_member(m.drop_first(), key, value)
    }
}

proof fn lemma_with_member_at(m: Seq<(Seq<char>, JsonView)>, key: Seq<char>, value: JsonView, i: int)
    requires
        0 <= i <= m.len(),
        forall|j: int| 0 <= j < i ==> (#[trigger] m[j]).0 != key,
        i < m.len() ==> m[i].0 == key,
    ensures
        with_member(m, key, value) == if i < m.len() {
            m.update(i, (key, value))
        } else {
            m.push((key, value))
        },
    decreases i,
{
    if i > 0 {
        assert(m[0].0 != key);
        assert forall|j: int| 0 <= j < i - 1 implies (#[trigger] m.drop_first()[j]).0 != key by {
            assert(m.drop_first()[j] == m[j + 1]);
        }
        lemma_with_member_at(m.drop_first(), key, value, i - 1);
        if i < m.len() {
            assert(seq![m[0]] + m.drop_first().update(i - 1, (key, value)) =~= m.update(i, (key, value)));
        } else {
            assert(seq![m[0]] + m.drop_first().push((key, value)) =~= m.push((key, value)));
        }
    } else if m.len() == 0 {
        assert(m.push((key, value)) =~= seq![(key, value)]);
    }
}

/// After `insert(key, value)`, the object reads `value` under `key` and what it read before
/// under every other key.
pub proof fn lemma_with_member_reads(m: Seq<(Seq<char>, JsonView)>, key: Seq<char>, value: JsonView, other: Seq<char>)
    ensures
        member(with_member(m, key, value), key) == Some(value),
        other != key ==> member(with_member(m, key, value), other) == member(m, other),
    decreases m.len(),
{
    let p = |e: (Seq<char>, JsonView)| e.0 == key;
    let q = |e: (Seq<char>, JsonView)| e.0 == other;
    let w = with_member(m, key, value);
    if m.len() == 0 {
        assert(w[0] == (key, value));
        assert(w.drop_first().len() == 0);
        if other != key {
            assert(member(w, other) == member(w.drop_first(), other));
        }
    } else if m[0].0 == key {
        assert(w[0] == (key, value));
        assert(w.drop_first() =~= m.drop_first());
        if other != key {
            assert(member(w, other) == member(w.drop_first(), other));
            assert(member(m, other) == member(m.drop_first(), other));
        }
    } else {
        lemma_with_member_reads(m.drop_first(), key, value, other);
        assert(w[0] == m[0]);
        assert(w.drop_first() =~= with_member(m.drop_first(), key, value));
        if other != key && m[0].0 != other {
            assert(member(w, other) == member(w.drop_first(), other));
            assert(member(m, other) == member(m.drop_first(), other));
        }
    }
}

impl Json {
    /// A string value.
    pub fn text(s: &str) -> (r: Json)
        ensures
            r@ == JsonView::Str(s@),
    {
        Json::Str(String::from_str(s))
    }

    /// Stores `value` under `key` in an object's members, replacing what was there.
    pub fn insert_member(m: &mut Vec<(String, Json)>, key: &str, value: Json)
        ensures
            member_views(final(m)@) == with_member(member_views(old(m)@), key@, value@),
    {
        let ghost before = member_views(m@);
        let mut i: usize = 0;
        while i < m.len()
            invariant
                i <= m.len(),
                before == member_views(m@),
                forall|j: int| 0 <= j < i ==> (#[trigger] before[j]).0 != key@,
            ensures
                i <= m.len(),
                forall|j: int| 0 <= j < i ==> (#[trigger] before[j]).0 != key@,
                i < m.len() ==> before[i as int].0 == key@,
            decreases m.len() - i,
        {
            if same(m[i].0.as_str(), key) {
                break;
            }
            i += 1;
        }
        proof {
            lemma_with_member_at(before, key@, value@, i as int);
        }
        if i < m.len() {
            let _ = m.remove(i);
            m.insert(i, (String::from_str(key), value));
            assert(member_views(m@) =~= before.update(i as int, (key@, value@)));
        } else {
            m.push((String::from_str(key), value));
            assert(member_views(m@) =~= before.push((key@, value@)));
        }
    }
}

} // verus!

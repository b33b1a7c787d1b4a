//! A store of upstream responses under string keys. Freshness is decided by the reader,
//! not the entry, so each source can hold its own time-to-live against one shared store.

use vstd::prelude::*;
use crate::json::{Json, JsonView};
use crate::text::same;

verus! {

/// How long ago an entry was stored; a clock reading from before the entry reads as no time.
pub open spec fn age(stored_at: u64, now: u64) -> int {
    if now >= stored_at {
        now - stored_at
    } else {
        0
    }
}

/// What a read of `key` gives: the stored value while its age is under the time-to-live.
pub open spec fn cached(
    m: Map<Seq<char>, (JsonView, u64)>,
    key: Seq<char>,
    ttl: u64,
    now: u64,
) -> Option<JsonView> {
    if m.contains_key(key) && age(m[key].1, now) < ttl {
        Some(m[key].0)
    } else {
        None
    }
}

/// Stored values, each with the time at which it was stored.
pub struct Cache {
    entries: Vec<(String, Json, u64)>,
}

/// Whether entry `i` is stored under `k`.
pub open spec fn key_at(s: Seq<(String, Json, u64)>, i: int, k: Seq<char>) -> bool {
    0 <= i < s.len() && s[i].0@ == k
}

/// The map from each key to the stored value and its time.
pub open spec fn entries_map(s: Seq<(String, Json, u64)>) -> Map<Seq<char>, (JsonView, u64)> {
    Map::new(
        |k: Seq<char>| exists|i: int| key_at(s, i, k),
        |k: Seq<char>|
            {
                let i = choose|i: int| key_at(s, i, k);
                (s[i].1@, s[i].2)
            },
    )
}

/// No two entries share a key.
pub open spec fn keys_distinct(s: Seq<(String, Json, u64)>) -> bool {
    forall|i: int, j: int| 0 <= i < s.len() && 0 <= j < s.len() && i != j ==> (#[trigger] s[i]).0@ != (#[trigger] s[j]).0@
}

proof fn lemma_entry_at(s: Seq<(String, Json, u64)>, i: int)
    requires
        keys_distinct(s),
        0 <= i < s.len(),
    ensures
        entries_map(s).contains_key(s[i].0@),
        entries_map(s)[s[i].0@] == (s[i].1@, s[i].2),
{
    assert(key_at(s, i, s[i].0@));
    let j = choose|j: int| key_at(s, j, s[i].0@);
    assert(j == i);
}

impl View for Cache {
    type V = Map<Seq<char>, (JsonView, u64)>;

    closed spec fn view(&self) -> Map<Seq<char>, (JsonView, u64)> {
        entries_map(self.entries@)
    }
}

impl Cache {
    #[verifier::type_invariant]
    spec fn inv(self) -> bool {
        keys_distinct(self.entries@)
    }

    /// An empty store.
    pub fn new() -> (c: Cache)
        ensures
            c@ == Map::<Seq<char>, (JsonView, u64)>::empty(),
    {
        let c = Cache { entries: Vec::new() };
        assert(c@ =~= Map::<Seq<char>, (JsonView, u64)>::empty());
        c
    }

    /// The index of the entry stored under `key`.
    fn find(entries: &Vec<(String, Json, u64)>, key: &str) -> (r: Option<usize>)
        ensures
            match r {
                Some(i) => key_at(entries@, i as int, key@),
                None => forall|i: int| !key_at(entries@, i, key@),
            },
    {
        let mut i: usize = 0;
        while i < entries.len()
            invariant
                i <= entries.len(),
                forall|j: int| 0 <= j < i ==> !key_at(entries@, j, key@),
            decreases entries.len() - i,
        {
            if same(entries[i].0.as_str(), key) {
                return Some(i);
            }
            i += 1;
        }
        None
    }

    /// The value stored under `key`, if it was stored less than `ttl` before `now`.
    pub fn get(&self, key: &str, ttl: u64, now: u64) -> (r: Option<Json>)
        ensures
            match r {
                Some(v) => cached(self@, key@, ttl, now) == Some(v@),
                None => cached(self@, key@, ttl, now) is None,
            },
    {
        proof {
            use_type_invariant(self);
        }
        match Cache::find(&self.entries, key) {
            Some(i) => {
                proof {
                    lemma_entry_at(self.entries@, i as int);
                }
                let stored_at = self.entries[i].2;
                let elapsed = if now >= stored_at {
                    now - stored_at
                } else {
                    0
                };
                if elapsed >= ttl {
                    None
                } else {
                    Some(self.entries[i].1.copy())
                }
            },
            None => None,
        }
    }

    /// Stores `value` under `key` at time `now`, replacing what was stored there.
    pub fn put(&mut self, key: &str, value: Json, now: u64)
        ensures
            final(self)@ == old(self)@.insert(key@, (value@, now)),
    {
        proof {
            use_type_invariant(&*self);
        }
        let ghost before = self.entries@;
        let ghost v = value@;
        let mut entries: Vec<(String, Json, u64)> = Vec::new();
        std::mem::swap(&mut entries, &mut self.entries);
        assert(entries@ == before);
        match Cache::find(&entries, key) {
            Some(i) => {
                let _ = entries.remove(i);
                entries.insert(i, (String::from_str(key), value, now));
                assert(entries@ =~= before.update(i as int, entries@[i as int]));
                proof {
                    assert forall|a: int, b: int|
                        0 <= a < entries@.len() && 0 <= b < entries@.len() && a != b implies (#[trigger] entries@[a]).0@
                        != (#[trigger] entries@[b]).0@ by {
                        if a != i as int && b != i as int {
                            assert(entries@[a] == before[a] && entries@[b] == before[b]);
                        } else if a == i as int {
                            assert(entries@[b] == before[b]);
                            assert(before[a].0@ == key@);
                        } else {
                            assert(entries@[a] == before[a]);
                            assert(before[b].0@ == key@);
                        }
                    }
                    let m = entries_map(entries@);
                    let old_m = entries_map(before);
                    assert forall|k: Seq<char>| #[trigger] m.contains_key(k) == old_m.insert(key@, (v, now)).contains_key(k) by {
                        if k != key@ {
                            if m.contains_key(k) {
                                let j = choose|j: int| key_at(entries@, j, k);
                                assert(key_at(before, j, k));
                            }
                            if old_m.contains_key(k) {
                                let j = choose|j: int| key_at(before, j, k);
                                assert(key_at(entries@, j, k));
                            }
                        } else {
                            assert(key_at(entries@, i as int, k));
                        }
                    }
                    assert forall|k: Seq<char>| #[trigger] m.contains_key(k) implies m[k] == old_m.insert(key@, (v, now))[k] by {
                        let j = choose|j: int| key_at(entries@, j, k);
                        lemma_entry_at(entries@, j);
                        if k != key@ {
                            assert(j != i);
                            assert(entries@[j] == before[j]);
                            lemma_entry_at(before, j);
                        } else {
                            assert(j == i);
                        }
                    }
                    assert(m =~= old_m.insert(key@, (v, now)));
                }
            },
            None => {
                entries.push((String::from_str(key), value, now));
                proof {
                    let n = before.len() as int;
                    assert forall|a: int, b: int|
                        0 <= a < entries@.len() && 0 <= b < entries@.len() && a != b implies (#[trigger] entries@[a]).0@
                        != (#[trigger] entries@[b]).0@ by {
                        if a != n && b != n {
                            assert(entries@[a] == before[a] && entries@[b] == before[b]);
                        } else if a == n {
                            assert(entries@[b] == before[b]);
                            assert(!key_at(before, b, key@));
                        } else {
                            assert(entries@[a] == before[a]);
                            assert(!key_at(before, a, key@));
                        }
                    }
                    let m = entries_map(entries@);
                    let old_m = entries_map(before);
                    assert forall|k: Seq<char>| #[trigger] m.contains_key(k) == old_m.insert(key@, (v, now)).contains_key(k) by {
                        if k != key@ {
                            if m.contains_key(k) {
                                let j = choose|j: int| key_at(entries@, j, k);
                                assert(j != n);
                                assert(key_at(before, j, k));
                            }
                            if old_m.contains_key(k) {
                                let j = choose|j: int| key_at(before, j, k);
                                assert(key_at(entries@, j, k));
                            }
                        } else {
                            assert(key_at(entries@, n, k));
                        }
                    }
                    assert forall|k: Seq<char>| #[trigger] m.contains_key(k) implies m[k] == old_m.insert(key@, (v, now))[k] by {
                        let j = choose|j: int| key_at(entries@, j, k);
                        lemma_entry_at(entries@, j);
                        if k != key@ {
                            assert(j != n);
                            assert(entries@[j] == before[j]);
                            lemma_entry_at(before, j);
                        } else {
                            assert(j == n);
                        }
                    }
                    assert(m =~= old_m.insert(key@, (v, now)));
                }
            },
        }
        self.entries = entries;
    }
}

/// A key that was never written reads as nothing.
pub proof fn law_unwritten_key_reads_nothing(key: Seq<char>, ttl: u64, now: u64)
    ensures
        cached(Map::empty(), key, ttl, now) is None,
{
}

/// Within its time-to-live, a read gives back what the last write stored.
pub proof fn law_read_after_write(
    m: Map<Seq<char>, (JsonView, u64)>,
    key: Seq<char>,
    value: JsonView,
    stored_at: u64,
    ttl: u64,
    now: u64,
)
    requires
        age(stored_at, now) < ttl,
    ensures
        cached(m.insert(key, (value, stored_at)), key, ttl, now) == Some(value),
{
}

/// Once an entry is as old as the time-to-live, a read gives nothing.
pub proof fn law_expired_entry_reads_nothing(
    m: Map<Seq<char>, (JsonView, u64)>,
    key: Seq<char>,
    value: JsonView,
    stored_at: u64,
    ttl: u64,
    now: u64,
)
    requires
        age(stored_at, now) >= ttl,
    ensures
        cached(m.insert(key, (value, stored_at)), key, ttl, now) is None,
{
}

/// A second write to a key replaces the first.
pub proof fn law_second_write_replaces_first(
    m: Map<Seq<char>, (JsonView, u64)>,
    key: Seq<char>,
    first: (JsonView, u64),
    second: (JsonView, u64),
)
    ensures
        m.insert(key, first).insert(key, second) == m.insert(key, second),
{
    assert(m.insert(key, first).insert(key, second) =~= m.insert(key, second));
}

/// Writing one key leaves what every other key reads unchanged.
pub proof fn law_keys_do_not_collide(
    m: Map<Seq<char>, (JsonView, u64)>,
    key: Seq<char>,
    other: Seq<char>,
    entry: (JsonView, u64),
    ttl: u64,
    now: u64,
)
    requires
        key != other,
    ensures
        cached(m.insert(key, entry), other, ttl, now) == cached(m, other, ttl, now),
{
}

/// Every read found a fresh value.
pub open spec fn every_read_hit(hits: Seq<Option<Json>>) -> bool {
    forall|i: int| 0 <= i < hits.len() ==> hits[i] is Some
}

/// Several reads that are used together: their values in order when every read found a
/// fresh value, and nothing as soon as one of them missed, so that the group is fetched
/// again as a whole.
pub fn all_fresh(hits: Vec<Option<Json>>) -> (r: Option<Vec<Json>>)
    ensures
        r is Some <==> every_read_hit(hits@),
        r matches Some(v) ==> v@.len() == hits@.len() && forall|i: int|
            0 <= i < v@.len() ==> hits@[i] == Some(#[trigger] v@[i]),
{
    let ghost orig = hits@;
    let mut rest = hits;
    let mut out: Vec<Json> = Vec::new();
    while rest.len() > 0
        invariant
            orig == hits@,
            out.len() + rest.len() == orig.len(),
            rest@ == orig.skip(out.len() as int),
            forall|i: int| 0 <= i < out.len() ==> orig[i] == Some(#[trigger] out@[i]),
        decreases rest.len(),
    {
        let ghost k = out.len() as int;
        assert(rest@[0] == orig[k]);
        match rest.remove(0) {
            Some(v) => {
                out.push(v);
                assert(rest@ =~= orig.skip(k + 1));
            },
            None => {
                assert(0 <= k < orig.len() && orig[k] is None);
                assert(!every_read_hit(orig));
                return None;
            },
        }
    }
    assert forall|i: int| 0 <= i < orig.len() implies orig[i] is Some by {
        assert(orig[i] == Some(out@[i]));
    }
    assert(every_read_hit(orig));
    Some(out)
}

} // verus!

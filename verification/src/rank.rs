//! Ranking names by how often they occur: most frequent first, ties broken by name.

use vstd::prelude::*;
use crate::model::string_views;
use crate::text::{lemma_lex_asymmetric, lemma_lex_irreflexive, lemma_lex_total, lemma_lex_transitive, less, lex_lt, same};

verus! {

/// How many times `x` occurs in `s`.
pub open spec fn occurrences(s: Seq<Seq<char>>, x: Seq<char>) -> nat
    decreases s.len(),
{
    if s.len() == 0 {
        0
    } else {
        occurrences(s.drop_last(), x) + if s.last() == x {
            1nat
        } else {
            0nat
        }
    }
}

/// `a` ranks before `b` among the names `s`: it occurs more often, or as often with a
/// smaller name.
pub open spec fn ranks_before(s: Seq<Seq<char>>, a: Seq<char>, b: Seq<char>) -> bool {
    occurrences(s, a) > occurrences(s, b) || (occurrences(s, a) == occurrences(s, b) && lex_lt(a, b))
}

/// `r` lists the `n` highest-ranked distinct names of `s` in rank order (all of them
/// when there are fewer than `n`).
pub open spec fn is_top_ranking(r: Seq<Seq<char>>, s: Seq<Seq<char>>, n: nat) -> bool {
    &&& r.len() <= n
    &&& forall|i: int| 0 <= i < r.len() ==> occurrences(s, #[trigger] r[i]) > 0
    &&& forall|i: int, j: int| 0 <= i < j < r.len() ==> ranks_before(s, #[trigger] r[i], #[trigger] r[j])
    &&& forall|x: Seq<char>|
        occurrences(s, x) > 0 && !r.contains(x) ==> r.len() == n && forall|i: int|
            0 <= i < r.len() ==> ranks_before(s, #[trigger] r[i], x)
}

/// No name ranks before itself.
pub proof fn lemma_ranks_irreflexive(s: Seq<Seq<char>>, a: Seq<char>)
    ensures
        !ranks_before(s, a, a),
{
    lemma_lex_irreflexive(a);
}

/// Ranking before is transitive.
pub proof fn lemma_ranks_transitive(s: Seq<Seq<char>>, a: Seq<char>, b: Seq<char>, c: Seq<char>)
    requires
        ranks_before(s, a, b),
        ranks_before(s, b, c),
    ensures
        ranks_before(s, a, c),
{
    if occurrences(s, a) == occurrences(s, b) && occurrences(s, b) == occurrences(s, c) {
        lemma_lex_transitive(a, b, c);
    }
}

/// Of two different names, one ranks before the other: the ranking has no ties.
pub proof fn lemma_ranks_total(s: Seq<Seq<char>>, a: Seq<char>, b: Seq<char>)
    requires
        a != b,
    ensures
        ranks_before(s, a, b) || ranks_before(s, b, a),
{
    lemma_lex_total(a, b);
}

/// Two names never rank before each other.
pub proof fn lemma_ranks_asymmetric(s: Seq<Seq<char>>, a: Seq<char>, b: Seq<char>)
    requires
        ranks_before(s, a, b),
    ensures
        !ranks_before(s, b, a),
{
    if occurrences(s, a) == occurrences(s, b) {
        lemma_lex_asymmetric(a, b);
    }
}

/// The keys of a tally, as character sequences.
pub open spec fn tally_keys(t: Seq<(String, u64)>) -> Seq<Seq<char>> {
    t.map_values(|e: (String, u64)| e.0@)
}

/// `t` counts each distinct name of `s` once, with its number of occurrences.
pub open spec fn is_tally_of(t: Seq<(String, u64)>, s: Seq<Seq<char>>) -> bool {
    &&& forall|i: int, j: int| 0 <= i < j < t.len() ==> (#[trigger] t[i]).0@ != (#[trigger] t[j]).0@
    &&& forall|i: int| 0 <= i < t.len() ==> (#[trigger] t[i]).1 == occurrences(s, t[i].0@) && t[i].1 > 0
    &&& forall|x: Seq<char>| #[trigger] occurrences(s, x) > 0 ==> tally_keys(t).contains(x)
}

proof fn lemma_occurrences_step(s: Seq<Seq<char>>, i: int, x: Seq<char>)
    requires
        0 <= i < s.len(),
    ensures
        occurrences(s.take(i + 1), x) == occurrences(s.take(i), x) + if s[i] == x {
            1nat
        } else {
            0nat
        },
{
    assert(s.take(i + 1).drop_last() =~= s.take(i));
}

proof fn lemma_occurrences_bound(s: Seq<Seq<char>>, x: Seq<char>)
    ensures
        occurrences(s, x) <= s.len(),
    decreases s.len(),
{
    if s.len() > 0 {
        lemma_occurrences_bound(s.drop_last(), x);
    }
}

/// Counts each distinct name.
pub fn tally(names: &Vec<String>) -> (t: Vec<(String, u64)>)
    ensures
        is_tally_of(t@, string_views(names@)),
{
    let ghost s = string_views(names@);
    let mut t: Vec<(String, u64)> = Vec::new();
    let mut i: usize = 0;
    assert(s.take(0) =~= Seq::<Seq<char>>::empty());
    while i < names.len()
        invariant
            s == string_views(names@),
            i <= names.len(),
            is_tally_of(t@, s.take(i as int)),
        decreases names.len() - i,
    {
        let name = &names[i];
        proof {
            assert(s[i as int] == name@);
        }
        let mut k: usize = 0;
        while k < t.len()
            invariant
                k <= t.len(),
                forall|j: int| 0 <= j < k ==> (#[trigger] t@[j]).0@ != name@,
            ensures
                k <= t.len(),
                forall|j: int| 0 <= j < k ==> (#[trigger] t@[j]).0@ != name@,
                k < t.len() ==> t@[k as int].0@ == name@,
            decreases t.len() - k,
        {
            if same(t[k].0.as_str(), name.as_str()) {
                break;
            }
            k += 1;
        }
        let found = k < t.len();
        let ghost old_t = t@;
        proof {
            assert forall|x: Seq<char>| #[trigger] occurrences(s.take(i + 1), x) == occurrences(s.take(i as int), x) + if x == name@ { 1nat } else { 0nat } by {
                lemma_occurrences_step(s, i as int, x);
            }
        }
        if found {
            let (key, c) = t.remove(k);
            proof {
                lemma_occurrences_bound(s.take(i as int), key@);
            }
            t.insert(k, (key, c + 1));
            proof {
                assert(t@ =~= old_t.update(k as int, (old_t[k as int].0, (c + 1) as u64)));
                assert forall|x: Seq<char>| occurrences(s.take(i + 1), x) > 0 implies tally_keys(t@).contains(x) by {
                    if x != name@ {
                        let j = choose|j: int| 0 <= j < tally_keys(old_t).len() && tally_keys(old_t)[j] == x;
                        assert(tally_keys(t@)[j] == x);
                    } else {
                        assert(tally_keys(t@)[k as int] == x);
                    }
                }
            }
        } else {
            t.push((name.clone(), 1));
            proof {
                assert(old_t.len() == k);
                assert forall|x: Seq<char>| occurrences(s.take(i + 1), x) > 0 implies tally_keys(t@).contains(x) by {
                    if x != name@ {
                        let j = choose|j: int| 0 <= j < tally_keys(old_t).len() && tally_keys(old_t)[j] == x;
                        assert(tally_keys(t@)[j] == x);
                    } else {
                        assert(tally_keys(t@)[k as int] == x);
                    }
                }
                assert(occurrences(s.take(i as int), name@) == 0) by {
                    if occurrences(s.take(i as int), name@) > 0 {
                        assert(tally_keys(old_t).contains(name@));
                        let j = choose|j: int| 0 <= j < tally_keys(old_t).len() && tally_keys(old_t)[j] == name@;
                        assert(old_t[j].0@ == name@);
                    }
                }
            }
        }
        i += 1;
    }
    assert(s.take(names.len() as int) =~= s);
    t
}

/// Whether tally entry `a` ranks before tally entry `b`.
fn ranks_first(a: &(String, u64), b: &(String, u64)) -> (r: bool)
    ensures
        r == (a.1 > b.1 || (a.1 == b.1 && lex_lt(a.0@, b.0@))),
{
    a.1 > b.1 || (a.1 == b.1 && less(a.0.as_str(), b.0.as_str()))
}

/// Picks the `n` highest-ranked names of a tally, in rank order.
fn select_top(t: Vec<(String, u64)>, n: usize, Ghost(s): Ghost<Seq<Seq<char>>>) -> (r: Vec<String>)
    requires
        is_tally_of(t@, s),
    ensures
        is_top_ranking(string_views(r@), s, n as nat),
{
    let mut pool = t;
    let ghost keys0 = tally_keys(pool@);
    let mut r: Vec<String> = Vec::new();
    while r.len() < n && pool.len() > 0
        invariant
            r.len() <= n,
            forall|i: int, j: int| 0 <= i < j < pool.len() ==> (#[trigger] pool@[i]).0@ != (#[trigger] pool@[j]).0@,
            forall|i: int| 0 <= i < pool.len() ==> (#[trigger] pool@[i]).1 == occurrences(s, pool@[i].0@) && pool@[i].1 > 0,
            forall|i: int| 0 <= i < r.len() ==> occurrences(s, (#[trigger] r@[i])@) > 0,
            forall|i: int, j: int| 0 <= i < j < r.len() ==> ranks_before(s, (#[trigger] r@[i])@, (#[trigger] r@[j])@),
            forall|i: int, j: int| 0 <= i < r.len() && 0 <= j < pool.len() ==> ranks_before(s, (#[trigger] r@[i])@, (#[trigger] pool@[j]).0@),
            forall|x: Seq<char>| #[trigger] occurrences(s, x) > 0 ==> string_views(r@).contains(x) || tally_keys(pool@).contains(x),
        decreases pool.len(),
    {
        let mut best: usize = 0;
        let mut j: usize = 1;
        while j < pool.len()
            invariant
                pool.len() > 0,
                best < j <= pool.len(),
                forall|a: int, b: int| 0 <= a < b < pool.len() ==> (#[trigger] pool@[a]).0@ != (#[trigger] pool@[b]).0@,
                forall|a: int| 0 <= a < pool.len() ==> (#[trigger] pool@[a]).1 == occurrences(s, pool@[a].0@),
                forall|k: int| 0 <= k < j && k != best ==> ranks_before(s, pool@[best as int].0@, (#[trigger] pool@[k]).0@),
            decreases pool.len() - j,
        {
            if ranks_first(&pool[j], &pool[best]) {
                proof {
                    assert forall|k: int| 0 <= k < j + 1 && k != j implies ranks_before(s, pool@[j as int].0@, (#[trigger] pool@[k]).0@) by {
                        if k != best {
                            lemma_ranks_transitive(s, pool@[j as int].0@, pool@[best as int].0@, pool@[k].0@);
                        }
                    }
                }
                best = j;
            } else {
                proof {
                    lemma_ranks_total(s, pool@[j as int].0@, pool@[best as int].0@);
                }
            }
            j += 1;
        }
        let ghost old_pool = pool@;
        let ghost old_r = r@;
        let (name, _) = pool.remove(best);
        r.push(name);
        proof {
            assert forall|a: int, b: int| 0 <= a < b < r.len() implies ranks_before(s, (#[trigger] r@[a])@, (#[trigger] r@[b])@) by {
                if b == r.len() - 1 {
                    assert(old_pool[best as int].0@ == r@[b]@);
                }
            }
            assert forall|a: int, b: int| 0 <= a < r.len() && 0 <= b < pool.len() implies ranks_before(s, (#[trigger] r@[a])@, (#[trigger] pool@[b]).0@) by {
                let ob = if b < best { b } else { b + 1 };
                assert(pool@[b] == old_pool[ob]);
                if a == r.len() - 1 {
                    assert(ob != best);
                } else {
                    assert(old_r[a] == r@[a]);
                }
            }
            assert forall|x: Seq<char>| occurrences(s, x) > 0 implies string_views(r@).contains(x) || tally_keys(pool@).contains(x) by {
                if string_views(old_r).contains(x) {
                    let a = choose|a: int| 0 <= a < string_views(old_r).len() && string_views(old_r)[a] == x;
                    assert(string_views(r@)[a] == x);
                } else {
                    let a = choose|a: int| 0 <= a < tally_keys(old_pool).len() && tally_keys(old_pool)[a] == x;
                    if a == best {
                        assert(string_views(r@)[r.len() - 1] == x);
                    } else if a < best {
                        assert(tally_keys(pool@)[a] == x);
                    } else {
                        assert(tally_keys(pool@)[a - 1] == x);
                    }
                }
            }
        }
    }
    proof {
        let rv = string_views(r@);
        assert forall|a: int, b: int| 0 <= a < b < rv.len() implies ranks_before(s, #[trigger] rv[a], #[trigger] rv[b]) by {
            assert(rv[a] == r@[a]@ && rv[b] == r@[b]@);
        }
        assert forall|a: int| 0 <= a < rv.len() implies occurrences(s, #[trigger] rv[a]) > 0 by {
            assert(rv[a] == r@[a]@);
        }
        assert forall|x: Seq<char>| occurrences(s, x) > 0 && !rv.contains(x) implies rv.len() == n && forall|i: int|
            0 <= i < rv.len() ==> ranks_before(s, #[trigger] rv[i], x) by {
            let k = choose|k: int| 0 <= k < tally_keys(pool@).len() && tally_keys(pool@)[k] == x;
            assert forall|i: int| 0 <= i < rv.len() implies ranks_before(s, #[trigger] rv[i], x) by {
                assert(rv[i] == r@[i]@);
                assert(pool@[k].0@ == x);
            }
        }
    }
    r
}

/// The `n` most frequent distinct names, most frequent first, ties by name.
pub fn top_ranked(names: &Vec<String>, n: usize) -> (r: Vec<String>)
    ensures
        is_top_ranking(string_views(r@), string_views(names@), n as nat),
{
    let t = tally(names);
    select_top(t, n, Ghost(string_views(names@)))
}

/// A top ranking holds at most `n` names, each once.
pub proof fn law_top_ranking_is_short_and_distinct(r: Seq<Seq<char>>, s: Seq<Seq<char>>, n: nat)
    requires
        is_top_ranking(r, s, n),
    ensures
        r.len() <= n,
        forall|i: int, j: int| 0 <= i < j < r.len() ==> r[i] != r[j],
{
    assert forall|i: int, j: int| 0 <= i < j < r.len() implies r[i] != r[j] by {
        assert(ranks_before(s, r[i], r[j]));
        if r[i] == r[j] {
            lemma_ranks_irreflexive(s, r[i]);
        }
    }
}

/// Every name that occurs is ranked when fewer than `n` distinct names occur.
pub proof fn law_short_ranking_is_complete(r: Seq<Seq<char>>, s: Seq<Seq<char>>, n: nat, x: Seq<char>)
    requires
        is_top_ranking(r, s, n),
        r.len() < n,
        occurrences(s, x) > 0,
    ensures
        r.contains(x),
{
}

/// The top ranking is unique: two lists that both rank the same names are the same list,
/// so `top_ranked` is pinned down by its contract.
pub proof fn law_top_ranking_is_unique(r1: Seq<Seq<char>>, r2: Seq<Seq<char>>, s: Seq<Seq<char>>, n: nat)
    requires
        is_top_ranking(r1, s, n),
        is_top_ranking(r2, s, n),
    ensures
        r1 == r2,
{
    law_top_ranking_is_short_and_distinct(r1, s, n);
    law_top_ranking_is_short_and_distinct(r2, s, n);
    let m = if r1.len() < r2.len() { r1.len() } else { r2.len() };
    assert forall|k: int| 0 <= k < m implies r1[k] == r2[k] by {
        lemma_top_rankings_agree_at(r1, r2, s, n, k);
    }
    if r1.len() < r2.len() {
        let x = r2[r1.len() as int];
        if r1.contains(x) {
            let p = choose|p: int| 0 <= p < r1.len() && r1[p] == x;
            assert(r2[p] == r1[p]);
        }
    } else if r2.len() < r1.len() {
        let x = r1[r2.len() as int];
        if r2.contains(x) {
            let p = choose|p: int| 0 <= p < r2.len() && r2[p] == x;
            assert(r1[p] == r2[p]);
        }
    }
    assert(r1 =~= r2);
}

proof fn lemma_top_rankings_agree_at(r1: Seq<Seq<char>>, r2: Seq<Seq<char>>, s: Seq<Seq<char>>, n: nat, k: int)
    requires
        is_top_ranking(r1, s, n),
        is_top_ranking(r2, s, n),
        0 <= k < r1.len(),
        k < r2.len(),
    ensures
        r1[k] == r2[k],
    decreases k,
{
    law_top_ranking_is_short_and_distinct(r1, s, n);
    law_top_ranking_is_short_and_distinct(r2, s, n);
    assert forall|j: int| 0 <= j < k implies r1[j] == r2[j] by {
        lemma_top_rankings_agree_at(r1, r2, s, n, j);
    }
    let a = r1[k];
    let b = r2[k];
    if a != b {
        lemma_ranks_total(s, a, b);
        if ranks_before(s, a, b) {
            lemma_top_ranking_misses(r1, r2, s, n, k);
            assert(ranks_before(s, r2[k], a));
            lemma_ranks_asymmetric(s, a, b);
        } else {
            lemma_top_ranking_misses(r2, r1, s, n, k);
            assert(ranks_before(s, r1[k], b));
            lemma_ranks_asymmetric(s, b, a);
        }
    }
}

/// Where two top rankings first differ, the one whose entry ranks higher holds a name the
/// other leaves out.
proof fn lemma_top_ranking_misses(r1: Seq<Seq<char>>, r2: Seq<Seq<char>>, s: Seq<Seq<char>>, n: nat, k: int)
    requires
        is_top_ranking(r1, s, n),
        is_top_ranking(r2, s, n),
        0 <= k < r1.len(),
        k < r2.len(),
        forall|j: int| 0 <= j < k ==> r1[j] == r2[j],
        ranks_before(s, r1[k], r2[k]),
    ensures
        !r2.contains(r1[k]),
{
    law_top_ranking_is_short_and_distinct(r1, s, n);
    law_top_ranking_is_short_and_distinct(r2, s, n);
    let a = r1[k];
    if r2.contains(a) {
        let p = choose|p: int| 0 <= p < r2.len() && r2[p] == a;
        if p < k {
            assert(r1[p] == r2[p]);
        } else if p > k {
            assert(ranks_before(s, r2[k], r2[p]));
            lemma_ranks_asymmetric(s, a, r2[k]);
        } else {
            lemma_ranks_irreflexive(s, a);
        }
    }
}

} // verus!

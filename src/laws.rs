//! Laws of discovery, proved over the specifications of `discovery`.

use vstd::prelude::*;
use crate::discovery::{
    dedup_ids, discover_spec, first_n, has_id, insert_pos, lookup_hit, lookup_spec, newer_or_same,
    pooled, rank, ranks_before, select, store_le, well_formed, Lookup,
};
use crate::models::ConnectionView;
use crate::scorer::{recency_bonus, relevance};
use crate::text::{has_sub, lemma_lex_total, lemma_lex_trans, lower_of, starts};

verus! {

/// No two profiles of `s` share an identifier.
pub open spec fn unique_ids(s: Seq<ConnectionView>) -> bool {
    forall|i: int, j: int| 0 <= i < j < s.len() ==> (#[trigger] s[i]).id != (#[trigger] s[j]).id
}

/// Every profile of `s` ranks before every later one.
pub open spec fn ranked(s: Seq<ConnectionView>, q: Seq<char>, now: i64) -> bool {
    forall|i: int, j: int| 0 <= i < j < s.len() ==> ranks_before(#[trigger] s[i], #[trigger] s[j], q, now)
}

/// Whether `x` is an element of `s`.
pub open spec fn occurs_in(x: ConnectionView, s: Seq<ConnectionView>) -> bool {
    exists|j: int| 0 <= j < s.len() && s[j] == x
}

/// Every element of `t` is an element of `s`.
pub open spec fn drawn_from(t: Seq<ConnectionView>, s: Seq<ConnectionView>) -> bool {
    forall|i: int| 0 <= i < t.len() ==> occurs_in(#[trigger] t[i], s)
}

proof fn lemma_store_total(a: ConnectionView, b: ConnectionView)
    ensures
        store_le(a, b) || store_le(b, a),
{
    lemma_lex_total(a.name, b.name);
}

proof fn lemma_store_trans(a: ConnectionView, b: ConnectionView, c: ConnectionView)
    requires
        store_le(a, b),
        store_le(b, c),
    ensures
        store_le(a, c),
{
    if lex_le_all(a, b, c) {
        lemma_lex_trans(a.name, b.name, c.name);
    }
}

spec fn lex_le_all(a: ConnectionView, b: ConnectionView, c: ConnectionView) -> bool {
    crate::text::lex_le(a.name, b.name) && crate::text::lex_le(b.name, c.name)
}

proof fn lemma_ranks_total(a: ConnectionView, b: ConnectionView, q: Seq<char>, now: i64)
    ensures
        ranks_before(a, b, q, now) || ranks_before(b, a, q, now),
{
    lemma_store_total(a, b);
}

proof fn lemma_ranks_trans(a: ConnectionView, b: ConnectionView, c: ConnectionView, q: Seq<char>, now: i64)
    requires
        ranks_before(a, b, q, now),
        ranks_before(b, c, q, now),
    ensures
        ranks_before(a, c, q, now),
{
    if relevance(a, q, now) == relevance(b, q, now) && relevance(b, q, now) == relevance(c, q, now) {
        lemma_store_trans(a, b, c);
    }
}

proof fn lemma_insert_pos(r: Seq<ConnectionView>, x: ConnectionView, q: Seq<char>, now: i64)
    ensures
        insert_pos(r, x, q, now) <= r.len(),
        forall|m: int| 0 <= m < insert_pos(r, x, q, now) ==> ranks_before(#[trigger] r[m], x, q, now),
        insert_pos(r, x, q, now) < r.len() ==> !ranks_before(r[insert_pos(r, x, q, now) as int], x, q, now),
    decreases r.len(),
{
    if r.len() > 0 && ranks_before(r[0], x, q, now) {
        lemma_insert_pos(r.drop_first(), x, q, now);
        let p = insert_pos(r, x, q, now);
        assert forall|m: int| 0 <= m < p implies ranks_before(#[trigger] r[m], x, q, now) by {
            if m > 0 {
                assert(r[m] == r.drop_first()[m - 1]);
            }
        }
        if p < r.len() {
            assert(r[p as int] == r.drop_first()[p - 1]);
        }
    }
}

proof fn lemma_insert_pos_at_least(r: Seq<ConnectionView>, x: ConnectionView, q: Seq<char>, now: i64, n: int)
    requires
        0 <= n <= r.len(),
        forall|m: int| 0 <= m < n ==> ranks_before(#[trigger] r[m], x, q, now),
    ensures
        insert_pos(r, x, q, now) >= n,
    decreases n,
{
    if n > 0 {
        assert forall|m: int| 0 <= m < n - 1 implies ranks_before(#[trigger] r.drop_first()[m], x, q, now) by {
            assert(r.drop_first()[m] == r[m + 1]);
        }
        lemma_insert_pos_at_least(r.drop_first(), x, q, now, n - 1);
        assert(ranks_before(r[0], x, q, now));
    }
}

/// Ranking keeps the profiles, sorts them, and keeps identifiers unique.
#[verifier::rlimit(60)]
proof fn lemma_rank(s: Seq<ConnectionView>, q: Seq<char>, now: i64)
    ensures
        rank(s, q, now).len() == s.len(),
        drawn_from(rank(s, q, now), s),
        ranked(rank(s, q, now), q, now),
        unique_ids(s) ==> unique_ids(rank(s, q, now)),
    decreases s.len(),
{
    if s.len() > 0 {
        let t = s.drop_last();
        let x = s.last();
        lemma_rank(t, q, now);
        let r = rank(t, q, now);
        lemma_insert_pos(r, x, q, now);
        let p = insert_pos(r, x, q, now) as int;
        let e = r.insert(p, x);
        assert(e == rank(s, q, now));
        assert forall|i: int| 0 <= i < e.len() implies exists|j: int|
            0 <= j < s.len() && #[trigger] e[i] == s[j] by {
            if i < p {
                let j = choose|j: int| 0 <= j < t.len() && r[i] == t[j];
                assert(e[i] == s[j]);
            } else if i == p {
                assert(e[i] == s[s.len() - 1]);
            } else {
                assert(e[i] == r[i - 1]);
                let j = choose|j: int| 0 <= j < t.len() && r[i - 1] == t[j];
                assert(e[i] == s[j]);
            }
        }
        assert forall|i: int, j: int| 0 <= i < j < e.len() implies ranks_before(
            #[trigger] e[i],
            #[trigger] e[j],
            q,
            now,
        ) by {
            if j < p {
                assert(e[i] == r[i] && e[j] == r[j]);
            } else if j == p {
                assert(e[i] == r[i]);
            } else {
                assert(e[j] == r[j - 1]);
                lemma_ranks_total(r[p], x, q, now);
                if j - 1 > p {
                    lemma_ranks_trans(x, r[p], r[j - 1], q, now);
                }
                if i < p {
                    assert(e[i] == r[i]);
                } else if i > p {
                    assert(e[i] == r[i - 1]);
                }
            }
        }
        if unique_ids(s) {
            assert(unique_ids(t)) by {
                assert forall|i: int, j: int| 0 <= i < j < t.len() implies (#[trigger] t[i]).id != (
                #[trigger] t[j]).id by {
                    assert(t[i] == s[i] && t[j] == s[j]);
                }
            }
            assert forall|i: int| 0 <= i < r.len() implies (#[trigger] r[i]).id != x.id by {
                let j = choose|j: int| 0 <= j < t.len() && r[i] == t[j];
                assert(t[j] == s[j]);
                assert(s[s.len() - 1] == x);
            }
            assert forall|i: int, j: int| 0 <= i < j < e.len() implies (#[trigger] e[i]).id != (
            #[trigger] e[j]).id by {
                if j < p {
                    assert(e[i] == r[i] && e[j] == r[j]);
                } else if j == p {
                    assert(e[i] == r[i]);
                } else if i < p {
                    assert(e[i] == r[i] && e[j] == r[j - 1]);
                } else if i == p {
                    assert(e[j] == r[j - 1]);
                } else {
                    assert(e[i] == r[i - 1] && e[j] == r[j - 1]);
                }
            }
        }
    }
}

proof fn lemma_dedup(s: Seq<ConnectionView>)
    ensures
        unique_ids(dedup_ids(s)),
        drawn_from(dedup_ids(s), s),
        forall|k: int| 0 <= k < s.len() ==> has_id(dedup_ids(s), (#[trigger] s[k]).id),
    decreases s.len(),
{
    if s.len() > 0 {
        let t = s.drop_last();
        lemma_dedup(t);
        let d = dedup_ids(t);
        let e = dedup_ids(s);
        assert forall|i: int| 0 <= i < e.len() implies exists|j: int|
            0 <= j < s.len() && #[trigger] e[i] == s[j] by {
            if i < d.len() {
                let j = choose|j: int| 0 <= j < t.len() && d[i] == t[j];
                assert(e[i] == d[i]);
                assert(s[j] == t[j]);
            } else {
                assert(e[i] == s[s.len() - 1]);
            }
        }
        assert forall|k: int| 0 <= k < s.len() implies has_id(e, (#[trigger] s[k]).id) by {
            if k < t.len() {
                assert(s[k] == t[k]);
                let m = choose|m: int| 0 <= m < d.len() && (#[trigger] d[m]).id == t[k].id;
                assert(e[m] == d[m]);
            } else if !has_id(d, s.last().id) {
                assert(e[d.len() as int] == s.last());
            }
        }
        if !has_id(d, s.last().id) {
            assert forall|i: int, j: int| 0 <= i < j < e.len() implies (#[trigger] e[i]).id != (
            #[trigger] e[j]).id by {
                if j == d.len() {
                    assert(e[i] == d[i]);
                } else {
                    assert(e[i] == d[i] && e[j] == d[j]);
                }
            }
        }
    }
}

/// Discovery returns at most `limit` candidates, no two with the same
/// identifier, however many lookups found a profile.
pub proof fn law_bounded_and_unique(s: Seq<ConnectionView>, query: Seq<char>, limit: nat, now: i64)
    ensures
        discover_spec(s, query, limit, now).len() <= limit,
        unique_ids(discover_spec(s, query, limit, now)),
{
    let c = dedup_ids(pooled(s, query, limit));
    lemma_dedup(pooled(s, query, limit));
    lemma_rank(c, query, now);
    let r = rank(c, query, now);
    let f = discover_spec(s, query, limit, now);
    assert forall|i: int, j: int| 0 <= i < j < f.len() implies (#[trigger] f[i]).id != (
    #[trigger] f[j]).id by {
        assert(f[i] == r[i] && f[j] == r[j]);
    }
}

/// Deduplicating and ranking a pool keeps exactly one profile per
/// identifier of the pool, the first occurrence of each, ordered by
/// relevance with ties in store order.
pub proof fn law_dedup_rank(pool: Seq<ConnectionView>, query: Seq<char>, now: i64)
    ensures
        unique_ids(rank(dedup_ids(pool), query, now)),
        forall|k: int| 0 <= k < pool.len() ==> has_id(rank(dedup_ids(pool), query, now), (#[trigger] pool[k]).id),
        forall|i: int|
            0 <= i < rank(dedup_ids(pool), query, now).len() ==> exists|k: int|
                0 <= k < pool.len() && #[trigger] rank(dedup_ids(pool), query, now)[i] == pool[k]
                    && forall|m: int| 0 <= m < k ==> (#[trigger] pool[m]).id != pool[k].id,
        ranked(rank(dedup_ids(pool), query, now), query, now),
{
    let d = dedup_ids(pool);
    lemma_dedup(pool);
    lemma_dedup_first(pool);
    lemma_rank(d, query, now);
    let r = rank(d, query, now);
    assert forall|k: int| 0 <= k < pool.len() implies has_id(r, (#[trigger] pool[k]).id) by {
        let m = choose|m: int| 0 <= m < d.len() && (#[trigger] d[m]).id == pool[k].id;
        lemma_rank_covers(d, query, now, m);
    }
    assert forall|i: int| 0 <= i < r.len() implies exists|k: int|
        0 <= k < pool.len() && #[trigger] r[i] == pool[k] && forall|m: int|
            0 <= m < k ==> (#[trigger] pool[m]).id != pool[k].id by {
        let j = choose|j: int| 0 <= j < d.len() && r[i] == d[j];
        assert(d[j] == d[j]);
    }
}

/// Each profile kept by `dedup_ids` is the first of its identifier.
proof fn lemma_dedup_first(s: Seq<ConnectionView>)
    ensures
        forall|i: int|
            0 <= i < dedup_ids(s).len() ==> exists|k: int|
                0 <= k < s.len() && #[trigger] dedup_ids(s)[i] == s[k] && forall|m: int|
                    0 <= m < k ==> (#[trigger] s[m]).id != s[k].id,
    decreases s.len(),
{
    if s.len() > 0 {
        let t = s.drop_last();
        lemma_dedup_first(t);
        lemma_dedup(t);
        let d = dedup_ids(t);
        let e = dedup_ids(s);
        assert forall|i: int| 0 <= i < e.len() implies exists|k: int|
            0 <= k < s.len() && #[trigger] e[i] == s[k] && forall|m: int|
                0 <= m < k ==> (#[trigger] s[m]).id != s[k].id by {
            if i < d.len() {
                assert(e[i] == d[i]);
                let k = choose|k: int|
                    0 <= k < t.len() && #[trigger] d[i] == t[k] && forall|m: int|
                        0 <= m < k ==> (#[trigger] t[m]).id != t[k].id;
                assert(s[k] == t[k]);
                assert forall|m: int| 0 <= m < k implies (#[trigger] s[m]).id != s[k].id by {
                    assert(s[m] == t[m]);
                }
            } else {
                let k = s.len() - 1;
                assert(e[i] == s[k]);
                assert forall|m: int| 0 <= m < k implies (#[trigger] s[m]).id != s[k].id by {
                    assert(s[m] == t[m]);
                    if t[m].id == s[k].id {
                        assert(has_id(d, t[m].id));
                    }
                }
            }
        }
    }
}

proof fn lemma_rank_covers(s: Seq<ConnectionView>, q: Seq<char>, now: i64, m: int)
    requires
        0 <= m < s.len(),
    ensures
        has_id(rank(s, q, now), s[m].id),
    decreases s.len(),
{
    let t = s.drop_last();
    let r = rank(t, q, now);
    lemma_insert_pos(r, s.last(), q, now);
    let p = insert_pos(r, s.last(), q, now) as int;
    let e = r.insert(p, s.last());
    if m == s.len() - 1 {
        assert(e[p] == s[m]);
    } else {
        lemma_rank_covers(t, q, now, m);
        let k = choose|k: int| 0 <= k < r.len() && (#[trigger] r[k]).id == t[m].id;
        assert(t[m] == s[m]);
        if k < p {
            assert(e[k] == r[k]);
        } else {
            assert(e[k + 1] == r[k]);
        }
    }
}

/// Discovery returns candidates by relevance, highest first; candidates of
/// equal relevance come in store order (most recently used first, then by name).
pub proof fn law_ranked_with_ties_in_store_order(
    s: Seq<ConnectionView>,
    query: Seq<char>,
    limit: nat,
    now: i64,
)
    ensures
        forall|i: int, j: int|
            0 <= i < j < discover_spec(s, query, limit, now).len() ==> relevance(
                #[trigger] discover_spec(s, query, limit, now)[i],
                query,
                now,
            ) >= relevance(#[trigger] discover_spec(s, query, limit, now)[j], query, now),
        forall|i: int, j: int|
            0 <= i < j < discover_spec(s, query, limit, now).len() && relevance(
                #[trigger] discover_spec(s, query, limit, now)[i],
                query,
                now,
            ) == relevance(#[trigger] discover_spec(s, query, limit, now)[j], query, now)
                ==> store_le(
                discover_spec(s, query, limit, now)[i],
                discover_spec(s, query, limit, now)[j],
            ),
{
    let c = dedup_ids(pooled(s, query, limit));
    lemma_rank(c, query, now);
    let r = rank(c, query, now);
    let f = discover_spec(s, query, limit, now);
    assert forall|i: int, j: int| 0 <= i < j < f.len() implies relevance(#[trigger] f[i], query, now)
        >= relevance(#[trigger] f[j], query, now) by {
        assert(f[i] == r[i] && f[j] == r[j]);
    }
    assert forall|i: int, j: int|
        0 <= i < j < f.len() && relevance(#[trigger] f[i], query, now) == relevance(
            #[trigger] f[j],
            query,
            now,
        ) implies store_le(f[i], f[j]) by {
        assert(f[i] == r[i] && f[j] == r[j]);
    }
}

proof fn lemma_relevance_exact(c: ConnectionView, query: Seq<char>, now: i64)
    requires
        lower_of(c.name) == lower_of(query),
        lower_of(query).len() > 0,
    ensures
        relevance(c, query, now) >= 175,
{
    let n = lower_of(c.name);
    let q = lower_of(query);
    assert(n.subrange(0, n.len() as int) =~= n);
    assert(starts(n, q));
    assert(n.subrange(0, 0 + q.len() as int) == q);
    assert(has_sub(n, q));
}

proof fn lemma_relevance_inexact(c: ConnectionView, query: Seq<char>, now: i64)
    requires
        lower_of(c.name) != lower_of(query),
    ensures
        relevance(c, query, now) <= 155,
{
}

/// Discovery ranks a profile whose name equals the query (both lowercased)
/// before, and strictly above, every profile whose name does not. The empty
/// query, scored by recency alone, is left out.
pub proof fn law_exact_match_first(
    s: Seq<ConnectionView>,
    query: Seq<char>,
    limit: nat,
    now: i64,
    i: int,
    j: int,
)
    requires
        lower_of(query).len() > 0,
        0 <= i < discover_spec(s, query, limit, now).len(),
        0 <= j < discover_spec(s, query, limit, now).len(),
        lower_of(discover_spec(s, query, limit, now)[i].name) == lower_of(query),
        lower_of(discover_spec(s, query, limit, now)[j].name) != lower_of(query),
    ensures
        i < j,
        relevance(discover_spec(s, query, limit, now)[i], query, now) > relevance(
            discover_spec(s, query, limit, now)[j],
            query,
            now,
        ),
{
    let c = dedup_ids(pooled(s, query, limit));
    lemma_rank(c, query, now);
    let r = rank(c, query, now);
    let f = discover_spec(s, query, limit, now);
    assert(f[i] == r[i] && f[j] == r[j]);
    lemma_relevance_exact(f[i], query, now);
    lemma_relevance_inexact(f[j], query, now);
    if j < i {
        assert(ranks_before(r[j], r[i], query, now));
    }
}

proof fn lemma_insert_pos_same(r: Seq<ConnectionView>, x: ConnectionView, q: Seq<char>, n1: i64, n2: i64)
    requires
        forall|m: int| 0 <= m < r.len() ==> relevance(#[trigger] r[m], q, n1) == relevance(r[m], q, n2),
        relevance(x, q, n1) == relevance(x, q, n2),
    ensures
        insert_pos(r, x, q, n1) == insert_pos(r, x, q, n2),
    decreases r.len(),
{
    if r.len() > 0 {
        assert forall|m: int| 0 <= m < r.drop_first().len() implies relevance(
            #[trigger] r.drop_first()[m],
            q,
            n1,
        ) == relevance(r.drop_first()[m], q, n2) by {
            assert(r.drop_first()[m] == r[m + 1]);
        }
        lemma_insert_pos_same(r.drop_first(), x, q, n1, n2);
        assert(relevance(r[0], q, n1) == relevance(r[0], q, n2));
    }
}

proof fn lemma_rank_same(t: Seq<ConnectionView>, q: Seq<char>, n1: i64, n2: i64)
    requires
        forall|m: int| 0 <= m < t.len() ==> relevance(#[trigger] t[m], q, n1) == relevance(t[m], q, n2),
    ensures
        rank(t, q, n1) == rank(t, q, n2),
    decreases t.len(),
{
    if t.len() > 0 {
        let u = t.drop_last();
        assert forall|m: int| 0 <= m < u.len() implies relevance(#[trigger] u[m], q, n1) == relevance(
            u[m],
            q,
            n2,
        ) by {
            assert(u[m] == t[m]);
        }
        lemma_rank_same(u, q, n1, n2);
        lemma_rank(u, q, n1);
        let r = rank(u, q, n1);
        assert forall|m: int| 0 <= m < r.len() implies relevance(#[trigger] r[m], q, n1) == relevance(
            r[m],
            q,
            n2,
        ) by {
            let j = choose|j: int| 0 <= j < u.len() && r[m] == u[j];
        }
        assert(relevance(t.last(), q, n1) == relevance(t[t.len() - 1], q, n2));
        lemma_insert_pos_same(r, t.last(), q, n1, n2);
    }
}

proof fn lemma_select_drawn(s: Seq<ConnectionView>, kind: Lookup, q: Seq<char>)
    ensures
        drawn_from(select(s, kind, q), s),
    decreases s.len(),
{
    if s.len() > 0 {
        let t = s.drop_last();
        lemma_select_drawn(t, kind, q);
        let d = select(t, kind, q);
        let e = select(s, kind, q);
        assert forall|i: int| 0 <= i < e.len() implies exists|j: int|
            0 <= j < s.len() && #[trigger] e[i] == s[j] by {
            if i < d.len() {
                let j = choose|j: int| 0 <= j < t.len() && d[i] == t[j];
                assert(e[i] == d[i]);
                assert(s[j] == t[j]);
            } else {
                assert(e[i] == s[s.len() - 1]);
            }
        }
    }
}

proof fn lemma_lookup_drawn(s: Seq<ConnectionView>, kind: Lookup, q: Seq<char>, limit: nat)
    ensures
        drawn_from(lookup_spec(s, kind, q, limit), s),
{
    lemma_select_drawn(s, kind, q);
    let l = lookup_spec(s, kind, q, limit);
    let d = select(s, kind, q);
    assert forall|i: int| 0 <= i < l.len() implies exists|j: int| 0 <= j < s.len() && #[trigger] l[i] == s[j] by {
        assert(l[i] == d[i]);
    }
}

proof fn lemma_concat_drawn(a: Seq<ConnectionView>, b: Seq<ConnectionView>, s: Seq<ConnectionView>)
    requires
        drawn_from(a, s),
        drawn_from(b, s),
    ensures
        drawn_from(a + b, s),
{
    let t = a + b;
    assert forall|i: int| 0 <= i < t.len() implies exists|j: int| 0 <= j < s.len() && #[trigger] t[i] == s[j] by {
        if i < a.len() {
            assert(t[i] == a[i]);
            let j = choose|j: int| 0 <= j < s.len() && a[i] == s[j];
            assert(t[i] == s[j]);
        } else {
            assert(t[i] == b[i - a.len()]);
            let j = choose|j: int| 0 <= j < s.len() && b[i - a.len()] == s[j];
            assert(t[i] == s[j]);
        }
    }
}

proof fn lemma_pooled_drawn(s: Seq<ConnectionView>, query: Seq<char>, limit: nat)
    ensures
        drawn_from(pooled(s, query, limit), s),
{
    lemma_lookup_drawn(s, Lookup::Name, query, limit);
    lemma_lookup_drawn(s, Lookup::Patterns, query, limit);
    lemma_lookup_drawn(s, Lookup::Host, query, limit);
    lemma_lookup_drawn(s, Lookup::Tags, query, limit);
    let a = lookup_spec(s, Lookup::Name, query, limit);
    let b = lookup_spec(s, Lookup::Patterns, query, limit);
    let c = lookup_spec(s, Lookup::Host, query, limit);
    let d = lookup_spec(s, Lookup::Tags, query, limit);
    lemma_concat_drawn(a, b, s);
    lemma_concat_drawn(a + b, c, s);
    lemma_concat_drawn(a + b + c, d, s);
}

/// Discovery depends on nothing but the records, the query, the limit and
/// the recency bonus of each record: two calls on the same store, at two
/// times between which no record's recency bonus changes, give the same
/// ranked candidates.
pub proof fn law_same_result_while_bonuses_hold(
    s: Seq<ConnectionView>,
    query: Seq<char>,
    limit: nat,
    now1: i64,
    now2: i64,
)
    requires
        forall|i: int|
            0 <= i < s.len() ==> recency_bonus((#[trigger] s[i]).last_used, now1) == recency_bonus(
                s[i].last_used,
                now2,
            ),
    ensures
        discover_spec(s, query, limit, now1) == discover_spec(s, query, limit, now2),
{
    let p = pooled(s, query, limit);
    let c = dedup_ids(p);
    lemma_pooled_drawn(s, query, limit);
    lemma_dedup(p);
    assert forall|m: int| 0 <= m < c.len() implies relevance(#[trigger] c[m], query, now1)
        == relevance(c[m], query, now2) by {
        let k = choose|k: int| 0 <= k < p.len() && c[m] == p[k];
        let j = choose|j: int| 0 <= j < s.len() && p[k] == s[j];
        assert(recency_bonus(s[j].last_used, now1) == recency_bonus(s[j].last_used, now2));
    }
    lemma_rank_same(c, query, now1, now2);
}

proof fn lemma_has_sub_empty(x: Seq<char>)
    ensures
        has_sub(x, Seq::<char>::empty()),
{
    assert(x.subrange(0, 0 + Seq::<char>::empty().len() as int) =~= Seq::<char>::empty());
}

proof fn lemma_select_all(s: Seq<ConnectionView>, kind: Lookup, q: Seq<char>)
    requires
        forall|i: int| 0 <= i < s.len() ==> lookup_hit(kind, #[trigger] s[i], q),
    ensures
        select(s, kind, q) == s,
    decreases s.len(),
{
    if s.len() > 0 {
        assert forall|i: int| 0 <= i < s.drop_last().len() implies lookup_hit(
            kind,
            #[trigger] s.drop_last()[i],
            q,
        ) by {
            assert(s.drop_last()[i] == s[i]);
        }
        lemma_select_all(s.drop_last(), kind, q);
        assert(s.drop_last().push(s.last()) =~= s);
    }
}

/// The profiles of `x` whose identifier is neither in `f` nor earlier in `x`.
spec fn fresh_after(f: Seq<ConnectionView>, x: Seq<ConnectionView>) -> Seq<ConnectionView>
    decreases x.len(),
{
    if x.len() == 0 {
        x
    } else {
        let z = fresh_after(f, x.drop_last());
        if has_id(f + z, x.last().id) {
            z
        } else {
            z.push(x.last())
        }
    }
}

proof fn lemma_dedup_same(a: Seq<ConnectionView>)
    requires
        unique_ids(a),
    ensures
        dedup_ids(a) == a,
    decreases a.len(),
{
    if a.len() > 0 {
        let t = a.drop_last();
        assert(unique_ids(t)) by {
            assert forall|i: int, j: int| 0 <= i < j < t.len() implies (#[trigger] t[i]).id != (
            #[trigger] t[j]).id by {
                assert(t[i] == a[i] && t[j] == a[j]);
            }
        }
        lemma_dedup_same(t);
        if has_id(t, a.last().id) {
            let k = choose|k: int| 0 <= k < t.len() && (#[trigger] t[k]).id == a.last().id;
            assert(t[k] == a[k]);
            assert(a[a.len() - 1] == a.last());
        }
        assert(t.push(a.last()) =~= a);
    }
}

proof fn lemma_dedup_split(f: Seq<ConnectionView>, x: Seq<ConnectionView>)
    requires
        unique_ids(f),
    ensures
        dedup_ids(f + x) == f + fresh_after(f, x),
        drawn_from(fresh_after(f, x), x),
        forall|i: int| 0 <= i < fresh_after(f, x).len() ==> !has_id(f, (#[trigger] fresh_after(f, x)[i]).id),
    decreases x.len(),
{
    if x.len() == 0 {
        assert(f + x =~= f);
        lemma_dedup_same(f);
        assert(f + fresh_after(f, x) =~= f);
    } else {
        let y = x.drop_last();
        lemma_dedup_split(f, y);
        assert((f + x).drop_last() =~= f + y);
        assert((f + x).last() == x.last());
        let z = fresh_after(f, y);
        let w = fresh_after(f, x);
        if !has_id(f + z, x.last().id) {
            assert((f + z).push(x.last()) =~= f + z.push(x.last()));
        }
        assert forall|i: int| 0 <= i < w.len() implies exists|j: int|
            0 <= j < x.len() && #[trigger] w[i] == x[j] by {
            if i < z.len() {
                let j = choose|j: int| 0 <= j < y.len() && z[i] == y[j];
                assert(w[i] == z[i]);
                assert(x[j] == y[j]);
            } else {
                assert(w[i] == x[x.len() - 1]);
            }
        }
        assert forall|i: int| 0 <= i < w.len() implies !has_id(f, (#[trigger] w[i]).id) by {
            if i < z.len() {
                assert(w[i] == z[i]);
            } else {
                assert(w[i] == x.last());
                if has_id(f, x.last().id) {
                    let k = choose|k: int| 0 <= k < f.len() && (#[trigger] f[k]).id == x.last().id;
                    assert((f + z)[k] == f[k]);
                }
            }
        }
    }
}

proof fn lemma_rank_identity(s: Seq<ConnectionView>, q: Seq<char>, now: i64)
    requires
        ranked(s, q, now),
    ensures
        rank(s, q, now) == s,
    decreases s.len(),
{
    if s.len() > 0 {
        let t = s.drop_last();
        assert(ranked(t, q, now)) by {
            assert forall|i: int, j: int| 0 <= i < j < t.len() implies ranks_before(
                #[trigger] t[i],
                #[trigger] t[j],
                q,
                now,
            ) by {
                assert(t[i] == s[i] && t[j] == s[j]);
            }
        }
        lemma_rank_identity(t, q, now);
        assert forall|m: int| 0 <= m < t.len() implies ranks_before(#[trigger] t[m], s.last(), q, now) by {
            assert(t[m] == s[m]);
            assert(s[s.len() - 1] == s.last());
        }
        lemma_insert_pos(t, s.last(), q, now);
        lemma_insert_pos_at_least(t, s.last(), q, now, t.len() as int);
        assert(t.insert(t.len() as int, s.last()) =~= s);
    }
}

/// Ranking `f + z`, where `f` is ranked and every profile of `f` ranks before
/// every profile of `z`, leaves `f` in front.
proof fn lemma_rank_keeps_prefix(f: Seq<ConnectionView>, z: Seq<ConnectionView>, q: Seq<char>, now: i64)
    requires
        ranked(f, q, now),
        forall|k: int, i: int|
            0 <= k < f.len() && 0 <= i < z.len() ==> ranks_before(#[trigger] f[k], #[trigger] z[i], q, now),
    ensures
        rank(f + z, q, now).len() >= f.len(),
        rank(f + z, q, now).subrange(0, f.len() as int) == f,
    decreases z.len(),
{
    if z.len() == 0 {
        assert(f + z =~= f);
        lemma_rank_identity(f, q, now);
        assert(f.subrange(0, f.len() as int) =~= f);
    } else {
        let y = z.drop_last();
        assert forall|k: int, i: int| 0 <= k < f.len() && 0 <= i < y.len() implies ranks_before(
            #[trigger] f[k],
            #[trigger] y[i],
            q,
            now,
        ) by {
            assert(y[i] == z[i]);
        }
        lemma_rank_keeps_prefix(f, y, q, now);
        assert((f + z).drop_last() =~= f + y);
        assert((f + z).last() == z.last());
        let r = rank(f + y, q, now);
        let x = z.last();
        assert forall|m: int| 0 <= m < f.len() implies ranks_before(#[trigger] r[m], x, q, now) by {
            assert(r[m] == r.subrange(0, f.len() as int)[m]);
            assert(z[z.len() - 1] == x);
        }
        lemma_insert_pos(r, x, q, now);
        lemma_insert_pos_at_least(r, x, q, now, f.len() as int);
        let p = insert_pos(r, x, q, now) as int;
        assert(r.insert(p, x).subrange(0, f.len() as int) =~= r.subrange(0, f.len() as int));
    }
}

/// The empty query finds every record by name and scores by recency alone,
/// so discovery returns the first `limit` records in store order.
pub(crate) proof fn lemma_empty_query(s: Seq<ConnectionView>, query: Seq<char>, limit: nat, now: i64)
    requires
        well_formed(s),
        lower_of(query) == Seq::<char>::empty(),
    ensures
        discover_spec(s, query, limit, now) == first_n(s, limit),
{
    assert forall|i: int| 0 <= i < s.len() implies lookup_hit(Lookup::Name, #[trigger] s[i], query) by {
        lemma_has_sub_empty(lower_of(s[i].name));
    }
    lemma_select_all(s, Lookup::Name, query);
    let f = first_n(s, limit);
    let x = lookup_spec(s, Lookup::Patterns, query, limit) + lookup_spec(s, Lookup::Host, query, limit)
        + lookup_spec(s, Lookup::Tags, query, limit);
    let pool = pooled(s, query, limit);
    assert(pool =~= f + x);
    assert(f.len() <= s.len());
    assert forall|i: int| 0 <= i < f.len() implies #[trigger] f[i] == s[i] by {}
    assert(unique_ids(f)) by {
        assert forall|i: int, j: int| 0 <= i < j < f.len() implies (#[trigger] f[i]).id != (
        #[trigger] f[j]).id by {
            assert(f[i] == s[i] && f[j] == s[j]);
        }
    }
    assert(ranked(f, query, now)) by {
        assert forall|i: int, j: int| 0 <= i < j < f.len() implies ranks_before(
            #[trigger] f[i],
            #[trigger] f[j],
            query,
            now,
        ) by {
            assert(f[i] == s[i] && f[j] == s[j]);
            assert(newer_or_same(s[i].last_used, s[j].last_used));
        }
    }
    lemma_dedup_split(f, x);
    let z = fresh_after(f, x);
    lemma_pooled_drawn(s, query, limit);
    assert(drawn_from(x, s)) by {
        assert forall|i: int| 0 <= i < x.len() implies exists|j: int| 0 <= j < s.len() && #[trigger] x[i] == s[j] by {
            assert(pool[f.len() + i] == x[i]);
        }
    }
    assert forall|k: int, i: int| 0 <= k < f.len() && 0 <= i < z.len() implies ranks_before(
        #[trigger] f[k],
        #[trigger] z[i],
        query,
        now,
    ) by {
        let a = choose|a: int| 0 <= a < x.len() && z[i] == x[a];
        let j = choose|j: int| 0 <= j < s.len() && x[a] == s[j];
        if j < f.len() {
            assert(f[j] == s[j]);
        }
        assert(j >= f.len());
        assert(store_le(s[k], s[j]));
        assert(newer_or_same(s[k].last_used, s[j].last_used));
    }
    lemma_rank_keeps_prefix(f, z, query, now);
    let r = rank(f + z, query, now);
    lemma_rank(f + z, query, now);
    if limit < s.len() {
        assert(first_n(r, limit) =~= r.subrange(0, f.len() as int));
    } else {
        assert(f == s);
        if z.len() > 0 {
            let a = choose|a: int| 0 <= a < x.len() && z[0] == x[a];
            let j = choose|j: int| 0 <= j < s.len() && x[a] == s[j];
            assert(f[j] == s[j]);
            assert(!has_id(f, z[0].id));
        }
        assert(f + z =~= f);
        assert(r.subrange(0, f.len() as int) =~= r);
    }
}

} // verus!

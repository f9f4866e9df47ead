//! The discovery engine: an in-memory record store ordered by recency, its
//! lookups, and the merge, deduplication and ranking of their results.

use vstd::prelude::*;
use crate::matcher::{matches_enhanced_patterns, pattern_match};
use crate::models::{Connection, ConnectionView};
use crate::scorer::{any_tag_contains, any_tag_has, calculate_relevance_score, relevance};
use crate::text::{chars_of, contains_chars, has_sub, lex_le, lex_le_chars, lower_of, lowercase};

verus! {

/// The most candidates one round of discovery offers.
pub const DISCOVERY_LIMIT: usize = 10;

/// The most recently used profiles offered when nothing matches.
pub const RECENT_LIMIT: usize = 5;

/// The text field that a substring lookup reads.
#[derive(Debug, Clone, Copy, PartialEq, Eq)]
pub enum SearchField {
    Name,
    Host,
}

/// The lookups that the store answers.
#[derive(Debug, Clone, Copy, PartialEq, Eq)]
pub enum Lookup {
    /// The name contains the query, ignoring case.
    Name,
    /// The lowercase name matches the query by a supplementary strategy.
    Patterns,
    /// The host contains the query, ignoring case.
    Host,
    /// Some tag contains the query, ignoring case.
    Tags,
    /// The profile has been used.
    Used,
}

/// Whether a profile answers a lookup for `q`.
pub open spec fn lookup_hit(kind: Lookup, c: ConnectionView, q: Seq<char>) -> bool {
    match kind {
        Lookup::Name => has_sub(lower_of(c.name), lower_of(q)),
        Lookup::Patterns => pattern_match(q, lower_of(c.name)),
        Lookup::Host => has_sub(lower_of(c.host), lower_of(q)),
        Lookup::Tags => any_tag_has(c.tags, lower_of(q)),
        Lookup::Used => c.last_used is Some,
    }
}

/// The profiles of `s` that answer a lookup, in the order of `s`.
pub open spec fn select(s: Seq<ConnectionView>, kind: Lookup, q: Seq<char>) -> Seq<ConnectionView>
    decreases s.len(),
{
    if s.len() == 0 {
        s
    } else if lookup_hit(kind, s.last(), q) {
        select(s.drop_last(), kind, q).push(s.last())
    } else {
        select(s.drop_last(), kind, q)
    }
}

/// The first `n` elements of `s`, or all of them if there are fewer.
pub open spec fn first_n<T>(s: Seq<T>, n: nat) -> Seq<T> {
    if n >= s.len() {
        s
    } else {
        s.take(n as int)
    }
}

/// The answer to a lookup bounded by `limit`.
pub open spec fn lookup_spec(s: Seq<ConnectionView>, kind: Lookup, q: Seq<char>, limit: nat) -> Seq<
    ConnectionView,
> {
    first_n(select(s, kind, q), limit)
}

/// Whether some element of `s` has identifier `id`.
pub open spec fn has_id(s: Seq<ConnectionView>, id: u128) -> bool {
    exists|k: int| 0 <= k < s.len() && (#[trigger] s[k]).id == id
}

/// `s` with every profile after the first of its identifier left out.
pub open spec fn dedup_ids(s: Seq<ConnectionView>) -> Seq<ConnectionView>
    decreases s.len(),
{
    if s.len() == 0 {
        s
    } else {
        let d = dedup_ids(s.drop_last());
        if has_id(d, s.last().id) {
            d
        } else {
            d.push(s.last())
        }
    }
}

/// Whether `a` goes no later than `b` in a ranking: higher relevance first,
/// equal relevance in store order.
pub open spec fn ranks_before(a: ConnectionView, b: ConnectionView, q: Seq<char>, now: i64) -> bool {
    relevance(a, q, now) > relevance(b, q, now) || (relevance(a, q, now) == relevance(b, q, now)
        && store_le(a, b))
}

/// Where `x` goes in `r`: after every leading profile that ranks before it.
pub open spec fn insert_pos(r: Seq<ConnectionView>, x: ConnectionView, q: Seq<char>, now: i64) -> nat
    decreases r.len(),
{
    if r.len() == 0 {
        0
    } else if !ranks_before(r[0], x, q, now) {
        0
    } else {
        1 + insert_pos(r.drop_first(), x, q, now)
    }
}

/// `s` sorted by relevance, highest first, and in store order among equal
/// relevance.
pub open spec fn rank(s: Seq<ConnectionView>, q: Seq<char>, now: i64) -> Seq<ConnectionView>
    decreases s.len(),
{
    if s.len() == 0 {
        s
    } else {
        let r = rank(s.drop_last(), q, now);
        r.insert(insert_pos(r, s.last(), q, now) as int, s.last())
    }
}

/// The answers of the four lookups for the query, one after another.
pub open spec fn pooled(s: Seq<ConnectionView>, query: Seq<char>, limit: nat) -> Seq<ConnectionView> {
    lookup_spec(s, Lookup::Name, query, limit) + lookup_spec(s, Lookup::Patterns, query, limit)
        + lookup_spec(s, Lookup::Host, query, limit) + lookup_spec(s, Lookup::Tags, query, limit)
}

/// What discovery returns: the pooled answers, each profile once (its first
/// occurrence), ranked by relevance with ties in store order, and cut to
/// `limit`.
pub open spec fn discover_spec(s: Seq<ConnectionView>, query: Seq<char>, limit: nat, now: i64) -> Seq<
    ConnectionView,
> {
    first_n(rank(dedup_ids(pooled(s, query, limit)), query, now), limit)
}

/// Whether `a` was used no earlier than `b`, a profile never used counting as
/// the oldest.
pub open spec fn newer_or_same(a: Option<i64>, b: Option<i64>) -> bool {
    match (a, b) {
        (_, None) => true,
        (None, Some(_)) => false,
        (Some(x), Some(y)) => x >= y,
    }
}

/// Whether `a` comes no later than `b` in store order: most recently used
/// first, never-used ones last, and by name (code point order) among those
/// used at the same time.
pub open spec fn store_le(a: ConnectionView, b: ConnectionView) -> bool {
    match (a.last_used, b.last_used) {
        (Some(x), Some(y)) => x > y || (x == y && lex_le(a.name, b.name)),
        (Some(_), None) => true,
        (None, Some(_)) => false,
        (None, None) => lex_le(a.name, b.name),
    }
}

/// Identifiers are unique and profiles come in store order.
pub open spec fn well_formed(s: Seq<ConnectionView>) -> bool {
    forall|i: int, j: int|
        0 <= i < j < s.len() ==> (#[trigger] s[i]).id != (#[trigger] s[j]).id && store_le(
            s[i],
            s[j],
        )
}

proof fn lemma_dv_push(a: Vec<Connection>, b: Vec<Connection>, x: Connection)
    requires
        b@ == a@.push(x),
    ensures
        b.deep_view() == a.deep_view().push(x@),
{
    assert(b.deep_view() =~= a.deep_view().push(x@));
}

proof fn lemma_dv_insert(a: Vec<Connection>, b: Vec<Connection>, p: int, x: Connection)
    requires
        0 <= p <= a@.len(),
        b@ == a@.insert(p, x),
    ensures
        b.deep_view() == a.deep_view().insert(p, x@),
{
    assert(b.deep_view() =~= a.deep_view().insert(p, x@));
}

proof fn lemma_dv_append(a: Vec<Connection>, b: Vec<Connection>, c: Vec<Connection>)
    requires
        c@ == a@ + b@,
    ensures
        c.deep_view() == a.deep_view() + b.deep_view(),
{
    assert(c.deep_view() =~= a.deep_view() + b.deep_view());
}

proof fn lemma_first_n_push<T>(s: Seq<T>, x: T, n: nat)
    ensures
        first_n(s.push(x), n) == (if s.len() < n {
            first_n(s, n).push(x)
        } else {
            first_n(s, n)
        }),
        first_n(s, n).len() == if s.len() < n {
            s.len()
        } else {
            n
        },
{
    if s.len() >= n {
        assert(s.push(x).take(n as int) =~= first_n(s, n));
    }
}

/// Whether `a` comes no later than `b` in store order.
pub fn in_store_order(a: &Connection, b: &Connection) -> (r: bool)
    ensures
        r == store_le(a@, b@),
{
    let by_name = lex_le_chars(&chars_of(a.name.as_str()), &chars_of(b.name.as_str()));
    match (a.last_used, b.last_used) {
        (Some(x), Some(y)) => x > y || (x == y && by_name),
        (Some(_), None) => true,
        (None, Some(_)) => false,
        (None, None) => by_name,
    }
}

/// A record store held in memory, in store order.
pub struct ConnectionStore {
    records: Vec<Connection>,
}

impl View for ConnectionStore {
    type V = Seq<ConnectionView>;

    closed spec fn view(&self) -> Seq<ConnectionView> {
        self.records.deep_view()
    }
}

impl ConnectionStore {
    #[verifier::type_invariant]
    spec fn inv(&self) -> bool {
        well_formed(self.records.deep_view())
    }

    /// A store of the given records, if their identifiers are unique and they
    /// come in store order: most recently used first, never-used ones last,
    /// and by name among those used at the same time.
    pub fn new(records: Vec<Connection>) -> (r: Option<ConnectionStore>)
        ensures
            r is Some <==> well_formed(records.deep_view()),
            r matches Some(st) ==> st@ == records.deep_view(),
    {
        let n = records.len();
        let mut i: usize = 0;
        while i < n
            invariant
                n == records.len(),
                i <= n,
                forall|a: int, b: int|
                    0 <= a < i && a < b < n ==> (#[trigger] records.deep_view()[a]).id
                        != (#[trigger] records.deep_view()[b]).id && store_le(
                        records.deep_view()[a],
                        records.deep_view()[b],
                    ),
            decreases n - i,
        {
            let mut j: usize = i + 1;
            while j < n
                invariant
                    n == records.len(),
                    i < n,
                    i < j <= n,
                    forall|a: int, b: int|
                        0 <= a < i && a < b < n ==> (#[trigger] records.deep_view()[a]).id
                            != (#[trigger] records.deep_view()[b]).id && store_le(
                            records.deep_view()[a],
                            records.deep_view()[b],
                        ),
                    forall|b: int|
                        i < b < j ==> records.deep_view()[i as int].id != (
                        #[trigger] records.deep_view()[b]).id && store_le(
                            records.deep_view()[i as int],
                            records.deep_view()[b],
                        ),
                decreases n - j,
            {
                let x = &records[i];
                let y = &records[j];
                assert(records.deep_view()[i as int] == x@);
                assert(records.deep_view()[j as int] == y@);
                if x.id == y.id || !in_store_order(x, y) {
                    return None;
                }
                j += 1;
            }
            i += 1;
        }
        Some(ConnectionStore { records })
    }

    /// Whether the store is empty.
    pub fn is_empty(&self) -> (r: bool)
        ensures
            r == (self@.len() == 0),
    {
        self.records.len() == 0
    }

    /// The records, in store order.
    pub fn records(&self) -> (r: &Vec<Connection>)
        ensures
            r.deep_view() == self@,
            well_formed(self@),
    {
        proof {
            use_type_invariant(self);
        }
        &self.records
    }

    /// The first `limit` records, in store order, that answer a lookup for `query`.
    pub fn lookup(&self, kind: Lookup, query: &str, limit: usize) -> (r: Vec<Connection>)
        ensures
            r.deep_view() == lookup_spec(self@, kind, query@, limit as nat),
            query@.len() == 0 ==> lower_of(query@) == Seq::<char>::empty(),
    {
        let q_text = lowercase(query);
        assert(query@.len() == 0 ==> q_text@ =~= Seq::<char>::empty());
        let ql = chars_of(q_text.as_str());
        let mut out: Vec<Connection> = Vec::new();
        let mut i: usize = 0;
        while i < self.records.len()
            invariant
                i <= self.records.len(),
                ql@ == lower_of(query@),
                out.deep_view() == first_n(
                    select(self@.subrange(0, i as int), kind, query@),
                    limit as nat,
                ),
            decreases self.records.len() - i,
        {
            let c = &self.records[i];
            assert(self@[i as int] == c@);
            let hit = match kind {
                Lookup::Name => {
                    let t = lowercase(c.name.as_str());
                    contains_chars(&chars_of(t.as_str()), &ql)
                },
                Lookup::Patterns => {
                    let t = lowercase(c.name.as_str());
                    matches_enhanced_patterns(query, t.as_str())
                },
                Lookup::Host => {
                    let t = lowercase(c.host.as_str());
                    contains_chars(&chars_of(t.as_str()), &ql)
                },
                Lookup::Tags => any_tag_contains(&c.tags, &ql),
                Lookup::Used => c.last_used.is_some(),
            };
            let ghost pre = self@.subrange(0, i as int);
            let ghost sel = select(pre, kind, query@);
            assert(self@.subrange(0, i + 1).drop_last() =~= pre);
            assert(self@.subrange(0, i + 1).last() == c@);
            proof {
                lemma_first_n_push(sel, c@, limit as nat);
            }
            if hit && out.len() < limit {
                let ghost before = out;
                let d = c.duplicate();
                out.push(d);
                proof {
                    lemma_dv_push(before, out, d);
                }
            }
            i += 1;
        }
        assert(self@.subrange(0, self@.len() as int) =~= self@);
        out
    }

    /// The first `limit` records whose name (or host) contains `query`,
    /// ignoring case.
    pub fn search_by_field(&self, query: &str, field: SearchField, limit: usize) -> (r: Vec<
        Connection,
    >)
        ensures
            r.deep_view() == lookup_spec(
                self@,
                match field {
                    SearchField::Name => Lookup::Name,
                    SearchField::Host => Lookup::Host,
                },
                query@,
                limit as nat,
            ),
    {
        match field {
            SearchField::Name => self.lookup(Lookup::Name, query, limit),
            SearchField::Host => self.lookup(Lookup::Host, query, limit),
        }
    }

    /// The first `limit` records whose lowercase name matches `query` by a
    /// supplementary strategy.
    pub fn enhanced_fuzzy_search(&self, query: &str, limit: usize) -> (r: Vec<Connection>)
        ensures
            r.deep_view() == lookup_spec(self@, Lookup::Patterns, query@, limit as nat),
    {
        self.lookup(Lookup::Patterns, query, limit)
    }

    /// The first `limit` records with a tag that contains `query`, ignoring case.
    pub fn search_in_tags(&self, query: &str, limit: usize) -> (r: Vec<Connection>)
        ensures
            r.deep_view() == lookup_spec(self@, Lookup::Tags, query@, limit as nat),
    {
        self.lookup(Lookup::Tags, query, limit)
    }

    /// The `limit` most recently used records.
    pub fn get_recent_connections(&self, limit: usize) -> (r: Vec<Connection>)
        ensures
            r.deep_view() == lookup_spec(self@, Lookup::Used, Seq::empty(), limit as nat),
    {
        let none = "";
        proof {
            reveal_strlit("");
        }
        assert(none@ =~= Seq::<char>::empty());
        self.lookup(Lookup::Used, none, limit)
    }
}

/// Why discovery gave no answer.
#[derive(Debug, Clone, Copy, PartialEq, Eq)]
pub enum DiscoveryError {
    /// Every one of the four lookups failed.
    DiscoveryUnavailable,
}

/// The profiles of a lookup that succeeded; none for one that failed.
pub open spec fn answered(o: Option<Vec<Connection>>) -> Seq<ConnectionView> {
    match o {
        Some(v) => v.deep_view(),
        None => Seq::empty(),
    }
}


/// Whether some profile of `v` has identifier `id`.
fn holds_id(v: &Vec<Connection>, id: u128) -> (r: bool)
    ensures
        r == has_id(v.deep_view(), id),
{
    let mut i: usize = 0;
    while i < v.len()
        invariant
            i <= v.len(),
            forall|k: int| 0 <= k < i ==> (#[trigger] v.deep_view()[k]).id != id,
        decreases v.len() - i,
    {
        assert(v.deep_view()[i as int] == v@[i as int]@);
        if v[i].id == id {
            return true;
        }
        i += 1;
    }
    false
}

/// `items` sorted by relevance to `query` at time `now`, highest first, and
/// in store order among equal relevance.
pub fn rank_by_relevance(items: &Vec<Connection>, query: &str, now: i64) -> (r: Vec<Connection>)
    ensures
        r.deep_view() == rank(items.deep_view(), query@, now),
{
    let ghost ud = items.deep_view();
    let ghost q = query@;
    let mut out: Vec<Connection> = Vec::new();
    let mut scores: Vec<u32> = Vec::new();
    let mut i: usize = 0;
    while i < items.len()
        invariant
            i <= items.len(),
            ud == items.deep_view(),
            q == query@,
            out.deep_view() == rank(ud.subrange(0, i as int), q, now),
            scores@.len() == out@.len(),
            forall|j: int|
                0 <= j < scores@.len() ==> scores@[j] == relevance(
                    #[trigger] out.deep_view()[j],
                    q,
                    now,
                ),
        decreases items.len() - i,
    {
        let c = &items[i];
        assert(ud[i as int] == c@);
        assert(ud.subrange(0, i + 1).drop_last() =~= ud.subrange(0, i as int));
        let k = calculate_relevance_score(c, query, now);
        let ghost od = out.deep_view();
        let mut p: usize = 0;
        assert(od.subrange(0, od.len() as int) =~= od);
        while p < scores.len() && (scores[p] > k || (scores[p] == k && in_store_order(&out[p], c)))
            invariant
                p <= scores@.len(),
                scores@.len() == od.len(),
                od == out.deep_view(),
                k == relevance(c@, q, now),
                forall|j: int|
                    0 <= j < scores@.len() ==> scores@[j] == relevance(#[trigger] od[j], q, now),
                insert_pos(od, c@, q, now) == p + insert_pos(
                    od.subrange(p as int, od.len() as int),
                    c@,
                    q,
                    now,
                ),
            decreases scores.len() - p,
        {
            assert(out.deep_view()[p as int] == out@[p as int]@);
            assert(od.subrange(p as int, od.len() as int).drop_first() =~= od.subrange(
                p + 1,
                od.len() as int,
            ));
            assert(od.subrange(p as int, od.len() as int)[0] == od[p as int]);
            p += 1;
        }
        if p < scores.len() {
            assert(out.deep_view()[p as int] == out@[p as int]@);
            assert(od.subrange(p as int, od.len() as int)[0] == od[p as int]);
        }
        assert(insert_pos(od, c@, q, now) == p);
        let ghost before = out;
        let ghost sbefore = scores@;
        let d = c.duplicate();
        out.insert(p, d);
        scores.insert(p, k);
        proof {
            lemma_dv_insert(before, out, p as int, d);
            assert forall|j: int| 0 <= j < scores@.len() implies scores@[j] == relevance(
                #[trigger] out.deep_view()[j],
                q,
                now,
            ) by {
                if j < p {
                    assert(out.deep_view()[j] == od[j]);
                } else if j > p {
                    assert(out.deep_view()[j] == od[j - 1]);
                    assert(scores@[j] == sbefore[j - 1]);
                }
            }
        }
        i += 1;
    }
    assert(ud.subrange(0, ud.len() as int) =~= ud);
    out
}

/// Appends the profiles of a lookup that succeeded.
fn pool_into(all: &mut Vec<Connection>, part: Option<Vec<Connection>>)
    ensures
        final(all).deep_view() == old(all).deep_view() + answered(part),
{
    match part {
        Some(v) => {
            let mut v = v;
            let ghost a0 = *all;
            let ghost v0 = v;
            all.append(&mut v);
            proof {
                lemma_dv_append(a0, v0, *all);
            }
        },
        None => {
            assert(old(all).deep_view() + Seq::<ConnectionView>::empty() =~= old(all).deep_view());
        },
    }
}

/// Keeps the first profile of each identifier, then sorts by relevance to
/// `query` at time `now`, highest first, and in store order among equal
/// relevance.
pub fn deduplicate_and_rank(connections: &mut Vec<Connection>, query: &str, now: i64)
    ensures
        final(connections).deep_view() == rank(dedup_ids(old(connections).deep_view()), query@, now),
{
    let ghost dv = connections.deep_view();
    let mut uniq: Vec<Connection> = Vec::new();
    let mut i: usize = 0;
    while i < connections.len()
        invariant
            i <= connections.len(),
            dv == connections.deep_view(),
            uniq.deep_view() == dedup_ids(dv.subrange(0, i as int)),
        decreases connections.len() - i,
    {
        let c = &connections[i];
        assert(dv[i as int] == c@);
        assert(dv.subrange(0, i + 1).drop_last() =~= dv.subrange(0, i as int));
        if !holds_id(&uniq, c.id) {
            let ghost before = uniq;
            let d = c.duplicate();
            uniq.push(d);
            proof {
                lemma_dv_push(before, uniq, d);
            }
        }
        i += 1;
    }
    assert(dv.subrange(0, dv.len() as int) =~= dv);
    *connections = rank_by_relevance(&uniq, query, now);
}

/// Merges the answers of the four lookups (by name, by supplementary
/// pattern, by host, by tag) for `query`: a failed lookup (`None`)
/// contributes nothing, and only when all four failed is discovery
/// unavailable. The pooled profiles are kept once each (first occurrence),
/// ranked by relevance with ties in store order, and cut to `limit`.
pub fn merge_lookups(
    by_name: Option<Vec<Connection>>,
    by_pattern: Option<Vec<Connection>>,
    by_host: Option<Vec<Connection>>,
    by_tag: Option<Vec<Connection>>,
    query: &str,
    limit: usize,
    now: i64,
) -> (r: Result<Vec<Connection>, DiscoveryError>)
    ensures
        r is Err <==> (by_name is None && by_pattern is None && by_host is None && by_tag is None),
        r matches Ok(v) ==> v.len() <= limit,
        r matches Ok(v) ==> v.deep_view() == first_n(
            rank(
                dedup_ids(
                    answered(by_name) + answered(by_pattern) + answered(by_host) + answered(by_tag),
                ),
                query@,
                now,
            ),
            limit as nat,
        ),
{
    if by_name.is_none() && by_pattern.is_none() && by_host.is_none() && by_tag.is_none() {
        return Err(DiscoveryError::DiscoveryUnavailable);
    }
    let mut all: Vec<Connection> = Vec::new();
    assert(all.deep_view() =~= Seq::<ConnectionView>::empty());
    pool_into(&mut all, by_name);
    pool_into(&mut all, by_pattern);
    pool_into(&mut all, by_host);
    pool_into(&mut all, by_tag);
    deduplicate_and_rank(&mut all, query, now);
    let ghost full = all;
    all.truncate(limit);
    assert(all.deep_view() =~= first_n(full.deep_view(), limit as nat));
    Ok(all)
}

impl ConnectionStore {
    /// Ranked candidates for `query` at time `now`: the profiles found by the
    /// four lookups (each bounded by `limit`), each once, ranked by relevance
    /// with ties in store order, and cut to `limit`. The empty query
    /// gives the first `limit` profiles in store order.
    pub fn fuzzy_search_connections(&self, query: &str, limit: usize, now: i64) -> (r: Vec<Connection>)
        ensures
            r.deep_view() == discover_spec(self@, query@, limit as nat, now),
            r.len() <= limit,
            well_formed(self@),
            query@.len() == 0 ==> r.deep_view() == first_n(self@, limit as nat),
    {
        proof {
            use_type_invariant(self);
        }
        let a = self.lookup(Lookup::Name, query, limit);
        let b = self.lookup(Lookup::Patterns, query, limit);
        let c = self.lookup(Lookup::Host, query, limit);
        let d = self.lookup(Lookup::Tags, query, limit);
        proof {
            if query@.len() == 0 {
                crate::laws::lemma_empty_query(self@, query@, limit as nat, now);
            }
        }
        match merge_lookups(Some(a), Some(b), Some(c), Some(d), query, limit, now) {
            Ok(v) => v,
            Err(_) => Vec::new(),
        }
    }
}

} // verus!

//! The composite relevance score: additive textual bonuses plus a recency bonus.

use vstd::prelude::*;
use crate::matcher::{matches_lowered, pattern_lowered};
use crate::models::{Connection, ConnectionView};
use crate::text::{
    chars_of, contains_chars, has_sub, lower_of, lowercase, same_chars, starts, starts_with_chars,
    string_of,
};

verus! {

/// Seconds in a day, a week and thirty days.
pub const DAY_SECONDS: i64 = 86400;

pub const WEEK_SECONDS: i64 = 604800;

pub const MONTH_SECONDS: i64 = 2592000;

/// The bonus for a use less than a day (30), a week (15) or thirty days (5)
/// before `now`; none for an older use or none at all. A use after `now`
/// counts as less than a day old.
pub open spec fn recency_bonus(last_used: Option<i64>, now: i64) -> nat {
    match last_used {
        None => 0,
        Some(t) => {
            let age = now - t;
            if age < DAY_SECONDS {
                30
            } else if age < WEEK_SECONDS {
                15
            } else if age < MONTH_SECONDS {
                5
            } else {
                0
            }
        },
    }
}

/// Whether some tag, lowercased, contains `q`.
pub open spec fn any_tag_has(tags: Seq<Seq<char>>, q: Seq<char>) -> bool {
    exists|k: int| 0 <= k < tags.len() && has_sub(lower_of(#[trigger] tags[k]), q)
}

/// Whether some of the tags (already lowercase) contains `q`.
pub open spec fn some_tag_has(ts: Seq<Seq<char>>, q: Seq<char>) -> bool {
    exists|k: int| 0 <= k < ts.len() && has_sub(#[trigger] ts[k], q)
}

/// The tags, each lowercased.
pub open spec fn lowered_tags(ts: Seq<Seq<char>>) -> Seq<Seq<char>> {
    ts.map_values(|t: Seq<char>| lower_of(t))
}

/// The text bonuses for a query `q`, name `n`, host `h` and tags `ts`, all
/// already lowercase.
pub open spec fn bonus_lowered(q: Seq<char>, n: Seq<char>, h: Seq<char>, ts: Seq<Seq<char>>) -> nat {
    (if n == q {
        100nat
    } else {
        0
    }) + (if starts(n, q) {
        50nat
    } else {
        0
    }) + (if has_sub(n, q) {
        25nat
    } else {
        0
    }) + (if pattern_lowered(q, n) {
        15nat
    } else {
        0
    }) + (if has_sub(h, q) {
        15nat
    } else {
        0
    }) + (if some_tag_has(ts, q) {
        20nat
    } else {
        0
    })
}

/// The bonuses for the name, host and tags matching the query, all lowercased.
pub open spec fn text_bonus(c: ConnectionView, query: Seq<char>) -> nat {
    bonus_lowered(lower_of(query), lower_of(c.name), lower_of(c.host), lowered_tags(c.tags))
}

/// The relevance of a profile to a query at time `now`: the text bonuses
/// plus the recency bonus. A query that is empty once lowercased matches
/// every text alike, so it is scored by recency alone.
pub open spec fn relevance(c: ConnectionView, query: Seq<char>, now: i64) -> nat {
    if lower_of(query).len() == 0 {
        recency_bonus(c.last_used, now)
    } else {
        text_bonus(c, query) + recency_bonus(c.last_used, now)
    }
}

/// The recency bonus of a last use, at time `now`.
pub fn recency_score(last_used: Option<i64>, now: i64) -> (r: u32)
    ensures
        r == recency_bonus(last_used, now),
{
    match last_used {
        None => 0,
        Some(t) => {
            let age: i128 = now as i128 - t as i128;
            if age < DAY_SECONDS as i128 {
                30
            } else if age < WEEK_SECONDS as i128 {
                15
            } else if age < MONTH_SECONDS as i128 {
                5
            } else {
                0
            }
        },
    }
}

/// Whether some tag, lowercased, contains `q`.
pub fn any_tag_contains(tags: &Vec<String>, q: &Vec<char>) -> (r: bool)
    ensures
        r == any_tag_has(tags.deep_view(), q@),
{
    let mut i: usize = 0;
    while i < tags.len()
        invariant
            i <= tags.len(),
            forall|k: int| 0 <= k < i ==> !has_sub(lower_of(#[trigger] tags.deep_view()[k]), q@),
        decreases tags.len() - i,
    {
        let lowered = lowercase(tags[i].as_str());
        if contains_chars(&chars_of(lowered.as_str()), q) {
            assert(tags.deep_view()[i as int] == tags@[i as int]@);
            return true;
        }
        assert(tags.deep_view()[i as int] == tags@[i as int]@);
        i += 1;
    }
    false
}

/// The relevance of `connection` to `query` at time `now`: 100 for a name equal
/// to the query, 50 for a name that begins with it, 25 for a name that contains
/// it, 15 for a supplementary pattern match on the name, 15 for a host that
/// contains it, 20 once for any tag that contains it, all compared in
/// lowercase, plus the recency bonus. The empty query gets the recency bonus
/// alone.
pub fn calculate_relevance_score(connection: &Connection, query: &str, now: i64) -> (r: u32)
    ensures
        r == relevance(connection@, query@, now),
        r <= 255,
{
    let q_text = lowercase(query);
    let q = chars_of(q_text.as_str());
    if q.len() == 0 {
        return recency_score(connection.last_used, now);
    }
    text_score(connection, query, &q) + recency_score(connection.last_used, now)
}

/// The text bonuses of `connection` for `query`, whose lowercase form is `q`.
fn text_score(connection: &Connection, query: &str, q: &Vec<char>) -> (r: u32)
    requires
        q@ == lower_of(query@),
    ensures
        r == text_bonus(connection@, query@),
        r <= 225,
{
    let q_text = string_of(q);
    let name = lowercase(connection.name.as_str());
    let host = lowercase(connection.host.as_str());
    let mut tags: Vec<String> = Vec::new();
    let mut i: usize = 0;
    while i < connection.tags.len()
        invariant
            i <= connection.tags.len(),
            tags.deep_view() == lowered_tags(connection@.tags).subrange(0, i as int),
        decreases connection.tags.len() - i,
    {
        let ghost before = tags;
        let t = lowercase(connection.tags[i].as_str());
        assert(connection@.tags[i as int] == connection.tags@[i as int]@);
        tags.push(t);
        assert(tags.deep_view() =~= before.deep_view().push(t@));
        i += 1;
        assert(tags.deep_view() =~= lowered_tags(connection@.tags).subrange(0, i as int));
    }
    assert(lowered_tags(connection@.tags).subrange(0, i as int) =~= lowered_tags(connection@.tags));
    text_bonus_lowered(q_text.as_str(), name.as_str(), host.as_str(), &tags)
}

/// The text bonuses for the query `q`, name, host and tags, all already
/// lowercase: 100 for a name equal to the query, 50 for a name that begins
/// with it, 25 for a name that contains it, 15 for a supplementary pattern
/// match on the name, 15 for a host that contains it, 20 once for any tag
/// that contains it.
pub fn text_bonus_lowered(q_text: &str, name: &str, host: &str, tags: &Vec<String>) -> (r: u32)
    ensures
        r == bonus_lowered(q_text@, name@, host@, tags.deep_view()),
        r <= 225,
{
    let q = chars_of(q_text);
    let n = chars_of(name);
    let mut score: u32 = 0;
    if same_chars(&n, &q) {
        score = score + 100;
    }
    if starts_with_chars(&n, &q) {
        score = score + 50;
    }
    if contains_chars(&n, &q) {
        score = score + 25;
    }
    if matches_lowered(q_text, name) {
        score = score + 15;
    }
    if contains_chars(&chars_of(host), &q) {
        score = score + 15;
    }
    let mut found = false;
    let mut i: usize = 0;
    while i < tags.len()
        invariant
            i <= tags.len(),
            found == exists|k: int| 0 <= k < i && has_sub(#[trigger] tags.deep_view()[k], q@),
        decreases tags.len() - i,
    {
        assert(tags.deep_view()[i as int] == tags@[i as int]@);
        if !found && contains_chars(&chars_of(tags[i].as_str()), &q) {
            found = true;
        }
        i += 1;
    }
    if found {
        score = score + 20;
    }
    score
}

} // verus!

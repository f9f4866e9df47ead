//! Summary statistics of a record store.

use vstd::prelude::*;
use crate::discovery::{lookup_spec, ConnectionStore, Lookup};
use crate::models::{Connection, ConnectionView};

verus! {

/// How many tag entries name one tag.
#[derive(Debug, Clone)]
pub struct TagCount {
    pub tag: String,
    pub count: usize,
}

impl View for TagCount {
    type V = (Seq<char>, nat);

    open spec fn view(&self) -> (Seq<char>, nat) {
        (self.tag@, self.count as nat)
    }
}

impl DeepView for TagCount {
    type V = (Seq<char>, nat);

    open spec fn deep_view(&self) -> (Seq<char>, nat) {
        self@
    }
}

/// Counts for a store.
#[derive(Debug, Clone)]
pub struct ConnectionStats {
    pub total_connections: usize,
    /// The most recently used profile.
    pub most_used: Option<Connection>,
    /// Up to ten used profiles, most recent first.
    pub recently_used: Vec<Connection>,
    /// Each tag with the number of its entries, in order of first appearance.
    pub by_tag: Vec<TagCount>,
}

/// Where `t` stands among the tags of `c`, or `c.len()` if it is not there.
pub open spec fn tag_pos(c: Seq<(Seq<char>, nat)>, t: Seq<char>) -> nat
    decreases c.len(),
{
    if c.len() == 0 {
        0
    } else if c[0].0 == t {
        0
    } else {
        1 + tag_pos(c.drop_first(), t)
    }
}

/// The counts with one more entry of `t`.
pub open spec fn bump(c: Seq<(Seq<char>, nat)>, t: Seq<char>) -> Seq<(Seq<char>, nat)> {
    let p = tag_pos(c, t);
    if p < c.len() {
        c.update(p as int, (t, c[p as int].1 + 1))
    } else {
        c.push((t, 1nat))
    }
}

/// The counts of a list of tag entries, in order of first appearance.
pub open spec fn tally(ts: Seq<Seq<char>>) -> Seq<(Seq<char>, nat)>
    decreases ts.len(),
{
    if ts.len() == 0 {
        Seq::empty()
    } else {
        bump(tally(ts.drop_last()), ts.last())
    }
}

/// The tag entries of the profiles, one profile after another.
pub open spec fn all_tags(s: Seq<ConnectionView>) -> Seq<Seq<char>>
    decreases s.len(),
{
    if s.len() == 0 {
        Seq::empty()
    } else {
        all_tags(s.drop_last()) + s.last().tags
    }
}

proof fn lemma_tag_pos(c: Seq<(Seq<char>, nat)>, t: Seq<char>)
    ensures
        tag_pos(c, t) <= c.len(),
        tag_pos(c, t) < c.len() ==> c[tag_pos(c, t) as int].0 == t,
        forall|k: int| 0 <= k < tag_pos(c, t) ==> (#[trigger] c[k]).0 != t,
    decreases c.len(),
{
    if c.len() > 0 && c[0].0 != t {
        lemma_tag_pos(c.drop_first(), t);
        assert forall|k: int| 0 <= k < tag_pos(c, t) implies (#[trigger] c[k]).0 != t by {
            if k > 0 {
                assert(c[k] == c.drop_first()[k - 1]);
            }
        }
    }
}

proof fn lemma_tally_bound(ts: Seq<Seq<char>>)
    ensures
        forall|k: int| 0 <= k < tally(ts).len() ==> (#[trigger] tally(ts)[k]).1 <= ts.len(),
        tally(ts).len() <= ts.len(),
    decreases ts.len(),
{
    if ts.len() > 0 {
        lemma_tally_bound(ts.drop_last());
        lemma_tag_pos(tally(ts.drop_last()), ts.last());
    }
}

/// Counts the tag entries of the profiles: each tag once, in order of first
/// appearance, with the number of its entries.
pub fn tag_counts(connections: &Vec<Connection>) -> (r: Vec<TagCount>)
    requires
        all_tags(connections.deep_view()).len() <= usize::MAX,
    ensures
        r.deep_view() == tally(all_tags(connections.deep_view())),
{
    let ghost s = connections.deep_view();
    let mut counts: Vec<TagCount> = Vec::new();
    let mut i: usize = 0;
    assert(counts.deep_view() =~= tally(all_tags(s.subrange(0, 0))));
    while i < connections.len()
        invariant
            i <= connections.len(),
            s == connections.deep_view(),
            all_tags(s).len() <= usize::MAX,
            counts.deep_view() == tally(all_tags(s.subrange(0, i as int))),
        decreases connections.len() - i,
    {
        let tags = &connections[i].tags;
        let ghost before = all_tags(s.subrange(0, i as int));
        assert(s.subrange(0, i + 1).drop_last() =~= s.subrange(0, i as int));
        assert(s[i as int] == connections@[i as int]@);
        proof {
            lemma_all_tags_prefix(s, i + 1);
        }
        let mut j: usize = 0;
        assert(before + tags.deep_view().subrange(0, 0) =~= before);
        while j < tags.len()
            invariant
                j <= tags.len(),
                tags.deep_view() == s[i as int].tags,
                before == all_tags(s.subrange(0, i as int)),
                before.len() + tags.len() <= usize::MAX,
                counts.deep_view() == tally(before + tags.deep_view().subrange(0, j as int)),
            decreases tags.len() - j,
        {
            let ghost seen = before + tags.deep_view().subrange(0, j as int);
            let ghost next = before + tags.deep_view().subrange(0, j + 1);
            assert(next.drop_last() =~= seen);
            assert(next.last() == tags@[j as int]@);
            proof {
                lemma_tally_bound(seen);
                lemma_tag_pos(counts.deep_view(), tags@[j as int]@);
            }
            let mut k: usize = 0;
            while k < counts.len() && !crate::text::same_text(counts[k].tag.as_str(), tags[j].as_str())
                invariant
                    k <= counts.len(),
                    j < tags.len(),
                    forall|m: int| 0 <= m < k ==> (#[trigger] counts.deep_view()[m]).0 != tags@[j as int]@,
                decreases counts.len() - k,
            {
                assert(counts.deep_view()[k as int] == counts@[k as int]@);
                k += 1;
            }
            if k < counts.len() {
                assert(counts.deep_view()[k as int] == counts@[k as int]@);
                assert(tag_pos(counts.deep_view(), tags@[j as int]@) == k);
                let ghost old_counts = counts;
                let c = counts[k].count;
                assert(c <= seen.len());
                counts.set(k, TagCount { tag: tags[j].clone(), count: c + 1 });
                assert(counts.deep_view() =~= old_counts.deep_view().update(
                    k as int,
                    (tags@[j as int]@, c as nat + 1),
                ));
            } else {
                assert(tag_pos(counts.deep_view(), tags@[j as int]@) == counts.len());
                let ghost old_counts = counts;
                counts.push(TagCount { tag: tags[j].clone(), count: 1 });
                assert(counts.deep_view() =~= old_counts.deep_view().push((tags@[j as int]@, 1nat)));
            }
            j += 1;
        }
        assert(tags.deep_view().subrange(0, tags.len() as int) =~= tags.deep_view());
        i += 1;
    }
    assert(s.subrange(0, s.len() as int) =~= s);
    counts
}

proof fn lemma_all_tags_prefix(s: Seq<ConnectionView>, n: int)
    requires
        0 <= n <= s.len(),
    ensures
        all_tags(s.subrange(0, n)).len() <= all_tags(s).len(),
    decreases s.len() - n,
{
    if n < s.len() {
        lemma_all_tags_prefix(s, n + 1);
        assert(s.subrange(0, n + 1).drop_last() =~= s.subrange(0, n));
    } else {
        assert(s.subrange(0, n) =~= s);
    }
}

impl ConnectionStore {
    /// The number of profiles, the most recently used one, up to ten used
    /// ones, and the count of each tag.
    pub fn get_stats(&self) -> (r: ConnectionStats)
        requires
            all_tags(self@).len() <= usize::MAX,
        ensures
            r.total_connections == self@.len(),
            r.most_used matches Some(c) ==> lookup_spec(self@, Lookup::Used, Seq::empty(), 1)
                == seq![c@],
            r.most_used is None ==> lookup_spec(self@, Lookup::Used, Seq::empty(), 1).len() == 0,
            r.recently_used.deep_view() == lookup_spec(self@, Lookup::Used, Seq::empty(), 10),
            r.by_tag.deep_view() == tally(all_tags(self@)),
    {
        let records = self.records();
        let mut first = self.get_recent_connections(1);
        let ghost fv = first.deep_view();
        let most_used = first.pop();
        proof {
            if first.len() == 0 && most_used is Some {
                assert(fv =~= seq![most_used->Some_0@]);
            }
        }
        ConnectionStats {
            total_connections: records.len(),
            most_used,
            recently_used: self.get_recent_connections(10),
            by_tag: tag_counts(records),
        }
    }
}

} // verus!

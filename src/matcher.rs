//! The supplementary name-matching strategies: multi-word, separator-normalized,
//! acronym and alphanumeric-prefix matching.

use vstd::prelude::*;
use crate::text::{
    alnum_of, chars_of, contains_chars, has_sub, is_alphanumeric, is_whitespace, is_ws, lower_of,
    lowercase, starts, starts_with_chars, string_of,
};

verus! {

/// Flushes the word being read into the list of words, if it is not empty.
pub open spec fn flush_word(cur: Seq<char>, acc: Seq<Seq<char>>) -> Seq<Seq<char>> {
    if cur.len() > 0 {
        acc.push(cur)
    } else {
        acc
    }
}

/// Splits `s` from position `i` on, having read the word `cur` and the words `acc`.
pub open spec fn ws_split_from(s: Seq<char>, i: int, cur: Seq<char>, acc: Seq<Seq<char>>) -> Seq<
    Seq<char>,
>
    decreases s.len() - i,
{
    if i >= s.len() || i < 0 {
        flush_word(cur, acc)
    } else if is_ws(s[i]) {
        ws_split_from(s, i + 1, Seq::empty(), flush_word(cur, acc))
    } else {
        ws_split_from(s, i + 1, cur.push(s[i]), acc)
    }
}

/// The whitespace-separated words of `s`, as `str::split_whitespace` gives them.
pub open spec fn ws_words(s: Seq<char>) -> Seq<Seq<char>> {
    ws_split_from(s, 0, Seq::empty(), Seq::empty())
}

/// Two or more words, each of them occurring in `name`.
pub open spec fn multi_word_match(q: Seq<char>, name: Seq<char>) -> bool {
    let w = ws_words(q);
    w.len() > 1 && forall|k: int| 0 <= k < w.len() ==> has_sub(name, #[trigger] w[k])
}

/// The separators that normalization removes.
pub open spec fn is_norm_sep(c: char) -> bool {
    c == '-' || c == '_' || c == '.'
}

/// The separators between the words of an acronym.
pub open spec fn is_word_sep(c: char) -> bool {
    c == '-' || c == '_' || c == ' '
}

/// `s` without `-`, `_` and `.`.
pub open spec fn strip_seps(s: Seq<char>) -> Seq<char>
    decreases s.len(),
{
    if s.len() == 0 {
        s
    } else if is_norm_sep(s.last()) {
        strip_seps(s.drop_last())
    } else {
        strip_seps(s.drop_last()).push(s.last())
    }
}

/// The alphanumeric characters of `s`, in order.
pub open spec fn alnum_only(s: Seq<char>) -> Seq<char>
    decreases s.len(),
{
    if s.len() == 0 {
        s
    } else if alnum_of(s.last()) {
        alnum_only(s.drop_last()).push(s.last())
    } else {
        alnum_only(s.drop_last())
    }
}

/// The first character of each non-empty word, words being separated by
/// `-`, `_` or a space.
pub open spec fn acronym(s: Seq<char>) -> Seq<char>
    decreases s.len(),
{
    if s.len() == 0 {
        s
    } else if !is_word_sep(s.last()) && (s.len() == 1 || is_word_sep(s[s.len() - 2])) {
        acronym(s.drop_last()).push(s.last())
    } else {
        acronym(s.drop_last())
    }
}

/// Whether `s` has two or more words for an acronym.
pub open spec fn has_word_sep(s: Seq<char>) -> bool {
    exists|i: int| 0 <= i < s.len() && is_word_sep(#[trigger] s[i])
}

/// Whether the UTF-8 encoding of `s` takes two bytes or more: two characters,
/// or one outside ASCII.
pub open spec fn two_bytes_or_more(s: Seq<char>) -> bool {
    s.len() >= 2 || (s.len() == 1 && s[0] as u32 >= 0x80)
}

/// Whether `name` (already lowercase) matches `query` by one of the four
/// supplementary strategies. The query is lowercased first.
pub open spec fn pattern_match(query: Seq<char>, name: Seq<char>) -> bool {
    pattern_lowered(lower_of(query), name)
}

/// Whether `name` matches the already-lowercase query `q` by one of the four
/// supplementary strategies.
pub open spec fn pattern_lowered(q: Seq<char>, name: Seq<char>) -> bool {
    ||| multi_word_match(q, name)
    ||| has_sub(strip_seps(name), strip_seps(q))
    ||| (two_bytes_or_more(q) && has_word_sep(name) && has_sub(lower_of(acronym(name)), q))
    ||| (two_bytes_or_more(q) && starts(lower_of(alnum_only(name)), q))
}

proof fn lemma_all_found_push(name: Seq<char>, acc: Seq<Seq<char>>, w: Seq<char>)
    ensures
        (forall|k: int| 0 <= k < acc.push(w).len() ==> has_sub(name, #[trigger] acc.push(w)[k]))
            == ((forall|k: int| 0 <= k < acc.len() ==> has_sub(name, #[trigger] acc[k]))
            && has_sub(name, w)),
{
    let p = acc.push(w);
    assert(p[acc.len() as int] == w);
    assert forall|k: int| 0 <= k < acc.len() implies #[trigger] p[k] == acc[k] by {}
    if forall|k: int| 0 <= k < acc.len() ==> has_sub(name, #[trigger] acc[k]) {
        if has_sub(name, w) {
            assert forall|k: int| 0 <= k < p.len() implies has_sub(name, #[trigger] p[k]) by {
                if k < acc.len() {
                    assert(p[k] == acc[k]);
                }
            }
        }
    } else {
        let k = choose|k: int| 0 <= k < acc.len() && !has_sub(name, #[trigger] acc[k]);
        assert(p[k] == acc[k]);
    }
}

/// Whether every whitespace-separated word of `q` occurs in `name`, and there
/// are at least two of them.
fn all_words_in(q: &Vec<char>, name: &Vec<char>) -> (r: bool)
    ensures
        r == multi_word_match(q@, name@),
{
    let mut cur: Vec<char> = Vec::new();
    let ghost acc: Seq<Seq<char>> = Seq::empty();
    let mut count: usize = 0;
    let mut all_found = true;
    let mut i: usize = 0;
    while i < q.len()
        invariant
            i <= q.len(),
            ws_split_from(q@, i as int, cur@, acc) == ws_words(q@),
            count == acc.len(),
            count + cur.len() <= i,
            all_found == (forall|k: int| 0 <= k < acc.len() ==> has_sub(name@, #[trigger] acc[k])),
        decreases q.len() - i,
    {
        if is_whitespace(q[i]) {
            if cur.len() == 0 {
                assert(cur@ =~= Seq::<char>::empty());
            } else {
                let found = contains_chars(name, &cur);
                proof {
                    lemma_all_found_push(name@, acc, cur@);
                    acc = acc.push(cur@);
                }
                all_found = all_found && found;
                count += 1;
                cur = Vec::new();
            }
        } else {
            cur.push(q[i]);
        }
        i += 1;
    }
    if cur.len() > 0 {
        let found = contains_chars(name, &cur);
        proof {
            lemma_all_found_push(name@, acc, cur@);
            acc = acc.push(cur@);
        }
        all_found = all_found && found;
        count += 1;
    }
    assert(acc == ws_words(q@));
    count > 1 && all_found
}

/// `s` without `-`, `_` and `.`.
fn strip_separators(s: &Vec<char>) -> (r: Vec<char>)
    ensures
        r@ == strip_seps(s@),
{
    let mut r: Vec<char> = Vec::new();
    let mut i: usize = 0;
    while i < s.len()
        invariant
            i <= s.len(),
            r@ == strip_seps(s@.subrange(0, i as int)),
        decreases s.len() - i,
    {
        assert(s@.subrange(0, i + 1).drop_last() =~= s@.subrange(0, i as int));
        let c = s[i];
        if !(c == '-' || c == '_' || c == '.') {
            r.push(c);
        }
        i += 1;
    }
    assert(s@.subrange(0, s.len() as int) =~= s@);
    r
}

/// The alphanumeric characters of `s`, in order.
fn keep_alphanumeric(s: &Vec<char>) -> (r: Vec<char>)
    ensures
        r@ == alnum_only(s@),
{
    let mut r: Vec<char> = Vec::new();
    let mut i: usize = 0;
    while i < s.len()
        invariant
            i <= s.len(),
            r@ == alnum_only(s@.subrange(0, i as int)),
        decreases s.len() - i,
    {
        assert(s@.subrange(0, i + 1).drop_last() =~= s@.subrange(0, i as int));
        if is_alphanumeric(s[i]) {
            r.push(s[i]);
        }
        i += 1;
    }
    assert(s@.subrange(0, s.len() as int) =~= s@);
    r
}

/// The acronym of `s`, and whether `s` holds a word separator.
fn acronym_of(s: &Vec<char>) -> (r: (Vec<char>, bool))
    ensures
        r.0@ == acronym(s@),
        r.1 == has_word_sep(s@),
{
    let mut r: Vec<char> = Vec::new();
    let mut seen_sep = false;
    let mut i: usize = 0;
    while i < s.len()
        invariant
            i <= s.len(),
            r@ == acronym(s@.subrange(0, i as int)),
            seen_sep == exists|k: int| 0 <= k < i && is_word_sep(#[trigger] s@[k]),
        decreases s.len() - i,
    {
        let ghost p = s@.subrange(0, i + 1);
        assert(p.drop_last() =~= s@.subrange(0, i as int));
        let c = s[i];
        let sep = c == '-' || c == '_' || c == ' ';
        if !sep {
            if i == 0 {
                r.push(c);
            } else {
                let b = s[i - 1];
                assert(p[p.len() - 2] == b);
                if b == '-' || b == '_' || b == ' ' {
                    r.push(c);
                }
            }
        }
        seen_sep = seen_sep || sep;
        i += 1;
    }
    assert(s@.subrange(0, s.len() as int) =~= s@);
    (r, seen_sep)
}

/// Whether `name` (already lowercase) matches `query` by one of the
/// supplementary strategies: every word of a multi-word query occurs in it;
/// it contains the query once `-`, `_` and `.` are removed from both; its
/// acronym contains the query; or its alphanumeric characters begin with the
/// query. The query is lowercased first; the last two need a query of two
/// bytes or more.
pub fn matches_enhanced_patterns(query: &str, name: &str) -> (r: bool)
    ensures
        r == pattern_match(query@, name@),
{
    let q_text = lowercase(query);
    matches_lowered(q_text.as_str(), name)
}

/// Whether `name` (already lowercase) matches the already-lowercase query
/// `q` by one of the supplementary strategies.
pub fn matches_lowered(q_text: &str, name: &str) -> (r: bool)
    ensures
        r == pattern_lowered(q_text@, name@),
{
    let q = chars_of(q_text);
    let n = chars_of(name);
    if all_words_in(&q, &n) {
        return true;
    }
    let stripped_name = strip_separators(&n);
    let stripped_query = strip_separators(&q);
    if contains_chars(&stripped_name, &stripped_query) {
        return true;
    }
    let long_enough = q.len() >= 2 || (q.len() == 1 && q[0] as u32 >= 0x80);
    if long_enough {
        let (acr, several) = acronym_of(&n);
        if several {
            let acr_lower = lowercase(string_of(&acr).as_str());
            if contains_chars(&chars_of(acr_lower.as_str()), &q) {
                return true;
            }
        }
        let alnum = keep_alphanumeric(&n);
        let alnum_lower = lowercase(string_of(&alnum).as_str());
        if starts_with_chars(&chars_of(alnum_lower.as_str()), &q) {
            return true;
        }
    }
    false
}

} // verus!

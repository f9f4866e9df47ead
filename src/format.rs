//! Display helpers: decimal numbers, durations, byte-bounded truncation and
//! session status labels.

use vstd::prelude::*;
use crate::models::SessionStatus;
use crate::text::{chars_of, push_char, string_of};

verus! {

/// The character of a decimal digit.
pub open spec fn digit_char(d: nat) -> char {
    ((d % 10) + ('0' as u32)) as char
}

/// The decimal digits of `n`, without leading zeros.
pub open spec fn digits(n: nat) -> Seq<char>
    decreases n,
{
    if n < 10 {
        seq![digit_char(n)]
    } else {
        digits(n / 10).push(digit_char(n % 10))
    }
}

/// The decimal form of `n`, with `-` before a negative number.
pub open spec fn decimal(n: int) -> Seq<char> {
    if n < 0 {
        seq!['-'] + digits((-n) as nat)
    } else {
        digits(n as nat)
    }
}

fn digits_of(n: u64) -> (r: Vec<char>)
    ensures
        r@ == digits(n as nat),
    decreases n,
{
    let d = char_of_digit((n % 10) as u32);
    if n < 10 {
        let mut v: Vec<char> = Vec::new();
        v.push(d);
        assert(v@ =~= seq![digit_char(n as nat)]);
        v
    } else {
        let mut v = digits_of(n / 10);
        v.push(d);
        v
    }
}

fn char_of_digit(d: u32) -> (r: char)
    requires
        d < 10,
    ensures
        r == digit_char(d as nat),
{
    if d == 0 {
        '0'
    } else if d == 1 {
        '1'
    } else if d == 2 {
        '2'
    } else if d == 3 {
        '3'
    } else if d == 4 {
        '4'
    } else if d == 5 {
        '5'
    } else if d == 6 {
        '6'
    } else if d == 7 {
        '7'
    } else if d == 8 {
        '8'
    } else {
        '9'
    }
}

/// The decimal form of `n`.
pub fn decimal_string(n: i64) -> (r: String)
    ensures
        r@ == decimal(n as int),
{
    if n < 0 {
        let m: u64 = (0i128 - n as i128) as u64;
        let mut r = String::new();
        push_char(&mut r, '-');
        let ds = string_of(&digits_of(m));
        r.append(ds.as_str());
        assert(r@ =~= seq!['-'] + digits((-n) as nat));
        r
    } else {
        string_of(&digits_of(n as u64))
    }
}

/// The decimal form of a count.
pub fn decimal_count(n: usize) -> (r: String)
    ensures
        r@ == decimal(n as int),
{
    string_of(&digits_of(n as u64))
}

/// A short form of a duration in seconds: `42s`, `3m 5s` or `2h 10m`.
pub open spec fn short_duration(secs: int) -> Seq<char> {
    if secs < 60 {
        decimal(secs) + "s"@
    } else if secs < 3600 {
        decimal(secs / 60) + "m "@ + decimal(secs % 60) + "s"@
    } else {
        decimal(secs / 3600) + "h "@ + decimal((secs % 3600) / 60) + "m"@
    }
}

/// A short form of a duration in seconds: `42s`, `3m 5s` or `2h 10m`.
pub fn format_duration_short(secs: i64) -> (r: String)
    ensures
        r@ == short_duration(secs as int),
{
    if secs < 60 {
        let mut r = decimal_string(secs);
        r.append("s");
        r
    } else if secs < 3600 {
        let mut r = decimal_string(secs / 60);
        r.append("m ");
        let s = decimal_string(secs % 60);
        r.append(s.as_str());
        r.append("s");
        assert(r@ =~= short_duration(secs as int));
        r
    } else {
        let mut r = decimal_string(secs / 3600);
        r.append("h ");
        let m = decimal_string((secs % 3600) / 60);
        r.append(m.as_str());
        r.append("m");
        assert(r@ =~= short_duration(secs as int));
        r
    }
}

/// How long ago something happened, from the seconds elapsed: days, else
/// hours, else minutes, else `just now`.
pub open spec fn elapsed_phrase(secs: int) -> Seq<char> {
    if secs >= 86400 {
        if secs / 86400 == 1 {
            "1 day ago"@
        } else {
            decimal(secs / 86400) + " days ago"@
        }
    } else if secs >= 3600 {
        if secs / 3600 == 1 {
            "1 hour ago"@
        } else {
            decimal(secs / 3600) + " hours ago"@
        }
    } else if secs >= 60 {
        if secs / 60 == 1 {
            "1 minute ago"@
        } else {
            decimal(secs / 60) + " minutes ago"@
        }
    } else {
        "just now"@
    }
}

fn counted(n: i64, unit: &str) -> (r: String)
    ensures
        r@ == decimal(n as int) + unit@,
{
    let mut r = decimal_string(n);
    r.append(unit);
    r
}

/// How long ago something happened, from the seconds elapsed.
pub fn format_duration(secs: i64) -> (r: String)
    ensures
        r@ == elapsed_phrase(secs as int),
{
    if secs >= 86400 {
        if secs / 86400 == 1 {
            String::from_str("1 day ago")
        } else {
            counted(secs / 86400, " days ago")
        }
    } else if secs >= 3600 {
        if secs / 3600 == 1 {
            String::from_str("1 hour ago")
        } else {
            counted(secs / 3600, " hours ago")
        }
    } else if secs >= 60 {
        if secs / 60 == 1 {
            String::from_str("1 minute ago")
        } else {
            counted(secs / 60, " minutes ago")
        }
    } else {
        String::from_str("just now")
    }
}

/// The number of bytes of a character in UTF-8.
pub open spec fn utf8_width(c: char) -> nat {
    let v = c as u32;
    if v < 0x80 {
        1
    } else if v < 0x800 {
        2
    } else if v < 0x10000 {
        3
    } else {
        4
    }
}

/// The number of bytes of `s` in UTF-8.
pub open spec fn utf8_len(s: Seq<char>) -> nat
    decreases s.len(),
{
    if s.len() == 0 {
        0
    } else {
        utf8_width(s[0]) + utf8_len(s.drop_first())
    }
}

/// How many leading characters of `s` fit in `budget` bytes.
pub open spec fn fitting(s: Seq<char>, budget: nat) -> nat
    decreases s.len(),
{
    if s.len() == 0 || utf8_width(s[0]) > budget {
        0
    } else {
        1 + fitting(s.drop_first(), (budget - utf8_width(s[0])) as nat)
    }
}

/// `s` if it takes at most `max_len` bytes; else as many leading characters
/// as fit in `max_len - 1` bytes, followed by an ellipsis.
pub open spec fn truncated(s: Seq<char>, max_len: nat) -> Seq<char> {
    if utf8_len(s) <= max_len {
        s
    } else {
        s.take(fitting(s, (max_len - 1) as nat) as int).push('\u{2026}')
    }
}

fn width_of(c: char) -> (r: usize)
    ensures
        r == utf8_width(c),
{
    let v = c as u32;
    if v < 0x80 {
        1
    } else if v < 0x800 {
        2
    } else if v < 0x10000 {
        3
    } else {
        4
    }
}

proof fn lemma_fitting_bound(s: Seq<char>, budget: nat)
    ensures
        fitting(s, budget) <= s.len(),
    decreases s.len(),
{
    if s.len() > 0 && utf8_width(s[0]) <= budget {
        lemma_fitting_bound(s.drop_first(), (budget - utf8_width(s[0])) as nat);
    }
}

/// Shortens a text to at most `max_len` bytes, marking the cut with an ellipsis.
pub fn truncate(s: &str, max_len: usize) -> (r: String)
    requires
        max_len >= 1 || s@.len() == 0,
    ensures
        r@ == truncated(s@, max_len as nat),
{
    let cs = chars_of(s);
    let n = cs.len();
    let mut total: u128 = 0;
    let mut i: usize = 0;
    assert(cs@.subrange(0, n as int) =~= cs@);
    while i < n && total <= max_len as u128
        invariant
            i <= n,
            n == cs@.len(),
            total <= max_len + 4,
            utf8_len(cs@) == total + utf8_len(cs@.subrange(i as int, n as int)),
        decreases n - i,
    {
        assert(cs@.subrange(i as int, n as int).drop_first() =~= cs@.subrange(i + 1, n as int));
        total = total + width_of(cs[i]) as u128;
        i += 1;
    }
    if total <= max_len as u128 {
        assert(cs@.subrange(n as int, n as int).len() == 0);
        return string_of(&cs);
    }
    let budget0 = max_len - 1;
    let mut budget = budget0;
    let mut k: usize = 0;
    assert(fitting(cs@, budget0 as nat) == 0 + fitting(cs@.subrange(0, n as int), budget0 as nat));
    while k < n && width_of(cs[k]) <= budget
        invariant
            k <= n,
            n == cs@.len(),
            budget <= budget0,
            fitting(cs@, budget0 as nat) == k + fitting(cs@.subrange(k as int, n as int), budget as nat),
        decreases n - k,
    {
        assert(cs@.subrange(k as int, n as int).drop_first() =~= cs@.subrange(k + 1, n as int));
        budget = budget - width_of(cs[k]);
        k += 1;
    }
    let mut out: Vec<char> = Vec::new();
    let mut j: usize = 0;
    while j < k
        invariant
            j <= k <= n,
            n == cs@.len(),
            out@ == cs@.subrange(0, j as int),
        decreases k - j,
    {
        out.push(cs[j]);
        j += 1;
        assert(out@ =~= cs@.subrange(0, j as int));
    }
    out.push('\u{2026}');
    string_of(&out)
}

/// The label of a session status.
pub open spec fn status_label(status: SessionStatus) -> Seq<char> {
    match status {
        SessionStatus::Starting => "\u{23f3} starting"@,
        SessionStatus::Active => "\u{1f7e2} active"@,
        SessionStatus::Disconnected => "\u{1f50c} disconnected"@,
        SessionStatus::Terminated => "\u{2705} terminated"@,
        SessionStatus::Error(e) => "\u{274c} error: "@ + truncated(e@, 20),
    }
}

/// The label of a session status.
pub fn format_status(status: &SessionStatus) -> (r: String)
    ensures
        r@ == status_label(*status),
{
    match status {
        SessionStatus::Starting => String::from_str("\u{23f3} starting"),
        SessionStatus::Active => String::from_str("\u{1f7e2} active"),
        SessionStatus::Disconnected => String::from_str("\u{1f50c} disconnected"),
        SessionStatus::Terminated => String::from_str("\u{2705} terminated"),
        SessionStatus::Error(e) => {
            let mut r = String::from_str("\u{274c} error: ");
            let t = truncate(e.as_str(), 20);
            r.append(t.as_str());
            r
        },
    }
}

} // verus!

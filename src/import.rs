//! Reading host blocks out of an OpenSSH client configuration file.

use vstd::prelude::*;
use crate::models::opt_text;
use crate::text::{chars_of, parse_usize, parse_usize_spec, starts, starts_with_chars, string_of, trim, trim_chars};

verus! {

/// A `Host` block of the configuration, with the settings read for it.
#[derive(Debug, Clone)]
pub struct HostEntry {
    pub host: String,
    pub user: Option<String>,
    pub port: Option<u16>,
    pub identity_file: Option<String>,
}

pub ghost struct HostView {
    pub host: Seq<char>,
    pub user: Option<Seq<char>>,
    pub port: Option<u16>,
    pub identity_file: Option<Seq<char>>,
}

impl View for HostEntry {
    type V = HostView;

    open spec fn view(&self) -> HostView {
        HostView {
            host: self.host@,
            user: opt_text(self.user),
            port: self.port,
            identity_file: opt_text(self.identity_file),
        }
    }
}

impl DeepView for HostEntry {
    type V = HostView;

    open spec fn deep_view(&self) -> HostView {
        self@
    }
}

/// The blocks read so far, and the block being read.
pub ghost struct ParseState {
    pub done: Seq<HostView>,
    pub current: Option<HostView>,
}

/// What `str::parse::<u16>` gives.
pub open spec fn parse_port_spec(s: Seq<char>) -> Option<u16> {
    match parse_usize_spec(s) {
        Some(v) => if v <= 65535 {
            Some(v as u16)
        } else {
            None
        },
        None => None,
    }
}

/// The state with the block being read, if any, closed.
pub open spec fn flushed(st: ParseState) -> Seq<HostView> {
    match st.current {
        Some(h) => st.done.push(h),
        None => st.done,
    }
}

/// The text after the first `n` characters of `t`, trimmed.
pub open spec fn value_after(t: Seq<char>, n: int) -> Seq<char> {
    trim(t.subrange(n, t.len() as int))
}

/// The state after one line. Blank lines and comments are skipped; `Host`
/// starts a block; `User`, `Port` (a valid port number) and `IdentityFile`
/// set a setting of the block being read; anything else is ignored.
pub open spec fn take_line(st: ParseState, line: Seq<char>) -> ParseState {
    let t = trim(line);
    if t.len() == 0 || t[0] == '#' {
        st
    } else if starts(t, "Host "@) {
        ParseState {
            done: flushed(st),
            current: Some(
                HostView { host: value_after(t, 5), user: None, port: None, identity_file: None },
            ),
        }
    } else if starts(t, "User "@) {
        match st.current {
            Some(h) => ParseState { current: Some(HostView { user: Some(value_after(t, 5)), ..h }), ..st },
            None => st,
        }
    } else if starts(t, "Port "@) {
        match (st.current, parse_port_spec(value_after(t, 5))) {
            (Some(h), Some(p)) => ParseState { current: Some(HostView { port: Some(p), ..h }), ..st },
            _ => st,
        }
    } else if starts(t, "IdentityFile "@) {
        match st.current {
            Some(h) => ParseState {
                current: Some(HostView { identity_file: Some(value_after(t, 13)), ..h }),
                ..st
            },
            None => st,
        }
    } else {
        st
    }
}

/// The state after the lines of `s` from position `i` on, `line` holding
/// the characters read of the current line.
pub open spec fn scan(s: Seq<char>, i: int, line: Seq<char>, st: ParseState) -> ParseState
    decreases s.len() - i,
{
    if i >= s.len() || i < 0 {
        take_line(st, line)
    } else if s[i] == '\n' {
        scan(s, i + 1, Seq::empty(), take_line(st, line))
    } else {
        scan(s, i + 1, line.push(s[i]), st)
    }
}

/// The host blocks of a configuration text, in order.
pub open spec fn parse_spec(s: Seq<char>) -> Seq<HostView> {
    flushed(scan(s, 0, Seq::empty(), ParseState { done: Seq::empty(), current: None }))
}

/// Whether a host pattern names one host: it holds no `*` or `?`.
pub open spec fn importable_spec(host: Seq<char>) -> bool {
    forall|i: int| 0 <= i < host.len() ==> #[trigger] host[i] != '*' && host[i] != '?'
}

/// Whether a host pattern names one host.
pub fn is_importable(host: &str) -> (r: bool)
    ensures
        r == importable_spec(host@),
{
    let cs = chars_of(host);
    let mut i: usize = 0;
    while i < cs.len()
        invariant
            i <= cs.len(),
            cs@ == host@,
            forall|k: int| 0 <= k < i ==> #[trigger] cs@[k] != '*' && cs@[k] != '?',
        decreases cs.len() - i,
    {
        if cs[i] == '*' || cs[i] == '?' {
            return false;
        }
        i += 1;
    }
    true
}

fn rest_trimmed(t: &Vec<char>, n: usize) -> (r: String)
    requires
        n <= t.len(),
    ensures
        r@ == value_after(t@, n as int),
{
    let mut rest: Vec<char> = Vec::new();
    let mut i: usize = n;
    while i < t.len()
        invariant
            n <= i <= t.len(),
            rest@ == t@.subrange(n as int, i as int),
        decreases t.len() - i,
    {
        rest.push(t[i]);
        i += 1;
        assert(rest@ =~= t@.subrange(n as int, i as int));
    }
    string_of(&trim_chars(&rest))
}

fn close_current(done: &mut Vec<HostEntry>, current: Option<HostEntry>)
    ensures
        final(done).deep_view() == flushed(
            ParseState { done: old(done).deep_view(), current: match current {
                Some(h) => Some(h@),
                None => None,
            } },
        ),
{
    match current {
        Some(h) => {
            let ghost before = *done;
            let ghost hv = h@;
            done.push(h);
            assert(done.deep_view() =~= before.deep_view().push(hv));
        },
        None => {},
    }
}

pub open spec fn current_view(c: Option<HostEntry>) -> Option<HostView> {
    match c {
        Some(h) => Some(h@),
        None => None,
    }
}

fn apply_line(done: &mut Vec<HostEntry>, current: &mut Option<HostEntry>, line: &Vec<char>)
    ensures
        (ParseState { done: final(done).deep_view(), current: current_view(*final(current)) })
            == take_line(
            ParseState { done: old(done).deep_view(), current: current_view(*old(current)) },
            line@,
        ),
{
    proof {
        reveal_strlit("Host ");
        reveal_strlit("User ");
        reveal_strlit("Port ");
        reveal_strlit("IdentityFile ");
    }
    let t = trim_chars(line);
    if t.len() == 0 || t[0] == '#' {
        return ;
    }
    if starts_with_chars(&t, &chars_of("Host ")) {
        let prev = current.take();
        close_current(done, prev);
        *current = Some(
            HostEntry { host: rest_trimmed(&t, 5), user: None, port: None, identity_file: None },
        );
    } else if starts_with_chars(&t, &chars_of("User ")) {
        if let Some(h) = current {
            h.user = Some(rest_trimmed(&t, 5));
        }
    } else if starts_with_chars(&t, &chars_of("Port ")) {
        let v = rest_trimmed(&t, 5);
        let parsed = parse_usize(&chars_of(v.as_str()));
        if let Some(h) = current {
            if let Some(p) = parsed {
                if p <= 65535 {
                    h.port = Some(p as u16);
                }
            }
        }
    } else if starts_with_chars(&t, &chars_of("IdentityFile ")) {
        if let Some(h) = current {
            h.identity_file = Some(rest_trimmed(&t, 13));
        }
    }
}

/// The host blocks of a configuration text, in order, each with the user,
/// port and identity file set inside it.
pub fn parse_ssh_config(content: &str) -> (r: Vec<HostEntry>)
    ensures
        r.deep_view() == parse_spec(content@),
{
    let s = chars_of(content);
    let mut done: Vec<HostEntry> = Vec::new();
    let mut current: Option<HostEntry> = None;
    let mut line: Vec<char> = Vec::new();
    let mut i: usize = 0;
    assert(done.deep_view() =~= Seq::<HostView>::empty());
    assert(line@ =~= Seq::<char>::empty());
    while i < s.len()
        invariant
            i <= s.len(),
            s@ == content@,
            scan(s@, i as int, line@, ParseState { done: done.deep_view(), current: current_view(current) })
                == scan(s@, 0, Seq::empty(), ParseState { done: Seq::empty(), current: None }),
        decreases s.len() - i,
    {
        if s[i] == '\n' {
            apply_line(&mut done, &mut current, &line);
            line = Vec::new();
            assert(line@ =~= Seq::<char>::empty());
        } else {
            line.push(s[i]);
        }
        i += 1;
    }
    apply_line(&mut done, &mut current, &line);
    close_current(&mut done, current);
    done
}

} // verus!

//! Connection profiles and sessions, with their mathematical views.

use vstd::prelude::*;
use crate::text::same_text;

verus! {

/// A saved remote-access profile. Timestamps are seconds since the Unix epoch;
/// `id` holds the 128 bits of a UUID.
#[derive(Debug, Clone)]
pub struct Connection {
    pub id: u128,
    pub name: String,
    pub host: String,
    pub user: String,
    pub port: u16,
    pub bastion: Option<String>,
    pub bastion_user: Option<String>,
    pub use_kerberos: bool,
    pub key_path: Option<String>,
    pub created_at: i64,
    pub last_used: Option<i64>,
    pub tags: Vec<String>,
}

/// The value of a [`Connection`], with texts as character sequences.
pub ghost struct ConnectionView {
    pub id: u128,
    pub name: Seq<char>,
    pub host: Seq<char>,
    pub user: Seq<char>,
    pub port: u16,
    pub bastion: Option<Seq<char>>,
    pub bastion_user: Option<Seq<char>>,
    pub use_kerberos: bool,
    pub key_path: Option<Seq<char>>,
    pub created_at: i64,
    pub last_used: Option<i64>,
    pub tags: Seq<Seq<char>>,
}

pub open spec fn opt_text(o: Option<String>) -> Option<Seq<char>> {
    match o {
        Some(s) => Some(s@),
        None => None,
    }
}

impl View for Connection {
    type V = ConnectionView;

    open spec fn view(&self) -> ConnectionView {
        ConnectionView {
            id: self.id,
            name: self.name@,
            host: self.host@,
            user: self.user@,
            port: self.port,
            bastion: opt_text(self.bastion),
            bastion_user: opt_text(self.bastion_user),
            use_kerberos: self.use_kerberos,
            key_path: opt_text(self.key_path),
            created_at: self.created_at,
            last_used: self.last_used,
            tags: self.tags.deep_view(),
        }
    }
}

impl DeepView for Connection {
    type V = ConnectionView;

    open spec fn deep_view(&self) -> ConnectionView {
        self@
    }
}

/// Relies on `uuid::Uuid::new_v4`: a random identifier, read as its 128 bits.
#[verifier::external_body]
pub(crate) fn fresh_id() -> (r: u128) {
    uuid::Uuid::new_v4().as_u128()
}

/// Relies on `chrono::Utc::now`: the current time, in seconds since the Unix epoch.
#[verifier::external_body]
pub(crate) fn now_seconds() -> (r: i64) {
    chrono::Utc::now().timestamp()
}

pub fn copy_opt(o: &Option<String>) -> (r: Option<String>)
    ensures
        opt_text(r) == opt_text(*o),
{
    match o {
        Some(s) => Some(s.clone()),
        None => None,
    }
}

pub fn copy_texts(v: &Vec<String>) -> (r: Vec<String>)
    ensures
        r.deep_view() == v.deep_view(),
{
    let mut r: Vec<String> = Vec::new();
    let mut i: usize = 0;
    while i < v.len()
        invariant
            i <= v.len(),
            r.deep_view() == v.deep_view().subrange(0, i as int),
        decreases v.len() - i,
    {
        let ghost before = r;
        assert(before.deep_view().len() == before@.len());
        let t = v[i].clone();
        assert(t@ == v@[i as int]@);
        r.push(t);
        assert(r@ == before@.push(t));
        assert forall|k: int| 0 <= k <= i implies #[trigger] r.deep_view()[k] == v.deep_view()[k] by {
            if k < i {
                assert(r@[k] == before@[k]);
                assert(before.deep_view()[k] == v.deep_view().subrange(0, i as int)[k]);
            }
        }
        i += 1;
        assert(r.deep_view() =~= v.deep_view().subrange(0, i as int));
    }
    assert(v.deep_view().subrange(0, v.len() as int) =~= v.deep_view());
    r
}

impl Connection {
    /// A new profile with a fresh identifier, created now, never used, untagged.
    pub fn new(
        name: String,
        host: String,
        user: String,
        port: u16,
        bastion: Option<String>,
        bastion_user: Option<String>,
        use_kerberos: bool,
        key_path: Option<String>,
    ) -> (r: Connection)
        ensures
            r.name == name,
            r.host == host,
            r.user == user,
            r.port == port,
            r.bastion == bastion,
            r.bastion_user == bastion_user,
            r.use_kerberos == use_kerberos,
            r.key_path == key_path,
            r.last_used is None,
            r@.tags.len() == 0,
    {
        let id = fresh_id();
        let created_at = now_seconds();
        Connection {
            id,
            name,
            host,
            user,
            port,
            bastion,
            bastion_user,
            use_kerberos,
            key_path,
            created_at,
            last_used: None,
            tags: Vec::new(),
        }
    }

    /// A copy with the same value.
    pub fn duplicate(&self) -> (r: Connection)
        ensures
            r@ == self@,
    {
        Connection {
            id: self.id,
            name: self.name.clone(),
            host: self.host.clone(),
            user: self.user.clone(),
            port: self.port,
            bastion: copy_opt(&self.bastion),
            bastion_user: copy_opt(&self.bastion_user),
            use_kerberos: self.use_kerberos,
            key_path: copy_opt(&self.key_path),
            created_at: self.created_at,
            last_used: self.last_used,
            tags: copy_texts(&self.tags),
        }
    }

    /// Records a use at time `now`.
    pub fn mark_used_at(&mut self, now: i64)
        ensures
            final(self)@ == (ConnectionView { last_used: Some(now), ..old(self)@ }),
    {
        self.last_used = Some(now);
    }

    /// Records a use now.
    pub fn update_last_used(&mut self)
        ensures
            final(self)@.last_used is Some,
            final(self)@ == (ConnectionView { last_used: final(self)@.last_used, ..old(self)@ }),
    {
        let now = now_seconds();
        self.mark_used_at(now);
    }

    /// Adds a tag unless it is already present.
    pub fn add_tag(&mut self, tag: String)
        ensures
            final(self)@ == (ConnectionView {
                tags: if old(self)@.tags.contains(tag@) {
                    old(self)@.tags
                } else {
                    old(self)@.tags.push(tag@)
                },
                ..old(self)@
            }),
    {
        let mut i: usize = 0;
        while i < self.tags.len()
            invariant
                i <= self.tags.len(),
                self@ == old(self)@,
                forall|k: int| 0 <= k < i ==> self@.tags[k] != tag@,
            decreases self.tags.len() - i,
        {
            if self.tags[i] == tag {
                assert(self@.tags[i as int] == tag@);
                return;
            }
            i += 1;
        }
        assert(!self@.tags.contains(tag@));
        self.tags.push(tag);
        assert(self@.tags =~= old(self)@.tags.push(tag@));
    }

    /// Removes every occurrence of a tag.
    pub fn remove_tag(&mut self, tag: &str)
        ensures
            final(self)@ == (ConnectionView { tags: without(old(self)@.tags, tag@), ..old(self)@ }),
    {
        let mut kept: Vec<String> = Vec::new();
        let mut i: usize = 0;
        while i < self.tags.len()
            invariant
                i <= self.tags.len(),
                self@ == old(self)@,
                kept.deep_view() == without(self@.tags.subrange(0, i as int), tag@),
            decreases self.tags.len() - i,
        {
            let ghost pre = self@.tags.subrange(0, i as int);
            assert(self@.tags.subrange(0, i + 1).drop_last() =~= pre);
            assert(self.tags.deep_view()[i as int] == self.tags@[i as int]@);
            if !same_text(self.tags[i].as_str(), tag) {
                let ghost before = kept;
                kept.push(self.tags[i].clone());
                assert(kept.deep_view() =~= before.deep_view().push(self@.tags[i as int]));
            }
            i += 1;
        }
        assert(self@.tags.subrange(0, self.tags.len() as int) =~= self@.tags);
        self.tags = kept;
    }
}

/// `s` without the elements equal to `t`.
pub open spec fn without(s: Seq<Seq<char>>, t: Seq<char>) -> Seq<Seq<char>>
    decreases s.len(),
{
    if s.len() == 0 {
        s
    } else if s.last() == t {
        without(s.drop_last(), t)
    } else {
        without(s.drop_last(), t).push(s.last())
    }
}

/// `base` with each of `ts` appended in order, unless already present.
pub open spec fn add_all(base: Seq<Seq<char>>, ts: Seq<Seq<char>>) -> Seq<Seq<char>>
    decreases ts.len(),
{
    if ts.len() == 0 {
        base
    } else {
        let r = add_all(base, ts.drop_last());
        if r.contains(ts.last()) {
            r
        } else {
            r.push(ts.last())
        }
    }
}

/// `base` without any element equal to one of `ts`.
pub open spec fn remove_all(base: Seq<Seq<char>>, ts: Seq<Seq<char>>) -> Seq<Seq<char>>
    decreases ts.len(),
{
    if ts.len() == 0 {
        base
    } else {
        without(remove_all(base, ts.drop_last()), ts.last())
    }
}

/// The state of a remote session.
#[derive(Debug, Clone)]
pub enum SessionStatus {
    Starting,
    Active,
    Disconnected,
    Terminated,
    Error(String),
}

/// One run of the remote-access client for a profile. Times are seconds
/// since the Unix epoch.
#[derive(Debug, Clone)]
pub struct Session {
    pub id: u128,
    pub connection: Connection,
    pub started_at: i64,
    pub ended_at: Option<i64>,
    pub status: SessionStatus,
    pub pid: Option<u32>,
    pub exit_code: Option<i32>,
}

impl Session {
    /// A session for `connection`, starting now.
    pub fn new(connection: Connection) -> (r: Session)
        ensures
            r.connection == connection,
            r.ended_at is None,
            r.status is Starting,
            r.pid is None,
            r.exit_code is None,
    {
        let id = fresh_id();
        let started_at = now_seconds();
        Session {
            id,
            connection,
            started_at,
            ended_at: None,
            status: SessionStatus::Starting,
            pid: None,
            exit_code: None,
        }
    }

    /// The client is running as process `pid`.
    pub fn mark_active(&mut self, pid: u32)
        ensures
            final(self).status is Active,
            final(self).pid == Some(pid),
            final(self).ended_at == old(self).ended_at,
            final(self).exit_code == old(self).exit_code,
    {
        self.status = SessionStatus::Active;
        self.pid = Some(pid);
    }

    /// The connection dropped at time `now`.
    pub fn mark_disconnected_at(&mut self, now: i64)
        ensures
            final(self).status is Disconnected,
            final(self).ended_at == Some(now),
            final(self).pid == old(self).pid,
            final(self).exit_code == old(self).exit_code,
    {
        self.status = SessionStatus::Disconnected;
        self.ended_at = Some(now);
    }

    /// The connection dropped now.
    pub fn mark_disconnected(&mut self)
        ensures
            final(self).status is Disconnected,
            final(self).ended_at is Some,
            final(self).pid == old(self).pid,
    {
        let now = now_seconds();
        self.mark_disconnected_at(now);
    }

    /// The client exited with `exit_code` at time `now`.
    pub fn mark_terminated_at(&mut self, exit_code: i32, now: i64)
        ensures
            final(self).status is Terminated,
            final(self).ended_at == Some(now),
            final(self).exit_code == Some(exit_code),
            final(self).pid == old(self).pid,
    {
        self.status = SessionStatus::Terminated;
        self.ended_at = Some(now);
        self.exit_code = Some(exit_code);
    }

    /// The client exited with `exit_code` now.
    pub fn mark_terminated(&mut self, exit_code: i32)
        ensures
            final(self).status is Terminated,
            final(self).ended_at is Some,
            final(self).exit_code == Some(exit_code),
    {
        let now = now_seconds();
        self.mark_terminated_at(exit_code, now);
    }

    /// The session failed with `error` at time `now`.
    pub fn mark_error_at(&mut self, error: String, now: i64)
        ensures
            final(self).status == SessionStatus::Error(error),
            final(self).ended_at == Some(now),
            final(self).pid == old(self).pid,
            final(self).exit_code == old(self).exit_code,
    {
        self.status = SessionStatus::Error(error);
        self.ended_at = Some(now);
    }

    /// The session failed with `error` now.
    pub fn mark_error(&mut self, error: String)
        ensures
            final(self).status == SessionStatus::Error(error),
            final(self).ended_at is Some,
    {
        let now = now_seconds();
        self.mark_error_at(error, now);
    }

    /// Whether the client is running.
    pub fn is_active(&self) -> (r: bool)
        ensures
            r == (self.status is Active),
    {
        match self.status {
            SessionStatus::Active => true,
            _ => false,
        }
    }

    /// The length of the session in seconds: to its end, or to now while it runs.
    pub fn duration(&self) -> (r: i128)
        ensures
            self.ended_at matches Some(end) ==> r == end - self.started_at,
    {
        let now = now_seconds();
        self.duration_at(now)
    }

    /// The length of the session in seconds: to its end, or to `now` while it runs.
    pub fn duration_at(&self, now: i64) -> (r: i128)
        ensures
            r == (match self.ended_at {
                Some(end) => end,
                None => now,
            }) - self.started_at,
    {
        let end = match self.ended_at {
            Some(e) => e,
            None => now,
        };
        end as i128 - self.started_at as i128
    }
}

} // verus!

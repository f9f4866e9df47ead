//! Profile logic of the service layer: overrides from the command line,
//! edits, defaults for new profiles, and the remote-access command line.

use vstd::prelude::*;
use crate::config::AppConfig;
use crate::format::{decimal, decimal_string};
use crate::models::{add_all, opt_text, remove_all, Connection, ConnectionView};
use crate::text::{string_of, chars_of};

verus! {

/// The value of an optional override: the override if given, else the current value.
pub open spec fn or_keep<T>(o: Option<T>, cur: T) -> T {
    match o {
        Some(v) => v,
        None => cur,
    }
}

/// The bastion after the overrides: a given bastion replaces it, and
/// `no_bastion` clears it.
pub open spec fn bastion_after(cur: Option<Seq<char>>, bastion: Option<Seq<char>>, no_bastion: bool) -> Option<Seq<char>> {
    if no_bastion {
        None
    } else if bastion is Some {
        bastion
    } else {
        cur
    }
}

/// The bastion user after the overrides: `no_bastion` clears it, then a given
/// bastion user is set.
pub open spec fn bastion_user_after(
    cur: Option<Seq<char>>,
    bastion_user: Option<Seq<char>>,
    no_bastion: bool,
) -> Option<Seq<char>> {
    if bastion_user is Some {
        bastion_user
    } else if no_bastion {
        None
    } else {
        cur
    }
}

/// The profile with the command-line overrides applied.
pub open spec fn overridden(
    c: ConnectionView,
    user: Option<Seq<char>>,
    port: Option<u16>,
    kerberos: Option<bool>,
    bastion: Option<Seq<char>>,
    no_bastion: bool,
    bastion_user: Option<Seq<char>>,
    key: Option<Seq<char>>,
) -> ConnectionView {
    ConnectionView {
        user: or_keep(user, c.user),
        port: or_keep(port, c.port),
        use_kerberos: or_keep(kerberos, c.use_kerberos),
        bastion: bastion_after(c.bastion, bastion, no_bastion),
        bastion_user: bastion_user_after(c.bastion_user, bastion_user, no_bastion),
        key_path: if key is Some {
            key
        } else {
            c.key_path
        },
        ..c
    }
}

impl Connection {
    /// Applies the overrides given on the command line for one connection.
    pub fn apply_overrides(
        &mut self,
        user: Option<String>,
        port: Option<u16>,
        kerberos: Option<bool>,
        bastion: Option<String>,
        no_bastion: bool,
        bastion_user: Option<String>,
        key: Option<String>,
    )
        ensures
            final(self)@ == overridden(
                old(self)@,
                opt_text(user),
                port,
                kerberos,
                opt_text(bastion),
                no_bastion,
                opt_text(bastion_user),
                opt_text(key),
            ),
    {
        if let Some(u) = user {
            self.user = u;
        }
        if let Some(p) = port {
            self.port = p;
        }
        if let Some(k) = kerberos {
            self.use_kerberos = k;
        }
        if let Some(b) = bastion {
            self.bastion = Some(b);
        }
        if no_bastion {
            self.bastion = None;
            self.bastion_user = None;
        }
        if let Some(bu) = bastion_user {
            self.bastion_user = Some(bu);
        }
        if let Some(k) = key {
            self.key_path = Some(k);
        }
    }

    /// Applies an edit: a new name and host if given, the overrides, then the
    /// tags to add (each unless present) and the tags to remove.
    pub fn apply_edits(
        &mut self,
        name: Option<String>,
        host: Option<String>,
        user: Option<String>,
        port: Option<u16>,
        kerberos: Option<bool>,
        bastion: Option<String>,
        no_bastion: bool,
        bastion_user: Option<String>,
        key: Option<String>,
        add_tags: Vec<String>,
        remove_tags: Vec<String>,
    )
        ensures
            final(self)@.name == or_keep(opt_text(name), old(self)@.name),
            final(self)@.host == or_keep(opt_text(host), old(self)@.host),
            ({
                let o = overridden(
                    old(self)@,
                    opt_text(user),
                    port,
                    kerberos,
                    opt_text(bastion),
                    no_bastion,
                    opt_text(bastion_user),
                    opt_text(key),
                );
                &&& final(self)@.user == o.user
                &&& final(self)@.port == o.port
                &&& final(self)@.use_kerberos == o.use_kerberos
                &&& final(self)@.bastion == o.bastion
                &&& final(self)@.bastion_user == o.bastion_user
                &&& final(self)@.key_path == o.key_path
            }),
            final(self)@.id == old(self)@.id,
            final(self)@.last_used == old(self)@.last_used,
            final(self)@.created_at == old(self)@.created_at,
            final(self)@.tags == remove_all(
                add_all(old(self)@.tags, add_tags.deep_view()),
                remove_tags.deep_view(),
            ),
    {
        if let Some(n) = name {
            self.name = n;
        }
        if let Some(h) = host {
            self.host = h;
        }
        self.apply_overrides(user, port, kerberos, bastion, no_bastion, bastion_user, key);
        let ghost mid = self@;
        let ghost base = self@.tags;
        let mut i: usize = 0;
        while i < add_tags.len()
            invariant
                i <= add_tags.len(),
                self@ == (ConnectionView { tags: self@.tags, ..mid }),
                self@.tags == add_all(base, add_tags.deep_view().subrange(0, i as int)),
            decreases add_tags.len() - i,
        {
            let ghost sub = add_tags.deep_view().subrange(0, i + 1);
            assert(sub.drop_last() =~= add_tags.deep_view().subrange(0, i as int));
            assert(sub.last() == add_tags@[i as int]@);
            self.add_tag(add_tags[i].clone());
            i += 1;
        }
        assert(add_tags.deep_view().subrange(0, add_tags.len() as int) =~= add_tags.deep_view());
        let ghost added = self@.tags;
        let mut j: usize = 0;
        while j < remove_tags.len()
            invariant
                j <= remove_tags.len(),
                self@ == (ConnectionView { tags: self@.tags, ..mid }),
                self@.tags == remove_all(added, remove_tags.deep_view().subrange(0, j as int)),
            decreases remove_tags.len() - j,
        {
            let ghost sub = remove_tags.deep_view().subrange(0, j + 1);
            assert(sub.drop_last() =~= remove_tags.deep_view().subrange(0, j as int));
            assert(sub.last() == remove_tags@[j as int]@);
            self.remove_tag(remove_tags[j].as_str());
            j += 1;
        }
        assert(remove_tags.deep_view().subrange(0, remove_tags.len() as int) =~= remove_tags.deep_view());
    }
}

/// `user@host`.
pub open spec fn user_at(user: Seq<char>, host: Seq<char>) -> Seq<char> {
    user + "@"@ + host
}

/// The bastion user: the one set, else the profile's user.
pub open spec fn bastion_login(c: ConnectionView) -> Seq<char> {
    match c.bastion_user {
        Some(u) => u,
        None => c.user,
    }
}

/// The remote-access command line for a profile, as one text.
pub open spec fn ssh_command_spec(c: ConnectionView) -> Seq<char> {
    (if c.use_kerberos {
        "ssh -t -A -K "@
    } else {
        "ssh "@
    }) + (match c.key_path {
        Some(k) => "-i "@ + k + " "@,
        None => Seq::empty(),
    }) + match c.bastion {
        Some(b) => "-p 22 "@ + user_at(bastion_login(c), b) + " "@ + user_at(c.user, c.host),
        None => "-p "@ + decimal(c.port as int) + " "@ + user_at(c.user, c.host),
    }
}

/// The arguments of the remote-access client for a profile: Kerberos
/// forwarding flags, the key, then either the bastion on port 22 followed by
/// the target, or the target's port and the target.
pub open spec fn ssh_args_spec(c: ConnectionView) -> Seq<Seq<char>> {
    (if c.use_kerberos {
        seq!["-t"@, "-A"@, "-K"@]
    } else {
        Seq::empty()
    }) + (match c.key_path {
        Some(k) => seq!["-i"@, k],
        None => Seq::empty(),
    }) + match c.bastion {
        Some(b) => seq!["-p"@, "22"@, user_at(bastion_login(c), b), user_at(c.user, c.host)],
        None => seq!["-p"@, decimal(c.port as int), user_at(c.user, c.host)],
    }
}

fn user_at_text(user: &str, host: &str) -> (r: String)
    ensures
        r@ == user_at(user@, host@),
{
    let mut r = string_of(&chars_of(user));
    r.append("@");
    r.append(host);
    r
}

fn push_arg(args: &mut Vec<String>, a: String)
    ensures
        final(args).deep_view() == old(args).deep_view().push(a@),
{
    let ghost before = *args;
    args.push(a);
    assert(args.deep_view() =~= before.deep_view().push(a@));
}

impl Connection {
    /// The remote-access command line, as one text.
    pub fn to_ssh_command(&self) -> (r: String)
        ensures
            r@ == ssh_command_spec(self@),
    {
        let mut cmd = if self.use_kerberos {
            String::from_str("ssh -t -A -K ")
        } else {
            String::from_str("ssh ")
        };
        let ghost head = cmd@;
        if let Some(key) = &self.key_path {
            cmd.append("-i ");
            cmd.append(key.as_str());
            cmd.append(" ");
        }
        let ghost keyed = cmd@;
        assert(keyed == head + match self@.key_path {
            Some(k) => "-i "@ + k + " "@,
            None => Seq::<char>::empty(),
        });
        match &self.bastion {
            Some(bastion) => {
                let login = match &self.bastion_user {
                    Some(u) => u.as_str(),
                    None => self.user.as_str(),
                };
                cmd.append("-p 22 ");
                let b = user_at_text(login, bastion.as_str());
                cmd.append(b.as_str());
                cmd.append(" ");
                let t = user_at_text(self.user.as_str(), self.host.as_str());
                cmd.append(t.as_str());
            },
            None => {
                cmd.append("-p ");
                let p = decimal_string(self.port as i64);
                cmd.append(p.as_str());
                cmd.append(" ");
                let t = user_at_text(self.user.as_str(), self.host.as_str());
                cmd.append(t.as_str());
            },
        }
        assert(cmd@ =~= ssh_command_spec(self@));
        cmd
    }

    /// The arguments of the remote-access client.
    pub fn ssh_args(&self) -> (r: Vec<String>)
        ensures
            r.deep_view() == ssh_args_spec(self@),
    {
        let mut args: Vec<String> = Vec::new();
        if self.use_kerberos {
            push_arg(&mut args, String::from_str("-t"));
            push_arg(&mut args, String::from_str("-A"));
            push_arg(&mut args, String::from_str("-K"));
        }
        let ghost head = args.deep_view();
        if let Some(key) = &self.key_path {
            push_arg(&mut args, String::from_str("-i"));
            push_arg(&mut args, key.clone());
        }
        let ghost keyed = args.deep_view();
        match &self.bastion {
            Some(bastion) => {
                let login = match &self.bastion_user {
                    Some(u) => u.as_str(),
                    None => self.user.as_str(),
                };
                push_arg(&mut args, String::from_str("-p"));
                push_arg(&mut args, String::from_str("22"));
                push_arg(&mut args, user_at_text(login, bastion.as_str()));
                push_arg(&mut args, user_at_text(self.user.as_str(), self.host.as_str()));
            },
            None => {
                push_arg(&mut args, String::from_str("-p"));
                push_arg(&mut args, decimal_string(self.port as i64));
                push_arg(&mut args, user_at_text(self.user.as_str(), self.host.as_str()));
            },
        }
        assert(head =~= (if self@.use_kerberos {
            seq!["-t"@, "-A"@, "-K"@]
        } else {
            Seq::<Seq<char>>::empty()
        }));
        assert(keyed =~= head + match self@.key_path {
            Some(k) => seq!["-i"@, k],
            None => Seq::<Seq<char>>::empty(),
        });
        assert(args.deep_view() =~= ssh_args_spec(self@));
        args
    }
}

/// The bastion of a new profile: none with `no_bastion`, else the one given,
/// else the configured default.
pub open spec fn new_bastion(given: Option<Seq<char>>, default: Option<Seq<char>>, no_bastion: bool) -> Option<Seq<char>> {
    if no_bastion {
        None
    } else if given is Some {
        given
    } else {
        default
    }
}

/// A new profile from the options of the `add` command and the settings: the
/// configured user, port and bastion fill in what is not given; `no_bastion`
/// forces a direct connection; Kerberos, unless given, follows the configured
/// default behind a bastion and is off for a direct connection. The tags are
/// added in order, each once.
pub fn new_connection_from_options(
    config: &AppConfig,
    name: String,
    host: String,
    user: Option<String>,
    port: Option<u16>,
    kerberos: Option<bool>,
    bastion: Option<String>,
    no_bastion: bool,
    bastion_user: Option<String>,
    key: Option<String>,
    tags: Vec<String>,
) -> (r: Connection)
    ensures
        r@.name == name@,
        r@.host == host@,
        r@.user == or_keep(opt_text(user), config.default_user@),
        r@.port == or_keep(port, config.default_port),
        r@.bastion == new_bastion(opt_text(bastion), opt_text(config.default_bastion), no_bastion),
        r@.bastion_user == new_bastion(
            opt_text(bastion_user),
            opt_text(config.default_bastion_user),
            no_bastion,
        ),
        r@.use_kerberos == or_keep(
            kerberos,
            new_bastion(opt_text(bastion), opt_text(config.default_bastion), no_bastion) is Some
                && config.use_kerberos_by_default,
        ),
        r@.key_path == opt_text(key),
        r@.last_used is None,
        r@.tags == add_all(Seq::empty(), tags.deep_view()),
{
    let final_bastion = if no_bastion {
        None
    } else {
        match bastion {
            Some(b) => Some(b),
            None => crate::models::copy_opt(&config.default_bastion),
        }
    };
    let final_bastion_user = if no_bastion {
        None
    } else {
        match bastion_user {
            Some(b) => Some(b),
            None => crate::models::copy_opt(&config.default_bastion_user),
        }
    };
    let final_kerberos = match kerberos {
        Some(k) => k,
        None => final_bastion.is_some() && config.use_kerberos_by_default,
    };
    let final_user = match user {
        Some(u) => u,
        None => config.default_user.clone(),
    };
    let final_port = match port {
        Some(p) => p,
        None => config.default_port,
    };
    let mut conn = Connection::new(
        name,
        host,
        final_user,
        final_port,
        final_bastion,
        final_bastion_user,
        final_kerberos,
        key,
    );
    let ghost start = conn@;
    assert(conn@.tags =~= Seq::<Seq<char>>::empty());
    let mut i: usize = 0;
    while i < tags.len()
        invariant
            i <= tags.len(),
            conn@ == (ConnectionView { tags: conn@.tags, ..start }),
            conn@.tags == add_all(Seq::empty(), tags.deep_view().subrange(0, i as int)),
        decreases tags.len() - i,
    {
        let ghost sub = tags.deep_view().subrange(0, i + 1);
        assert(sub.drop_last() =~= tags.deep_view().subrange(0, i as int));
        assert(sub.last() == tags@[i as int]@);
        conn.add_tag(tags[i].clone());
        i += 1;
    }
    assert(tags.deep_view().subrange(0, tags.len() as int) =~= tags.deep_view());
    conn
}

/// A profile for a target that is not stored: name and host are the target,
/// and the settings fill in the user, port and Kerberos when not given. A
/// bastion is used only when given.
pub fn direct_connection(
    config: &AppConfig,
    target: &str,
    user: Option<String>,
    port: Option<u16>,
    kerberos: Option<bool>,
    bastion: Option<String>,
    bastion_user: Option<String>,
    key: Option<String>,
) -> (r: Connection)
    ensures
        r@.name == target@,
        r@.host == target@,
        r@.user == or_keep(opt_text(user), config.default_user@),
        r@.port == or_keep(port, config.default_port),
        r@.use_kerberos == or_keep(kerberos, config.use_kerberos_by_default),
        r@.bastion == opt_text(bastion),
        r@.bastion_user == opt_text(bastion_user),
        r@.key_path == opt_text(key),
        r@.last_used is None,
        r@.tags.len() == 0,
{
    let final_user = match user {
        Some(u) => u,
        None => config.default_user.clone(),
    };
    let final_port = match port {
        Some(p) => p,
        None => config.default_port,
    };
    let final_kerberos = match kerberos {
        Some(k) => k,
        None => config.use_kerberos_by_default,
    };
    Connection::new(
        string_of(&chars_of(target)),
        string_of(&chars_of(target)),
        final_user,
        final_port,
        bastion,
        bastion_user,
        final_kerberos,
        key,
    )
}

} // verus!

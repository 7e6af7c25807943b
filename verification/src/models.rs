use vstd::prelude::*;

use crate::error::SshManagerError;

verus! {

/// How a server is authenticated: with a key file, or with a password kept
/// in the system keyring.
#[derive(Debug, Clone, Copy, PartialEq, Eq, Structural)]
pub enum AuthMethod {
    Key,
    Password,
}

/// One saved server.
#[derive(Debug, Clone)]
pub struct Server {
    pub name: String,
    pub host: String,
    pub username: String,
    pub port: u16,
    pub auth_method: AuthMethod,
    pub key_path: Option<String>,
    pub use_agent_forwarding: bool,
}

/// All saved servers, in the order they were added, and the preferred
/// terminal emulator.
#[derive(Debug, Clone)]
pub struct Config {
    pub servers: Vec<Server>,
    pub preferred_terminal: Option<String>,
}

/// The legacy file that held only the terminal preference.
#[derive(Debug)]
pub struct TerminalConfig {
    pub terminal: String,
}

/// Some server in `servers` is called `name`.
pub open spec fn has_named(servers: Seq<Server>, name: Seq<char>) -> bool {
    exists|i: int| 0 <= i < servers.len() && #[trigger] servers[i].name@ == name
}

/// `i` is the first position in `servers` of a server called `name`.
pub open spec fn first_named(servers: Seq<Server>, name: Seq<char>, i: int) -> bool {
    &&& 0 <= i < servers.len()
    &&& servers[i].name@ == name
    &&& forall|j: int| 0 <= j < i ==> #[trigger] servers[j].name@ != name
}

/// The first server called `name`, if there is one.
pub open spec fn lookup(servers: Seq<Server>, name: Seq<char>) -> Option<Server> {
    if has_named(servers, name) {
        Some(servers[choose|i: int| first_named(servers, name, i)])
    } else {
        None
    }
}

/// The servers not called `name`, in their order.
pub open spec fn without_named(servers: Seq<Server>, name: Seq<char>) -> Seq<Server> {
    servers.filter(|s: Server| s.name@ != name)
}

/// No two servers share a name.
pub open spec fn names_distinct(servers: Seq<Server>) -> bool {
    forall|i: int, j: int|
        0 <= i < servers.len() && 0 <= j < servers.len() && i != j ==> #[trigger] servers[i].name@
            != #[trigger] servers[j].name@
}

/// A first position of a name is the only one.
pub proof fn lemma_first_named_unique(servers: Seq<Server>, name: Seq<char>, i: int, k: int)
    requires
        first_named(servers, name, i),
        first_named(servers, name, k),
    ensures
        i == k,
{
    if i < k {
        assert(servers[i].name@ != name);
    } else if k < i {
        assert(servers[k].name@ != name);
    }
}

/// A name that some server has has a first position.
pub proof fn lemma_first_named_exists(servers: Seq<Server>, name: Seq<char>)
    requires
        has_named(servers, name),
    ensures
        exists|i: int| first_named(servers, name, i),
    decreases servers.len(),
{
    let rest = servers.drop_last();
    if has_named(rest, name) {
        lemma_first_named_exists(rest, name);
        let i = choose|i: int| first_named(rest, name, i);
        assert forall|j: int| 0 <= j < i implies #[trigger] servers[j].name@ != name by {
            assert(servers[j] == rest[j]);
        }
        assert(servers[i] == rest[i]);
        assert(first_named(servers, name, i));
    } else {
        let n = servers.len() - 1;
        assert forall|j: int| 0 <= j < n implies #[trigger] servers[j].name@ != name by {
            assert(servers[j] == rest[j]);
            if servers[j].name@ == name {
                assert(rest[j].name@ == name);
            }
        }
        assert(servers[n].name@ == name) by {
            let k = choose|k: int| 0 <= k < servers.len() && #[trigger] servers[k].name@ == name;
            if k < n {
                assert(rest[k] == servers[k]);
            }
        }
        assert(first_named(servers, name, n));
    }
}

/// The server that `lookup` finds is the one at the first position.
pub proof fn lemma_lookup_at(servers: Seq<Server>, name: Seq<char>, i: int)
    requires
        first_named(servers, name, i),
    ensures
        lookup(servers, name) == Some(servers[i]),
{
    assert(has_named(servers, name));
    let k = choose|k: int| first_named(servers, name, k);
    lemma_first_named_unique(servers, name, i, k);
}

/// Filtering out a name that no server has leaves the servers as they are.
proof fn lemma_without_absent(servers: Seq<Server>, name: Seq<char>)
    requires
        !has_named(servers, name),
    ensures
        without_named(servers, name) == servers,
    decreases servers.len(),
{
    reveal(Seq::filter);
    if servers.len() > 0 {
        let rest = servers.drop_last();
        assert(!has_named(rest, name)) by {
            if has_named(rest, name) {
                let i = choose|i: int| 0 <= i < rest.len() && #[trigger] rest[i].name@ == name;
                assert(servers[i].name@ == name);
            }
        }
        lemma_without_absent(rest, name);
        assert(servers.last().name@ != name) by {
            assert(servers[servers.len() - 1].name@ != name);
        }
        assert(rest.push(servers.last()) == servers);
    }
}

/// Law: a server that was added under a new name is what a lookup of that
/// name finds.
pub proof fn lemma_lookup_after_add(servers: Seq<Server>, server: Server)
    requires
        !has_named(servers, server.name@),
    ensures
        lookup(servers.push(server), server.name@) == Some(server),
{
    let all = servers.push(server);
    let i = servers.len() as int;
    assert forall|j: int| 0 <= j < i implies #[trigger] all[j].name@ != server.name@ by {
        assert(all[j] == servers[j]);
        if all[j].name@ == server.name@ {
            assert(servers[j].name@ == server.name@);
        }
    }
    assert(first_named(all, server.name@, i));
    lemma_lookup_at(all, server.name@, i);
}

/// Law: removing the name of a server that was just added under a new name
/// gives back the servers as they were before.
pub proof fn lemma_remove_undoes_add(servers: Seq<Server>, server: Server)
    requires
        !has_named(servers, server.name@),
    ensures
        without_named(servers.push(server), server.name@) == servers,
{
    reveal(Seq::filter);
    assert(servers.push(server).drop_last() == servers);
    lemma_without_absent(servers, server.name@);
}

/// Law: after a name is removed, a lookup of it finds nothing.
pub proof fn lemma_lookup_after_remove(servers: Seq<Server>, name: Seq<char>)
    ensures
        lookup(without_named(servers, name), name) is None,
{
    broadcast use vstd::seq_lib::group_filter_ensures;

    let kept = without_named(servers, name);
    if has_named(kept, name) {
        let i = choose|i: int| 0 <= i < kept.len() && #[trigger] kept[i].name@ == name;
        assert((|s: Server| s.name@ != name)(kept[i]));
    }
}

/// Law: removing one name changes no lookup of another name.
pub proof fn lemma_remove_keeps_other_lookups(
    servers: Seq<Server>,
    name: Seq<char>,
    other: Seq<char>,
)
    requires
        name != other,
    ensures
        lookup(without_named(servers, name), other) == lookup(servers, other),
    decreases servers.len(),
{
    reveal(Seq::filter);
    if servers.len() > 0 {
        let rest = servers.drop_last();
        let last = servers.last();
        lemma_remove_keeps_other_lookups(rest, name, other);
        let kept_rest = without_named(rest, name);
        if has_named(rest, other) {
            lemma_first_named_exists(rest, other);
            let i = choose|i: int| first_named(rest, other, i);
            lemma_lookup_at(rest, other, i);
            assert(first_named(servers, other, i)) by {
                assert forall|j: int| 0 <= j < i implies #[trigger] servers[j].name@ != other by {
                    assert(servers[j] == rest[j]);
                }
                assert(servers[i] == rest[i]);
            }
            lemma_lookup_at(servers, other, i);
            assert(lookup(kept_rest, other) == Some(rest[i]));
            assert(has_named(kept_rest, other));
            lemma_first_named_exists(kept_rest, other);
            let k = choose|k: int| first_named(kept_rest, other, k);
            assert(first_named(kept_rest, other, k));
            lemma_lookup_at(kept_rest, other, k);
            if last.name@ != name {
                let kept = kept_rest.push(last);
                assert(first_named(kept, other, k)) by {
                    assert forall|j: int| 0 <= j < k implies #[trigger] kept[j].name@ != other by {
                        assert(kept[j] == kept_rest[j]);
                    }
                    assert(kept[k] == kept_rest[k]);
                }
                lemma_lookup_at(kept, other, k);
            }
        } else {
            assert(lookup(kept_rest, other) is None);
            assert(!has_named(kept_rest, other));
            if last.name@ == other {
                let n = servers.len() - 1;
                assert(first_named(servers, other, n)) by {
                    assert forall|j: int| 0 <= j < n implies #[trigger] servers[j].name@ != other by {
                        assert(servers[j] == rest[j]);
                        if servers[j].name@ == other {
                            assert(rest[j].name@ == other);
                        }
                    }
                }
                lemma_lookup_at(servers, other, n);
                let kept = kept_rest.push(last);
                let m = kept_rest.len() as int;
                assert(first_named(kept, other, m)) by {
                    assert forall|j: int| 0 <= j < m implies #[trigger] kept[j].name@ != other by {
                        assert(kept[j] == kept_rest[j]);
                        if kept[j].name@ == other {
                            assert(kept_rest[j].name@ == other);
                        }
                    }
                }
                lemma_lookup_at(kept, other, m);
            } else {
                assert(!has_named(servers, other)) by {
                    if has_named(servers, other) {
                        let j = choose|j: int| 0 <= j < servers.len() && #[trigger] servers[j].name@ == other;
                        if j < servers.len() - 1 {
                            assert(rest[j] == servers[j]);
                        }
                    }
                }
                if last.name@ != name {
                    let kept = kept_rest.push(last);
                    assert(!has_named(kept, other)) by {
                        if has_named(kept, other) {
                            let j = choose|j: int| 0 <= j < kept.len() && #[trigger] kept[j].name@ == other;
                            if j < kept.len() - 1 {
                                assert(kept_rest[j] == kept[j]);
                            }
                        }
                    }
                }
            }
        }
    }
}

/// Law: adding under a new name keeps the saved names distinct.
pub proof fn lemma_add_keeps_names_distinct(servers: Seq<Server>, server: Server)
    requires
        names_distinct(servers),
        !has_named(servers, server.name@),
    ensures
        names_distinct(servers.push(server)),
{
    let all = servers.push(server);
    assert forall|i: int, j: int|
        0 <= i < all.len() && 0 <= j < all.len() && i != j implies #[trigger] all[i].name@
            != #[trigger] all[j].name@ by {
        if i < servers.len() && j < servers.len() {
            assert(all[i] == servers[i] && all[j] == servers[j]);
        } else if i < servers.len() {
            assert(all[i] == servers[i]);
            if all[i].name@ == all[j].name@ {
                assert(servers[i].name@ == server.name@);
            }
        } else {
            assert(all[j] == servers[j]);
            if all[i].name@ == all[j].name@ {
                assert(servers[j].name@ == server.name@);
            }
        }
    }
}

impl Config {
    /// An empty configuration.
    pub fn new() -> (c: Config)
        ensures
            c.servers@.len() == 0,
            c.preferred_terminal is None,
    {
        Config { servers: Vec::new(), preferred_terminal: None }
    }

    /// The first saved server called `name`.
    pub fn find_server(&self, name: &str) -> (r: Option<&Server>)
        ensures
            match r {
                Some(s) => lookup(self.servers@, name@) == Some(*s),
                None => lookup(self.servers@, name@) is None,
            },
    {
        let key = name.to_owned();
        let n = self.servers.len();
        let mut i: usize = 0;
        while i < n
            invariant
                n == self.servers@.len(),
                key@ == name@,
                i <= n,
                forall|j: int| 0 <= j < i ==> #[trigger] self.servers@[j].name@ != name@,
            decreases n - i,
        {
            if self.servers[i].name == key {
                proof {
                    lemma_lookup_at(self.servers@, name@, i as int);
                }
                return Some(&self.servers[i]);
            }
            i = i + 1;
        }
        proof {
            assert(!has_named(self.servers@, name@));
        }
        None
    }

    /// Whether some saved server is called `name`.
    pub fn has_server(&self, name: &str) -> (r: bool)
        ensures
            r == has_named(self.servers@, name@),
    {
        let found = self.find_server(name);
        proof {
            if has_named(self.servers@, name@) {
                assert(lookup(self.servers@, name@) is Some);
            }
        }
        found.is_some()
    }

    /// Saves `server` after the others, unless a server of that name is
    /// already saved.
    pub fn add_server(&mut self, server: Server) -> (r: Result<(), SshManagerError>)
        ensures
            has_named(old(self).servers@, server.name@) ==> {
                &&& r matches Err(SshManagerError::ServerAlreadyExists(n))
                &&& n@ == server.name@
                &&& final(self).servers@ == old(self).servers@
            },
            !has_named(old(self).servers@, server.name@) ==> {
                &&& r is Ok
                &&& final(self).servers@ == old(self).servers@.push(server)
            },
            final(self).preferred_terminal == old(self).preferred_terminal,
    {
        if self.has_server(server.name.as_str()) {
            return Err(SshManagerError::ServerAlreadyExists(server.name));
        }
        self.servers.push(server);
        Ok(())
    }

    /// Removes every saved server called `name`; fails when there is none.
    pub fn remove_server(&mut self, name: &str) -> (r: Result<(), SshManagerError>)
        ensures
            has_named(old(self).servers@, name@) ==> {
                &&& r is Ok
                &&& final(self).servers@ == without_named(old(self).servers@, name@)
            },
            !has_named(old(self).servers@, name@) ==> {
                &&& r matches Err(SshManagerError::ServerNotFound(n))
                &&& n@ == name@
                &&& final(self).servers@ == old(self).servers@
            },
            final(self).preferred_terminal == old(self).preferred_terminal,
    {
        if !self.has_server(name) {
            return Err(SshManagerError::ServerNotFound(name.to_owned()));
        }
        let key = name.to_owned();
        let mut rest: Vec<Server> = Vec::new();
        std::mem::swap(&mut rest, &mut self.servers);
        let ghost orig = rest@;
        let total = rest.len();
        let mut kept: Vec<Server> = Vec::new();
        let mut k: usize = 0;
        while rest.len() > 0
            invariant
                key@ == name@,
                k <= orig.len(),
                orig.len() == total,
                rest@ == orig.skip(k as int),
                kept@ == without_named(orig.take(k as int), name@),
            decreases rest@.len(),
        {
            let s = rest.remove(0);
            proof {
                assert(orig.take(k as int + 1).drop_last() == orig.take(k as int));
                assert(s == orig[k as int]);
                assert(orig.take(k as int + 1).last() == s);
                reveal(Seq::filter);
            }
            if s.name != key {
                kept.push(s);
            }
            proof {
                assert(rest@ == orig.skip(k as int + 1));
            }
            k = k + 1;
        }
        proof {
            assert(orig.take(k as int) == orig);
        }
        self.servers = kept;
        Ok(())
    }

    /// The position of the server chosen by its number in a list that
    /// counts from 1, given the number read (none when the answer was not a
    /// number); none when the number is outside the list.
    pub fn pick_server(&self, number: Option<usize>) -> (r: Option<usize>)
        ensures
            match number {
                Some(k) => if 1 <= k <= self.servers@.len() {
                    r == Some((k - 1) as usize)
                } else {
                    r is None
                },
                None => r is None,
            },
    {
        match number {
            Some(k) => {
                if k == 0 || k > self.servers.len() {
                    None
                } else {
                    Some(k - 1)
                }
            },
            None => None,
        }
    }
}

impl Default for Config {
    fn default() -> (c: Config)
        ensures
            c.servers@.len() == 0,
            c.preferred_terminal is None,
    {
        Config::new()
    }
}

impl Server {
    /// A server record; agent forwarding starts off.
    pub fn new(
        name: String,
        host: String,
        username: String,
        port: u16,
        auth_method: AuthMethod,
        key_path: Option<String>,
    ) -> (s: Server)
        ensures
            s.name == name,
            s.host == host,
            s.username == username,
            s.port == port,
            s.auth_method == auth_method,
            s.key_path == key_path,
            !s.use_agent_forwarding,
    {
        Server { name, host, username, port, auth_method, key_path, use_agent_forwarding: false }
    }
}

} // verus!

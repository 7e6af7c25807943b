use vstd::prelude::*;

use crate::error::SshManagerError;
use crate::models::{AuthMethod, Server};
use crate::text::{decimal, is_digit, lemma_decimal_denotes, lemma_texts_push, push_decimal, texts};

verus! {

#[verifier::external_type_specification]
#[verifier::external_body]
pub struct ExKeyringEntry(keyring::Entry);

#[verifier::external_type_specification]
#[verifier::external_body]
pub struct ExKeyringError(keyring::Error);

/// An entry of the keyring together with the service and user it was
/// opened under.
pub struct KeyringEntry {
    pub service: String,
    pub user: String,
    pub entry: keyring::Entry,
}

/// Calls `keyring::Entry::new(service, user)` and keeps the service and
/// user beside the entry it made. Whether an entry can be made depends on
/// the platform credential store, so only this is stated: an entry that
/// was made was made for the given service and user.
#[verifier::external_body]
fn open_keyring_entry(service: &str, user: &str) -> (r: Result<KeyringEntry, keyring::Error>)
    ensures
        r matches Ok(e) ==> e.service@ == service@ && e.user@ == user@,
{
    match keyring::Entry::new(service, user) {
        Ok(entry) => Ok(KeyringEntry { service: service.to_string(), user: user.to_string(), entry }),
        Err(e) => Err(e),
    }
}

/// Calls `keyring::Entry::set_password` on the entry; the outcome depends on
/// the credential store, so nothing is stated of it.
#[verifier::external_body]
fn keyring_set_password(entry: &KeyringEntry, password: &str) -> (r: Result<(), keyring::Error>) {
    entry.entry.set_password(password)
}

/// Calls `keyring::Entry::get_password` on the entry; what it returns is
/// whatever the credential store holds, so nothing is stated of it.
#[verifier::external_body]
fn keyring_get_password(entry: &KeyringEntry) -> (r: Result<String, keyring::Error>) {
    entry.entry.get_password()
}

/// Calls `keyring::Entry::delete_credential` on the entry; the outcome
/// depends on the credential store, so nothing is stated of it.
#[verifier::external_body]
fn keyring_delete_credential(entry: &KeyringEntry) -> (r: Result<(), keyring::Error>) {
    entry.entry.delete_credential()
}

/// The message of a keyring error, as its `Display` writes it; nothing is
/// stated of the text.
#[verifier::external_body]
fn keyring_error_text(e: &keyring::Error) -> (r: String) {
    e.to_string()
}

/// The arguments of `ssh` for a server: `-i <key>` when it has a key file,
/// `-A` when agent forwarding is on, `-p <port>` when the port is not 22,
/// then `<username>@<host>`.
pub open spec fn ssh_args(s: Server) -> Seq<Seq<char>> {
    key_args(s) + agent_args(s) + port_args(s) + seq![s.username@ + seq!['@'] + s.host@]
}

/// `-i <key>` when the server has a key file.
pub open spec fn key_args(s: Server) -> Seq<Seq<char>> {
    match s.key_path {
        Some(k) => seq![seq!['-', 'i'], k@],
        None => Seq::empty(),
    }
}

/// `-A` when agent forwarding is on.
pub open spec fn agent_args(s: Server) -> Seq<Seq<char>> {
    if s.use_agent_forwarding {
        seq![seq!['-', 'A']]
    } else {
        Seq::empty()
    }
}

/// `-p <port>` when the port is not 22.
pub open spec fn port_args(s: Server) -> Seq<Seq<char>> {
    if s.port != 22 {
        seq![seq!['-', 'p'], decimal(s.port as nat)]
    } else {
        Seq::empty()
    }
}

/// Law: the `ssh` arguments of a server are, in this order, `-i` and the
/// key path when it has a key file, `-A` exactly when agent forwarding is
/// on, `-p` and the port in decimal exactly when the port is not 22, and
/// last `<username>@<host>`; nothing else.
pub proof fn lemma_ssh_args_layout(s: Server)
    ensures
        ssh_args(s).len() == (if s.key_path is Some {
            2int
        } else {
            0int
        }) + (if s.use_agent_forwarding {
            1int
        } else {
            0int
        }) + (if s.port != 22 {
            2int
        } else {
            0int
        }) + 1,
        s.key_path is Some ==> ssh_args(s)[0] == "-i"@ && ssh_args(s)[1] == s.key_path->0@,
        s.use_agent_forwarding ==> ssh_args(s)[if s.key_path is Some {
            2int
        } else {
            0int
        }] == "-A"@,
        s.port != 22 ==> ssh_args(s)[(if s.key_path is Some {
            2int
        } else {
            0int
        }) + (if s.use_agent_forwarding {
            1int
        } else {
            0int
        })] == "-p"@ && ssh_args(s)[(if s.key_path is Some {
            2int
        } else {
            0int
        }) + (if s.use_agent_forwarding {
            1int
        } else {
            0int
        }) + 1] == decimal(s.port as nat),
        ssh_args(s).last() == s.username@ + "@"@ + s.host@,
{
    reveal_strlit("-i");
    reveal_strlit("-A");
    reveal_strlit("-p");
    reveal_strlit("@");
    let k = key_args(s);
    let a = agent_args(s);
    let p = port_args(s);
    let t = seq![s.username@ + seq!['@'] + s.host@];
    assert(ssh_args(s) == k + a + p + t);
    assert((k + a + p + t)[(k.len() + a.len() + p.len()) as int] == t[0]);
    if s.key_path is Some {
        assert((k + a + p + t)[0] == k[0]);
        assert((k + a + p + t)[1] == k[1]);
    }
    if s.use_agent_forwarding {
        assert((k + a + p + t)[k.len() as int] == a[0]);
    }
    if s.port != 22 {
        assert((k + a + p + t)[(k.len() + a.len()) as int] == p[0]);
        assert((k + a + p + t)[(k.len() + a.len()) as int + 1] == p[1]);
    }
}

/// Law: `-A` is among the `ssh` arguments exactly when agent forwarding is
/// on, whatever the key file and the authentication, unless the key path
/// itself is the text `-A`.
pub proof fn lemma_agent_flag_iff_forwarding(s: Server)
    requires
        !(s.key_path is Some && s.key_path->0@ == "-A"@),
    ensures
        ssh_args(s).contains("-A"@) <==> s.use_agent_forwarding,
{
    reveal_strlit("-A");
    lemma_ssh_args_layout(s);
    lemma_decimal_denotes(s.port as nat);
    let args = ssh_args(s);
    let minus_a = "-A"@;
    assert(minus_a.len() == 2 && minus_a[0] == '-' && minus_a[1] == 'A');
    if s.use_agent_forwarding {
        let at: int = if s.key_path is Some {
            2
        } else {
            0
        };
        assert(args[at] == minus_a);
    } else {
        assert forall|i: int| 0 <= i < args.len() implies #[trigger] args[i] != minus_a by {
            let k = key_args(s);
            let a = agent_args(s);
            let p = port_args(s);
            let t = seq![s.username@ + seq!['@'] + s.host@];
            assert(args == k + a + p + t);
            assert(a.len() == 0);
            if i < k.len() {
                assert(args[i] == k[i]);
                if i == 0 {
                    assert(k[0] == seq!['-', 'i']);
                }
            } else if i < k.len() + p.len() {
                assert(args[i] == p[i - k.len()]);
                if i == k.len() {
                    assert(p[0] == seq!['-', 'p']);
                } else {
                    assert(p[1] == decimal(s.port as nat));
                    assert(is_digit(decimal(s.port as nat)[0]));
                }
            } else {
                let target = s.username@ + seq!['@'] + s.host@;
                assert(args[i] == target);
                if target == minus_a {
                    assert(target[s.username@.len() as int] == '@');
                }
            }
        }
    }
}

/// The user name under which the password of a server is kept.
pub open spec fn keyring_user_text(server_name: Seq<char>) -> Seq<char> {
    server_name + "_ssh_password"@
}

/// Launching connections and keeping their passwords.
pub struct Ssh;

impl Ssh {
    /// The service under which passwords are kept in the keyring.
    pub const KEYRING_SERVICE: &'static str = "ssh_manager";

    /// The arguments of `ssh` for `server`; the password is never one of
    /// them.
    pub fn build_ssh_args(server: &Server) -> (args: Vec<String>)
        ensures
            texts(args@) == ssh_args(*server),
    {
        let mut args: Vec<String> = Vec::new();
        if let Some(key_path) = &server.key_path {
            proof {
                reveal_strlit("-i");
            }
            args.push(String::from_str("-i"));
            let key_text = key_path.clone();
            assert(key_text@ == key_path@);
            args.push(key_text);
            assert(args@.len() == 2);
            assert(args@[0]@ == seq!['-', 'i']);
            assert(args@[1]@ == key_path@);
            assert(texts(args@) =~= key_args(*server));
        } else {
            assert(texts(args@) =~= key_args(*server));
        }
        let ghost after_key = texts(args@);
        if server.use_agent_forwarding {
            proof {
                reveal_strlit("-A");
            }
            let flag = String::from_str("-A");
            proof {
                lemma_texts_push(args@, flag);
            }
            args.push(flag);
            assert(flag@ == seq!['-', 'A']);
            assert(texts(args@) == after_key.push(seq!['-', 'A']));
            assert(agent_args(*server) == seq![seq!['-', 'A']]);
            assert(texts(args@) =~= after_key + agent_args(*server));
        } else {
            assert(texts(args@) =~= after_key + agent_args(*server));
        }
        let ghost after_agent = texts(args@);
        if server.port != 22 {
            proof {
                reveal_strlit("-p");
            }
            let flag = String::from_str("-p");
            proof {
                lemma_texts_push(args@, flag);
            }
            args.push(flag);
            assert(flag@ == seq!['-', 'p']);
            let ghost mid = texts(args@);
            assert(mid == after_agent.push(seq!['-', 'p']));
            let mut port_text = String::new();
            push_decimal(&mut port_text, server.port);
            assert(port_text@ =~= decimal(server.port as nat));
            proof {
                lemma_texts_push(args@, port_text);
            }
            args.push(port_text);
            assert(texts(args@) == mid.push(decimal(server.port as nat)));
            assert(port_args(*server) == seq![seq!['-', 'p'], decimal(server.port as nat)]);
            assert(texts(args@) =~= after_agent + port_args(*server));
        } else {
            assert(texts(args@) =~= after_agent + port_args(*server));
        }
        let ghost after_port = texts(args@);
        let mut target = server.username.clone();
        proof {
            reveal_strlit("@");
        }
        target.append("@");
        assert("@"@ == seq!['@']);
        assert(target@ == server.username@ + seq!['@']);
        target.append(server.host.as_str());
        let ghost target_text = target@;
        args.push(target);
        proof {
            assert(texts(args@) =~= after_port.push(target_text));
            assert(after_key == key_args(*server));
            assert(after_agent == key_args(*server) + agent_args(*server));
            assert(after_port == key_args(*server) + agent_args(*server) + port_args(*server));
            assert(texts(args@) == after_port.push(server.username@ + seq!['@'] + server.host@));
        }
        args
    }

    /// The user name under which the password of `server_name` is kept.
    pub fn keyring_user(server_name: &str) -> (r: String)
        ensures
            r@ == keyring_user_text(server_name@),
    {
        server_name.to_owned().concat("_ssh_password")
    }

    /// The keyring entry of a server's password: service `ssh_manager`,
    /// user `<server_name>_ssh_password`; a failure of the keyring is
    /// reported as a keyring error.
    pub fn keyring_entry(server_name: &str) -> (r: Result<KeyringEntry, SshManagerError>)
        ensures
            r matches Ok(e) ==> e.service@ == "ssh_manager"@ && e.user@ == keyring_user_text(
                server_name@,
            ),
            r matches Err(e) ==> e is KeyringError,
    {
        let user = Self::keyring_user(server_name);
        match open_keyring_entry(Self::KEYRING_SERVICE, user.as_str()) {
            Ok(entry) => Ok(entry),
            Err(e) => Err(SshManagerError::KeyringError(keyring_error_text(&e))),
        }
    }

    /// Stores a server's password in its keyring entry.
    pub fn store_password(server_name: &str, password: &str) -> (r: Result<(), SshManagerError>)
        ensures
            r matches Err(e) ==> e is KeyringError,
    {
        let entry = Self::keyring_entry(server_name)?;
        Self::storing_result(keyring_set_password(&entry, password))
    }

    /// What storing a password answers, given what the keyring answered:
    /// success, or its failure as a keyring error.
    pub fn storing_result(outcome: Result<(), keyring::Error>) -> (r: Result<(), SshManagerError>)
        ensures
            r is Ok <==> outcome is Ok,
            r matches Err(e) ==> e is KeyringError,
    {
        match outcome {
            Ok(()) => Ok(()),
            Err(e) => Err(SshManagerError::KeyringError(keyring_error_text(&e))),
        }
    }

    /// Reads a server's password from its keyring entry; a password that
    /// cannot be read is reported as missing for that server.
    pub fn get_password(server_name: &str) -> (r: Result<String, SshManagerError>)
        ensures
            r matches Err(e) ==> (e is KeyringError || (e matches SshManagerError::PasswordNotInKeyring(
                n,
            ) && n@ == server_name@)),
    {
        let entry = Self::keyring_entry(server_name)?;
        Self::password_from_read(server_name, keyring_get_password(&entry))
    }

    /// The password of `server_name`, given what reading its keyring entry
    /// answered: the password read, or, whatever the failure,
    /// `PasswordNotInKeyring` for that server.
    pub fn password_from_read(server_name: &str, read: Result<String, keyring::Error>) -> (r: Result<
        String,
        SshManagerError,
    >)
        ensures
            read matches Ok(p) ==> r matches Ok(q) && q@ == p@,
            read is Err ==> (r matches Err(SshManagerError::PasswordNotInKeyring(n)) && n@
                == server_name@),
    {
        match read {
            Ok(p) => Ok(p),
            Err(_) => Err(SshManagerError::PasswordNotInKeyring(server_name.to_owned())),
        }
    }

    /// Deletes a server's password from its keyring entry; once the entry
    /// is open, a missing password or a failed deletion is no error.
    pub fn delete_password(server_name: &str) -> (r: Result<(), SshManagerError>)
        ensures
            r matches Err(e) ==> e is KeyringError,
    {
        let entry = Self::keyring_entry(server_name)?;
        Self::deletion_result(keyring_delete_credential(&entry))
    }

    /// What deleting a password answers, given what the keyring answered:
    /// success whatever it was, so that deleting a password that is not
    /// there is no error.
    pub fn deletion_result(outcome: Result<(), keyring::Error>) -> (r: Result<(), SshManagerError>)
        ensures
            r is Ok,
    {
        let _ = outcome;
        Ok(())
    }

    /// The command line that opens a connection to `server`: `ssh` and its
    /// arguments.
    pub fn connection_argv(server: &Server) -> (argv: Vec<String>)
        ensures
            texts(argv@) == seq!["ssh"@] + ssh_args(*server),
    {
        let mut argv: Vec<String> = Vec::new();
        argv.push(String::from_str("ssh"));
        let mut rest = Self::build_ssh_args(server);
        let ghost first = texts(argv@);
        let ghost tail = texts(rest@);
        argv.append(&mut rest);
        proof {
            assert(texts(argv@) =~= first + tail);
            assert(first =~= seq!["ssh"@]);
        }
        argv
    }

    /// The environment of a connection to `server`: for a server that logs
    /// in with a password and a helper script at `script`, the askpass
    /// variables; otherwise none.
    pub fn connection_env(server: &Server, script: Option<&str>) -> (env: Vec<(String, String)>)
        ensures
            server.auth_method == AuthMethod::Password && script is Some ==> (env@.len() == 2
                && env@[0].0@ == "SSH_ASKPASS"@ && env@[0].1@ == script->0@ && env@[1].0@
                == "SSH_ASKPASS_REQUIRE"@ && env@[1].1@ == "force"@),
            !(server.auth_method == AuthMethod::Password && script is Some) ==> env@.len() == 0,
    {
        if server.auth_method == AuthMethod::Password {
            if let Some(path) = script {
                return Self::askpass_env(path);
            }
        }
        Vec::new()
    }

    /// The environment that makes `ssh` read the password through the
    /// helper script at `script`.
    pub fn askpass_env(script: &str) -> (env: Vec<(String, String)>)
        ensures
            env@.len() == 2,
            env@[0].0@ == "SSH_ASKPASS"@,
            env@[0].1@ == script@,
            env@[1].0@ == "SSH_ASKPASS_REQUIRE"@,
            env@[1].1@ == "force"@,
    {
        let mut env: Vec<(String, String)> = Vec::new();
        env.push((String::from_str("SSH_ASKPASS"), script.to_owned()));
        env.push((String::from_str("SSH_ASKPASS_REQUIRE"), String::from_str("force")));
        env
    }
}

} // verus!

use vstd::prelude::*;

use crate::error::SshManagerError;
use crate::models::{has_named, AuthMethod, Config, Server};

verus! {

#[verifier::external_type_specification]
#[verifier::external_body]
pub struct ExPathBuf(std::path::PathBuf);

/// Calls `dirs::config_dir`. Its answer depends on the environment of the
/// process (`$XDG_CONFIG_HOME`, `$HOME`), so nothing is stated of it.
#[verifier::external_body]
fn user_config_dir() -> (r: Option<std::path::PathBuf>) {
    dirs::config_dir()
}

/// The path that `Path::join` makes of a base path and one more component:
/// the component appended under the base (or the component alone when it
/// is itself absolute).
pub uninterp spec fn joined_path(base: std::path::PathBuf, part: Seq<char>) -> std::path::PathBuf;

/// Calls `Path::join`; its result is named `joined_path` of the base and the
/// component's text.
#[verifier::external_body]
fn join_path(base: &std::path::PathBuf, part: &str) -> (r: std::path::PathBuf)
    ensures
        r == joined_path(*base, part@),
{
    base.join(part)
}

/// What `char::is_alphanumeric` answers for a character: whether it is
/// alphabetic or numeric in the sense of the Unicode tables.
pub uninterp spec fn unicode_alphanumeric(c: char) -> bool;

/// Calls `char::is_alphanumeric`; its answer is named `unicode_alphanumeric`.
#[verifier::external_body]
fn is_alphanumeric(c: char) -> (r: bool)
    ensures
        r == unicode_alphanumeric(c),
{
    c.is_alphanumeric()
}

/// An ASCII letter, upper or lower case, or an ASCII digit.
pub open spec fn is_ascii_alphanumeric(c: char) -> bool {
    ('a' <= c && c <= 'z') || ('A' <= c && c <= 'Z') || ('0' <= c && c <= '9')
}

/// A character that may stand in a server name: an alphanumeric character
/// (the ASCII ones among them, which `char::is_alphanumeric` documents as
/// alphanumeric, are listed outright), `_` or `-`.
pub open spec fn is_name_char(c: char) -> bool {
    is_ascii_alphanumeric(c) || unicode_alphanumeric(c) || c == '_' || c == '-'
}

/// Every character of `name` may stand in a server name.
pub open spec fn all_name_chars(name: Seq<char>) -> bool {
    forall|i: int| 0 <= i < name.len() ==> is_name_char(#[trigger] name[i])
}

/// Law: every ASCII letter, upper or lower case, every ASCII digit, `_`
/// and `-` may stand in a server name.
pub proof fn lemma_ascii_name_chars(c: char)
    requires
        ('a' <= c && c <= 'z') || ('A' <= c && c <= 'Z') || ('0' <= c && c <= '9') || c == '_'
            || c == '-',
    ensures
        is_name_char(c),
{
}

/// Law: a name made only of characters that may stand in a name, in
/// particular one made only of ASCII letters of either case, digits, `_`
/// and `-`, is a valid name as soon as it is not empty; a name is invalid
/// only because of some character in it.
pub proof fn lemma_name_validity(name: Seq<char>)
    ensures
        (forall|i: int|
            0 <= i < name.len() ==> is_ascii_alphanumeric(#[trigger] name[i]) || name[i] == '_'
                || name[i] == '-') ==> all_name_chars(name),
        !all_name_chars(name) ==> exists|i: int|
            0 <= i < name.len() && !is_ascii_alphanumeric(#[trigger] name[i]) && name[i] != '_'
                && name[i] != '-' && !unicode_alphanumeric(name[i]),
        all_name_chars(name) ==> forall|k: int|
            0 <= k <= name.len() ==> #[trigger] all_name_chars(name.take(k)),
{
    if !all_name_chars(name) {
        let i = choose|i: int| 0 <= i < name.len() && !is_name_char(#[trigger] name[i]);
        assert(!is_ascii_alphanumeric(name[i]));
    }
    if all_name_chars(name) {
        assert forall|k: int| 0 <= k <= name.len() implies #[trigger] all_name_chars(name.take(k)) by {
            assert forall|j: int| 0 <= j < name.take(k).len() implies is_name_char(
                #[trigger] name.take(k)[j],
            ) by {
                assert(name.take(k)[j] == name[j]);
            }
        }
    }
}

/// No saved server other than one called `excluding` is called `name`.
pub open spec fn name_free(servers: Seq<Server>, name: Seq<char>, excluding: Option<Seq<char>>) -> bool {
    forall|i: int|
        0 <= i < servers.len() ==> (#[trigger] servers[i].name@ != name || (excluding matches Some(
            e,
        ) && servers[i].name@ == e))
}

/// Law: with nothing excluded, a name is free exactly when no saved server
/// has it, which is when adding a server under it succeeds.
pub proof fn lemma_free_iff_not_named(servers: Seq<Server>, name: Seq<char>)
    ensures
        name_free(servers, name, None) <==> !has_named(servers, name),
{
    if has_named(servers, name) {
        let i = choose|i: int| 0 <= i < servers.len() && #[trigger] servers[i].name@ == name;
        assert(!name_free(servers, name, None));
    }
}

/// A path written from the root: its first character is `/`.
pub open spec fn is_absolute_path(path: Seq<char>) -> bool {
    path.len() > 0 && path[0] == '/'
}

/// The text of an optional string slice.
pub open spec fn opt_str_text(o: Option<&str>) -> Option<Seq<char>> {
    match o {
        Some(s) => Some(s@),
        None => None,
    }
}

/// Checks and decisions on what is stored.
pub struct Storage;

impl Storage {
    /// The directory of the configuration files: `ssh_manager` under the
    /// user's configuration directory; when there is none, a
    /// configuration directory error.
    pub fn get_config_dir() -> (r: Result<std::path::PathBuf, SshManagerError>)
        ensures
            r matches Ok(p) ==> exists|b: std::path::PathBuf| p == joined_path(b, "ssh_manager"@),
            r matches Err(e) ==> (e matches SshManagerError::ConfigDirError(m) && m@
                == "Could not determine config directory. $HOME not set?"@),
    {
        Self::config_dir_from(user_config_dir())
    }

    /// The directory of the configuration files under `base`, the user's
    /// configuration directory when one was found: `base` joined with
    /// `ssh_manager`, or a configuration directory error when there is no
    /// base.
    pub fn config_dir_from(base: Option<std::path::PathBuf>) -> (r: Result<
        std::path::PathBuf,
        SshManagerError,
    >)
        ensures
            base is Some <==> r is Ok,
            base matches Some(b) ==> (r matches Ok(p) && p == joined_path(b, "ssh_manager"@)),
            base is None ==> (r matches Err(SshManagerError::ConfigDirError(m)) && m@
                == "Could not determine config directory. $HOME not set?"@),
    {
        match base {
            Some(b) => Ok(join_path(&b, "ssh_manager")),
            None => Err(
                SshManagerError::ConfigDirError(
                    String::from_str("Could not determine config directory. $HOME not set?"),
                ),
            ),
        }
    }

    /// Whether `name` is free for a server, not counting one called
    /// `excluding`.
    pub fn server_name_is_unique(config: &Config, name: &str, excluding: Option<&str>) -> (r: bool)
        ensures
            r == name_free(config.servers@, name@, opt_str_text(excluding)),
    {
        let key = name.to_owned();
        let skip: Option<String> = match excluding {
            Some(e) => Some(e.to_owned()),
            None => None,
        };
        let n = config.servers.len();
        let mut i: usize = 0;
        while i < n
            invariant
                n == config.servers@.len(),
                i <= n,
                key@ == name@,
                match skip {
                    Some(e) => excluding matches Some(x) && e@ == x@,
                    None => excluding is None,
                },
                name_free(config.servers@.take(i as int), name@, opt_str_text(excluding)),
            decreases n - i,
        {
            let s = &config.servers[i];
            let ok = match &skip {
                Some(e) => s.name != key || s.name == *e,
                None => s.name != key,
            };
            if !ok {
                proof {
                    assert(!name_free(config.servers@, name@, opt_str_text(excluding))) by {
                        assert(config.servers@[i as int] == *s);
                    }
                }
                return false;
            }
            proof {
                let t = config.servers@.take(i as int + 1);
                assert forall|j: int| 0 <= j < t.len() implies (#[trigger] t[j].name@ != name@ || (
                opt_str_text(excluding) matches Some(e) && t[j].name@ == e)) by {
                    if j < i {
                        assert(t[j] == config.servers@.take(i as int)[j]);
                    } else {
                        assert(t[j] == *s);
                    }
                }
            }
            i = i + 1;
        }
        proof {
            assert(config.servers@.take(n as int) == config.servers@);
        }
        true
    }

    /// Checks that `key_path` names a key file that can be used: it exists,
    /// is a regular file, is given as an absolute path and can be read.
    /// `exists`, `is_file` and `readable` are what the file system answered
    /// for the path; the checks are made in that order.
    pub fn validate_key_path(key_path: &str, exists: bool, is_file: bool, readable: bool) -> (r:
        Result<(), SshManagerError>)
        ensures
            !exists ==> (r matches Err(SshManagerError::KeyFileNotFound(m)) && m@ == key_path@),
            exists && !is_file ==> (r matches Err(SshManagerError::KeyFileNotFound(m)) && m@
                == key_path@ + " is not a file"@),
            exists && is_file && !is_absolute_path(key_path@) ==> (r matches Err(
                SshManagerError::KeyFileNotFound(m),
            ) && m@ == key_path@ + " is not an absolute path"@),
            exists && is_file && is_absolute_path(key_path@) && !readable ==> (r matches Err(
                SshManagerError::KeyFileNotFound(m),
            ) && m@ == key_path@ + " is not readable"@),
            r is Ok <==> (exists && is_file && is_absolute_path(key_path@) && readable),
    {
        if !exists {
            return Err(SshManagerError::KeyFileNotFound(key_path.to_owned()));
        }
        if !is_file {
            let msg = key_path.to_owned().concat(" is not a file");
            return Err(SshManagerError::KeyFileNotFound(msg));
        }
        let absolute = key_path.unicode_len() > 0 && key_path.get_char(0) == '/';
        if !absolute {
            let msg = key_path.to_owned().concat(" is not an absolute path");
            return Err(SshManagerError::KeyFileNotFound(msg));
        }
        if !readable {
            let msg = key_path.to_owned().concat(" is not readable");
            return Err(SshManagerError::KeyFileNotFound(msg));
        }
        Ok(())
    }

    /// A server name is not empty and holds only letters, digits, `_` and
    /// `-`.
    pub fn validate_server_name(name: &str) -> (r: Result<(), SshManagerError>)
        ensures
            name@.len() == 0 ==> r matches Err(SshManagerError::EmptyServerName),
            name@.len() > 0 && !all_name_chars(name@) ==> r matches Err(
                SshManagerError::InvalidServerName,
            ),
            name@.len() > 0 && all_name_chars(name@) ==> r is Ok,
    {
        let n = name.unicode_len();
        if n == 0 {
            return Err(SshManagerError::EmptyServerName);
        }
        let mut i: usize = 0;
        while i < n
            invariant
                n == name@.len(),
                i <= n,
                forall|j: int| 0 <= j < i ==> is_name_char(#[trigger] name@[j]),
            decreases n - i,
        {
            let c = name.get_char(i);
            let ascii = ('a' <= c && c <= 'z') || ('A' <= c && c <= 'Z') || ('0' <= c && c <= '9');
            if !ascii && !is_alphanumeric(c) && c != '_' && c != '-' {
                return Err(SshManagerError::InvalidServerName);
            }
            i = i + 1;
        }
        Ok(())
    }

    /// A username is not empty.
    pub fn validate_username(username: &str) -> (r: Result<(), SshManagerError>)
        ensures
            username@.len() == 0 ==> r matches Err(SshManagerError::EmptyUsername),
            username@.len() > 0 ==> r is Ok,
    {
        if username.is_empty() {
            return Err(SshManagerError::EmptyUsername);
        }
        Ok(())
    }

    /// A host is not empty.
    pub fn validate_host(host: &str) -> (r: Result<(), SshManagerError>)
        ensures
            host@.len() == 0 ==> r matches Err(SshManagerError::EmptyHost),
            host@.len() > 0 ==> r is Ok,
    {
        if host.is_empty() {
            return Err(SshManagerError::EmptyHost);
        }
        Ok(())
    }

    /// A port is between 1 and 65535.
    pub fn validate_port(port: u16) -> (r: Result<(), SshManagerError>)
        ensures
            port == 0 ==> r matches Err(SshManagerError::InvalidPort),
            port != 0 ==> r is Ok,
    {
        if port == 0 {
            return Err(SshManagerError::InvalidPort);
        }
        Ok(())
    }
    /// The checks of a new server's fields, in the order they are made:
    /// name, host, username, port.
    pub fn validate_new_server(name: &str, host: &str, username: &str, port: u16) -> (r: Result<
        (),
        SshManagerError,
    >)
        ensures
            name@.len() == 0 ==> r matches Err(SshManagerError::EmptyServerName),
            name@.len() > 0 && !all_name_chars(name@) ==> r matches Err(
                SshManagerError::InvalidServerName,
            ),
            name@.len() > 0 && all_name_chars(name@) && host@.len() == 0 ==> r matches Err(
                SshManagerError::EmptyHost,
            ),
            name@.len() > 0 && all_name_chars(name@) && host@.len() > 0 && username@.len() == 0
                ==> r matches Err(SshManagerError::EmptyUsername),
            name@.len() > 0 && all_name_chars(name@) && host@.len() > 0 && username@.len() > 0
                && port == 0 ==> r matches Err(SshManagerError::InvalidPort),
            r is Ok <==> (name@.len() > 0 && all_name_chars(name@) && host@.len() > 0
                && username@.len() > 0 && port != 0),
    {
        Self::validate_server_name(name)?;
        Self::validate_host(host)?;
        Self::validate_username(username)?;
        Self::validate_port(port)?;
        Ok(())
    }

    /// The authentication of a new server: a key file when one is given,
    /// else a password when asked for; one of the two must be chosen.
    pub fn choose_auth_method(has_key: bool, use_password: bool) -> (r: Result<
        AuthMethod,
        SshManagerError,
    >)
        ensures
            has_key ==> r == Ok::<AuthMethod, SshManagerError>(AuthMethod::Key),
            !has_key && use_password ==> r == Ok::<AuthMethod, SshManagerError>(
                AuthMethod::Password,
            ),
            !has_key && !use_password ==> (r matches Err(SshManagerError::InvalidConfig(m)) && m@
                == "Must specify either --key or --password"@),
    {
        if has_key {
            Ok(AuthMethod::Key)
        } else if use_password {
            Ok(AuthMethod::Password)
        } else {
            Err(
                SshManagerError::InvalidConfig(
                    String::from_str("Must specify either --key or --password"),
                ),
            )
        }
    }

    /// The checks made on a new server against the saved configuration,
    /// in their order: its name must be free, then its authentication is
    /// chosen as `choose_auth_method` chooses it.
    pub fn check_addition(config: &Config, name: &str, has_key: bool, use_password: bool) -> (r:
        Result<AuthMethod, SshManagerError>)
        ensures
            !name_free(config.servers@, name@, None) ==> (r matches Err(
                SshManagerError::ServerAlreadyExists(n),
            ) && n@ == name@),
            name_free(config.servers@, name@, None) && has_key ==> r == Ok::<
                AuthMethod,
                SshManagerError,
            >(AuthMethod::Key),
            name_free(config.servers@, name@, None) && !has_key && use_password ==> r == Ok::<
                AuthMethod,
                SshManagerError,
            >(AuthMethod::Password),
            name_free(config.servers@, name@, None) && !has_key && !use_password ==> (r matches Err(
                SshManagerError::InvalidConfig(m),
            ) && m@ == "Must specify either --key or --password"@),
    {
        if !Self::server_name_is_unique(config, name, None) {
            return Err(SshManagerError::ServerAlreadyExists(name.to_owned()));
        }
        Self::choose_auth_method(has_key, use_password)
    }

    /// A password typed for a new server is not empty.
    pub fn validate_password(password: &str) -> (r: Result<(), SshManagerError>)
        ensures
            password@.len() == 0 ==> (r matches Err(SshManagerError::InvalidConfig(m)) && m@
                == "Password cannot be empty"@),
            password@.len() > 0 ==> r is Ok,
    {
        if password.is_empty() {
            return Err(SshManagerError::InvalidConfig(String::from_str("Password cannot be empty")));
        }
        Ok(())
    }

    /// The configuration read from the servers file, given what the file
    /// parsed as: the current format (an object with `servers` and
    /// `preferred_terminal`) is taken first, then the older bare list of
    /// servers; a file that is neither is refused.
    pub fn parse_servers_file(as_config: Option<Config>, as_server_list: Option<Vec<Server>>) -> (r:
        Result<Config, SshManagerError>)
        ensures
            as_config matches Some(c) ==> r == Ok::<Config, SshManagerError>(c),
            as_config is None && as_server_list is Some ==> (r matches Ok(c) && c.servers
                == as_server_list->0 && c.preferred_terminal is None),
            as_config is None && as_server_list is None ==> (r matches Err(
                SshManagerError::InvalidConfig(m),
            ) && m@ == "Invalid servers.json format"@),
    {
        if let Some(cfg) = as_config {
            return Ok(cfg);
        }
        if let Some(servers) = as_server_list {
            return Ok(Config { servers, preferred_terminal: None });
        }
        Err(SshManagerError::InvalidConfig(String::from_str("Invalid servers.json format")))
    }

    /// Takes the terminal preference of the legacy file into a
    /// configuration that has none; answers whether the configuration
    /// changed and must be written back.
    pub fn merge_legacy_terminal(config: &mut Config, legacy: Option<String>) -> (changed: bool)
        ensures
            changed == (old(config).preferred_terminal is None && legacy is Some),
            changed ==> final(config).preferred_terminal == legacy,
            !changed ==> final(config).preferred_terminal == old(config).preferred_terminal,
            final(config).servers == old(config).servers,
    {
        if config.preferred_terminal.is_none() {
            if let Some(terminal) = legacy {
                config.preferred_terminal = Some(terminal);
                return true;
            }
        }
        false
    }
}

} // verus!

use ssher::models::{AuthMethod, Config, Server};
use ssher::{SshManagerError, Storage};

fn sample_server(name: &str) -> Server {
    Server::new(
        name.to_string(),
        "example.com".to_string(),
        "alice".to_string(),
        22,
        AuthMethod::Key,
        Some("/tmp/key".to_string()),
    )
}

#[test]
fn validate_server_name_accepts_alnum_underscore_dash() {
    assert!(Storage::validate_server_name("prod-1_db").is_ok());
    assert!(Storage::validate_server_name("a").is_ok());
}

#[test]
fn validate_server_name_rejects_empty() {
    assert!(matches!(
        Storage::validate_server_name(""),
        Err(SshManagerError::EmptyServerName)
    ));
}

#[test]
fn validate_server_name_rejects_invalid_chars() {
    for bad in ["bad name", "name!", "name/with/slash", "name.with.dot"] {
        assert!(
            matches!(
                Storage::validate_server_name(bad),
                Err(SshManagerError::InvalidServerName)
            ),
            "expected '{bad}' to be rejected"
        );
    }
}

#[test]
fn validate_port_zero_is_invalid() {
    assert!(matches!(
        Storage::validate_port(0),
        Err(SshManagerError::InvalidPort)
    ));
}

#[test]
fn validate_port_edges() {
    assert!(Storage::validate_port(1).is_ok());
    assert!(Storage::validate_port(65535).is_ok());
}

#[test]
fn validate_username_rejects_empty() {
    assert!(matches!(
        Storage::validate_username(""),
        Err(SshManagerError::EmptyUsername)
    ));
    assert!(Storage::validate_username("root").is_ok());
}

#[test]
fn validate_host_rejects_empty() {
    assert!(matches!(
        Storage::validate_host(""),
        Err(SshManagerError::EmptyHost)
    ));
    assert!(Storage::validate_host("example.com").is_ok());
}

#[test]
fn server_name_is_unique_basic() {
    let mut cfg = Config::new();
    cfg.servers.push(sample_server("a"));
    assert!(Storage::server_name_is_unique(&cfg, "b", None));
    assert!(!Storage::server_name_is_unique(&cfg, "a", None));
}

#[test]
fn server_name_is_unique_with_excluding() {
    let mut cfg = Config::new();
    cfg.servers.push(sample_server("a"));
    assert!(Storage::server_name_is_unique(&cfg, "a", Some("a")));
    assert!(!Storage::server_name_is_unique(&cfg, "a", Some("b")));
}

#[test]
fn validate_server_name_accepts_unicode_letters() {
    assert!(Storage::validate_server_name("сервер1").is_ok());
}

#[test]
fn validate_key_path_reports_missing_and_not_file() {
    let missing = Storage::validate_key_path("/no/such/key", false, false, false);
    assert!(matches!(missing, Err(SshManagerError::KeyFileNotFound(ref m)) if m == "/no/such/key"));
    let dir = Storage::validate_key_path("/tmp", true, false, true);
    assert!(matches!(dir, Err(SshManagerError::KeyFileNotFound(ref m)) if m == "/tmp is not a file"));
    assert!(Storage::validate_key_path("/home/a/.ssh/id", true, true, true).is_ok());
}

#[test]
fn validate_key_path_wants_absolute_readable_path() {
    let relative = Storage::validate_key_path(".ssh/id", true, true, true);
    assert!(matches!(relative, Err(SshManagerError::KeyFileNotFound(ref m)) if m == ".ssh/id is not an absolute path"));
    let empty = Storage::validate_key_path("", true, true, true);
    assert!(matches!(empty, Err(SshManagerError::KeyFileNotFound(ref m)) if m == " is not an absolute path"));
    let locked = Storage::validate_key_path("/root/id", true, true, false);
    assert!(matches!(locked, Err(SshManagerError::KeyFileNotFound(ref m)) if m == "/root/id is not readable"));
    let relative_dir = Storage::validate_key_path("keys", true, false, true);
    assert!(matches!(relative_dir, Err(SshManagerError::KeyFileNotFound(ref m)) if m == "keys is not a file"));
}

#[test]
fn check_addition_wants_free_name_then_auth() {
    let mut cfg = Config::new();
    cfg.servers.push(sample_server("a"));
    assert!(matches!(
        Storage::check_addition(&cfg, "a", true, false),
        Err(SshManagerError::ServerAlreadyExists(ref n)) if n == "a"
    ));
    assert!(matches!(Storage::check_addition(&cfg, "b", true, true), Ok(AuthMethod::Key)));
    assert!(matches!(Storage::check_addition(&cfg, "b", false, true), Ok(AuthMethod::Password)));
    assert!(matches!(
        Storage::check_addition(&cfg, "b", false, false),
        Err(SshManagerError::InvalidConfig(ref m)) if m == "Must specify either --key or --password"
    ));
}

#[test]
fn validate_new_server_checks_in_order() {
    assert!(matches!(
        Storage::validate_new_server("", "", "", 0),
        Err(SshManagerError::EmptyServerName)
    ));
    assert!(matches!(
        Storage::validate_new_server("ok", "", "", 0),
        Err(SshManagerError::EmptyHost)
    ));
    assert!(matches!(
        Storage::validate_new_server("ok", "h", "", 0),
        Err(SshManagerError::EmptyUsername)
    ));
    assert!(matches!(
        Storage::validate_new_server("ok", "h", "u", 0),
        Err(SshManagerError::InvalidPort)
    ));
    assert!(Storage::validate_new_server("ok", "h", "u", 22).is_ok());
}

#[test]
fn choose_auth_method_prefers_key() {
    assert_eq!(Storage::choose_auth_method(true, true).unwrap(), AuthMethod::Key);
    assert_eq!(Storage::choose_auth_method(false, true).unwrap(), AuthMethod::Password);
    let neither = Storage::choose_auth_method(false, false);
    assert!(matches!(neither, Err(SshManagerError::InvalidConfig(ref m)) if m == "Must specify either --key or --password"));
}

#[test]
fn validate_password_rejects_empty() {
    let res = Storage::validate_password("");
    assert!(matches!(res, Err(SshManagerError::InvalidConfig(ref m)) if m == "Password cannot be empty"));
    assert!(Storage::validate_password("hunter2").is_ok());
}

#[test]
fn parse_servers_file_prefers_object_format() {
    let mut cfg = Config::new();
    cfg.preferred_terminal = Some("xterm".to_string());
    cfg.servers.push(sample_server("alpha"));
    let list = vec![sample_server("other")];
    let got = Storage::parse_servers_file(Some(cfg), Some(list)).unwrap();
    assert_eq!(got.servers[0].name, "alpha");
    assert_eq!(got.preferred_terminal.as_deref(), Some("xterm"));
}

#[test]
fn parse_servers_file_accepts_bare_list() {
    let list = vec![sample_server("a")];
    let got = Storage::parse_servers_file(None, Some(list)).unwrap();
    assert_eq!(got.servers.len(), 1);
    assert_eq!(got.servers[0].name, "a");
    assert!(got.preferred_terminal.is_none());
}

#[test]
fn parse_servers_file_refuses_other_content() {
    let got = Storage::parse_servers_file(None, None);
    assert!(matches!(got, Err(SshManagerError::InvalidConfig(ref m)) if m == "Invalid servers.json format"));
}

#[test]
fn merge_legacy_terminal_fills_missing_preference_once() {
    let mut cfg = Config::new();
    assert!(Storage::merge_legacy_terminal(&mut cfg, Some("gnome-terminal".to_string())));
    assert_eq!(cfg.preferred_terminal.as_deref(), Some("gnome-terminal"));
    assert!(!Storage::merge_legacy_terminal(&mut cfg, Some("xterm".to_string())));
    assert_eq!(cfg.preferred_terminal.as_deref(), Some("gnome-terminal"));
    let mut empty = Config::new();
    assert!(!Storage::merge_legacy_terminal(&mut empty, None));
    assert!(empty.preferred_terminal.is_none());
}

#[test]
fn config_dir_is_named_ssh_manager() {
    match Storage::get_config_dir() {
        Ok(p) => assert!(p.ends_with("ssh_manager")),
        Err(e) => assert!(matches!(e, SshManagerError::ConfigDirError(ref m) if m == "Could not determine config directory. $HOME not set?")),
    }
}

#[test]
fn config_dir_from_joins_ssh_manager() {
    let base = std::path::PathBuf::from("/home/a/.config");
    let dir = Storage::config_dir_from(Some(base)).unwrap();
    assert_eq!(dir, std::path::PathBuf::from("/home/a/.config/ssh_manager"));
    assert!(matches!(
        Storage::config_dir_from(None),
        Err(SshManagerError::ConfigDirError(ref m)) if m == "Could not determine config directory. $HOME not set?"
    ));
}

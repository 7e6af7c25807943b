use ssher::models::{AuthMethod, Server};
use ssher::SshManagerError;
use ssher::Ssh;

fn key_server() -> Server {
    Server::new(
        "alpha".to_string(),
        "example.com".to_string(),
        "alice".to_string(),
        22,
        AuthMethod::Key,
        Some("/home/alice/.ssh/id_ed25519".to_string()),
    )
}

fn password_server() -> Server {
    Server::new(
        "beta".to_string(),
        "example.com".to_string(),
        "bob".to_string(),
        2222,
        AuthMethod::Password,
        None,
    )
}

fn forward_server() -> Server {
    let mut s = key_server();
    s.use_agent_forwarding = true;
    s
}

#[test]
fn build_ssh_args_key_default_port() {
    let args = Ssh::build_ssh_args(&key_server());
    assert_eq!(
        args,
        vec![
            "-i".to_string(),
            "/home/alice/.ssh/id_ed25519".to_string(),
            "alice@example.com".to_string(),
        ]
    );
}

#[test]
fn build_ssh_args_password_no_key_no_port_when_default() {
    let mut s = password_server();
    s.port = 22;
    let args = Ssh::build_ssh_args(&s);
    assert_eq!(args, vec!["bob@example.com".to_string()]);
}

#[test]
fn build_ssh_args_custom_port() {
    let args = Ssh::build_ssh_args(&password_server());
    assert_eq!(
        args,
        vec![
            "-p".to_string(),
            "2222".to_string(),
            "bob@example.com".to_string(),
        ]
    );
}

#[test]
fn build_ssh_args_agent_forwarding() {
    let args = Ssh::build_ssh_args(&forward_server());
    assert!(args.contains(&"-A".to_string()));
    assert!(args.contains(&"-i".to_string()));
}

#[test]
fn build_ssh_args_password_never_present() {
    let mut s = password_server();
    s.key_path = Some("/should-not-see".to_string());
    let args = Ssh::build_ssh_args(&s);
    let joined = args.join("\n");
    assert!(!joined.contains("hunter2"));
    assert!(!joined.contains("'"));
}

#[test]
fn keyring_entry_uses_server_name() {
    let entry = Ssh::keyring_entry("alpha").expect("entry");
    assert_eq!(Ssh::KEYRING_SERVICE, "ssh_manager");
    assert_eq!(entry.service, "ssh_manager");
    assert_eq!(entry.user, "alpha_ssh_password");
    let result = entry.entry.get_password();
    assert!(result.is_err());
}

#[test]
fn build_ssh_args_all_options_in_order() {
    let mut s = key_server();
    s.use_agent_forwarding = true;
    s.port = 65535;
    let args = Ssh::build_ssh_args(&s);
    assert_eq!(
        args,
        vec!["-i", "/home/alice/.ssh/id_ed25519", "-A", "-p", "65535", "alice@example.com"]
    );
}

#[test]
fn build_ssh_args_small_ports() {
    let mut s = password_server();
    s.port = 1;
    assert_eq!(Ssh::build_ssh_args(&s), vec!["-p", "1", "bob@example.com"]);
    s.port = 10;
    assert_eq!(Ssh::build_ssh_args(&s), vec!["-p", "10", "bob@example.com"]);
    s.port = 21;
    assert_eq!(Ssh::build_ssh_args(&s), vec!["-p", "21", "bob@example.com"]);
}

#[test]
fn keyring_user_appends_suffix() {
    assert_eq!(Ssh::keyring_user("alpha"), "alpha_ssh_password");
}

#[test]
fn askpass_env_names_the_script() {
    let env = Ssh::askpass_env("/tmp/x/askpass.sh");
    assert_eq!(
        env,
        vec![
            ("SSH_ASKPASS".to_string(), "/tmp/x/askpass.sh".to_string()),
            ("SSH_ASKPASS_REQUIRE".to_string(), "force".to_string()),
        ]
    );
}

#[test]
fn password_from_read_maps_any_failure_to_missing() {
    let ok = Ssh::password_from_read("alpha", Ok("hunter2".to_string()));
    assert_eq!(ok.unwrap(), "hunter2");
    let missing = Ssh::password_from_read("alpha", Err(keyring::Error::NoEntry));
    assert!(matches!(missing, Err(SshManagerError::PasswordNotInKeyring(ref n)) if n == "alpha"));
    let other = Ssh::password_from_read("beta", Err(keyring::Error::TooLong("x".to_string(), 1)));
    assert!(matches!(other, Err(SshManagerError::PasswordNotInKeyring(ref n)) if n == "beta"));
}

#[test]
fn deletion_result_is_ok_whatever_the_keyring_said() {
    assert!(Ssh::deletion_result(Ok(())).is_ok());
    assert!(Ssh::deletion_result(Err(keyring::Error::NoEntry)).is_ok());
}

#[test]
fn storing_result_reports_keyring_failure() {
    assert!(Ssh::storing_result(Ok(())).is_ok());
    let failed = Ssh::storing_result(Err(keyring::Error::NoEntry));
    assert!(matches!(failed, Err(SshManagerError::KeyringError(ref m)) if !m.is_empty()));
}

#[test]
fn connection_argv_starts_with_ssh() {
    let argv = Ssh::connection_argv(&password_server());
    assert_eq!(argv, vec!["ssh", "-p", "2222", "bob@example.com"]);
}

#[test]
fn connection_env_only_for_password_servers() {
    let env = Ssh::connection_env(&password_server(), Some("/tmp/d/askpass.sh"));
    assert_eq!(
        env,
        vec![
            ("SSH_ASKPASS".to_string(), "/tmp/d/askpass.sh".to_string()),
            ("SSH_ASKPASS_REQUIRE".to_string(), "force".to_string()),
        ]
    );
    assert!(Ssh::connection_env(&key_server(), Some("/tmp/d/askpass.sh")).is_empty());
    assert!(Ssh::connection_env(&password_server(), None).is_empty());
}

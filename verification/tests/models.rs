use ssher::models::{AuthMethod, Config, Server};
use ssher::SshManagerError;

fn server(name: &str) -> Server {
    Server::new(
        name.to_string(),
        "example.com".to_string(),
        "alice".to_string(),
        22,
        AuthMethod::Key,
        None,
    )
}

#[test]
fn server_agent_forwarding_defaults_false() {
    let s = Server::new(
        "alpha".to_string(),
        "example.com".to_string(),
        "alice".to_string(),
        22,
        AuthMethod::Key,
        None,
    );
    assert!(!s.use_agent_forwarding);
}

#[test]
fn config_find_server_returns_match() {
    let mut cfg = Config::new();
    cfg.servers.push(Server::new(
        "alpha".to_string(),
        "example.com".to_string(),
        "alice".to_string(),
        22,
        AuthMethod::Key,
        None,
    ));
    assert!(cfg.find_server("alpha").is_some());
    assert!(cfg.find_server("missing").is_none());
}

#[test]
fn config_new_is_empty() {
    let cfg = Config::new();
    assert!(cfg.servers.is_empty());
    assert!(cfg.preferred_terminal.is_none());
    let d = Config::default();
    assert!(d.servers.is_empty());
    assert!(d.preferred_terminal.is_none());
}

#[test]
fn find_server_returns_first_of_that_name() {
    let mut cfg = Config::new();
    cfg.servers.push(server("a"));
    let mut second = server("b");
    second.host = "first-b.example".to_string();
    cfg.servers.push(second);
    let mut third = server("b");
    third.host = "second-b.example".to_string();
    cfg.servers.push(third);
    assert_eq!(cfg.find_server("b").unwrap().host, "first-b.example");
}

#[test]
fn add_server_then_find_returns_it() {
    let mut cfg = Config::new();
    let mut s = server("alpha");
    s.port = 2222;
    assert!(cfg.add_server(s).is_ok());
    let found = cfg.find_server("alpha").expect("added server");
    assert_eq!(found.port, 2222);
    assert_eq!(cfg.servers.len(), 1);
}

#[test]
fn add_server_rejects_duplicate_name() {
    let mut cfg = Config::new();
    cfg.add_server(server("alpha")).unwrap();
    let res = cfg.add_server(server("alpha"));
    assert!(matches!(res, Err(SshManagerError::ServerAlreadyExists(ref n)) if n == "alpha"));
    assert_eq!(cfg.servers.len(), 1);
}

#[test]
fn remove_server_undoes_add() {
    let mut cfg = Config::new();
    cfg.add_server(server("a")).unwrap();
    cfg.add_server(server("b")).unwrap();
    cfg.add_server(server("c")).unwrap();
    assert!(cfg.remove_server("c").is_ok());
    let names: Vec<&str> = cfg.servers.iter().map(|s| s.name.as_str()).collect();
    assert_eq!(names, vec!["a", "b"]);
}

#[test]
fn remove_server_keeps_order_of_others() {
    let mut cfg = Config::new();
    cfg.servers.push(server("a"));
    cfg.servers.push(server("b"));
    cfg.servers.push(server("a"));
    cfg.servers.push(server("c"));
    assert!(cfg.remove_server("a").is_ok());
    let names: Vec<&str> = cfg.servers.iter().map(|s| s.name.as_str()).collect();
    assert_eq!(names, vec!["b", "c"]);
    assert!(cfg.find_server("a").is_none());
    assert!(cfg.find_server("c").is_some());
}

#[test]
fn remove_missing_server_is_not_found() {
    let mut cfg = Config::new();
    cfg.servers.push(server("a"));
    let res = cfg.remove_server("zzz");
    assert!(matches!(res, Err(SshManagerError::ServerNotFound(ref n)) if n == "zzz"));
    assert_eq!(cfg.servers.len(), 1);
}

#[test]
fn has_server_answers_membership() {
    let mut cfg = Config::new();
    cfg.servers.push(server("a"));
    assert!(cfg.has_server("a"));
    assert!(!cfg.has_server("b"));
}

#[test]
fn pick_server_counts_from_one() {
    let mut cfg = Config::new();
    cfg.servers.push(server("a"));
    cfg.servers.push(server("b"));
    assert_eq!(cfg.pick_server(Some(1)), Some(0));
    assert_eq!(cfg.pick_server(Some(2)), Some(1));
    assert_eq!(cfg.pick_server(Some(0)), None);
    assert_eq!(cfg.pick_server(Some(3)), None);
    assert_eq!(cfg.pick_server(None), None);
}

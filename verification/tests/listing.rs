use ssher::listing::{format_server_row, server_table};
use ssher::models::{AuthMethod, Config, Server};
use ssher::text::{decimal_string, pad_right_string, repeat_text};

#[test]
fn empty_config_lists_note() {
    let cfg = Config::new();
    assert_eq!(server_table(&cfg), vec!["No servers configured.".to_string()]);
}

#[test]
fn table_matches_padded_format() {
    let mut cfg = Config::new();
    let mut s = Server::new(
        "prod-server".to_string(),
        "prod.example.com".to_string(),
        "root".to_string(),
        22,
        AuthMethod::Password,
        None,
    );
    s.use_agent_forwarding = true;
    cfg.servers.push(s);
    let lines = server_table(&cfg);
    assert_eq!(lines.len(), 3);
    assert_eq!(
        lines[0],
        format!(
            "{:<20} {:<20} {:<15} {:<10} {:<12} {:<8}",
            "Name", "Host", "Username", "Port", "Auth", "Agent FW"
        )
    );
    assert_eq!(lines[1], "─".repeat(95));
    assert_eq!(
        lines[2],
        format!(
            "{:<20} {:<20} {:<15} {:<10} {:<12} {:<8}",
            "prod-server", "prod.example.com", "root", 22, "password", "yes"
        )
    );
}

#[test]
fn long_fields_are_not_cut() {
    let s = Server::new(
        "a-very-long-server-name-indeed".to_string(),
        "h".to_string(),
        "u".to_string(),
        2222,
        AuthMethod::Key,
        None,
    );
    let row = format_server_row(&s);
    assert!(row.starts_with("a-very-long-server-name-indeed h"));
    assert!(row.ends_with("key          no      "));
}

#[test]
fn text_helpers() {
    assert_eq!(decimal_string(0), "0");
    assert_eq!(decimal_string(65535), "65535");
    assert_eq!(decimal_string(100), "100");
    assert_eq!(pad_right_string("ab", 4), "ab  ");
    assert_eq!(pad_right_string("abcdef", 4), "abcdef");
    assert_eq!(pad_right_string("é", 3), "é  ");
    assert_eq!(repeat_text("─", 3), "───");
    assert_eq!(repeat_text("x", 0), "");
}

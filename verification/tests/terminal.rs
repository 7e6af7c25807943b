use ssher::terminal::build_shell_command;
use ssher::{SshManagerError, Terminal};

#[test]
fn build_shell_command_quotes_safely() {
    let s = build_shell_command(&["ssh", "-p", "2222", "alice@example.com"]);
    assert!(s.contains("'ssh'"));
    assert!(s.contains("'-p'"));
    assert!(s.contains("'2222'"));
    assert!(s.contains("'alice@example.com'"));
    assert!(s.contains("Press Enter to close"));
}

#[test]
fn build_shell_command_handles_single_quote_in_arg() {
    let s = build_shell_command(&["echo", "it's"]);
    assert!(s.contains("'\\''"));
}

#[test]
fn spawn_terminal_rejects_empty_argv() {
    let res = Terminal::terminal_command("xterm", &[]);
    assert!(matches!(res, Err(SshManagerError::SshLaunchFailed(_))));
}

#[test]
fn build_shell_command_exact_text() {
    let s = build_shell_command(&["echo", "it's"]);
    assert_eq!(
        s,
        "'echo' 'it'\\''s'; rc=$?; echo; echo \"[ssh exited with status $rc. Press Enter to close.]\"; read _"
    );
}

#[test]
fn terminal_command_for_known_and_unknown_terminals() {
    let c = Terminal::terminal_command("gnome-terminal", &["ssh", "h"]).unwrap();
    assert_eq!(c.program, "gnome-terminal");
    assert_eq!(&c.args[..3], &["--", "bash", "-c"]);
    assert_eq!(c.args[3], build_shell_command(&["ssh", "h"]));
    let c = Terminal::terminal_command("xfce4-terminal", &["ssh"]).unwrap();
    assert_eq!(&c.args[..3], &["--command", "bash", "-c"]);
    let c = Terminal::terminal_command("konsole", &["ssh"]).unwrap();
    assert_eq!(&c.args[..3], &["-e", "bash", "-c"]);
    let c = Terminal::terminal_command("xterm", &["ssh"]).unwrap();
    assert_eq!(&c.args[..3], &["-e", "bash", "-c"]);
    let c = Terminal::terminal_command("alacritty", &["ssh", "-p", "2222", "bob@h"]).unwrap();
    assert_eq!(c.program, "alacritty");
    assert_eq!(c.args, vec!["-e", "ssh", "-p", "2222", "bob@h"]);
}

#[test]
fn unknown_terminal_gets_argv_unquoted() {
    let c = Terminal::terminal_command("kitty", &["ssh", "it's"]).unwrap();
    assert_eq!(c.args, vec!["-e", "ssh", "it's"]);
}

#[test]
fn get_terminal_command_prefers_installed_preference() {
    let installed = vec!["xterm".to_string(), "myterm".to_string()];
    assert_eq!(
        Terminal::get_terminal_command(Some("myterm"), &installed).unwrap(),
        "myterm"
    );
}

#[test]
fn get_terminal_command_falls_back_in_order() {
    let installed = vec!["konsole".to_string(), "xterm".to_string()];
    assert_eq!(
        Terminal::get_terminal_command(Some("missing"), &installed).unwrap(),
        "xterm"
    );
    assert_eq!(Terminal::get_terminal_command(None, &installed).unwrap(), "xterm");
    let both = vec!["xterm".to_string(), "gnome-terminal".to_string()];
    assert_eq!(Terminal::get_terminal_command(None, &both).unwrap(), "gnome-terminal");
}

#[test]
fn konsole_alone_is_not_a_fallback() {
    let installed = vec!["konsole".to_string(), "xfce4-terminal".to_string()];
    assert!(matches!(
        Terminal::get_terminal_command(None, &installed),
        Err(SshManagerError::TerminalNotFound)
    ));
    assert_eq!(
        Terminal::get_terminal_command(Some("konsole"), &installed).unwrap(),
        "konsole"
    );
}

#[test]
fn get_terminal_command_without_any_terminal_fails() {
    let installed = vec!["myterm".to_string()];
    assert!(matches!(
        Terminal::get_terminal_command(None, &installed),
        Err(SshManagerError::TerminalNotFound)
    ));
}

#[test]
fn fallback_terminals_order() {
    assert_eq!(
        Terminal::fallback_terminals(),
        vec!["gnome-terminal", "xterm"]
    );
}

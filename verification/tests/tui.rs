use ssher::tui::{KeyInput, MenuItem, TuiStep};
use ssher::{AuthMethod, Tui};

#[test]
fn tui_starts_on_list() {
    let t = Tui::new();
    assert_eq!(t.current_menu(), MenuItem::List);
    assert_eq!(
        t.menu_items(),
        &vec![
            MenuItem::List,
            MenuItem::Add,
            MenuItem::Connect,
            MenuItem::Remove,
            MenuItem::Config,
            MenuItem::Exit
        ]
    );
}

#[test]
fn next_then_previous_returns() {
    let mut t = Tui::new();
    t.next();
    assert_eq!(t.current_menu(), MenuItem::Add);
    t.previous();
    assert_eq!(t.current_menu(), MenuItem::List);
}

#[test]
fn previous_wraps_to_exit_and_next_wraps_back() {
    let mut t = Tui::new();
    t.previous();
    assert_eq!(t.current_menu(), MenuItem::Exit);
    t.next();
    assert_eq!(t.current_menu(), MenuItem::List);
}

#[test]
fn six_steps_down_cycle() {
    let mut t = Tui::new();
    for _ in 0..6 {
        t.next();
    }
    assert_eq!(t.current_menu(), MenuItem::List);
}

#[test]
fn keys_move_select_and_quit() {
    let mut t = Tui::new();
    assert_eq!(t.handle_key(KeyInput::Char('j')), TuiStep::Continue);
    assert_eq!(t.current_menu(), MenuItem::Add);
    assert_eq!(t.handle_key(KeyInput::Down), TuiStep::Continue);
    assert_eq!(t.current_menu(), MenuItem::Connect);
    assert_eq!(t.handle_key(KeyInput::Up), TuiStep::Continue);
    assert_eq!(t.handle_key(KeyInput::Char('k')), TuiStep::Continue);
    assert_eq!(t.current_menu(), MenuItem::List);
    assert_eq!(t.handle_key(KeyInput::Enter), TuiStep::Select(MenuItem::List));
    assert_eq!(t.handle_key(KeyInput::Char('x')), TuiStep::Continue);
    assert_eq!(t.handle_key(KeyInput::Other), TuiStep::Continue);
    assert_eq!(t.current_menu(), MenuItem::List);
    assert_eq!(t.handle_key(KeyInput::Char('q')), TuiStep::Quit);
    assert_eq!(t.handle_key(KeyInput::Esc), TuiStep::Quit);
    t.previous();
    assert_eq!(t.handle_key(KeyInput::Enter), TuiStep::Quit);
}

#[test]
fn menu_labels() {
    let t = Tui::new();
    assert_eq!(t.get_menu_label(MenuItem::List), "List Servers");
    assert_eq!(t.get_menu_label(MenuItem::Add), "Add New Server");
    assert_eq!(t.get_menu_label(MenuItem::Connect), "Connect to Server");
    assert_eq!(t.get_menu_label(MenuItem::Remove), "Remove Server");
    assert_eq!(t.get_menu_label(MenuItem::Config), "Configure Settings");
    assert_eq!(t.get_menu_label(MenuItem::Exit), "Exit");
}

#[test]
fn banner_has_six_lines() {
    let b = Tui::get_banner();
    assert_eq!(b.lines().count(), 6);
    assert!(b.starts_with("  ███████╗███████╗██╗  ██╗"));
    assert!(!b.ends_with('\n'));
}

#[test]
fn answered_port_defaults_to_22() {
    assert_eq!(Tui::answered_port(None), 22);
    assert_eq!(Tui::answered_port(Some(2222)), 2222);
}

#[test]
fn answered_auth_two_means_password() {
    assert_eq!(Tui::answered_auth("2"), AuthMethod::Password);
    assert_eq!(Tui::answered_auth("1"), AuthMethod::Key);
    assert_eq!(Tui::answered_auth(""), AuthMethod::Key);
    assert_eq!(Tui::answered_auth("22"), AuthMethod::Key);
}

#[test]
fn answered_yes_takes_either_case() {
    assert!(Tui::answered_yes("y"));
    assert!(Tui::answered_yes("Y"));
    assert!(!Tui::answered_yes("yes"));
    assert!(!Tui::answered_yes("n"));
    assert!(!Tui::answered_yes(""));
}

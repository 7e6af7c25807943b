use vstd::prelude::*;

use crate::models::AuthMethod;
use crate::text::word_texts;

verus! {

/// What `str::to_lowercase` makes of a text: every character replaced by
/// its lower-case mapping in the Unicode tables.
pub uninterp spec fn lowercase(text: Seq<char>) -> Seq<char>;

/// Calls `str::to_lowercase`; its result is named `lowercase` of the text.
#[verifier::external_body]
fn to_lower(text: &str) -> (r: String)
    ensures
        r@ == lowercase(text@),
{
    text.to_lowercase()
}

/// The entries of the main menu.
#[derive(Debug, Clone, Copy, PartialEq, Eq, Structural)]
pub enum MenuItem {
    List,
    Add,
    Connect,
    Remove,
    Config,
    Exit,
}

/// A key press, as far as the menu tells keys apart.
#[derive(Debug, Clone, Copy, PartialEq, Eq, Structural)]
pub enum KeyInput {
    Up,
    Down,
    Enter,
    Esc,
    Char(char),
    Other,
}

/// What the menu asks for after a key press.
#[derive(Debug, Clone, Copy, PartialEq, Eq, Structural)]
pub enum TuiStep {
    /// Draw the menu again and wait for the next key.
    Continue,
    /// Run the screen of this entry, then come back to the menu.
    Select(MenuItem),
    /// Leave the menu.
    Quit,
}

/// The menu entries in the order they are shown.
pub open spec fn menu_order() -> Seq<MenuItem> {
    seq![
        MenuItem::List,
        MenuItem::Add,
        MenuItem::Connect,
        MenuItem::Remove,
        MenuItem::Config,
        MenuItem::Exit,
    ]
}

/// The position of an entry in the menu.
pub open spec fn menu_index(m: MenuItem) -> int {
    match m {
        MenuItem::List => 0,
        MenuItem::Add => 1,
        MenuItem::Connect => 2,
        MenuItem::Remove => 3,
        MenuItem::Config => 4,
        MenuItem::Exit => 5,
    }
}

/// The entry below `m`, wrapping from the last to the first.
pub open spec fn next_item(m: MenuItem) -> MenuItem {
    menu_order()[(menu_index(m) + 1) % 6]
}

/// The entry above `m`, wrapping from the first to the last.
pub open spec fn previous_item(m: MenuItem) -> MenuItem {
    menu_order()[(menu_index(m) + 5) % 6]
}

/// `next_item` applied `k` times.
pub open spec fn next_times(m: MenuItem, k: nat) -> MenuItem
    decreases k,
{
    if k == 0 {
        m
    } else {
        next_item(next_times(m, (k - 1) as nat))
    }
}

/// The entry selected after a key press on `m`, and what the menu asks for.
pub open spec fn key_effect(m: MenuItem, key: KeyInput) -> (MenuItem, TuiStep) {
    match key {
        KeyInput::Up => (previous_item(m), TuiStep::Continue),
        KeyInput::Char('k') => (previous_item(m), TuiStep::Continue),
        KeyInput::Down => (next_item(m), TuiStep::Continue),
        KeyInput::Char('j') => (next_item(m), TuiStep::Continue),
        KeyInput::Enter => if m == MenuItem::Exit {
            (m, TuiStep::Quit)
        } else {
            (m, TuiStep::Select(m))
        },
        KeyInput::Esc => (m, TuiStep::Quit),
        KeyInput::Char('q') => (m, TuiStep::Quit),
        _ => (m, TuiStep::Continue),
    }
}

/// The label shown for a menu entry.
pub open spec fn menu_label(m: MenuItem) -> Seq<char> {
    match m {
        MenuItem::List => "List Servers"@,
        MenuItem::Add => "Add New Server"@,
        MenuItem::Connect => "Connect to Server"@,
        MenuItem::Remove => "Remove Server"@,
        MenuItem::Config => "Configure Settings"@,
        MenuItem::Exit => "Exit"@,
    }
}

/// The lines of the banner.
pub open spec fn banner_lines() -> Seq<Seq<char>> {
    seq![
        "  ███████╗███████╗██╗  ██╗███████╗██████╗ "@,
        "  ██╔════╝██╔════╝██║  ██║██╔════╝██╔══██╗"@,
        "  ███████╗███████╗███████║█████╗  ██████╔╝"@,
        "  ╚════██║╚════██║██╔══██║██╔══╝  ██╔══██╗"@,
        "  ███████║███████║██║  ██║███████╗██║  ██║"@,
        "  ╚══════╝╚══════╝╚═╝  ╚═╝╚══════╝╚═╝  ╚═╝"@,
    ]
}

/// Lines joined with `sep` between them.
pub open spec fn joined(lines: Seq<Seq<char>>, sep: Seq<char>) -> Seq<char>
    decreases lines.len(),
{
    if lines.len() == 0 {
        Seq::empty()
    } else if lines.len() == 1 {
        lines[0]
    } else {
        joined(lines.drop_last(), sep) + sep + lines.last()
    }
}

/// Law: moving down and then up comes back to the same entry.
pub proof fn lemma_previous_undoes_next(m: MenuItem)
    ensures
        previous_item(next_item(m)) == m,
{
}

/// Law: moving up and then down comes back to the same entry.
pub proof fn lemma_next_undoes_previous(m: MenuItem)
    ensures
        next_item(previous_item(m)) == m,
{
}

/// Law: moving down once per entry comes back to the same entry.
pub proof fn lemma_next_cycles(m: MenuItem)
    ensures
        next_times(m, 6) == m,
{
    reveal_with_fuel(next_times, 7);
}

/// Joins `lines` with `sep` between them.
pub fn join_lines(lines: &[&str], sep: &str) -> (r: String)
    ensures
        r@ == joined(word_texts(lines@), sep@),
{
    let ghost words = word_texts(lines@);
    let mut out = String::new();
    let n = lines.len();
    let mut i: usize = 0;
    while i < n
        invariant
            n == lines@.len(),
            words == word_texts(lines@),
            i <= n,
            out@ == joined(words.take(i as int), sep@),
        decreases n - i,
    {
        let ghost before = out@;
        if i > 0 {
            out.append(sep);
        }
        out.append(lines[i]);
        proof {
            let t = words.take(i as int + 1);
            assert(t.drop_last() == words.take(i as int));
            assert(t.last() == lines@[i as int]@);
            if i == 0 {
                assert(t.len() == 1);
                assert(out@ == t[0]);
            } else {
                assert(out@ == before + sep@ + t.last());
            }
        }
        i = i + 1;
    }
    proof {
        assert(words.take(n as int) == words);
    }
    out
}

/// The state of the interactive menu: the selected entry.
pub struct Tui {
    current_menu: MenuItem,
    menu_items: Vec<MenuItem>,
}

impl Tui {
    /// The entries are always the menu entries in their order.
    #[verifier::type_invariant]
    spec fn entries_in_order(self) -> bool {
        self.menu_items@ == menu_order()
    }

    /// The selected entry.
    pub closed spec fn selected(self) -> MenuItem {
        self.current_menu
    }

    /// The port typed for a new server, given the number read from the
    /// answer (none when it was not a port number): 22 by default.
    pub fn answered_port(parsed: Option<u16>) -> (port: u16)
        ensures
            port == match parsed {
                Some(p) => p,
                None => 22u16,
            },
    {
        match parsed {
            Some(p) => p,
            None => 22,
        }
    }

    /// The authentication chosen for a new server: `2` chooses a password,
    /// any other answer a key file.
    pub fn answered_auth(choice: &str) -> (m: AuthMethod)
        ensures
            choice@ == "2"@ ==> m == AuthMethod::Password,
            choice@ != "2"@ ==> m == AuthMethod::Key,
    {
        if choice.to_owned() == String::from_str("2") {
            AuthMethod::Password
        } else {
            AuthMethod::Key
        }
    }

    /// Whether a yes-or-no answer is yes: `y` in either case.
    pub fn answered_yes(answer: &str) -> (yes: bool)
        ensures
            yes == (lowercase(answer@) == "y"@),
    {
        let lower = to_lower(answer);
        lower == String::from_str("y")
    }

    /// A menu with its first entry selected.
    pub fn new() -> (t: Tui)
        ensures
            t.selected() == MenuItem::List,
    {
        let mut items: Vec<MenuItem> = Vec::new();
        items.push(MenuItem::List);
        items.push(MenuItem::Add);
        items.push(MenuItem::Connect);
        items.push(MenuItem::Remove);
        items.push(MenuItem::Config);
        items.push(MenuItem::Exit);
        proof {
            assert(items@ =~= menu_order());
        }
        Tui { current_menu: MenuItem::List, menu_items: items }
    }

    /// The selected entry.
    pub fn current_menu(&self) -> (m: MenuItem)
        ensures
            m == self.selected(),
    {
        self.current_menu
    }

    /// The menu entries in the order they are shown.
    pub fn menu_items(&self) -> (items: &Vec<MenuItem>)
        ensures
            items@ == menu_order(),
    {
        proof {
            use_type_invariant(self);
        }
        &self.menu_items
    }

    /// The position of the selected entry.
    fn position(&self) -> (idx: usize)
        ensures
            idx == menu_index(self.selected()),
    {
        proof {
            use_type_invariant(self);
        }
        let n = self.menu_items.len();
        let mut i: usize = 0;
        while i < n
            invariant
                n == 6,
                self.menu_items@ == menu_order(),
                i <= menu_index(self.current_menu),
            decreases n - i,
        {
            if self.menu_items[i] == self.current_menu {
                return i;
            }
            i = i + 1;
        }
        0
    }

    /// Selects the entry below, wrapping from the last to the first.
    pub fn next(&mut self)
        ensures
            final(self).selected() == next_item(old(self).selected()),
    {
        proof {
            use_type_invariant(&*self);
        }
        let idx = self.position();
        let n = self.menu_items.len();
        let m = self.menu_items[(idx + 1) % n];
        self.current_menu = m;
    }

    /// Selects the entry above, wrapping from the first to the last.
    pub fn previous(&mut self)
        ensures
            final(self).selected() == previous_item(old(self).selected()),
    {
        proof {
            use_type_invariant(&*self);
        }
        let idx = self.position();
        let n = self.menu_items.len();
        let m = self.menu_items[(idx + n - 1) % n];
        self.current_menu = m;
    }

    /// Acts on a key press: the arrows and `j`/`k` move the selection,
    /// Enter selects (or leaves on the last entry), Esc and `q` leave.
    pub fn handle_key(&mut self, key: KeyInput) -> (step: TuiStep)
        ensures
            (final(self).selected(), step) == key_effect(old(self).selected(), key),
    {
        match key {
            KeyInput::Up => {
                self.previous();
                TuiStep::Continue
            },
            KeyInput::Down => {
                self.next();
                TuiStep::Continue
            },
            KeyInput::Enter => {
                if self.current_menu == MenuItem::Exit {
                    TuiStep::Quit
                } else {
                    TuiStep::Select(self.current_menu)
                }
            },
            KeyInput::Esc => TuiStep::Quit,
            KeyInput::Char(c) => {
                if c == 'k' {
                    self.previous();
                    TuiStep::Continue
                } else if c == 'j' {
                    self.next();
                    TuiStep::Continue
                } else if c == 'q' {
                    TuiStep::Quit
                } else {
                    TuiStep::Continue
                }
            },
            KeyInput::Other => TuiStep::Continue,
        }
    }

    /// The banner shown above the menu.
    pub fn get_banner() -> (b: String)
        ensures
            b@ == joined(banner_lines(), "\n"@),
    {
        let lines: [&str; 6] = [
            "  ███████╗███████╗██╗  ██╗███████╗██████╗ ",
            "  ██╔════╝██╔════╝██║  ██║██╔════╝██╔══██╗",
            "  ███████╗███████╗███████║█████╗  ██████╔╝",
            "  ╚════██║╚════██║██╔══██║██╔══╝  ██╔══██╗",
            "  ███████║███████║██║  ██║███████╗██║  ██║",
            "  ╚══════╝╚══════╝╚═╝  ╚═╝╚══════╝╚═╝  ╚═╝",
        ];
        let r = join_lines(lines.as_slice(), "\n");
        proof {
            assert(word_texts(lines@) =~= banner_lines());
        }
        r
    }

    /// The label shown for a menu entry.
    pub fn get_menu_label(&self, item: MenuItem) -> (label: String)
        ensures
            label@ == menu_label(item),
    {
        match item {
            MenuItem::List => String::from_str("List Servers"),
            MenuItem::Add => String::from_str("Add New Server"),
            MenuItem::Connect => String::from_str("Connect to Server"),
            MenuItem::Remove => String::from_str("Remove Server"),
            MenuItem::Config => String::from_str("Configure Settings"),
            MenuItem::Exit => String::from_str("Exit"),
        }
    }
}

} // verus!

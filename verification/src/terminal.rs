use vstd::prelude::*;

use crate::error::SshManagerError;
use crate::text::{lemma_texts_push, texts, word_texts};

verus! {

/// How one character of an argument is written inside single quotes: a
/// single quote closes the quotes, is written escaped, and reopens them.
pub open spec fn escape_char(c: char) -> Seq<char> {
    if c == '\'' {
        seq!['\'', '\\', '\'', '\'']
    } else {
        seq![c]
    }
}

/// An argument with each character written as `escape_char` writes it.
pub open spec fn escaped(s: Seq<char>) -> Seq<char>
    decreases s.len(),
{
    if s.len() == 0 {
        Seq::empty()
    } else {
        escaped(s.drop_last()) + escape_char(s.last())
    }
}

/// An argument as one single-quoted shell word.
pub open spec fn quote_word(s: Seq<char>) -> Seq<char> {
    seq!['\''] + escaped(s) + seq!['\'']
}

/// The arguments as quoted shell words separated by single spaces.
pub open spec fn quoted_words(args: Seq<Seq<char>>) -> Seq<char>
    decreases args.len(),
{
    if args.len() == 0 {
        Seq::empty()
    } else if args.len() == 1 {
        quote_word(args[0])
    } else {
        quoted_words(args.drop_last()) + seq![' '] + quote_word(args.last())
    }
}

/// What the shell runs after the command: report its status and wait for
/// Enter so that the window stays open.
pub open spec fn shell_tail() -> Seq<char> {
    "; rc=$?; echo; echo \"[ssh exited with status $rc. Press Enter to close.]\"; read _"@
}

/// The shell command line that runs `args` and then waits for Enter.
pub open spec fn shell_command(args: Seq<Seq<char>>) -> Seq<char> {
    quoted_words(args) + shell_tail()
}

/// Escaping a character put in front escapes it first.
proof fn lemma_escaped_cons(c: char, t: Seq<char>)
    ensures
        escaped(seq![c] + t) == escape_char(c) + escaped(t),
    decreases t.len(),
{
    let whole = seq![c] + t;
    if t.len() == 0 {
        assert(whole == seq![c]);
        assert(whole.drop_last() == Seq::<char>::empty());
        assert(escaped(whole) == escaped(Seq::<char>::empty()) + escape_char(c));
        assert(escaped(Seq::<char>::empty()) == Seq::<char>::empty());
        assert(escaped(t) == Seq::<char>::empty());
        assert(escape_char(c) + Seq::<char>::empty() == escape_char(c));
        assert(Seq::<char>::empty() + escape_char(c) == escape_char(c));
    } else {
        assert(whole.drop_last() == seq![c] + t.drop_last());
        assert(whole.last() == t.last());
        lemma_escaped_cons(c, t.drop_last());
        assert(escaped(whole) == escaped(whole.drop_last()) + escape_char(whole.last()));
        assert(escaped(t) == escaped(t.drop_last()) + escape_char(t.last()));
        assert(escape_char(c) + escaped(t.drop_last()) + escape_char(t.last()) == escape_char(c) + (
        escaped(t.drop_last()) + escape_char(t.last())));
    }
}

/// The words a POSIX shell reads from a command line, splitting at spaces
/// outside quotes: `word` is the word being read, `started` says whether a
/// word has begun (an empty quoted word counts), `done` holds the words
/// read so far.
pub open spec fn read_words(
    s: Seq<char>,
    in_quotes: bool,
    word: Seq<char>,
    started: bool,
    done: Seq<Seq<char>>,
) -> Seq<Seq<char>>
    decreases s.len(),
{
    if s.len() == 0 {
        if started {
            done.push(word)
        } else {
            done
        }
    } else if in_quotes {
        if s[0] == '\'' {
            read_words(s.drop_first(), false, word, true, done)
        } else {
            read_words(s.drop_first(), true, word.push(s[0]), true, done)
        }
    } else if s[0] == ' ' {
        if started {
            read_words(s.drop_first(), false, Seq::empty(), false, done.push(word))
        } else {
            read_words(s.drop_first(), false, word, false, done)
        }
    } else if s[0] == '\'' {
        read_words(s.drop_first(), true, word, true, done)
    } else if s[0] == '\\' && s.len() >= 2 {
        read_words(s.subrange(2, s.len() as int), false, word.push(s[1]), true, done)
    } else {
        read_words(s.drop_first(), false, word.push(s[0]), true, done)
    }
}

/// Inside quotes, an escaped argument and the closing quote add the
/// argument to the word being read.
proof fn lemma_read_escaped(
    a: Seq<char>,
    rest: Seq<char>,
    word: Seq<char>,
    done: Seq<Seq<char>>,
)
    ensures
        read_words(escaped(a) + seq!['\''] + rest, true, word, true, done) == read_words(
            rest,
            false,
            word + a,
            true,
            done,
        ),
    decreases a.len(),
{
    if a.len() == 0 {
        assert(escaped(a) == Seq::<char>::empty());
        let s = escaped(a) + seq!['\''] + rest;
        assert(s.drop_first() == rest);
        assert(word + a == word);
    } else {
        let c = a[0];
        let t = a.drop_first();
        assert(a == seq![c] + t);
        lemma_escaped_cons(c, t);
        lemma_read_escaped(t, rest, word.push(c), done);
        let tail = escaped(t) + seq!['\''] + rest;
        let s = escaped(a) + seq!['\''] + rest;
        if c == '\'' {
            assert(s == seq!['\'', '\\', '\'', '\''] + tail);
            let s1 = s.drop_first();
            assert(s1 == seq!['\\', '\'', '\''] + tail);
            let s2 = s1.subrange(2, s1.len() as int);
            assert(s2 == seq!['\''] + tail);
            assert(s2.drop_first() == tail);
            assert(read_words(s2, false, word.push(c), true, done) == read_words(
                tail,
                true,
                word.push(c),
                true,
                done,
            ));
            assert(read_words(s1, false, word, true, done) == read_words(
                s2,
                false,
                word.push(c),
                true,
                done,
            ));
            assert(read_words(s, true, word, true, done) == read_words(s1, false, word, true, done));
        } else {
            assert(s == seq![c] + tail);
            assert(s.drop_first() == tail);
            assert(read_words(s, true, word, true, done) == read_words(
                tail,
                true,
                word.push(c),
                true,
                done,
            ));
        }
        assert(word.push(c) + t == word + a);
    }
}

/// A quoted argument adds the argument to the word being read.
proof fn lemma_read_quote_word(
    a: Seq<char>,
    rest: Seq<char>,
    word: Seq<char>,
    started: bool,
    done: Seq<Seq<char>>,
)
    ensures
        read_words(quote_word(a) + rest, false, word, started, done) == read_words(
            rest,
            false,
            word + a,
            true,
            done,
        ),
{
    let s = quote_word(a) + rest;
    assert(s.drop_first() == escaped(a) + seq!['\''] + rest);
    lemma_read_escaped(a, rest, word, done);
}

/// Quoting a list whose first argument is `a`.
proof fn lemma_quoted_words_cons(a: Seq<char>, t: Seq<Seq<char>>)
    ensures
        quoted_words(seq![a] + t) == quote_word(a) + (if t.len() == 0 {
            Seq::<char>::empty()
        } else {
            seq![' '] + quoted_words(t)
        }),
    decreases t.len(),
{
    let all = seq![a] + t;
    if t.len() == 0 {
        assert(all == seq![a]);
        assert(quote_word(a) + Seq::<char>::empty() == quote_word(a));
    } else if t.len() == 1 {
        assert(all.drop_last() == seq![a]);
        assert(all.last() == t[0]);
        assert(quoted_words(t) == quote_word(t[0]));
        assert(quoted_words(seq![a]) == quote_word(a));
    } else {
        assert(all.drop_last() == seq![a] + t.drop_last());
        assert(all.last() == t.last());
        lemma_quoted_words_cons(a, t.drop_last());
        assert(quoted_words(t) == quoted_words(t.drop_last()) + seq![' '] + quote_word(t.last()));
        assert(quote_word(a) + (seq![' '] + quoted_words(t.drop_last())) + seq![' '] + quote_word(
            t.last(),
        ) == quote_word(a) + (seq![' '] + (quoted_words(t.drop_last()) + seq![' '] + quote_word(
            t.last(),
        ))));
    }
}

/// Reading quoted words after some finished words adds exactly them.
proof fn lemma_read_quoted_words(args: Seq<Seq<char>>, done: Seq<Seq<char>>)
    requires
        args.len() > 0,
    ensures
        read_words(quoted_words(args), false, Seq::empty(), false, done) == done + args,
    decreases args.len(),
{
    let a = args[0];
    let t = args.drop_first();
    assert(args == seq![a] + t);
    lemma_quoted_words_cons(a, t);
    if t.len() == 0 {
        lemma_read_quote_word(a, Seq::empty(), Seq::empty(), false, done);
        assert(quote_word(a) + Seq::<char>::empty() == quote_word(a));
        assert(Seq::<char>::empty() + a == a);
        assert(done.push(a) == done + args);
    } else {
        let rest = seq![' '] + quoted_words(t);
        lemma_read_quote_word(a, rest, Seq::empty(), false, done);
        assert(Seq::<char>::empty() + a == a);
        assert(rest.drop_first() == quoted_words(t));
        lemma_read_quoted_words(t, done.push(a));
        assert(done.push(a) + t == done + args);
    }
}

/// Law: the shell splits the quoted command line back into exactly the
/// arguments it was built from, whatever characters they hold; the
/// quoting is unambiguous.
pub proof fn lemma_command_line_reads_back(args: Seq<Seq<char>>)
    ensures
        read_words(quoted_words(args), false, Seq::empty(), false, Seq::empty()) == args,
{
    if args.len() == 0 {
        assert(quoted_words(args) == Seq::<char>::empty());
    } else {
        lemma_read_quoted_words(args, Seq::empty());
        assert(Seq::<Seq<char>>::empty() + args == args);
    }
}

/// The terminals whose way of running a shell command line is known.
pub open spec fn is_known_terminal(terminal: Seq<char>) -> bool {
    terminal == "gnome-terminal"@ || terminal == "konsole"@ || terminal == "xfce4-terminal"@
        || terminal == "xterm"@
}

/// The launcher arguments that make a known terminal run one shell command
/// line; other terminals get none.
pub open spec fn launcher_args(terminal: Seq<char>) -> Seq<Seq<char>> {
    if terminal == "gnome-terminal"@ {
        seq!["--"@, "bash"@, "-c"@]
    } else if terminal == "konsole"@ {
        seq!["-e"@, "bash"@, "-c"@]
    } else if terminal == "xfce4-terminal"@ {
        seq!["--command"@, "bash"@, "-c"@]
    } else if terminal == "xterm"@ {
        seq!["-e"@, "bash"@, "-c"@]
    } else {
        Seq::empty()
    }
}

/// The arguments handed to `terminal` so that it runs `argv`: a known
/// terminal runs the quoted shell command line through bash; any other is
/// given `-e` followed by the program and its arguments, one by one.
pub open spec fn terminal_args(terminal: Seq<char>, argv: Seq<Seq<char>>) -> Seq<Seq<char>> {
    if is_known_terminal(terminal) {
        launcher_args(terminal).push(shell_command(argv))
    } else {
        seq!["-e"@] + argv
    }
}

/// The terminals tried, in order, when no preferred one is installed.
pub open spec fn fallback_names() -> Seq<Seq<char>> {
    seq!["gnome-terminal"@, "xterm"@]
}

/// The first of `candidates` that is installed.
pub open spec fn first_installed(candidates: Seq<Seq<char>>, installed: Seq<Seq<char>>) -> Option<
    Seq<char>,
>
    decreases candidates.len(),
{
    if candidates.len() == 0 {
        None
    } else if installed.contains(candidates[0]) {
        Some(candidates[0])
    } else {
        first_installed(candidates.drop_first(), installed)
    }
}

/// The terminal to use: the preferred one when it is installed, else the
/// first installed fallback.
pub open spec fn chosen_terminal(preferred: Option<Seq<char>>, installed: Seq<Seq<char>>) -> Option<
    Seq<char>,
> {
    if preferred is Some && installed.contains(preferred->0) {
        preferred
    } else {
        first_installed(fallback_names(), installed)
    }
}

/// Law: a known terminal is handed its three launcher flags (`--`,
/// `--command` or `-e`, then `bash -c`) and then exactly one more argument:
/// the quoted words of `argv` followed by the wait-for-Enter tail, a line
/// from which the shell reads back exactly `argv`.
pub proof fn lemma_known_terminal_runs_command_line(terminal: Seq<char>, argv: Seq<Seq<char>>)
    requires
        terminal == "gnome-terminal"@ || terminal == "konsole"@ || terminal == "xfce4-terminal"@
            || terminal == "xterm"@,
    ensures
        terminal_args(terminal, argv).len() == 4,
        terminal_args(terminal, argv)[0] == (if terminal == "gnome-terminal"@ {
            "--"@
        } else if terminal == "xfce4-terminal"@ {
            "--command"@
        } else {
            "-e"@
        }),
        terminal_args(terminal, argv)[1] == "bash"@,
        terminal_args(terminal, argv)[2] == "-c"@,
        terminal_args(terminal, argv)[3] == quoted_words(argv)
            + "; rc=$?; echo; echo \"[ssh exited with status $rc. Press Enter to close.]\"; read _"@,
        read_words(
            terminal_args(terminal, argv)[3].take(quoted_words(argv).len() as int),
            false,
            Seq::empty(),
            false,
            Seq::empty(),
        ) == argv,
{
    reveal_strlit("gnome-terminal");
    reveal_strlit("konsole");
    reveal_strlit("xfce4-terminal");
    reveal_strlit("xterm");
    assert("gnome-terminal"@.len() == 14);
    assert("konsole"@.len() == 7);
    assert("xfce4-terminal"@.len() == 14);
    assert("xterm"@.len() == 5);
    assert("gnome-terminal"@[0] != "xfce4-terminal"@[0]);
    let line = terminal_args(terminal, argv)[3];
    assert(line.take(quoted_words(argv).len() as int) =~= quoted_words(argv));
    lemma_command_line_reads_back(argv);
}

/// Law: any other terminal is handed `-e` and then the program and its
/// arguments themselves, one argument each, unquoted.
pub proof fn lemma_other_terminal_gets_argv(terminal: Seq<char>, argv: Seq<Seq<char>>)
    requires
        terminal != "gnome-terminal"@,
        terminal != "konsole"@,
        terminal != "xfce4-terminal"@,
        terminal != "xterm"@,
    ensures
        terminal_args(terminal, argv).len() == argv.len() + 1,
        terminal_args(terminal, argv)[0] == "-e"@,
        forall|i: int| 0 <= i < argv.len() ==> #[trigger] terminal_args(terminal, argv)[i + 1]
            == argv[i],
{
}

/// Law: a preferred terminal that is installed is always the one chosen;
/// otherwise gnome-terminal when installed, else xterm when installed,
/// else none.
pub proof fn lemma_terminal_choice(preferred: Option<Seq<char>>, installed: Seq<Seq<char>>)
    ensures
        preferred is Some && installed.contains(preferred->0) ==> chosen_terminal(
            preferred,
            installed,
        ) == Some(preferred->0),
        !(preferred is Some && installed.contains(preferred->0)) ==> chosen_terminal(
            preferred,
            installed,
        ) == (if installed.contains("gnome-terminal"@) {
            Some("gnome-terminal"@)
        } else if installed.contains("xterm"@) {
            Some("xterm"@)
        } else {
            None
        }),
        chosen_terminal(preferred, installed) matches Some(t) ==> installed.contains(t),
{
    reveal_with_fuel(first_installed, 3);
    let f = fallback_names();
    assert(f[0] == "gnome-terminal"@);
    assert(f.drop_first()[0] == "xterm"@);
    assert(f.drop_first().drop_first().len() == 0);
}

/// A program to start and its arguments.
pub struct TerminalCommand {
    pub program: String,
    pub args: Vec<String>,
}

/// Choosing and starting terminal emulators.
pub struct Terminal;

/// Appends `a` to `out` with each character written as `escape_char` writes
/// it.
fn append_escaped(out: &mut String, a: &str)
    ensures
        final(out)@ == old(out)@ + escaped(a@),
{
    let n = a.unicode_len();
    let mut i: usize = 0;
    while i < n
        invariant
            n == a@.len(),
            i <= n,
            out@ == old(out)@ + escaped(a@.take(i as int)),
        decreases n - i,
    {
        let c = a.get_char(i);
        proof {
            let t = a@.take(i as int + 1);
            assert(t.drop_last() == a@.take(i as int));
            assert(t.last() == c);
        }
        if c == '\'' {
            proof {
                reveal_strlit("'\\''");
            }
            out.append("'\\''");
        } else {
            let piece = a.substring_char(i, i + 1);
            proof {
                assert(piece@ == seq![c]);
            }
            out.append(piece);
        }
        i = i + 1;
    }
    proof {
        assert(a@.take(n as int) == a@);
    }
}

/// Builds the shell command line that runs `argv`, each argument single
/// quoted, and then waits for Enter.
pub fn build_shell_command(argv: &[&str]) -> (r: String)
    ensures
        r@ == shell_command(word_texts(argv@)),
{
    let ghost words = word_texts(argv@);
    let mut out = String::new();
    let n = argv.len();
    let mut i: usize = 0;
    proof {
        reveal_strlit(" ");
        reveal_strlit("'");
    }
    while i < n
        invariant
            n == argv@.len(),
            words == word_texts(argv@),
            i <= n,
            out@ == quoted_words(words.take(i as int)),
            " "@ == seq![' '],
            "'"@ == seq!['\''],
        decreases n - i,
    {
        let ghost before = out@;
        if i > 0 {
            out.append(" ");
        }
        out.append("'");
        append_escaped(&mut out, argv[i]);
        out.append("'");
        proof {
            let t = words.take(i as int + 1);
            assert(t.drop_last() == words.take(i as int));
            assert(t.last() == argv@[i as int]@);
            if i == 0 {
                assert(t.len() == 1);
                assert(out@ == quote_word(t[0]));
            } else {
                assert(out@ == before + seq![' '] + quote_word(t.last()));
            }
        }
        i = i + 1;
    }
    proof {
        assert(words.take(n as int) == words);
    }
    out.append("; rc=$?; echo; echo \"[ssh exited with status $rc. Press Enter to close.]\"; read _");
    out
}

/// Whether `name` is one of `installed`.
fn is_listed(name: &String, installed: &Vec<String>) -> (r: bool)
    ensures
        r == texts(installed@).contains(name@),
{
    let n = installed.len();
    let mut i: usize = 0;
    while i < n
        invariant
            n == installed@.len(),
            i <= n,
            forall|j: int| 0 <= j < i ==> #[trigger] installed@[j]@ != name@,
        decreases n - i,
    {
        if installed[i] == *name {
            proof {
                assert(texts(installed@)[i as int] == name@);
            }
            return true;
        }
        i = i + 1;
    }
    proof {
        if texts(installed@).contains(name@) {
            let j = choose|j: int| 0 <= j < texts(installed@).len() && texts(installed@)[j] == name@;
            assert(installed@[j]@ == name@);
        }
    }
    false
}

impl Terminal {
    /// The terminals tried, in order, when no preferred one is installed.
    pub fn fallback_terminals() -> (v: Vec<String>)
        ensures
            texts(v@) == fallback_names(),
    {
        let mut v: Vec<String> = Vec::new();
        let a = String::from_str("gnome-terminal");
        proof {
            lemma_texts_push(v@, a);
        }
        v.push(a);
        let b = String::from_str("xterm");
        proof {
            lemma_texts_push(v@, b);
        }
        v.push(b);
        proof {
            assert(texts(v@) =~= fallback_names());
        }
        v
    }

    /// The terminal to use, given the names found installed: the preferred
    /// one when it is installed, else the first installed of
    /// `fallback_terminals`.
    pub fn get_terminal_command(preferred: Option<&str>, installed: &Vec<String>) -> (r: Result<
        String,
        SshManagerError,
    >)
        ensures
            match chosen_terminal(
                match preferred {
                    Some(p) => Some(p@),
                    None => None,
                },
                texts(installed@),
            ) {
                Some(t) => r matches Ok(s) && s@ == t,
                None => r matches Err(SshManagerError::TerminalNotFound),
            },
    {
        let ghost pref: Option<Seq<char>> = match preferred {
            Some(p) => Some(p@),
            None => None,
        };
        if let Some(p) = preferred {
            let name = p.to_owned();
            if is_listed(&name, installed) {
                return Ok(name);
            }
        }
        let fallbacks = Self::fallback_terminals();
        let n = fallbacks.len();
        proof {
            assert(fallback_names().skip(0) == fallback_names());
        }
        let mut i: usize = 0;
        while i < n
            invariant
                n == fallbacks@.len(),
                texts(fallbacks@) == fallback_names(),
                i <= n,
                !(pref is Some && texts(installed@).contains(pref->0)),
                pref == match preferred {
                    Some(p) => Some(p@),
                    None => None,
                },
                first_installed(fallback_names(), texts(installed@)) == first_installed(
                    fallback_names().skip(i as int),
                    texts(installed@),
                ),
            decreases n - i,
        {
            let ghost rest = fallback_names().skip(i as int);
            proof {
                assert(rest[0] == fallbacks@[i as int]@);
                assert(rest.drop_first() == fallback_names().skip(i as int + 1));
            }
            if is_listed(&fallbacks[i], installed) {
                let chosen = fallbacks[i].clone();
                return Ok(chosen);
            }
            i = i + 1;
        }
        proof {
            assert(fallback_names().skip(n as int).len() == 0);
        }
        Err(SshManagerError::TerminalNotFound)
    }

    /// The program and arguments that open `terminal` running `argv`; `argv`
    /// must not be empty.
    pub fn terminal_command(terminal: &str, argv: &[&str]) -> (r: Result<
        TerminalCommand,
        SshManagerError,
    >)
        ensures
            argv@.len() == 0 ==> (r matches Err(SshManagerError::SshLaunchFailed(m)) && m@
                == "spawn_terminal called with empty argv"@),
            argv@.len() > 0 ==> (r matches Ok(c) && c.program@ == terminal@ && texts(c.args@)
                == terminal_args(terminal@, word_texts(argv@))),
    {
        if argv.len() == 0 {
            return Err(
                SshManagerError::SshLaunchFailed(
                    String::from_str("spawn_terminal called with empty argv"),
                ),
            );
        }
        let program = terminal.to_owned();
        let mut args: Vec<String> = Vec::new();
        let plain = program.clone();
        let known = if plain == String::from_str("gnome-terminal") {
            args.push(String::from_str("--"));
            args.push(String::from_str("bash"));
            args.push(String::from_str("-c"));
            true
        } else if plain == String::from_str("konsole") {
            args.push(String::from_str("-e"));
            args.push(String::from_str("bash"));
            args.push(String::from_str("-c"));
            true
        } else if plain == String::from_str("xfce4-terminal") {
            args.push(String::from_str("--command"));
            args.push(String::from_str("bash"));
            args.push(String::from_str("-c"));
            true
        } else if plain == String::from_str("xterm") {
            args.push(String::from_str("-e"));
            args.push(String::from_str("bash"));
            args.push(String::from_str("-c"));
            true
        } else {
            false
        };
        proof {
            assert(known == is_known_terminal(terminal@));
            assert(texts(args@) =~= launcher_args(terminal@));
        }
        if known {
            let line = build_shell_command(argv);
            proof {
                lemma_texts_push(args@, line);
            }
            args.push(line);
        } else {
            let ghost words = word_texts(argv@);
            args.push(String::from_str("-e"));
            let n = argv.len();
            let mut i: usize = 0;
            proof {
                assert(texts(args@) =~= seq!["-e"@] + words.take(0));
            }
            while i < n
                invariant
                    n == argv@.len(),
                    words == word_texts(argv@),
                    i <= n,
                    texts(args@) == seq!["-e"@] + words.take(i as int),
                decreases n - i,
            {
                let a = argv[i].to_owned();
                proof {
                    lemma_texts_push(args@, a);
                    assert(words.take(i as int + 1) =~= words.take(i as int).push(a@));
                    assert(seq!["-e"@] + words.take(i as int + 1) =~= (seq!["-e"@]
                        + words.take(i as int)).push(a@));
                }
                args.push(a);
                i = i + 1;
            }
            proof {
                assert(words.take(n as int) =~= words);
            }
        }
        Ok(TerminalCommand { program, args })
    }
}

} // verus!

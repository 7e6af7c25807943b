use vstd::prelude::*;

use crate::models::{AuthMethod, Config, Server};
use crate::text::{
    decimal, decimal_string, lemma_texts_push, pad_right, pad_right_string, repeat_text, repeated,
    texts,
};

verus! {

/// How an authentication method is shown in the table.
pub open spec fn auth_label(a: AuthMethod) -> Seq<char> {
    match a {
        AuthMethod::Key => "key"@,
        AuthMethod::Password => "password"@,
    }
}

/// How the agent forwarding switch is shown in the table.
pub open spec fn agent_label(on: bool) -> Seq<char> {
    if on {
        "yes"@
    } else {
        "no"@
    }
}

/// One line of the table: the six columns, left aligned in widths 20, 20,
/// 15, 10, 12 and 8, separated by single spaces.
pub open spec fn table_row(
    name: Seq<char>,
    host: Seq<char>,
    username: Seq<char>,
    port: Seq<char>,
    auth: Seq<char>,
    agent: Seq<char>,
) -> Seq<char> {
    pad_right(name, 20) + seq![' '] + pad_right(host, 20) + seq![' '] + pad_right(username, 15)
        + seq![' '] + pad_right(port, 10) + seq![' '] + pad_right(auth, 12) + seq![' ']
        + pad_right(agent, 8)
}

/// The table line of a server.
pub open spec fn server_row(s: Server) -> Seq<char> {
    table_row(
        s.name@,
        s.host@,
        s.username@,
        decimal(s.port as nat),
        auth_label(s.auth_method),
        agent_label(s.use_agent_forwarding),
    )
}

/// The heading line of the table.
pub open spec fn header_row() -> Seq<char> {
    table_row("Name"@, "Host"@, "Username"@, "Port"@, "Auth"@, "Agent FW"@)
}

/// The rule under the heading.
pub open spec fn rule_line() -> Seq<char> {
    repeated("─"@, 95)
}

/// The lines that list the servers: a note when there are none, else the
/// heading, the rule and one line per server in order.
pub open spec fn listing(servers: Seq<Server>) -> Seq<Seq<char>> {
    if servers.len() == 0 {
        seq!["No servers configured."@]
    } else {
        seq![header_row(), rule_line()] + servers.map_values(|s: Server| server_row(s))
    }
}

/// Law: a server's line starts with its name and ends with its last two
/// columns: the authentication, 12 characters wide (`key` for a key file,
/// `password` for a password), one space, then the agent forwarding
/// column, 8 characters wide, reading `yes` exactly when agent forwarding
/// is on and `no` otherwise, whatever the authentication.
pub proof fn lemma_row_columns(s: Server)
    ensures
        server_row(s).len() >= 21,
        server_row(s).take(s.name@.len() as int) == s.name@,
        server_row(s).skip(server_row(s).len() - 8) == (if s.use_agent_forwarding {
            seq!['y', 'e', 's', ' ', ' ', ' ', ' ', ' ']
        } else {
            seq!['n', 'o', ' ', ' ', ' ', ' ', ' ', ' ']
        }),
        server_row(s)[server_row(s).len() - 9] == ' ',
        server_row(s).subrange(server_row(s).len() - 21, server_row(s).len() - 9) == (match s.auth_method {
            AuthMethod::Key => seq!['k', 'e', 'y', ' ', ' ', ' ', ' ', ' ', ' ', ' ', ' ', ' '],
            AuthMethod::Password => seq!['p', 'a', 's', 's', 'w', 'o', 'r', 'd', ' ', ' ', ' ', ' '],
        }),
{
    reveal_strlit("yes");
    reveal_strlit("no");
    reveal_strlit("key");
    reveal_strlit("password");
    let auth = pad_right(auth_label(s.auth_method), 12);
    let agent = pad_right(agent_label(s.use_agent_forwarding), 8);
    let name_col = pad_right(s.name@, 20);
    let front = name_col + seq![' '] + pad_right(s.host@, 20) + seq![' '] + pad_right(s.username@, 15)
        + seq![' '] + pad_right(decimal(s.port as nat), 10) + seq![' '];
    let row = server_row(s);
    assert(row == front + auth + seq![' '] + agent);
    assert(auth.len() == 12);
    assert(agent.len() == 8);
    let n = row.len();
    assert(row.skip(n - 8) =~= agent);
    assert(row.subrange(n - 21, n - 9) =~= auth);
    assert(row[n - 9] == ' ');
    if s.use_agent_forwarding {
        assert(agent =~= seq!['y', 'e', 's', ' ', ' ', ' ', ' ', ' ']);
    } else {
        assert(agent =~= seq!['n', 'o', ' ', ' ', ' ', ' ', ' ', ' ']);
    }
    match s.auth_method {
        AuthMethod::Key => {
            assert(auth =~= seq!['k', 'e', 'y', ' ', ' ', ' ', ' ', ' ', ' ', ' ', ' ', ' ']);
        },
        AuthMethod::Password => {
            assert(auth =~= seq!['p', 'a', 's', 's', 'w', 'o', 'r', 'd', ' ', ' ', ' ', ' ']);
        },
    }
    assert(name_col.take(s.name@.len() as int) =~= s.name@);
    assert(row.take(s.name@.len() as int) =~= s.name@);
}

/// Law: a listing of servers is a note alone when there are none, and
/// otherwise the heading, the rule and then exactly one line per server,
/// in the order the servers are saved.
pub proof fn lemma_listing_lines(servers: Seq<Server>)
    ensures
        servers.len() == 0 ==> listing(servers) == seq!["No servers configured."@],
        servers.len() > 0 ==> listing(servers).len() == servers.len() + 2,
        servers.len() > 0 ==> listing(servers)[0] == header_row() && listing(servers)[1]
            == rule_line(),
        forall|i: int| 0 <= i < servers.len() ==> #[trigger] listing(servers)[i + 2] == server_row(
            servers[i],
        ),
{
}

/// One line of the table from its six columns.
fn format_row(
    name: &str,
    host: &str,
    username: &str,
    port: &str,
    auth: &str,
    agent: &str,
) -> (r: String)
    ensures
        r@ == table_row(name@, host@, username@, port@, auth@, agent@),
{
    proof {
        reveal_strlit(" ");
    }
    let mut out = pad_right_string(name, 20);
    out.append(" ");
    out.append(pad_right_string(host, 20).as_str());
    out.append(" ");
    out.append(pad_right_string(username, 15).as_str());
    out.append(" ");
    out.append(pad_right_string(port, 10).as_str());
    out.append(" ");
    out.append(pad_right_string(auth, 12).as_str());
    out.append(" ");
    out.append(pad_right_string(agent, 8).as_str());
    out
}

/// The table line of a server.
pub fn format_server_row(s: &Server) -> (r: String)
    ensures
        r@ == server_row(*s),
{
    let port = decimal_string(s.port);
    let auth = match s.auth_method {
        AuthMethod::Key => "key",
        AuthMethod::Password => "password",
    };
    let agent = if s.use_agent_forwarding {
        "yes"
    } else {
        "no"
    };
    format_row(
        s.name.as_str(),
        s.host.as_str(),
        s.username.as_str(),
        port.as_str(),
        auth,
        agent,
    )
}

/// The lines that list the saved servers.
pub fn server_table(config: &Config) -> (lines: Vec<String>)
    ensures
        texts(lines@) == listing(config.servers@),
{
    let mut lines: Vec<String> = Vec::new();
    let n = config.servers.len();
    if n == 0 {
        let note = String::from_str("No servers configured.");
        proof {
            lemma_texts_push(lines@, note);
        }
        lines.push(note);
        proof {
            assert(texts(lines@) =~= listing(config.servers@));
        }
        return lines;
    }
    let header = format_row("Name", "Host", "Username", "Port", "Auth", "Agent FW");
    proof {
        lemma_texts_push(lines@, header);
    }
    lines.push(header);
    let rule = repeat_text("─", 95);
    proof {
        lemma_texts_push(lines@, rule);
    }
    lines.push(rule);
    let ghost rows = config.servers@.map_values(|s: Server| server_row(s));
    let mut i: usize = 0;
    while i < n
        invariant
            n == config.servers@.len(),
            i <= n,
            rows == config.servers@.map_values(|s: Server| server_row(s)),
            texts(lines@) == seq![header_row(), rule_line()] + rows.take(i as int),
        decreases n - i,
    {
        let row = format_server_row(&config.servers[i]);
        proof {
            lemma_texts_push(lines@, row);
            assert(rows.take(i as int + 1) == rows.take(i as int).push(row@));
        }
        lines.push(row);
        i = i + 1;
    }
    proof {
        assert(rows.take(n as int) == rows);
    }
    lines
}

} // verus!

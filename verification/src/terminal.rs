//! The command line of the browser terminal: what each typed command asks
//! the terminal to do, completion candidates, the websocket address, and the
//! loop that watches the websocket for incoming messages.
use vstd::prelude::*;
use crate::port::{PortError, decimal, port_of, parse_port, append_decimal};
use crate::text::{
    command_words, is_word, join, join_words, law_first_word, law_split_gives_words, law_split_join,
    parse_command_line, split_words, text_equals,
};
use crate::port::law_port_round_trip;

verus! {

/// What the terminal does in answer to a command.
#[derive(Debug, PartialEq, Eq)]
pub enum CliAction {
    /// Write each of these lines to the terminal.
    WriteLines(Vec<String>),
    /// Write the command history to the terminal, one line per entry.
    ShowHistory,
    /// Log this message at trace level.
    Trace(String),
    /// Wait this many milliseconds.
    Pause(u64),
    /// Ask the user for a line of input (hidden where `secret`).
    Ask { secret: bool, prompt: String },
    /// Connect to the websocket server at this host and port.
    Connect { host: String, port: Result<u16, PortError> },
    /// Close the websocket connection.
    Disconnect,
    /// Send this text over the websocket connection.
    Send(String),
    /// Write this farewell line, then leave the terminal.
    Exit(String),
    /// Log this error message; the command itself succeeds.
    ReportError(String),
}

/// The mathematical value of a `CliAction`.
pub enum CliActionModel {
    WriteLines(Seq<Seq<char>>),
    ShowHistory,
    Trace(Seq<char>),
    Pause(nat),
    Ask { secret: bool, prompt: Seq<char> },
    Connect { host: Seq<char>, port: Result<u16, PortError> },
    Disconnect,
    Send(Seq<char>),
    Exit(Seq<char>),
    ReportError(Seq<char>),
}

impl View for CliAction {
    type V = CliActionModel;

    open spec fn view(&self) -> CliActionModel {
        match self {
            CliAction::WriteLines(lines) => CliActionModel::WriteLines(lines.deep_view()),
            CliAction::ShowHistory => CliActionModel::ShowHistory,
            CliAction::Trace(m) => CliActionModel::Trace(m@),
            CliAction::Pause(ms) => CliActionModel::Pause(*ms as nat),
            CliAction::Ask { secret, prompt } => CliActionModel::Ask { secret: *secret, prompt: prompt@ },
            CliAction::Connect { host, port } => CliActionModel::Connect { host: host@, port: *port },
            CliAction::Disconnect => CliActionModel::Disconnect,
            CliAction::Send(m) => CliActionModel::Send(m@),
            CliAction::Exit(m) => CliActionModel::Exit(m@),
            CliAction::ReportError(m) => CliActionModel::ReportError(m@),
        }
    }
}

/// The model of the answer to a command: an action, or the error text.
pub open spec fn outcome_model(r: Result<CliAction, String>) -> Result<CliActionModel, Seq<char>> {
    match r {
        Ok(a) => Ok(a@),
        Err(e) => Err(e@),
    }
}

/// The commands that `help` lists, one summary each.
pub open spec fn command_summaries() -> Seq<Seq<char>> {
    seq![
        "help - this list"@,
        "hello - simple text output"@,
        "test - log_trace!() macro output"@,
        "history - list command history"@,
        "sleep - sleep for 5 seconds"@,
        "ask - ask user for text input (with echo)"@,
        "pass - ask user for password text input (no echo)"@,
        "connect <ip> <port> - connect to a websocket server"@,
        "disconnect - disconnect from websocket server"@,
        "send <message> - send a message to the websocket connection"@,
        "exit - exit terminal"@,
    ]
}

/// The two lines that `help` writes: a heading, then the summaries, each
/// on a line of its own behind a tab.
pub open spec fn help_text() -> Seq<Seq<char>> {
    seq![
        "\n\rCommands:\n\r"@,
        "\t"@ + join(command_summaries(), "\n\r\t"@) + "\n\r"@,
    ]
}

/// What the terminal does for a command line `line` whose words are `argv`;
/// `has_socket` tells whether a websocket has been set up.
pub open spec fn cli_response(argv: Seq<Seq<char>>, line: Seq<char>, has_socket: bool) -> Result<
    CliActionModel,
    Seq<char>,
> {
    let verb = argv[0];
    if verb == "help"@ {
        Ok(CliActionModel::WriteLines(help_text()))
    } else if verb == "hello"@ {
        Ok(CliActionModel::WriteLines(seq!["hello back to you!"@]))
    } else if verb == "history"@ {
        Ok(CliActionModel::ShowHistory)
    } else if verb == "test"@ {
        Ok(CliActionModel::Trace("log_trace!() macro test"@))
    } else if verb == "sleep"@ {
        Ok(CliActionModel::Pause(5000))
    } else if verb == "ask"@ {
        Ok(CliActionModel::Ask { secret: false, prompt: "Enter something:"@ })
    } else if verb == "pass"@ {
        Ok(CliActionModel::Ask { secret: true, prompt: "Enter something:"@ })
    } else if verb == "connect"@ {
        if argv.len() < 3 {
            Ok(CliActionModel::ReportError("Please specify an ip and port to connect to"@))
        } else {
            Ok(CliActionModel::Connect { host: argv[1], port: port_of(argv[2]) })
        }
    } else if verb == "disconnect"@ {
        Ok(CliActionModel::Disconnect)
    } else if verb == "send"@ {
        if !has_socket {
            Ok(CliActionModel::ReportError("No websocket connection"@))
        } else if argv.len() < 2 {
            Ok(CliActionModel::ReportError("Please specify a message to send"@))
        } else {
            Ok(CliActionModel::Send(join(argv.skip(1), " "@)))
        }
    } else if verb == "exit"@ {
        Ok(CliActionModel::Exit("bye!"@))
    } else {
        Err("command not found: "@ + line)
    }
}

/// The verbs that the terminal knows.
pub open spec fn known_verbs() -> Seq<Seq<char>> {
    seq![
        "help"@,
        "hello"@,
        "history"@,
        "test"@,
        "sleep"@,
        "ask"@,
        "pass"@,
        "connect"@,
        "disconnect"@,
        "send"@,
        "exit"@,
    ]
}

/// Law: a command is refused exactly when its first word is not a known
/// verb, and then the error names the whole line.
pub proof fn law_refused_iff_unknown(argv: Seq<Seq<char>>, line: Seq<char>, has_socket: bool)
    requires
        argv.len() >= 1,
    ensures
        cli_response(argv, line, has_socket) is Err <==> !known_verbs().contains(argv[0]),
        cli_response(argv, line, has_socket) is Err ==> cli_response(argv, line, has_socket)
            == Err::<CliActionModel, Seq<char>>("command not found: "@ + line),
{
    let v = known_verbs();
    if v.contains(argv[0]) {
        let i = choose|i: int| 0 <= i < v.len() && v[i] == argv[0];
        assert(argv[0] == v[i]);
    } else {
        assert(v[0] == "help"@ && v[1] == "hello"@ && v[2] == "history"@ && v[3] == "test"@);
        assert(v[4] == "sleep"@ && v[5] == "ask"@ && v[6] == "pass"@ && v[7] == "connect"@);
        assert(v[8] == "disconnect"@ && v[9] == "send"@ && v[10] == "exit"@);
    }
}

/// The characters of the verbs.
proof fn lemma_verbs_distinct()
    ensures
        "help"@ == seq!['h', 'e', 'l', 'p'],
        "hello"@ == seq!['h', 'e', 'l', 'l', 'o'],
        "history"@ == seq!['h', 'i', 's', 't', 'o', 'r', 'y'],
        "test"@ == seq!['t', 'e', 's', 't'],
        "sleep"@ == seq!['s', 'l', 'e', 'e', 'p'],
        "ask"@ == seq!['a', 's', 'k'],
        "pass"@ == seq!['p', 'a', 's', 's'],
        "connect"@ == seq!['c', 'o', 'n', 'n', 'e', 'c', 't'],
        "disconnect"@ == seq!['d', 'i', 's', 'c', 'o', 'n', 'n', 'e', 'c', 't'],
        "send"@ == seq!['s', 'e', 'n', 'd'],
        "exit"@ == seq!['e', 'x', 'i', 't'],
        " "@ == seq![' '],
{
    reveal_strlit("help");
    reveal_strlit("hello");
    reveal_strlit("history");
    reveal_strlit("test");
    reveal_strlit("sleep");
    reveal_strlit("ask");
    reveal_strlit("pass");
    reveal_strlit("connect");
    reveal_strlit("disconnect");
    reveal_strlit("send");
    reveal_strlit("exit");
    reveal_strlit(" ");
    assert("help"@ =~= seq!['h', 'e', 'l', 'p']);
    assert("hello"@ =~= seq!['h', 'e', 'l', 'l', 'o']);
    assert("history"@ =~= seq!['h', 'i', 's', 't', 'o', 'r', 'y']);
    assert("test"@ =~= seq!['t', 'e', 's', 't']);
    assert("sleep"@ =~= seq!['s', 'l', 'e', 'e', 'p']);
    assert("ask"@ =~= seq!['a', 's', 'k']);
    assert("pass"@ =~= seq!['p', 'a', 's', 's']);
    assert("connect"@ =~= seq!['c', 'o', 'n', 'n', 'e', 'c', 't']);
    assert("disconnect"@ =~= seq!['d', 'i', 's', 'c', 'o', 'n', 'n', 'e', 'c', 't']);
    assert("send"@ =~= seq!['s', 'e', 'n', 'd']);
    assert("exit"@ =~= seq!['e', 'x', 'i', 't']);
    assert(" "@ =~= seq![' ']);
}

/// Law: `send` with a websocket set up sends the rest of the line's words
/// joined by single spaces, and the words of the sent text are exactly the
/// words typed after `send`.
pub proof fn law_send_keeps_words(line: Seq<char>)
    requires
        command_words(line).len() >= 2,
        command_words(line)[0] == "send"@,
    ensures
        cli_response(command_words(line), line, true) == Ok::<CliActionModel, Seq<char>>(
            CliActionModel::Send(join(command_words(line).skip(1), " "@)),
        ),
        split_words(join(command_words(line).skip(1), " "@)) == command_words(line).skip(1),
{
    lemma_verbs_distinct();
    let words = command_words(line);
    law_split_gives_words(line);
    assert(words == split_words(line));
    let rest = words.skip(1);
    assert forall|i: int| 0 <= i < rest.len() implies is_word(#[trigger] rest[i]) by {
        assert(rest[i] == words[i + 1]);
    }
    law_split_join(rest);
}

/// Law: typing `connect`, a host and the decimal digits of a port asks to
/// connect to exactly that host and port.
pub proof fn law_connect_reads_port(host: Seq<char>, port: u16, has_socket: bool)
    requires
        is_word(host),
    ensures
        ({
            let line = "connect"@ + " "@ + host + " "@ + decimal(port as nat);
            cli_response(command_words(line), line, has_socket) == Ok::<CliActionModel, Seq<char>>(
                CliActionModel::Connect { host, port: Ok(port) },
            )
        }),
{
    lemma_verbs_distinct();
    let d = decimal(port as nat);
    crate::port::lemma_decimal_is_word(port as nat);
    law_port_round_trip(port);
    let ws = seq!["connect"@, host, d];
    assert(is_word("connect"@));
    assert forall|i: int| 0 <= i < ws.len() implies is_word(#[trigger] ws[i]) by {}
    law_split_join(ws);
    assert(ws.drop_last() =~= seq!["connect"@, host]);
    assert(ws.drop_last().drop_last() =~= seq!["connect"@]);
    assert(join(ws.drop_last().drop_last(), seq![' ']) == "connect"@);
    assert(join(ws.drop_last(), seq![' ']) == "connect"@ + " "@ + host);
    assert(join(ws, seq![' ']) == "connect"@ + " "@ + host + " "@ + d);
    let line = "connect"@ + " "@ + host + " "@ + d;
    assert(command_words(line) == ws);
}

/// Law: `help` describes exactly the known verbs: the first word of each
/// summary it lists is a known verb, and each known verb starts a summary.
pub proof fn law_help_lists_known_verbs()
    ensures
        forall|i: int|
            0 <= i < command_summaries().len() ==> known_verbs().contains(
                #[trigger] split_words(command_summaries()[i])[0],
            ),
        forall|j: int|
            0 <= j < known_verbs().len() ==> exists|i: int|
                0 <= i < command_summaries().len() && #[trigger] split_words(
                    command_summaries()[i],
                )[0] == #[trigger] known_verbs()[j],
{
    lemma_verbs_distinct();
    let sp = seq![' '];
    let cs = command_summaries();
    let kv = known_verbs();
    reveal_strlit("help - this list");
    reveal_strlit("- this list");
    assert(cs[0] =~= "help"@ + sp + "- this list"@);
    law_first_word("help"@, "- this list"@);
    reveal_strlit("hello - simple text output");
    reveal_strlit("- simple text output");
    assert(cs[1] =~= "hello"@ + sp + "- simple text output"@);
    law_first_word("hello"@, "- simple text output"@);
    reveal_strlit("test - log_trace!() macro output");
    reveal_strlit("- log_trace!() macro output");
    assert(cs[2] =~= "test"@ + sp + "- log_trace!() macro output"@);
    law_first_word("test"@, "- log_trace!() macro output"@);
    reveal_strlit("history - list command history");
    reveal_strlit("- list command history");
    assert(cs[3] =~= "history"@ + sp + "- list command history"@);
    law_first_word("history"@, "- list command history"@);
    reveal_strlit("sleep - sleep for 5 seconds");
    reveal_strlit("- sleep for 5 seconds");
    assert(cs[4] =~= "sleep"@ + sp + "- sleep for 5 seconds"@);
    law_first_word("sleep"@, "- sleep for 5 seconds"@);
    reveal_strlit("ask - ask user for text input (with echo)");
    reveal_strlit("- ask user for text input (with echo)");
    assert(cs[5] =~= "ask"@ + sp + "- ask user for text input (with echo)"@);
    law_first_word("ask"@, "- ask user for text input (with echo)"@);
    reveal_strlit("pass - ask user for password text input (no echo)");
    reveal_strlit("- ask user for password text input (no echo)");
    assert(cs[6] =~= "pass"@ + sp + "- ask user for password text input (no echo)"@);
    law_first_word("pass"@, "- ask user for password text input (no echo)"@);
    reveal_strlit("connect <ip> <port> - connect to a websocket server");
    reveal_strlit("<ip> <port> - connect to a websocket server");
    assert(cs[7] =~= "connect"@ + sp + "<ip> <port> - connect to a websocket server"@);
    law_first_word("connect"@, "<ip> <port> - connect to a websocket server"@);
    reveal_strlit("disconnect - disconnect from websocket server");
    reveal_strlit("- disconnect from websocket server");
    assert(cs[8] =~= "disconnect"@ + sp + "- disconnect from websocket server"@);
    law_first_word("disconnect"@, "- disconnect from websocket server"@);
    reveal_strlit("send <message> - send a message to the websocket connection");
    reveal_strlit("<message> - send a message to the websocket connection");
    assert(cs[9] =~= "send"@ + sp + "<message> - send a message to the websocket connection"@);
    law_first_word("send"@, "<message> - send a message to the websocket connection"@);
    reveal_strlit("exit - exit terminal");
    reveal_strlit("- exit terminal");
    assert(cs[10] =~= "exit"@ + sp + "- exit terminal"@);
    law_first_word("exit"@, "- exit terminal"@);
    assert(split_words(cs[0])[0] == kv[0]);
    assert(split_words(cs[1])[0] == kv[1]);
    assert(split_words(cs[2])[0] == kv[3]);
    assert(split_words(cs[3])[0] == kv[2]);
    assert(split_words(cs[4])[0] == kv[4]);
    assert(split_words(cs[5])[0] == kv[5]);
    assert(split_words(cs[6])[0] == kv[6]);
    assert(split_words(cs[7])[0] == kv[7]);
    assert(split_words(cs[8])[0] == kv[8]);
    assert(split_words(cs[9])[0] == kv[9]);
    assert(split_words(cs[10])[0] == kv[10]);
}

/// Law: `pass` asks for hidden input and `ask` for echoed input, both with
/// the prompt `Enter something:`, whatever the other words and whether or
/// not a websocket is set up.
pub proof fn law_ask_and_pass(argv: Seq<Seq<char>>, line: Seq<char>, has_socket: bool)
    requires
        argv.len() >= 1,
    ensures
        argv[0] == "pass"@ ==> cli_response(argv, line, has_socket) == Ok::<CliActionModel, Seq<char>>(
            CliActionModel::Ask { secret: true, prompt: "Enter something:"@ },
        ),
        argv[0] == "ask"@ ==> cli_response(argv, line, has_socket) == Ok::<CliActionModel, Seq<char>>(
            CliActionModel::Ask { secret: false, prompt: "Enter something:"@ },
        ),
{
    lemma_verbs_distinct();
}

/// Law: `exit` always writes `bye!` and leaves the terminal, whatever the
/// other words and whether or not a websocket is set up.
pub proof fn law_exit_says_bye(argv: Seq<Seq<char>>, line: Seq<char>, has_socket: bool)
    requires
        argv.len() >= 1,
        argv[0] == "exit"@,
    ensures
        cli_response(argv, line, has_socket) == Ok::<CliActionModel, Seq<char>>(
            CliActionModel::Exit("bye!"@),
        ),
{
    lemma_verbs_distinct();
}

/// Law: the commands without arguments give fixed answers, whatever follows
/// the verb and whether or not a websocket is set up.
pub proof fn law_fixed_answers(argv: Seq<Seq<char>>, line: Seq<char>, has_socket: bool)
    requires
        argv.len() >= 1,
    ensures
        argv[0] == "hello"@ ==> cli_response(argv, line, has_socket) == Ok::<CliActionModel, Seq<char>>(
            CliActionModel::WriteLines(seq!["hello back to you!"@]),
        ),
        argv[0] == "history"@ ==> cli_response(argv, line, has_socket) == Ok::<CliActionModel, Seq<char>>(
            CliActionModel::ShowHistory,
        ),
        argv[0] == "test"@ ==> cli_response(argv, line, has_socket) == Ok::<CliActionModel, Seq<char>>(
            CliActionModel::Trace("log_trace!() macro test"@),
        ),
        argv[0] == "sleep"@ ==> cli_response(argv, line, has_socket) == Ok::<CliActionModel, Seq<char>>(
            CliActionModel::Pause(5000),
        ),
        argv[0] == "disconnect"@ ==> cli_response(argv, line, has_socket) == Ok::<CliActionModel, Seq<char>>(
            CliActionModel::Disconnect,
        ),
        argv[0] == "help"@ ==> cli_response(argv, line, has_socket) == Ok::<CliActionModel, Seq<char>>(
            CliActionModel::WriteLines(help_text()),
        ),
{
    lemma_verbs_distinct();
}

/// Law: whether a websocket is set up changes the answer only for `send`.
pub proof fn law_socket_matters_only_for_send(argv: Seq<Seq<char>>, line: Seq<char>)
    requires
        argv.len() >= 1,
        argv[0] != "send"@,
    ensures
        cli_response(argv, line, true) == cli_response(argv, line, false),
{
}

/// Law: `send` without a websocket reports that there is none, whatever
/// else was typed.
pub proof fn law_send_needs_socket(argv: Seq<Seq<char>>, line: Seq<char>)
    requires
        argv.len() >= 1,
        argv[0] == "send"@,
    ensures
        cli_response(argv, line, false) == Ok::<CliActionModel, Seq<char>>(
            CliActionModel::ReportError("No websocket connection"@),
        ),
{
    lemma_verbs_distinct();
}

/// Law: `connect` with a host and a port connects to the second word as
/// host, with the third word read as a port (further words ignored); with
/// fewer words it only reports what is missing.
pub proof fn law_connect_arguments(argv: Seq<Seq<char>>, line: Seq<char>, has_socket: bool, p: u16)
    requires
        argv.len() >= 1,
        argv[0] == "connect"@,
    ensures
        argv.len() < 3 ==> cli_response(argv, line, has_socket) == Ok::<CliActionModel, Seq<char>>(
            CliActionModel::ReportError("Please specify an ip and port to connect to"@),
        ),
        argv.len() >= 3 ==> (cli_response(argv, line, has_socket) matches Ok(
            CliActionModel::Connect { host, port },
        ) && host == argv[1] && (argv[2] == decimal(p as nat) ==> port == Ok::<u16, PortError>(p))),
{
    lemma_verbs_distinct();
    law_port_round_trip(p);
}

/// Law: `send` with a websocket and at least one word after it sends those
/// words joined by single spaces; without such a word it reports that the
/// message is missing.
pub proof fn law_send_with_socket(argv: Seq<Seq<char>>, line: Seq<char>)
    requires
        argv.len() >= 1,
        argv[0] == "send"@,
    ensures
        argv.len() < 2 ==> cli_response(argv, line, true) == Ok::<CliActionModel, Seq<char>>(
            CliActionModel::ReportError("Please specify a message to send"@),
        ),
        argv.len() == 2 ==> cli_response(argv, line, true) == Ok::<CliActionModel, Seq<char>>(
            CliActionModel::Send(argv[1]),
        ),
        argv.len() >= 3 ==> cli_response(argv, line, true) == Ok::<CliActionModel, Seq<char>>(
            CliActionModel::Send(join(argv.subrange(1, argv.len() - 1), " "@) + " "@ + argv.last()),
        ),
{
    lemma_verbs_distinct();
    if argv.len() == 2 {
        assert(argv.skip(1) =~= seq![argv[1]]);
    } else if argv.len() >= 3 {
        assert(argv.skip(1).drop_last() =~= argv.subrange(1, argv.len() - 1));
    }
}

/// Law: completion candidates are offered exactly when the last word begins
/// with `a`; then they are `alpha`, `aloha` and `albatross`, in that order.
pub proof fn law_completion_on_leading_a(argv: Seq<Seq<char>>)
    ensures
        (argv.len() == 0 || argv.last().len() == 0 || argv.last()[0] != 'a') ==> completion_model(
            argv,
        ) == None::<Seq<Seq<char>>>,
        (argv.len() > 0 && argv.last().len() > 0 && argv.last()[0] == 'a') ==> completion_model(argv)
            == Some(seq!["alpha"@, "aloha"@, "albatross"@]),
{
}

/// Law: only the last word matters for completion.
pub proof fn law_completion_looks_at_last_word(argv: Seq<Seq<char>>, before: Seq<Seq<char>>)
    requires
        argv.len() >= 1,
    ensures
        completion_model(before + argv) == completion_model(argv),
        completion_model(argv) == completion_model(seq![argv.last()]),
{
    assert((before + argv).last() == argv.last());
}

/// The lines that `help` writes.
pub fn help_lines() -> (lines: Vec<String>)
    ensures
        lines.deep_view() == help_text(),
{
    let summaries = vec![
        "help - this list".to_owned(),
        "hello - simple text output".to_owned(),
        "test - log_trace!() macro output".to_owned(),
        "history - list command history".to_owned(),
        "sleep - sleep for 5 seconds".to_owned(),
        "ask - ask user for text input (with echo)".to_owned(),
        "pass - ask user for password text input (no echo)".to_owned(),
        "connect <ip> <port> - connect to a websocket server".to_owned(),
        "disconnect - disconnect from websocket server".to_owned(),
        "send <message> - send a message to the websocket connection".to_owned(),
        "exit - exit terminal".to_owned(),
    ];
    assert(summaries.deep_view().skip(0) =~= command_summaries());
    let joined = join_words(&summaries, 0, "\n\r\t");
    let mut body = "\t".to_owned();
    body.append(joined.as_str());
    body.append("\n\r");
    let lines = vec!["\n\rCommands:\n\r".to_owned(), body];
    assert(lines.deep_view() =~= help_text());
    lines
}

/// What the terminal does for a command line `line` whose words are
/// `argv`; `has_socket` tells whether a websocket has been set up.
pub fn respond(argv: &Vec<String>, line: &str, has_socket: bool) -> (r: Result<CliAction, String>)
    requires
        argv.len() >= 1,
    ensures
        outcome_model(r) == cli_response(argv.deep_view(), line@, has_socket),
{
    let ghost words = argv.deep_view();
    assert(words[0] == argv[0]@);
    let verb = argv[0].as_str();
    if text_equals(verb, "help") {
        Ok(CliAction::WriteLines(help_lines()))
    } else if text_equals(verb, "hello") {
        let lines = vec!["hello back to you!".to_owned()];
        assert(lines.deep_view() =~= seq!["hello back to you!"@]);
        Ok(CliAction::WriteLines(lines))
    } else if text_equals(verb, "history") {
        Ok(CliAction::ShowHistory)
    } else if text_equals(verb, "test") {
        Ok(CliAction::Trace("log_trace!() macro test".to_owned()))
    } else if text_equals(verb, "sleep") {
        Ok(CliAction::Pause(5000))
    } else if text_equals(verb, "ask") {
        Ok(CliAction::Ask { secret: false, prompt: "Enter something:".to_owned() })
    } else if text_equals(verb, "pass") {
        Ok(CliAction::Ask { secret: true, prompt: "Enter something:".to_owned() })
    } else if text_equals(verb, "connect") {
        if argv.len() < 3 {
            Ok(CliAction::ReportError("Please specify an ip and port to connect to".to_owned()))
        } else {
            assert(words[1] == argv[1]@ && words[2] == argv[2]@);
            let host = argv[1].clone();
            let port = parse_port(argv[2].as_str());
            Ok(CliAction::Connect { host, port })
        }
    } else if text_equals(verb, "disconnect") {
        Ok(CliAction::Disconnect)
    } else if text_equals(verb, "send") {
        if !has_socket {
            Ok(CliAction::ReportError("No websocket connection".to_owned()))
        } else if argv.len() < 2 {
            Ok(CliAction::ReportError("Please specify a message to send".to_owned()))
        } else {
            Ok(CliAction::Send(join_words(argv, 1, " ")))
        }
    } else if text_equals(verb, "exit") {
        Ok(CliAction::Exit("bye!".to_owned()))
    } else {
        let mut message = "command not found: ".to_owned();
        message.append(line);
        Err(message)
    }
}

/// What the terminal does for the command line `line`: the line is split
/// into words, then answered as `respond` does.
pub fn interpret(line: &str, has_socket: bool) -> (r: Result<CliAction, String>)
    ensures
        outcome_model(r) == cli_response(command_words(line@), line@, has_socket),
{
    let argv = parse_command_line(line);
    assert(argv.deep_view().len() == argv.len());
    respond(&argv, line, has_socket)
}

/// The completion candidates offered for the words `argv`.
pub open spec fn completion_model(argv: Seq<Seq<char>>) -> Option<Seq<Seq<char>>> {
    if argv.len() > 0 && argv.last().len() > 0 && argv.last()[0] == 'a' {
        Some(seq!["alpha"@, "aloha"@, "albatross"@])
    } else {
        None
    }
}

/// The view of a list of completion candidates.
pub open spec fn candidates_model(r: Option<Vec<String>>) -> Option<Seq<Seq<char>>> {
    match r {
        Some(v) => Some(v.deep_view()),
        None => None,
    }
}

/// Completion candidates for the words `argv`: three fixed words when the
/// last word starts with `a`, none otherwise.
pub fn completions_for(argv: &Vec<String>) -> (r: Option<Vec<String>>)
    ensures
        candidates_model(r) == completion_model(argv.deep_view()),
{
    if argv.len() == 0 {
        return None;
    }
    let ghost words = argv.deep_view();
    assert(words.last() == argv[argv.len() - 1]@);
    let last = argv[argv.len() - 1].as_str();
    if last.unicode_len() > 0 && last.get_char(0) == 'a' {
        let v = vec!["alpha".to_owned(), "aloha".to_owned(), "albatross".to_owned()];
        assert(v.deep_view() =~= seq!["alpha"@, "aloha"@, "albatross"@]);
        Some(v)
    } else {
        None
    }
}

/// Completion candidates for the command line `line`.
pub fn complete(line: &str) -> (r: Option<Vec<String>>)
    ensures
        candidates_model(r) == completion_model(command_words(line@)),
{
    let argv = parse_command_line(line);
    completions_for(&argv)
}

/// The address of the websocket server at `host` and `port`.
pub open spec fn websocket_address(host: Seq<char>, port: u16) -> Seq<char> {
    "ws://"@ + host + ":"@ + decimal(port as nat)
}

/// The websocket address `ws://<host>:<port>`.
pub fn websocket_url(host: &str, port: u16) -> (url: String)
    ensures
        url@ == websocket_address(host@, port),
{
    let mut url = "ws://".to_owned();
    url.append(host);
    url.append(":");
    append_decimal(&mut url, port as u64);
    url
}

/// Where the loop that watches the websocket stands.
#[derive(Clone, Copy, Debug, PartialEq, Eq, Structural)]
pub enum ReceiverPhase {
    /// No websocket is being watched yet.
    Idle,
    /// A websocket was found; the loop waits for it to open.
    AwaitingOpen,
    /// The websocket is open; the loop receives its messages.
    Receiving,
}

/// What the watching loop does next.
#[derive(Clone, Copy, Debug, PartialEq, Eq, Structural)]
pub enum ReceiverAction {
    /// Sleep this many milliseconds, then look again.
    Pause(u64),
    /// Look again at once.
    Proceed,
    /// Receive one message from the websocket and log it.
    Receive,
    /// Log that the websocket was disconnected.
    ReportDisconnected,
}

/// One step of the watching loop: from `phase`, having seen whether a
/// websocket is set up (`has_socket`, looked at only when idle) and whether
/// the watched one is open, the next phase and what to do.
pub open spec fn receiver_next(phase: ReceiverPhase, has_socket: bool, is_open: bool) -> (
    ReceiverPhase,
    ReceiverAction,
) {
    match phase {
        ReceiverPhase::Idle => {
            if !has_socket {
                (ReceiverPhase::Idle, ReceiverAction::Pause(100))
            } else if !is_open {
                (ReceiverPhase::AwaitingOpen, ReceiverAction::Pause(100))
            } else {
                (ReceiverPhase::Receiving, ReceiverAction::Proceed)
            }
        },
        ReceiverPhase::AwaitingOpen => {
            if !is_open {
                (ReceiverPhase::AwaitingOpen, ReceiverAction::Pause(100))
            } else {
                (ReceiverPhase::Receiving, ReceiverAction::Proceed)
            }
        },
        ReceiverPhase::Receiving => {
            if !is_open {
                (ReceiverPhase::Idle, ReceiverAction::ReportDisconnected)
            } else {
                (ReceiverPhase::Receiving, ReceiverAction::Receive)
            }
        },
    }
}

/// Law: the watching loop never receives from a closed websocket, always
/// waits 100 ms when it pauses, leaves the idle phase only once a websocket
/// is set up, moves on as soon as the watched websocket is open, and goes
/// back to idle (reporting it) exactly when the one it received from closes.
pub proof fn law_receiver_behaviour(phase: ReceiverPhase, has_socket: bool, is_open: bool)
    ensures
        !is_open ==> receiver_next(phase, has_socket, is_open).1 != ReceiverAction::Receive,
        receiver_next(phase, has_socket, is_open).1 is Pause ==> receiver_next(phase, has_socket, is_open).1
            == ReceiverAction::Pause(100),
        phase == ReceiverPhase::Idle && !has_socket ==> receiver_next(phase, has_socket, is_open) == (
            ReceiverPhase::Idle,
            ReceiverAction::Pause(100),
        ),
        phase != ReceiverPhase::Receiving && (has_socket || phase == ReceiverPhase::AwaitingOpen)
            && is_open ==> receiver_next(phase, has_socket, is_open).0 == ReceiverPhase::Receiving,
        phase != ReceiverPhase::Receiving && (has_socket || phase == ReceiverPhase::AwaitingOpen)
            && !is_open ==> receiver_next(phase, has_socket, is_open) == (
            ReceiverPhase::AwaitingOpen,
            ReceiverAction::Pause(100),
        ),
        phase == ReceiverPhase::Receiving && is_open ==> receiver_next(phase, has_socket, is_open) == (
            ReceiverPhase::Receiving,
            ReceiverAction::Receive,
        ),
        phase == ReceiverPhase::Receiving && !is_open ==> receiver_next(phase, has_socket, is_open) == (
            ReceiverPhase::Idle,
            ReceiverAction::ReportDisconnected,
        ),
        receiver_next(phase, has_socket, is_open).1 == ReceiverAction::ReportDisconnected <==> (phase
            == ReceiverPhase::Receiving && !is_open),
{
}

/// One step of the loop that watches the websocket for incoming messages.
/// A message is received only from a websocket just seen open, and a
/// disconnection is reported only for a websocket that was being received
/// from and is now seen closed.
pub fn receiver_step(phase: ReceiverPhase, has_socket: bool, is_open: bool) -> (r: (
    ReceiverPhase,
    ReceiverAction,
))
    ensures
        r == receiver_next(phase, has_socket, is_open),
        r.1 == ReceiverAction::Receive ==> is_open && phase == ReceiverPhase::Receiving,
        r.1 == ReceiverAction::ReportDisconnected ==> !is_open && phase == ReceiverPhase::Receiving,
{
    match phase {
        ReceiverPhase::Idle => {
            if !has_socket {
                (ReceiverPhase::Idle, ReceiverAction::Pause(100))
            } else if !is_open {
                (ReceiverPhase::AwaitingOpen, ReceiverAction::Pause(100))
            } else {
                (ReceiverPhase::Receiving, ReceiverAction::Proceed)
            }
        },
        ReceiverPhase::AwaitingOpen => {
            if !is_open {
                (ReceiverPhase::AwaitingOpen, ReceiverAction::Pause(100))
            } else {
                (ReceiverPhase::Receiving, ReceiverAction::Proceed)
            }
        },
        ReceiverPhase::Receiving => {
            if !is_open {
                (ReceiverPhase::Idle, ReceiverAction::ReportDisconnected)
            } else {
                (ReceiverPhase::Receiving, ReceiverAction::Receive)
            }
        },
    }
}

} // verus!

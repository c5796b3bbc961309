use termbridge::port::PortError;
use termbridge::terminal::{
    complete, completions_for, help_lines, interpret, receiver_step, respond, websocket_url,
    CliAction, ReceiverAction, ReceiverPhase,
};

fn words(ws: &[&str]) -> Vec<String> {
    ws.iter().map(|w| w.to_string()).collect()
}

fn expected_help() -> Vec<String> {
    let commands = vec![
        "help - this list",
        "hello - simple text output",
        "test - log_trace!() macro output",
        "history - list command history",
        "sleep - sleep for 5 seconds",
        "ask - ask user for text input (with echo)",
        "pass - ask user for password text input (no echo)",
        "connect <ip> <port> - connect to a websocket server",
        "disconnect - disconnect from websocket server",
        "send <message> - send a message to the websocket connection",
        "exit - exit terminal",
    ];
    vec![
        "\n\rCommands:\n\r".to_string(),
        "\t".to_string() + &commands.join("\n\r\t") + "\n\r",
    ]
}

#[test]
fn help_writes_heading_and_command_list() {
    assert_eq!(help_lines(), expected_help());
    assert_eq!(interpret("help", false), Ok(CliAction::WriteLines(expected_help())));
}

#[test]
fn surrounding_whitespace_is_ignored() {
    assert_eq!(interpret("  \t help  ", true), Ok(CliAction::WriteLines(expected_help())));
}

#[test]
fn hello_answers() {
    assert_eq!(
        interpret("hello", false),
        Ok(CliAction::WriteLines(vec!["hello back to you!".to_string()]))
    );
}

#[test]
fn simple_commands() {
    assert_eq!(interpret("history", false), Ok(CliAction::ShowHistory));
    assert_eq!(
        interpret("test", false),
        Ok(CliAction::Trace("log_trace!() macro test".to_string()))
    );
    assert_eq!(interpret("sleep", false), Ok(CliAction::Pause(5000)));
    assert_eq!(
        interpret("ask", false),
        Ok(CliAction::Ask { secret: false, prompt: "Enter something:".to_string() })
    );
    assert_eq!(
        interpret("pass", false),
        Ok(CliAction::Ask { secret: true, prompt: "Enter something:".to_string() })
    );
    assert_eq!(interpret("disconnect", true), Ok(CliAction::Disconnect));
    assert_eq!(interpret("exit", false), Ok(CliAction::Exit("bye!".to_string())));
}

#[test]
fn unknown_command_is_refused_with_the_whole_line() {
    assert_eq!(interpret("foo  bar", false), Err("command not found: foo  bar".to_string()));
    assert_eq!(interpret("HELP", false), Err("command not found: HELP".to_string()));
}

#[test]
fn empty_line_is_refused() {
    assert_eq!(interpret("", false), Err("command not found: ".to_string()));
    assert_eq!(interpret("   ", false), Err("command not found:    ".to_string()));
}

#[test]
fn connect_reads_host_and_port() {
    assert_eq!(
        interpret("connect 127.0.0.1 9090", false),
        Ok(CliAction::Connect { host: "127.0.0.1".to_string(), port: Ok(9090) })
    );
    assert_eq!(
        interpret("connect localhost +80 extra", true),
        Ok(CliAction::Connect { host: "localhost".to_string(), port: Ok(80) })
    );
}

#[test]
fn connect_with_bad_port_reports_the_parse_error() {
    assert_eq!(
        interpret("connect host port", false),
        Ok(CliAction::Connect { host: "host".to_string(), port: Err(PortError::InvalidDigit) })
    );
    assert_eq!(
        interpret("connect host 70000", false),
        Ok(CliAction::Connect { host: "host".to_string(), port: Err(PortError::PosOverflow) })
    );
}

#[test]
fn connect_without_arguments_reports_an_error() {
    assert_eq!(
        interpret("connect 127.0.0.1", false),
        Ok(CliAction::ReportError("Please specify an ip and port to connect to".to_string()))
    );
}

#[test]
fn send_joins_words_with_single_spaces() {
    assert_eq!(
        interpret("send hello   there\tworld", true),
        Ok(CliAction::Send("hello there world".to_string()))
    );
}

#[test]
fn send_without_socket_reports_an_error_first() {
    assert_eq!(
        interpret("send", false),
        Ok(CliAction::ReportError("No websocket connection".to_string()))
    );
    assert_eq!(
        interpret("send hi", false),
        Ok(CliAction::ReportError("No websocket connection".to_string()))
    );
}

#[test]
fn send_without_message_reports_an_error() {
    assert_eq!(
        interpret("send", true),
        Ok(CliAction::ReportError("Please specify a message to send".to_string()))
    );
}

#[test]
fn respond_uses_given_words() {
    assert_eq!(
        respond(&words(&["send", "a", "b"]), "send a b", true),
        Ok(CliAction::Send("a b".to_string()))
    );
    assert_eq!(respond(&words(&["nope"]), "nope", true), Err("command not found: nope".to_string()));
}

#[test]
fn completion_offers_fixed_words_after_a() {
    let offered = Some(vec!["alpha".to_string(), "aloha".to_string(), "albatross".to_string()]);
    assert_eq!(complete("al"), offered);
    assert_eq!(complete("send a"), offered);
    assert_eq!(complete("a   "), offered);
    assert_eq!(complete("b"), None);
    assert_eq!(complete(""), None);
    assert_eq!(complete("abc bcd"), None);
    assert_eq!(completions_for(&Vec::new()), None);
}

#[test]
fn websocket_url_formats_host_and_port() {
    assert_eq!(websocket_url("127.0.0.1", 9090), "ws://127.0.0.1:9090");
    assert_eq!(websocket_url("example.org", 0), "ws://example.org:0");
    assert_eq!(websocket_url("h", 65535), "ws://h:65535");
}

#[test]
fn receiver_waits_for_a_socket() {
    assert_eq!(
        receiver_step(ReceiverPhase::Idle, false, false),
        (ReceiverPhase::Idle, ReceiverAction::Pause(100))
    );
    assert_eq!(
        receiver_step(ReceiverPhase::Idle, true, false),
        (ReceiverPhase::AwaitingOpen, ReceiverAction::Pause(100))
    );
    assert_eq!(
        receiver_step(ReceiverPhase::AwaitingOpen, true, false),
        (ReceiverPhase::AwaitingOpen, ReceiverAction::Pause(100))
    );
    assert_eq!(
        receiver_step(ReceiverPhase::AwaitingOpen, true, true),
        (ReceiverPhase::Receiving, ReceiverAction::Proceed)
    );
    assert_eq!(
        receiver_step(ReceiverPhase::Idle, true, true),
        (ReceiverPhase::Receiving, ReceiverAction::Proceed)
    );
}

#[test]
fn receiver_receives_until_closed() {
    assert_eq!(
        receiver_step(ReceiverPhase::Receiving, true, true),
        (ReceiverPhase::Receiving, ReceiverAction::Receive)
    );
    assert_eq!(
        receiver_step(ReceiverPhase::Receiving, true, false),
        (ReceiverPhase::Idle, ReceiverAction::ReportDisconnected)
    );
}

#[test]
fn every_command_in_help_is_accepted() {
    let listing = &help_lines()[1];
    let mut count = 0;
    for entry in listing.trim().split("\n\r\t") {
        let verb = entry.split(' ').next().unwrap();
        assert!(interpret(verb, true).is_ok(), "verb {:?}", verb);
        count += 1;
    }
    assert_eq!(count, 11);
}

#[test]
fn sent_text_splits_back_into_the_typed_words() {
    let sent = match interpret("send  one two\u{3000}three ", true) {
        Ok(CliAction::Send(text)) => text,
        other => panic!("unexpected {:?}", other),
    };
    assert_eq!(sent, "one two three");
    assert_eq!(
        interpret(&format!("send {}", sent), true),
        Ok(CliAction::Send("one two three".to_string()))
    );
}

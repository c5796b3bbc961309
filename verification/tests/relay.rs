use termbridge::bridge::{bridge_step, BridgeAction, BridgeEvent, WsMessage};
use termbridge::ssh::{ChannelEvent, CommandResult};

#[test]
fn command_result_collects_output_and_status() {
    let mut r = CommandResult::new();
    assert_eq!(r.code, None);
    assert!(!r.success());
    r.record(ChannelEvent::Data(b"hel".to_vec()));
    r.record(ChannelEvent::Other);
    r.record(ChannelEvent::Data(b"lo\n".to_vec()));
    r.record(ChannelEvent::ExitStatus(3));
    assert_eq!(r.output, b"hello\n".to_vec());
    assert_eq!(r.code, Some(3));
    assert!(!r.success());
    r.record(ChannelEvent::ExitStatus(0));
    assert!(r.success());
    assert_eq!(r.output(), "hello\n");
}

#[test]
fn command_result_output_replaces_invalid_utf8() {
    let r = CommandResult { output: vec![b'o', b'k', 0xff, b'!'], code: Some(1) };
    assert_eq!(r.output(), "ok\u{fffd}!");
    let r = CommandResult { output: "héllo".as_bytes().to_vec(), code: None };
    assert_eq!(r.output(), "héllo");
}

#[test]
fn text_from_client_runs_on_shell() {
    assert_eq!(
        bridge_step(BridgeEvent::FromClient(WsMessage::Text("ls -l".to_string()))),
        BridgeAction::RunOnShell("ls -l".to_string())
    );
}

#[test]
fn binary_from_client_runs_as_text() {
    assert_eq!(
        bridge_step(BridgeEvent::FromClient(WsMessage::Binary(b"whoami".to_vec()))),
        BridgeAction::RunOnShell("whoami".to_string())
    );
    assert_eq!(
        bridge_step(BridgeEvent::FromClient(WsMessage::Binary(vec![0, 1, 3, 4, 241]))),
        BridgeAction::RunOnShell("Binary Data<length=5>".to_string())
    );
}

#[test]
fn control_messages_from_client_are_ignored() {
    assert_eq!(bridge_step(BridgeEvent::FromClient(WsMessage::Ping(vec![1]))), BridgeAction::Ignore);
    assert_eq!(bridge_step(BridgeEvent::FromClient(WsMessage::Pong(vec![]))), BridgeAction::Ignore);
    assert_eq!(bridge_step(BridgeEvent::FromClient(WsMessage::Close)), BridgeAction::Ignore);
}

#[test]
fn client_error_closes() {
    assert_eq!(bridge_step(BridgeEvent::ClientError), BridgeAction::Close);
}

#[test]
fn shell_data_goes_to_client_unchanged() {
    assert_eq!(
        bridge_step(BridgeEvent::FromShell(ChannelEvent::Data(vec![0xff, 0, 65]))),
        BridgeAction::SendToClient(vec![0xff, 0, 65])
    );
    assert_eq!(bridge_step(BridgeEvent::FromShell(ChannelEvent::ExitStatus(0))), BridgeAction::Ignore);
    assert_eq!(bridge_step(BridgeEvent::FromShell(ChannelEvent::Other)), BridgeAction::Ignore);
    assert_eq!(bridge_step(BridgeEvent::ShellQuiet), BridgeAction::Ignore);
}

#[test]
fn failed_channel_is_reported_to_client() {
    assert_eq!(
        bridge_step(BridgeEvent::ChannelOpenFailed),
        BridgeAction::NotifyAndClose("SSH connection error".to_string())
    );
}

//! The relay between a websocket client and an SSH channel: text and binary
//! messages from the client are run as commands on the channel, and data the
//! channel delivers goes back to the client.
use vstd::prelude::*;
use vstd::utf8::{decode_utf8, valid_utf8};
use crate::port::decimal;
use crate::ssh::ChannelEvent;
use tokio_tungstenite::tungstenite::Message;

verus! {

/// A websocket message.
#[derive(Debug, PartialEq, Eq)]
pub enum WsMessage {
    Text(String),
    Binary(Vec<u8>),
    Ping(Vec<u8>),
    Pong(Vec<u8>),
    Close,
}

/// What the relay learns next.
#[derive(Debug, PartialEq, Eq)]
pub enum BridgeEvent {
    /// The SSH channel could not be opened.
    ChannelOpenFailed,
    /// The client sent a message.
    FromClient(WsMessage),
    /// Reading from the client failed.
    ClientError,
    /// The SSH channel delivered a message.
    FromShell(ChannelEvent),
    /// Waiting on the SSH channel gave nothing.
    ShellQuiet,
}

/// What the relay does next.
#[derive(Debug, PartialEq, Eq)]
pub enum BridgeAction {
    /// Send this text to the client, then end the connection.
    NotifyAndClose(String),
    /// Run this command on the SSH channel.
    RunOnShell(String),
    /// Send these bytes to the client as a binary message.
    SendToClient(Vec<u8>),
    /// End the connection.
    Close,
    /// Nothing to do but log.
    Ignore,
}

/// The mathematical value of a `BridgeAction`.
pub enum BridgeActionModel {
    NotifyAndClose(Seq<char>),
    RunOnShell(Seq<char>),
    SendToClient(Seq<u8>),
    Close,
    Ignore,
}

impl View for BridgeAction {
    type V = BridgeActionModel;

    open spec fn view(&self) -> BridgeActionModel {
        match self {
            BridgeAction::NotifyAndClose(t) => BridgeActionModel::NotifyAndClose(t@),
            BridgeAction::RunOnShell(t) => BridgeActionModel::RunOnShell(t@),
            BridgeAction::SendToClient(b) => BridgeActionModel::SendToClient(b@),
            BridgeAction::Close => BridgeActionModel::Close,
            BridgeAction::Ignore => BridgeActionModel::Ignore,
        }
    }
}

/// How a binary websocket message reads as text: its bytes decoded, where
/// they are valid UTF-8, else a note of its length.
pub open spec fn binary_as_text(data: Seq<u8>) -> Seq<char> {
    if valid_utf8(data) {
        decode_utf8(data)
    } else {
        "Binary Data<length="@ + decimal(data.len()) + ">"@
    }
}

/// Renders a text or binary message as text, through the `Display` of
/// `tungstenite::Message`: a text message is its text; a binary message is
/// its bytes read as UTF-8 (`str::from_utf8`), or, where that fails,
/// `Binary Data<length=N>` with `N` the number of bytes.
#[verifier::external_body]
fn render_message(msg: &WsMessage) -> (s: String)
    requires
        msg is Text || msg is Binary,
    ensures
        msg matches WsMessage::Text(t) ==> s@ == t@,
        msg matches WsMessage::Binary(b) ==> s@ == binary_as_text(b@),
{
    let m = match msg {
        WsMessage::Text(t) => Message::Text(t.clone()),
        WsMessage::Binary(b) => Message::Binary(b.clone()),
        WsMessage::Ping(b) => Message::Ping(b.clone()),
        WsMessage::Pong(b) => Message::Pong(b.clone()),
        WsMessage::Close => Message::Close(None),
    };
    m.to_string()
}

/// What the relay does on `event`.
pub open spec fn bridge_response(event: BridgeEvent) -> BridgeActionModel {
    match event {
        BridgeEvent::ChannelOpenFailed => BridgeActionModel::NotifyAndClose("SSH connection error"@),
        BridgeEvent::FromClient(WsMessage::Text(t)) => BridgeActionModel::RunOnShell(t@),
        BridgeEvent::FromClient(WsMessage::Binary(b)) => BridgeActionModel::RunOnShell(
            binary_as_text(b@),
        ),
        BridgeEvent::FromClient(_) => BridgeActionModel::Ignore,
        BridgeEvent::ClientError => BridgeActionModel::Close,
        BridgeEvent::FromShell(ChannelEvent::Data(d)) => BridgeActionModel::SendToClient(d@),
        BridgeEvent::FromShell(_) => BridgeActionModel::Ignore,
        BridgeEvent::ShellQuiet => BridgeActionModel::Ignore,
    }
}

/// Law: data from the shell goes to the client as exactly the same bytes,
/// in the same order.
pub proof fn law_shell_data_unchanged(d: Vec<u8>)
    ensures
        bridge_response(BridgeEvent::FromShell(ChannelEvent::Data(d))) matches BridgeActionModel::SendToClient(b)
            && b.len() == d@.len() && (forall|i: int| 0 <= i < b.len() ==> b[i] == d@[i]),
{
}

/// Law: every shell message other than data, whatever its exit status, and
/// an empty wait on the shell are only logged; the connection stays open.
pub proof fn law_shell_non_data_ignored(status: u32)
    ensures
        bridge_response(BridgeEvent::FromShell(ChannelEvent::ExitStatus(status)))
            == BridgeActionModel::Ignore,
        bridge_response(BridgeEvent::FromShell(ChannelEvent::Other)) == BridgeActionModel::Ignore,
        bridge_response(BridgeEvent::ShellQuiet) == BridgeActionModel::Ignore,
{
}

/// Law: the connection ends only on a client read error (silently) or when
/// the SSH channel could not be opened (with the notice
/// `SSH connection error`).
pub proof fn law_only_failures_close(event: BridgeEvent)
    ensures
        bridge_response(event) is Close <==> event is ClientError,
        bridge_response(event) is NotifyAndClose <==> event is ChannelOpenFailed,
        event is ChannelOpenFailed ==> bridge_response(event) == BridgeActionModel::NotifyAndClose(
            "SSH connection error"@,
        ),
{
}

/// Law: a text message from the client is run on the shell exactly as it
/// was typed.
pub proof fn law_client_text_runs_unchanged(t: String)
    ensures
        bridge_response(BridgeEvent::FromClient(WsMessage::Text(t))) == BridgeActionModel::RunOnShell(t@),
{
}

/// Law: a binary message from the client is run on the shell as the text
/// its bytes encode where they are valid UTF-8, else as a note of its
/// length; ping, pong and close messages are only logged.
pub proof fn law_client_binary_and_control(b: Vec<u8>)
    ensures
        valid_utf8(b@) ==> bridge_response(BridgeEvent::FromClient(WsMessage::Binary(b)))
            == BridgeActionModel::RunOnShell(decode_utf8(b@)),
        !valid_utf8(b@) ==> bridge_response(BridgeEvent::FromClient(WsMessage::Binary(b)))
            == BridgeActionModel::RunOnShell("Binary Data<length="@ + decimal(b@.len()) + ">"@),
        bridge_response(BridgeEvent::FromClient(WsMessage::Ping(b))) == BridgeActionModel::Ignore,
        bridge_response(BridgeEvent::FromClient(WsMessage::Pong(b))) == BridgeActionModel::Ignore,
        bridge_response(BridgeEvent::FromClient(WsMessage::Close)) == BridgeActionModel::Ignore,
{
}

/// One step of the relay. Text and binary messages from the client are run
/// on the shell as text, other client messages are ignored, a client error
/// ends the connection; data from the shell goes to the client unchanged.
pub fn bridge_step(event: BridgeEvent) -> (a: BridgeAction)
    ensures
        a@ == bridge_response(event),
{
    match event {
        BridgeEvent::ChannelOpenFailed => BridgeAction::NotifyAndClose(
            "SSH connection error".to_owned(),
        ),
        BridgeEvent::FromClient(msg) => {
            if matches!(msg, WsMessage::Text(_)) || matches!(msg, WsMessage::Binary(_)) {
                BridgeAction::RunOnShell(render_message(&msg))
            } else {
                BridgeAction::Ignore
            }
        },
        BridgeEvent::ClientError => BridgeAction::Close,
        BridgeEvent::FromShell(ChannelEvent::Data(d)) => BridgeAction::SendToClient(d),
        BridgeEvent::FromShell(_) => BridgeAction::Ignore,
        BridgeEvent::ShellQuiet => BridgeAction::Ignore,
    }
}

} // verus!

//! The decisions of the reactor tasks. Each task waits on the network and
//! on its channel from the host; what it does with each thing it receives
//! is decided here, and the task carries it out.
use vstd::prelude::*;
use vstd::slice::slice_to_vec;
use vstd::utf8::encode_utf8;

use crate::socket::PollnetMessage;

verus! {

/// The kinds of socket a host can open.
#[derive(Clone, Copy, Debug, PartialEq, Eq, Structural)]
pub enum SocketKind {
    WsClient,
    WsServer,
    TcpClient,
    TcpServer,
    StaticHttp,
    DynamicHttp,
    HttpGet,
    HttpPost,
}

/// What a stream task tells the host, and whether it stops afterwards.
pub struct Report {
    pub message: Option<PollnetMessage>,
    pub stop: bool,
}

/// What a TCP stream task does with a message from the host.
pub enum StreamCommand {
    /// Write these bytes to the stream.
    Write(Vec<u8>),
    /// Stop and close the stream.
    Close,
    /// Nothing.
    Ignore,
}

/// The command for a message from the host to a TCP stream: text and
/// binary data are written, a disconnect or a closed channel closes, the
/// rest is ignored.
pub fn tcp_command(msg: Option<PollnetMessage>) -> (cmd: StreamCommand)
    ensures
        match msg {
            Some(PollnetMessage::Text(t)) => cmd matches StreamCommand::Write(b) && b@ == encode_utf8(t@),
            Some(PollnetMessage::Binary(d)) => cmd matches StreamCommand::Write(b) && b@ == d@,
            Some(PollnetMessage::Disconnect) => cmd is Close,
            None => cmd is Close,
            _ => cmd is Ignore,
        },
{
    match msg {
        Some(PollnetMessage::Text(t)) => StreamCommand::Write(slice_to_vec(t.as_str().as_bytes())),
        Some(PollnetMessage::Binary(d)) => StreamCommand::Write(d),
        Some(PollnetMessage::Disconnect) | None => StreamCommand::Close,
        _ => StreamCommand::Ignore,
    }
}

/// What a WebSocket task does with a message from the host.
pub enum WsCommand {
    SendText(String),
    SendBinary(Vec<u8>),
    Close,
    Ignore,
}

/// The command for a message from the host to a WebSocket: text goes out
/// as a text frame, binary data as a binary frame; a disconnect or a closed
/// channel closes; the rest is ignored.
pub fn ws_command(msg: Option<PollnetMessage>) -> (cmd: WsCommand)
    ensures
        match msg {
            Some(PollnetMessage::Text(t)) => cmd matches WsCommand::SendText(x) && x@ == t@,
            Some(PollnetMessage::Binary(d)) => cmd matches WsCommand::SendBinary(x) && x@ == d@,
            Some(PollnetMessage::Disconnect) => cmd is Close,
            None => cmd is Close,
            _ => cmd is Ignore,
        },
{
    match msg {
        Some(PollnetMessage::Text(t)) => WsCommand::SendText(t),
        Some(PollnetMessage::Binary(d)) => WsCommand::SendBinary(d),
        Some(PollnetMessage::Disconnect) | None => WsCommand::Close,
        _ => WsCommand::Ignore,
    }
}

/// The outcome of one read from a TCP stream.
pub enum TcpRead {
    /// Zero bytes: the peer closed the stream.
    Closed,
    /// Some bytes.
    Data(Vec<u8>),
    /// Nothing to read after all.
    WouldBlock,
    /// A read error, as text.
    Failed(String),
}

/// What a TCP stream task reports after a read: the bytes it read; a
/// disconnect when the peer closed (and it stops); an error (and it stops);
/// nothing when the read would block.
pub fn tcp_read_report(r: TcpRead) -> (rep: Report)
    ensures
        match r {
            TcpRead::Closed => rep.stop && rep.message matches Some(PollnetMessage::Disconnect),
            TcpRead::Data(d) => !rep.stop && (rep.message matches Some(PollnetMessage::Binary(b)) && b@
                == d@),
            TcpRead::WouldBlock => !rep.stop && rep.message is None,
            TcpRead::Failed(e) => rep.stop && (rep.message matches Some(PollnetMessage::Error(x)) && x@
                == e@),
        },
{
    match r {
        TcpRead::Closed => Report { message: Some(PollnetMessage::Disconnect), stop: true },
        TcpRead::Data(d) => Report { message: Some(PollnetMessage::Binary(d)), stop: false },
        TcpRead::WouldBlock => Report { message: None, stop: false },
        TcpRead::Failed(e) => Report { message: Some(PollnetMessage::Error(e)), stop: true },
    }
}

/// What arrived from a WebSocket peer.
pub enum WsIncoming {
    /// A message, as its payload bytes.
    Message(Vec<u8>),
    /// A protocol or transport error, as text.
    Failed(String),
    /// The stream ended.
    Ended,
}

/// What a WebSocket task reports for what arrived: the payload as binary
/// data; an error (and it stops); a disconnect when the stream ended (and it
/// stops).
pub fn ws_incoming_report(x: WsIncoming) -> (rep: Report)
    ensures
        match x {
            WsIncoming::Message(d) => !rep.stop && (rep.message matches Some(PollnetMessage::Binary(b))
                && b@ == d@),
            WsIncoming::Failed(e) => rep.stop && (rep.message matches Some(PollnetMessage::Error(m))
                && m@ == e@),
            WsIncoming::Ended => rep.stop && rep.message matches Some(PollnetMessage::Disconnect),
        },
{
    match x {
        WsIncoming::Message(d) => Report { message: Some(PollnetMessage::Binary(d)), stop: false },
        WsIncoming::Failed(e) => Report { message: Some(PollnetMessage::Error(e)), stop: true },
        WsIncoming::Ended => Report { message: Some(PollnetMessage::Disconnect), stop: true },
    }
}

/// What a stream task reports when writing to its peer failed: the error,
/// and it stops.
pub fn write_failure_report(err: String) -> (rep: Report)
    ensures
        rep.stop,
        rep.message matches Some(PollnetMessage::Error(m)) && m@ == err@,
{
    Report { message: Some(PollnetMessage::Error(err)), stop: true }
}

/// Whether a socket of this kind tells the host it is connected once its
/// stream is up or its listener is bound. HTTP sockets never do.
pub open spec fn announces_connect(kind: SocketKind) -> bool {
    match kind {
        SocketKind::WsClient | SocketKind::WsServer | SocketKind::TcpClient | SocketKind::TcpServer => true,
        _ => false,
    }
}

/// The message a task sends once its connection is up or its listener is
/// bound, if its kind sends one.
pub fn connect_message(kind: SocketKind) -> (msg: Option<PollnetMessage>)
    ensures
        announces_connect(kind) ==> msg matches Some(PollnetMessage::Connect),
        !announces_connect(kind) ==> msg is None,
{
    match kind {
        SocketKind::WsClient | SocketKind::WsServer | SocketKind::TcpClient | SocketKind::TcpServer => Some(
            PollnetMessage::Connect,
        ),
        _ => None,
    }
}

/// Whether a listener or request task keeps running after a message from
/// the host. A TCP listener and an HTTP request stop on a disconnect or a
/// closed channel; a WebSocket listener keeps running only for text; an
/// HTTP server also stops on an error message.
pub open spec fn task_continues(kind: SocketKind, msg: Option<PollnetMessage>) -> bool {
    match kind {
        SocketKind::WsServer => msg matches Some(PollnetMessage::Text(_)),
        SocketKind::StaticHttp | SocketKind::DynamicHttp => match msg {
            Some(PollnetMessage::Disconnect) | Some(PollnetMessage::Error(_)) | None => false,
            _ => true,
        },
        _ => match msg {
            Some(PollnetMessage::Disconnect) | None => false,
            _ => true,
        },
    }
}

/// Decides whether a listener or request task keeps running after a
/// message from the host.
pub fn control_continues(kind: SocketKind, msg: &Option<PollnetMessage>) -> (running: bool)
    ensures
        running == task_continues(kind, *msg),
{
    match kind {
        SocketKind::WsServer => match msg {
            Some(PollnetMessage::Text(_)) => true,
            _ => false,
        },
        SocketKind::StaticHttp | SocketKind::DynamicHttp => match msg {
            Some(PollnetMessage::Disconnect) | Some(PollnetMessage::Error(_)) | None => false,
            _ => true,
        },
        _ => match msg {
            Some(PollnetMessage::Disconnect) | None => false,
            _ => true,
        },
    }
}

/// What a listener or server reports when binding its address failed: the
/// error, and it stops.
pub fn bind_failure_report(err: String) -> (rep: Report)
    ensures
        rep.stop,
        rep.message matches Some(PollnetMessage::Error(m)) && m@ == err@,
{
    Report { message: Some(PollnetMessage::Error(err)), stop: true }
}

/// What a listener reports when accepting a client failed: a WebSocket
/// listener reports the error and stops; the others go on silently.
pub fn accept_failure_report(kind: SocketKind, err: String) -> (rep: Report)
    ensures
        kind is WsServer ==> rep.stop && (rep.message matches Some(PollnetMessage::Error(m)) && m@
            == err@),
        !(kind is WsServer) ==> !rep.stop && rep.message is None,
{
    match kind {
        SocketKind::WsServer => Report { message: Some(PollnetMessage::Error(err)), stop: true },
        _ => Report { message: None, stop: false },
    }
}

} // verus!

//! What can go wrong, and how it is told.
use vstd::prelude::*;

verus! {

/// Every way in which the protocol itself gives up. What the operating system refuses is not
/// among them.
#[derive(Clone, Copy, Debug, PartialEq, Eq, Structural)]
pub enum Failure {
    /// A client was to be made without any server.
    NoServers,
    /// The name of a server stands for no address (TCP).
    ResolveFailed,
    /// The name of a server stands for no address (UDP).
    NoAddress,
    /// A server answered a connection request with something else than a redirect.
    InvalidResponse,
    /// A server redirected to something that is no address.
    TargetIdNotFound,
    /// Bytes that are no message.
    InvalidMessage,
    /// A frame that is longer than a server takes.
    InvalidSize,
    /// A frame that holds no request.
    InvalidRequest,
    /// A server asked to open the way to something that is no address.
    InvalidFsyncAddr,
    /// A connection was to be accepted by a client that does not listen.
    NotListening,
    /// A client was shut down while it waited for a connection.
    Exit,
    /// A server does not know the wanted peer.
    TargetNotFound,
    /// The server of a [`crate::client::Client`] does not know the wanted peer.
    UnknownTarget,
    /// No server answered.
    NoResponse,
    /// A peer took its leave.
    ByeReceived,
    /// A request without a command that the server knows.
    UnknownCommand,
    /// The requests for a connection have ended.
    HandlerClosed,
    /// The requests of a connection are no longer taken.
    QueueClosed,
    /// No request could be read.
    ReadFailed,
    /// Nothing came for too long.
    TimedOut,
    /// No connection came about.
    NotConnected,
}

impl Failure {
    /// The failure in words.
    pub open spec fn text(self) -> Seq<char> {
        match self {
            Failure::NoServers => "No server addresses provided"@,
            Failure::ResolveFailed => "server name resolve fail"@,
            Failure::NoAddress => "No address found"@,
            Failure::InvalidResponse => "invalid server response"@,
            Failure::TargetIdNotFound => "target id not found"@,
            Failure::InvalidMessage => "invalid message"@,
            Failure::InvalidSize => "invalid message size"@,
            Failure::InvalidRequest => "failed to parse request"@,
            Failure::InvalidFsyncAddr => "invalid fsync addr"@,
            Failure::NotListening => "not listening"@,
            Failure::Exit => "exit"@,
            Failure::TargetNotFound => "Target not found"@,
            Failure::UnknownTarget => "target not found"@,
            Failure::NoResponse => "No response from any server"@,
            Failure::ByeReceived => "received bye command"@,
            Failure::UnknownCommand => "unknown command received"@,
            Failure::HandlerClosed => "cmd handler channel closed"@,
            Failure::QueueClosed => "mpsc channel closed"@,
            Failure::ReadFailed => "timeout reading request"@,
            Failure::TimedOut => "timed out"@,
            Failure::NotConnected => "not connected"@,
        }
    }

    /// The failure in words.
    pub fn message(self) -> (r: &'static str)
        ensures
            r@ == self.text(),
    {
        match self {
            Failure::NoServers => "No server addresses provided",
            Failure::ResolveFailed => "server name resolve fail",
            Failure::NoAddress => "No address found",
            Failure::InvalidResponse => "invalid server response",
            Failure::TargetIdNotFound => "target id not found",
            Failure::InvalidMessage => "invalid message",
            Failure::InvalidSize => "invalid message size",
            Failure::InvalidRequest => "failed to parse request",
            Failure::InvalidFsyncAddr => "invalid fsync addr",
            Failure::NotListening => "not listening",
            Failure::Exit => "exit",
            Failure::TargetNotFound => "Target not found",
            Failure::UnknownTarget => "target not found",
            Failure::NoResponse => "No response from any server",
            Failure::ByeReceived => "received bye command",
            Failure::UnknownCommand => "unknown command received",
            Failure::HandlerClosed => "cmd handler channel closed",
            Failure::QueueClosed => "mpsc channel closed",
            Failure::ReadFailed => "timeout reading request",
            Failure::TimedOut => "timed out",
            Failure::NotConnected => "not connected",
        }
    }
}

} // verus!

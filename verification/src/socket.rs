//! The per-socket state kept by a context, and the messages that flow
//! between the host and the reactor tasks.
use vstd::prelude::*;

use crate::handle::SocketHandle;

verus! {

/// Why a receive from a reactor channel produced no message.
#[derive(Debug, Clone, Copy, PartialEq, Eq, Structural)]
pub enum RecvError {
    /// Nothing is waiting right now.
    Empty,
    /// The reactor side of the channel is gone.
    Disconnected,
}

/// What one poll of a socket produced.
#[derive(Clone, Copy, Debug, PartialEq, Eq, Structural)]
pub enum SocketResult {
    InvalidHandle,
    Closed,
    Opening,
    NoData,
    HasData,
    Error,
    NewClient,
}

/// The lifecycle state of a socket.
#[derive(Clone, Copy, Debug, PartialEq, Eq, Structural)]
pub enum SocketStatus {
    InvalidHandle,
    Closed,
    Open,
    Opening,
    Error,
}

/// The number that the C interface uses for a poll result.
pub open spec fn socket_result_code(r: SocketResult) -> u32 {
    match r {
        SocketResult::InvalidHandle => 0,
        SocketResult::Closed => 1,
        SocketResult::Opening => 2,
        SocketResult::NoData => 3,
        SocketResult::HasData => 4,
        SocketResult::Error => 5,
        SocketResult::NewClient => 6,
    }
}

/// The number that the C interface uses for a status.
pub open spec fn socket_status_code(s: SocketStatus) -> u32 {
    match s {
        SocketStatus::InvalidHandle => 0,
        SocketStatus::Closed => 1,
        SocketStatus::Open => 2,
        SocketStatus::Opening => 3,
        SocketStatus::Error => 4,
    }
}

impl From<SocketResult> for u32 {
    fn from(item: SocketResult) -> (code: u32) {
        match item {
            SocketResult::InvalidHandle => 0,
            SocketResult::Closed => 1,
            SocketResult::Opening => 2,
            SocketResult::NoData => 3,
            SocketResult::HasData => 4,
            SocketResult::Error => 5,
            SocketResult::NewClient => 6,
        }
    }
}

impl vstd::std_specs::convert::FromSpecImpl<SocketResult> for u32 {
    open spec fn obeys_from_spec() -> bool {
        true
    }

    open spec fn from_spec(item: SocketResult) -> u32 {
        socket_result_code(item)
    }
}

impl From<SocketStatus> for u32 {
    fn from(item: SocketStatus) -> (code: u32) {
        match item {
            SocketStatus::InvalidHandle => 0,
            SocketStatus::Closed => 1,
            SocketStatus::Open => 2,
            SocketStatus::Opening => 3,
            SocketStatus::Error => 4,
        }
    }
}

impl vstd::std_specs::convert::FromSpecImpl<SocketStatus> for u32 {
    open spec fn obeys_from_spec() -> bool {
        true
    }

    open spec fn from_spec(item: SocketStatus) -> u32 {
        socket_status_code(item)
    }
}

/// A message between the host and a reactor task. A new client carries the
/// peer's address text; the channel ends of its connection stay with the
/// runtime that owns the reactor.
#[derive(Debug)]
pub enum PollnetMessage {
    Connect,
    Disconnect,
    Text(String),
    Binary(Vec<u8>),
    Error(String),
    NewClient(String),
    FileAdd(String, Vec<u8>),
    FileRemove(String),
}

/// The host-side state of one socket.
#[derive(Debug)]
pub struct PollnetSocket {
    pub status: SocketStatus,
    /// The last message received, if it has not been cleared.
    pub data: Option<Vec<u8>>,
    /// The last error reported by the reactor.
    pub error: Option<String>,
    /// For a listening socket, the handle of the last client accepted.
    pub last_client_handle: SocketHandle,
}

/// What a socket holds, as plain values.
pub struct SocketView {
    pub status: SocketStatus,
    pub data: Option<Seq<u8>>,
    pub error: Option<Seq<char>>,
    pub last_client: u64,
}

impl View for PollnetSocket {
    type V = SocketView;

    open spec fn view(&self) -> SocketView {
        SocketView {
            status: self.status,
            data: match self.data {
                Some(d) => Some(d@),
                None => None,
            },
            error: match self.error {
                Some(e) => Some(e@),
                None => None,
            },
            last_client: self.last_client_handle@,
        }
    }
}

/// A socket accepts messages and polls while it is open or opening.
pub open spec fn is_live(s: SocketStatus) -> bool {
    s is Open || s is Opening
}

/// A freshly created socket with the given status.
pub open spec fn fresh_socket(status: SocketStatus) -> SocketView {
    SocketView { status, data: None, error: None, last_client: crate::handle::null_ffi() }
}

impl PollnetSocket {
    /// Creates a socket with no data, no error and a null client handle.
    pub fn new(status: SocketStatus) -> (s: PollnetSocket)
        ensures
            s@ == fresh_socket(status),
    {
        PollnetSocket {
            status,
            data: None,
            error: None,
            last_client_handle: SocketHandle { ffi: 0x1_FFFF_FFFF },
        }
    }
}

} // verus!

//! The host side of the library: the table of sockets and the state machine
//! that each poll drives. The reactor tasks that do the network work run
//! elsewhere; they reach a socket only through the messages that `update`
//! consumes and that `close`, `send` and friends hand back for forwarding.
use vstd::prelude::*;
use vstd::slice::slice_to_vec;
use vstd::utf8::encode_utf8;

use crate::handle::{is_canonical_ffi, lemma_ffi_round_trip, null_ffi, SocketHandle};
use crate::socket::{
    fresh_socket, is_live, PollnetMessage, PollnetSocket, RecvError, SocketResult, SocketStatus,
    SocketView,
};
use crate::header_map::{header_map_contents, header_map_of, HEADER_KEY_LIMIT};
use crate::http::parse_headers;
use crate::headers::header_pairs;
use crate::address::{parse_url, parsed_url};
use crate::vfiles::HttpServer;
use crate::table::{
    table_capacity, table_clear, table_contents, table_get, table_get_mut, table_handles, table_insert,
    table_len, table_new, table_remove, SocketTable,
};

verus! {

/// The poll result of a socket that is neither open nor opening.
pub open spec fn idle_result(status: SocketStatus) -> SocketResult {
    if status is Closed {
        SocketResult::Closed
    } else {
        SocketResult::Error
    }
}

/// What one received message (or receive failure) does to a live socket,
/// for every message but a new client: the socket afterwards and the result.
pub open spec fn poll_effect(s: SocketView, received: Result<PollnetMessage, RecvError>) -> (
    SocketView,
    SocketResult,
) {
    match received {
        Ok(PollnetMessage::Connect) => (
            SocketView { status: SocketStatus::Open, ..s },
            SocketResult::Opening,
        ),
        Ok(PollnetMessage::Disconnect) => (
            SocketView { status: SocketStatus::Closed, ..s },
            SocketResult::Closed,
        ),
        Err(RecvError::Disconnected) => (
            SocketView { status: SocketStatus::Closed, ..s },
            SocketResult::Closed,
        ),
        Ok(PollnetMessage::Text(msg)) => (
            SocketView { data: Some(encode_utf8(msg@)), ..s },
            SocketResult::HasData,
        ),
        Ok(PollnetMessage::Binary(msg)) => (
            SocketView { data: Some(msg@), ..s },
            SocketResult::HasData,
        ),
        Ok(PollnetMessage::Error(err)) => (
            SocketView { status: SocketStatus::Error, error: Some(err@), ..s },
            SocketResult::Error,
        ),
        _ => (s, SocketResult::NoData),
    }
}

/// A listening socket after it accepted a client under handle `client`:
/// the client's address text becomes its data.
pub open spec fn accepted_client(s: SocketView, id: Seq<char>, client: u64) -> SocketView {
    SocketView { data: Some(encode_utf8(id)), last_client: client, ..s }
}

/// The sockets of a context, by handle.
pub struct PollnetContext {
    pub sockets: SocketTable,
}

impl View for PollnetContext {
    type V = Map<u64, SocketView>;

    open spec fn view(&self) -> Map<u64, SocketView> {
        table_contents(self.sockets)
    }
}

impl PollnetContext {
    /// A context with no sockets.
    pub fn new() -> (ctx: PollnetContext)
        ensures
            ctx@.dom() == Set::<u64>::empty(),
    {
        PollnetContext { sockets: table_new() }
    }

    /// The number of sockets.
    pub fn socket_count(&self) -> (n: usize)
        ensures
            n == self@.dom().len(),
    {
        table_len(&self.sockets)
    }

    /// Adds a socket in the given state and returns its new handle; the
    /// sockets already there keep their handles and states.
    pub fn insert_socket(&mut self, status: SocketStatus) -> (h: SocketHandle)
        requires
            old(self)@.dom().len() < table_capacity(),
        ensures
            h.ffi == h@,
            !old(self)@.contains_key(h@),
            h@ % 0x1_0000_0000 != 0xFFFF_FFFF,
            h@ != null_ffi(),
            final(self)@ == old(self)@.insert(h@, fresh_socket(status)),
            final(self)@.dom().len() == old(self)@.dom().len() + 1,
    {
        table_insert(&mut self.sockets, PollnetSocket::new(status))
    }

    /// The state of a socket, if the handle names one.
    pub fn get(&self, handle: SocketHandle) -> (r: Option<&PollnetSocket>)
        ensures
            match r {
                Some(s) => self@.contains_key(handle@) && s@ == self@[handle@],
                None => !self@.contains_key(handle@),
            },
    {
        table_get(&self.sockets, handle)
    }

    /// The socket exists and is open or opening.
    pub open spec fn needs_receive_spec(&self, h: u64) -> bool {
        self@.contains_key(h) && is_live(self@[h].status)
    }

    /// True when a poll of this socket has to receive from its reactor
    /// channel: the socket exists and is open or opening.
    pub fn needs_receive(&self, handle: SocketHandle) -> (b: bool)
        ensures
            b == self.needs_receive_spec(handle@),
    {
        match table_get(&self.sockets, handle) {
            Some(sock) => match sock.status {
                SocketStatus::Open | SocketStatus::Opening => true,
                _ => false,
            },
            None => false,
        }
    }

    /// Removes a socket. Returns true when its reactor task must be told to
    /// disconnect: the socket existed and was open or opening.
    pub fn close(&mut self, handle: SocketHandle) -> (notify: bool)
        ensures
            notify == (old(self)@.contains_key(handle@) && is_live(old(self)@[handle@].status)),
            final(self)@ == old(self)@.remove(handle@),
    {
        match table_remove(&mut self.sockets, handle) {
            Some(sock) => match sock.status {
                SocketStatus::Open | SocketStatus::Opening => true,
                _ => false,
            },
            None => false,
        }
    }

    /// Removes every socket. Returns the handles whose reactor tasks must be
    /// told to disconnect: exactly those that were open or opening, each once.
    pub fn close_all(&mut self) -> (notify: Vec<SocketHandle>)
        ensures
            final(self)@.dom() == Set::<u64>::empty(),
            forall|i: int|
                0 <= i < notify@.len() ==> old(self)@.contains_key(#[trigger] notify@[i]@)
                    && is_live(old(self)@[notify@[i]@].status),
            forall|k: u64|
                old(self)@.contains_key(k) && is_live(old(self)@[k].status) ==> exists|i: int|
                    0 <= i < notify@.len() && #[trigger] notify@[i]@ == k,
            forall|i: int, j: int| 0 <= i < j < notify@.len() ==> notify@[i]@ != notify@[j]@,
    {
        let handles = table_handles(&self.sockets);
        let mut notify: Vec<SocketHandle> = Vec::new();
        let n = handles.len();
        let mut i: usize = 0;
        while i < n
            invariant
                n == handles@.len(),
                i <= n,
                self@ == old(self)@,
                forall|j: int| 0 <= j < handles@.len() ==> self@.contains_key(#[trigger] handles@[j]@),
                forall|k: u64| self@.contains_key(k) ==> exists|j: int|
                    0 <= j < handles@.len() && #[trigger] handles@[j]@ == k,
                forall|a: int, b: int| 0 <= a < b < handles@.len() ==> handles@[a]@ != handles@[b]@,
                forall|a: int|
                    0 <= a < notify@.len() ==> self@.contains_key(#[trigger] notify@[a]@)
                        && is_live(self@[notify@[a]@].status),
                forall|a: int|
                    #![trigger notify@[a]]
                    0 <= a < notify@.len() ==> exists|j: int|
                        #![trigger handles@[j]]
                        0 <= j < i && handles@[j]@ == notify@[a]@,
                forall|j: int|
                    #![trigger handles@[j]]
                    0 <= j < i && is_live(self@[handles@[j]@].status) ==> exists|a: int|
                        #![trigger notify@[a]]
                        0 <= a < notify@.len() && notify@[a]@ == handles@[j]@,
                forall|a: int, b: int| 0 <= a < b < notify@.len() ==> notify@[a]@ != notify@[b]@,
            decreases n - i,
        {
            let h = handles[i];
            let live = self.needs_receive(h);
            let ghost before = notify@;
            if live {
                proof {
                    assert forall|a: int| 0 <= a < notify@.len() implies notify@[a]@ != h@ by {
                        let j = choose|j: int| #![trigger handles@[j]] 0 <= j < i && handles@[j]@ == notify@[a]@;
                        assert(handles@[j]@ != handles@[i as int]@);
                    }
                }
                notify.push(h);
                assert(notify@[notify@.len() - 1]@ == handles@[i as int]@);
            }
            assert forall|j: int|
                #![trigger handles@[j]]
                0 <= j < i + 1 && is_live(self@[handles@[j]@].status) implies exists|a: int|
                #![trigger notify@[a]]
                0 <= a < notify@.len() && notify@[a]@ == handles@[j]@ by {
                if j < i {
                    let a = choose|a: int|
                        #![trigger before[a]]
                        0 <= a < before.len() && before[a]@ == handles@[j]@;
                    assert(notify@[a] == before[a]);
                } else {
                    assert(notify@[notify@.len() - 1]@ == handles@[j]@);
                }
            }
            assert forall|a: int|
                #![trigger notify@[a]]
                0 <= a < notify@.len() implies exists|j: int|
                #![trigger handles@[j]]
                0 <= j < i + 1 && handles@[j]@ == notify@[a]@ by {
                if a < before.len() {
                    assert(notify@[a] == before[a]);
                    let j = choose|j: int| #![trigger handles@[j]] 0 <= j < i && handles@[j]@ == before[a]@;
                    assert(handles@[j]@ == notify@[a]@);
                } else {
                    assert(handles@[i as int]@ == notify@[a]@);
                }
            }
            i = i + 1;
        }
        proof {
            assert forall|k: u64|
                old(self)@.contains_key(k) && is_live(old(self)@[k].status) implies exists|a: int|
                0 <= a < notify@.len() && #[trigger] notify@[a]@ == k by {
                let j = choose|j: int| 0 <= j < handles@.len() && #[trigger] handles@[j]@ == k;
                assert(is_live(self@[handles@[j]@].status));
            }
        }
        table_clear(&mut self.sockets);
        notify
    }

    /// Polls a socket with what its reactor channel yielded (`received`; for
    /// a socket that is not open or opening nothing is received and the
    /// value is ignored). A new client gets a socket of its own, open, and
    /// the listening socket records its handle and address.
    pub fn update(&mut self, handle: SocketHandle, received: Result<PollnetMessage, RecvError>) -> (r:
        SocketResult)
        requires
            old(self).needs_receive_spec(handle@) && (received matches Ok(
                PollnetMessage::NewClient(_),
            )) ==> old(self)@.dom().len() < table_capacity(),
        ensures
            !old(self)@.contains_key(handle@) ==> r == SocketResult::InvalidHandle && final(self)@
                == old(self)@,
            old(self)@.contains_key(handle@) && !is_live(old(self)@[handle@].status) ==> r
                == idle_result(old(self)@[handle@].status) && final(self)@ == old(self)@,
            old(self)@.contains_key(handle@) && is_live(old(self)@[handle@].status) ==> match received {
                Ok(PollnetMessage::NewClient(id)) => {
                    let client = final(self)@[handle@].last_client;
                    &&& r == SocketResult::NewClient
                    &&& !old(self)@.contains_key(client)
                    &&& is_canonical_ffi(client)
                    &&& client % 0x1_0000_0000 != 0xFFFF_FFFF
                    &&& client != null_ffi()
                    &&& final(self)@.dom().len() == old(self)@.dom().len() + 1
                    &&& final(self)@ == old(self)@.insert(client, fresh_socket(SocketStatus::Open)).insert(
                        handle@,
                        accepted_client(old(self)@[handle@], id@, client),
                    )
                },
                _ => {
                    &&& r == poll_effect(old(self)@[handle@], received).1
                    &&& final(self)@ == old(self)@.insert(handle@, poll_effect(old(self)@[handle@], received).0)
                },
            },
    {
        let sock = match table_get_mut(&mut self.sockets, handle) {
            Some(sock) => sock,
            None => return SocketResult::InvalidHandle,
        };
        match sock.status {
            SocketStatus::Open | SocketStatus::Opening => {},
            SocketStatus::Closed => return SocketResult::Closed,
            _ => return SocketResult::Error,
        }
        match received {
            Ok(PollnetMessage::Connect) => {
                sock.status = SocketStatus::Open;
                SocketResult::Opening
            },
            Ok(PollnetMessage::Disconnect) | Err(RecvError::Disconnected) => {
                sock.status = SocketStatus::Closed;
                SocketResult::Closed
            },
            Ok(PollnetMessage::Text(msg)) => {
                sock.data = Some(slice_to_vec(msg.as_str().as_bytes()));
                SocketResult::HasData
            },
            Ok(PollnetMessage::Binary(msg)) => {
                sock.data = Some(msg);
                SocketResult::HasData
            },
            Ok(PollnetMessage::Error(err)) => {
                sock.error = Some(err);
                sock.status = SocketStatus::Error;
                SocketResult::Error
            },
            Ok(PollnetMessage::NewClient(id)) => {
                sock.data = Some(slice_to_vec(id.as_str().as_bytes()));
                assert(table_contents(self.sockets).dom() =~= old(self)@.dom());
                let client = table_insert(&mut self.sockets, PollnetSocket::new(SocketStatus::Open));
                proof {
                    lemma_ffi_round_trip(client.ffi);
                }
                match table_get_mut(&mut self.sockets, handle) {
                    Some(listener) => {
                        listener.last_client_handle = client;
                    },
                    None => {},
                }
                SocketResult::NewClient
            },
            _ => SocketResult::NoData,
        }
    }
}

impl PollnetContext {
    /// Opens a WebSocket client socket (opening) for `url`. The address is
    /// parsed here: the task gets the parsed URL's serialization to connect
    /// to, or the error message that it reports to the socket in place of
    /// connecting.
    pub fn open_ws(&mut self, url: &str) -> (r: (SocketHandle, Result<String, PollnetMessage>))
        requires
            old(self)@.dom().len() < table_capacity(),
        ensures
            !old(self)@.contains_key(r.0@),
            r.0@ % 0x1_0000_0000 != 0xFFFF_FFFF,
            r.0@ != null_ffi(),
            final(self)@ == old(self)@.insert(r.0@, fresh_socket(SocketStatus::Opening)),
            final(self)@.dom().len() == old(self)@.dom().len() + 1,
            r.1 is Ok <==> parsed_url(url@) is Ok,
            r.1 matches Ok(t) ==> parsed_url(url@) == Ok::<Seq<char>, Seq<char>>(t@),
            r.1 matches Err(m) ==> (m matches PollnetMessage::Error(e) && parsed_url(url@)
                == Err::<Seq<char>, Seq<char>>(e@)),
    {
        let handle = self.insert_socket(SocketStatus::Opening);
        let parsed = match parse_url(url) {
            Ok(u) => Ok(u),
            Err(e) => Err(PollnetMessage::Error(e)),
        };
        (handle, parsed)
    }

    /// Opens a WebSocket server socket (opening).
    pub fn listen_ws(&mut self) -> (h: SocketHandle)
        requires
            old(self)@.dom().len() < table_capacity(),
        ensures
            !old(self)@.contains_key(h@),
            h@ % 0x1_0000_0000 != 0xFFFF_FFFF,
            h@ != null_ffi(),
            final(self)@ == old(self)@.insert(h@, fresh_socket(SocketStatus::Opening)),
            final(self)@.dom().len() == old(self)@.dom().len() + 1,
    {
        self.insert_socket(SocketStatus::Opening)
    }

    /// Opens a TCP client socket (opening).
    pub fn open_tcp(&mut self) -> (h: SocketHandle)
        requires
            old(self)@.dom().len() < table_capacity(),
        ensures
            !old(self)@.contains_key(h@),
            h@ % 0x1_0000_0000 != 0xFFFF_FFFF,
            h@ != null_ffi(),
            final(self)@ == old(self)@.insert(h@, fresh_socket(SocketStatus::Opening)),
            final(self)@.dom().len() == old(self)@.dom().len() + 1,
    {
        self.insert_socket(SocketStatus::Opening)
    }

    /// Opens a TCP server socket (opening).
    pub fn listen_tcp(&mut self) -> (h: SocketHandle)
        requires
            old(self)@.dom().len() < table_capacity(),
        ensures
            !old(self)@.contains_key(h@),
            h@ % 0x1_0000_0000 != 0xFFFF_FFFF,
            h@ != null_ffi(),
            final(self)@ == old(self)@.insert(h@, fresh_socket(SocketStatus::Opening)),
            final(self)@.dom().len() == old(self)@.dom().len() + 1,
    {
        self.insert_socket(SocketStatus::Opening)
    }

    /// Opens a dynamic HTTP server socket (opening).
    pub fn serve_http_dynamic(&mut self) -> (h: SocketHandle)
        requires
            old(self)@.dom().len() < table_capacity(),
        ensures
            !old(self)@.contains_key(h@),
            h@ % 0x1_0000_0000 != 0xFFFF_FFFF,
            h@ != null_ffi(),
            final(self)@ == old(self)@.insert(h@, fresh_socket(SocketStatus::Opening)),
            final(self)@.dom().len() == old(self)@.dom().len() + 1,
    {
        self.insert_socket(SocketStatus::Opening)
    }

    /// Opens a static HTTP server socket (opening), with the server state
    /// that its task runs: the directory, if any, and no files in memory.
    pub fn serve_http(&mut self, serve_dir: Option<String>) -> (r: (SocketHandle, HttpServer))
        requires
            old(self)@.dom().len() < table_capacity(),
        ensures
            !old(self)@.contains_key(r.0@),
            r.0@ % 0x1_0000_0000 != 0xFFFF_FFFF,
            r.0@ != null_ffi(),
            final(self)@ == old(self)@.insert(r.0@, fresh_socket(SocketStatus::Opening)),
            final(self)@.dom().len() == old(self)@.dom().len() + 1,
            r.1.serve_dir == serve_dir,
            r.1.files@ == Map::<Seq<char>, Seq<u8>>::empty(),
    {
        let handle = self.insert_socket(SocketStatus::Opening);
        (handle, HttpServer::new(serve_dir))
    }

    /// Opens a simple HTTP GET socket (opening), with the request headers
    /// its task sends: the header map of the header text.
    pub fn open_http_get_simple(&mut self, headers: &str) -> (r: (SocketHandle, hyper::HeaderMap))
        requires
            old(self)@.dom().len() < table_capacity(),
            header_map_of(header_pairs(headers@)).dom().len() < HEADER_KEY_LIMIT,
        ensures
            !old(self)@.contains_key(r.0@),
            r.0@ % 0x1_0000_0000 != 0xFFFF_FFFF,
            r.0@ != null_ffi(),
            final(self)@ == old(self)@.insert(r.0@, fresh_socket(SocketStatus::Opening)),
            final(self)@.dom().len() == old(self)@.dom().len() + 1,
            header_map_contents(r.1) == header_map_of(header_pairs(headers@)),
    {
        let handle = self.insert_socket(SocketStatus::Opening);
        (handle, parse_headers(headers))
    }

    /// Opens a simple HTTP POST socket (opening), with the request headers
    /// its task sends, as for GET.
    pub fn open_http_post_simple(&mut self, headers: &str) -> (r: (SocketHandle, hyper::HeaderMap))
        requires
            old(self)@.dom().len() < table_capacity(),
            header_map_of(header_pairs(headers@)).dom().len() < HEADER_KEY_LIMIT,
        ensures
            !old(self)@.contains_key(r.0@),
            r.0@ % 0x1_0000_0000 != 0xFFFF_FFFF,
            r.0@ != null_ffi(),
            final(self)@ == old(self)@.insert(r.0@, fresh_socket(SocketStatus::Opening)),
            final(self)@.dom().len() == old(self)@.dom().len() + 1,
            header_map_contents(r.1) == header_map_of(header_pairs(headers@)),
    {
        let handle = self.insert_socket(SocketStatus::Opening);
        (handle, parse_headers(headers))
    }

    /// Closes every socket as `close_all` does; the runtime that owns the
    /// reactor stops after this.
    pub fn shutdown(&mut self) -> (notify: Vec<SocketHandle>)
        ensures
            final(self)@.dom() == Set::<u64>::empty(),
            forall|i: int|
                0 <= i < notify@.len() ==> old(self)@.contains_key(#[trigger] notify@[i]@)
                    && is_live(old(self)@[notify@[i]@].status),
            forall|k: u64|
                old(self)@.contains_key(k) && is_live(old(self)@[k].status) ==> exists|i: int|
                    0 <= i < notify@.len() && #[trigger] notify@[i]@ == k,
            forall|i: int, j: int| 0 <= i < j < notify@.len() ==> notify@[i]@ != notify@[j]@,
    {
        self.close_all()
    }
}

impl Default for PollnetContext {
    fn default() -> (ctx: PollnetContext)
        ensures
            ctx@.dom() == Set::<u64>::empty(),
    {
        PollnetContext::new()
    }
}

} // verus!

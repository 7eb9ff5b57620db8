//! The operations behind the C interface that only read or edit the socket
//! table: status and data queries, handle helpers and identifiers. Raw
//! pointers stay at the C boundary; here buffers are slices.
use vstd::prelude::*;

use crate::context::PollnetContext;
use crate::handle::{canonical_ffi, null_ffi, SocketHandle, VERSION_UNIT};
use crate::ids::{generate_nanoid, is_nanoid_byte};
use crate::socket::{socket_status_code, PollnetMessage, SocketStatus, SocketView};
use crate::table::{table_get, table_get_mut};

verus! {

/// The data a socket holds for the caller: its last message, or nothing.
pub open spec fn pending_data(v: SocketView) -> Seq<u8> {
    match v.data {
        Some(d) => d,
        None => Seq::empty(),
    }
}

/// The largest message size the C interface reports.
pub open spec fn max_reported_size() -> int {
    0xFFFF_FFFF
}

/// What `pollnet_get_data_size` reports for a table and a raw handle.
pub open spec fn reported_data_size(ctx: Map<u64, SocketView>, handle: u64) -> u32 {
    let h = canonical_ffi(handle);
    if !ctx.contains_key(h) {
        0
    } else if pending_data(ctx[h]).len() > max_reported_size() {
        0
    } else {
        pending_data(ctx[h]).len() as u32
    }
}

/// What `pollnet_status` reports for a table and a raw handle.
pub open spec fn reported_status(ctx: Map<u64, SocketView>, handle: u64) -> u32 {
    if ctx.contains_key(canonical_ffi(handle)) {
        socket_status_code(ctx[canonical_ffi(handle)].status)
    } else {
        socket_status_code(SocketStatus::InvalidHandle)
    }
}

/// What `pollnet_get_connected_client_handle` reports for a table and a
/// raw handle.
pub open spec fn reported_client(ctx: Map<u64, SocketView>, handle: u64) -> u64 {
    if ctx.contains_key(canonical_ffi(handle)) {
        ctx[canonical_ffi(handle)].last_client
    } else {
        null_ffi()
    }
}

/// True when the raw value is the null handle (slot index `u32::MAX`).
/// This is what the C interface reports under the name "is valid".
pub fn pollnet_handle_is_valid(handle: u64) -> (b: bool)
    ensures
        b == (handle % VERSION_UNIT == 0xFFFF_FFFF),
{
    let h = SocketHandle::from_ffi(handle);
    assert(canonical_ffi(handle) % VERSION_UNIT == handle % VERSION_UNIT);
    h.is_null()
}

/// The raw value of the null handle.
pub fn pollnet_invalid_handle() -> (v: u64)
    ensures
        v == null_ffi(),
{
    SocketHandle::null().as_ffi()
}

/// The status code of a socket, or that of `InvalidHandle` when the handle
/// names none.
pub fn pollnet_status(ctx: &PollnetContext, handle: u64) -> (code: u32)
    ensures
        code == reported_status(ctx@, handle),
{
    let status = match table_get(&ctx.sockets, SocketHandle::from_ffi(handle)) {
        Some(socket) => socket.status,
        None => SocketStatus::InvalidHandle,
    };
    status.into()
}

/// The size of the data a socket holds; 0 for an unknown handle, for no
/// data, and for data longer than `u32::MAX` bytes.
pub fn pollnet_get_data_size(ctx: &PollnetContext, handle: u64) -> (size: u32)
    ensures
        size == reported_data_size(ctx@, handle),
{
    let socket = match table_get(&ctx.sockets, SocketHandle::from_ffi(handle)) {
        Some(socket) => socket,
        None => return 0,
    };
    let msgsize: usize = match &socket.data {
        Some(msg) => msg.len(),
        None => 0,
    };
    if msgsize as u64 > 0xFFFF_FFFFu64 {
        return 0;
    }
    msgsize as u32
}

/// Copies the data of a socket into `dest` when it fits, and returns its
/// size; when it does not fit, leaves `dest` alone and returns the size
/// that is needed. Returns 0 for an unknown handle, for no data, and for
/// data longer than `u32::MAX` bytes.
pub fn pollnet_get_data(ctx: &PollnetContext, handle: u64, dest: &mut [u8]) -> (n: u32)
    ensures
        n == reported_data_size(ctx@, handle),
        ({
            let h = canonical_ffi(handle);
            if ctx@.contains_key(h) && pending_data(ctx@[h]).len() <= max_reported_size()
                && pending_data(ctx@[h]).len() <= old(dest)@.len() {
                final(dest)@ == pending_data(ctx@[h]) + old(dest)@.skip(pending_data(ctx@[h]).len() as int)
            } else {
                final(dest)@ == old(dest)@
            }
        }),
{
    let socket = match table_get(&ctx.sockets, SocketHandle::from_ffi(handle)) {
        Some(socket) => socket,
        None => return 0,
    };
    let msgsize: usize = match &socket.data {
        Some(msg) => msg.len(),
        None => 0,
    };
    if msgsize as u64 > 0xFFFF_FFFFu64 {
        return 0;
    }
    if msgsize > dest.len() {
        return msgsize as u32;
    }
    match &socket.data {
        Some(msg) => {
            let ncopy = msgsize;
            let mut i: usize = 0;
            while i < ncopy
                invariant
                    ncopy == msg@.len(),
                    ncopy <= dest@.len(),
                    dest@.len() == old(dest)@.len(),
                    i <= ncopy,
                    forall|j: int| 0 <= j < i ==> dest@[j] == msg@[j],
                    forall|j: int| i <= j < dest@.len() ==> dest@[j] == old(dest)@[j],
                decreases ncopy - i,
            {
                dest[i] = msg[i];
                i = i + 1;
            }
            assert(dest@ =~= msg@ + old(dest)@.skip(ncopy as int));
            ncopy as u32
        },
        None => {
            assert(old(dest)@.skip(0) =~= old(dest)@);
            0
        },
    }
}

/// Drops the data a socket holds.
pub fn pollnet_clear_data(ctx: &mut PollnetContext, handle: u64)
    ensures
        final(ctx)@ == (if old(ctx)@.contains_key(canonical_ffi(handle)) {
            old(ctx)@.insert(
                canonical_ffi(handle),
                SocketView { data: None, ..old(ctx)@[canonical_ffi(handle)] },
            )
        } else {
            old(ctx)@
        }),
{
    if let Some(socket) = table_get_mut(&mut ctx.sockets, SocketHandle::from_ffi(handle)) {
        socket.data = None;
    }
}

/// The handle of the last client that a listening socket accepted; the
/// null handle for an unknown handle.
pub fn pollnet_get_connected_client_handle(ctx: &PollnetContext, handle: u64) -> (v: u64)
    ensures
        v == reported_client(ctx@, handle),
{
    match table_get(&ctx.sockets, SocketHandle::from_ffi(handle)) {
        Some(socket) => socket.last_client_handle.as_ffi(),
        None => SocketHandle::null().as_ffi(),
    }
}

/// Writes a fresh random identifier (21 characters of `A-Za-z0-9_-`) into
/// `dest`, cut to the length of `dest`, and returns how many bytes it wrote.
pub fn pollnet_get_nanoid(dest: &mut [u8]) -> (n: u32)
    requires
        old(dest)@.len() <= 0xFFFF_FFFF,
    ensures
        n == (if old(dest)@.len() < 21 { old(dest)@.len() } else { 21 }),
        final(dest)@.len() == old(dest)@.len(),
        forall|i: int| 0 <= i < n ==> is_nanoid_byte(#[trigger] final(dest)@[i]),
        forall|i: int| n <= i < old(dest)@.len() ==> final(dest)@[i] == old(dest)@[i],
{
    let id = generate_nanoid();
    let ncopy: usize = if id.len() < dest.len() { id.len() } else { dest.len() };
    let mut i: usize = 0;
    while i < ncopy
        invariant
            ncopy <= id@.len(),
            ncopy <= dest@.len(),
            id@.len() == 21,
            forall|j: int| 0 <= j < id@.len() ==> is_nanoid_byte(#[trigger] id@[j]),
            dest@.len() == old(dest)@.len(),
            i <= ncopy,
            forall|j: int| 0 <= j < i ==> is_nanoid_byte(#[trigger] dest@[j]),
            forall|j: int| i <= j < dest@.len() ==> dest@[j] == old(dest)@[j],
        decreases ncopy - i,
    {
        dest[i] = id[i];
        i = i + 1;
    }
    ncopy as u32
}

impl PollnetContext {
    /// The message to forward to a socket's reactor for a text send: only a
    /// socket that exists and is open or opening takes one.
    pub fn send(&self, handle: SocketHandle, msg: String) -> (fwd: Option<PollnetMessage>)
        ensures
            self.needs_receive_spec(handle@) ==> (fwd matches Some(PollnetMessage::Text(t)) && t@ == msg@),
            !self.needs_receive_spec(handle@) ==> fwd is None,
    {
        if self.needs_receive(handle) {
            Some(PollnetMessage::Text(msg))
        } else {
            None
        }
    }

    /// As `send`, for binary data.
    pub fn send_binary(&self, handle: SocketHandle, msg: Vec<u8>) -> (fwd: Option<PollnetMessage>)
        ensures
            self.needs_receive_spec(handle@) ==> (fwd matches Some(PollnetMessage::Binary(b)) && b@ == msg@),
            !self.needs_receive_spec(handle@) ==> fwd is None,
    {
        if self.needs_receive(handle) {
            Some(PollnetMessage::Binary(msg))
        } else {
            None
        }
    }

    /// As `send`, for a file that an HTTP server socket serves from memory.
    pub fn add_virtual_file(&self, handle: SocketHandle, filename: String, filedata: Vec<u8>) -> (fwd:
        Option<PollnetMessage>)
        ensures
            self.needs_receive_spec(handle@) ==> (fwd matches Some(PollnetMessage::FileAdd(f, d))
                && f@ == filename@ && d@ == filedata@),
            !self.needs_receive_spec(handle@) ==> fwd is None,
    {
        if self.needs_receive(handle) {
            Some(PollnetMessage::FileAdd(filename, filedata))
        } else {
            None
        }
    }

    /// As `send`, to stop serving a file from memory.
    pub fn remove_virtual_file(&self, handle: SocketHandle, filename: String) -> (fwd: Option<
        PollnetMessage,
    >)
        ensures
            self.needs_receive_spec(handle@) ==> (fwd matches Some(PollnetMessage::FileRemove(f))
                && f@ == filename@),
            !self.needs_receive_spec(handle@) ==> fwd is None,
    {
        if self.needs_receive(handle) {
            Some(PollnetMessage::FileRemove(filename))
        } else {
            None
        }
    }
}

} // verus!

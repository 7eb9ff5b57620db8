//! Properties that span several operations of the library, stated over the
//! views that the operations' own contracts use.
use vstd::prelude::*;
use vstd::utf8::encode_utf8;

use crate::api::{pending_data, reported_client, reported_data_size, reported_status};
use crate::context::{accepted_client, poll_effect};
use crate::http::{decimal_code, status_of_bytes};
use crate::reactor::{announces_connect, task_continues, SocketKind};
use crate::handle::{canonical_ffi, is_canonical_ffi, null_ffi};
use crate::socket::{
    fresh_socket, is_live, socket_result_code, socket_status_code, PollnetMessage, SocketResult,
    SocketStatus, SocketView,
};

verus! {

/// Once a socket is closed (`close` removes its handle), every query by
/// that handle answers as for an unknown handle: status `InvalidHandle`, no
/// data, the null client handle.
pub proof fn law_closed_handle_is_invalid(ctx: Map<u64, SocketView>, handle: u64)
    ensures
        reported_status(ctx.remove(canonical_ffi(handle)), handle) == socket_status_code(
            SocketStatus::InvalidHandle,
        ),
        reported_data_size(ctx.remove(canonical_ffi(handle)), handle) == 0,
        reported_client(ctx.remove(canonical_ffi(handle)), handle) == null_ffi(),
{
}

/// After `close_all` (or `shutdown`) no handle names a socket.
pub proof fn law_no_socket_after_close_all(ctx: Map<u64, SocketView>, handle: u64)
    requires
        ctx.dom() == Set::<u64>::empty(),
    ensures
        reported_status(ctx, handle) == socket_status_code(SocketStatus::InvalidHandle),
        reported_data_size(ctx, handle) == 0,
{
    assert(!ctx.dom().contains(canonical_ffi(handle)));
}

/// What a poll stores is what the data queries give back: after an open
/// socket receives binary data, its data is exactly those bytes, and its
/// reported size is their number (when that fits the interface).
pub proof fn law_binary_message_read_back(ctx: Map<u64, SocketView>, handle: u64, msg: Vec<u8>)
    requires
        ctx.contains_key(canonical_ffi(handle)),
        is_live(ctx[canonical_ffi(handle)].status),
        msg@.len() <= 0xFFFF_FFFF,
    ensures
        ({
            let h = canonical_ffi(handle);
            let after = ctx.insert(h, poll_effect(ctx[h], Ok(PollnetMessage::Binary(msg))).0);
            &&& poll_effect(ctx[h], Ok(PollnetMessage::Binary(msg))).1 == SocketResult::HasData
            &&& pending_data(after[h]) == msg@
            &&& reported_data_size(after, handle) == msg@.len()
            &&& reported_status(after, handle) == reported_status(ctx, handle)
        }),
{
}

/// As for binary data, a text message is read back as its UTF-8 bytes.
pub proof fn law_text_message_read_back(ctx: Map<u64, SocketView>, handle: u64, msg: String)
    requires
        ctx.contains_key(canonical_ffi(handle)),
        is_live(ctx[canonical_ffi(handle)].status),
        encode_utf8(msg@).len() <= 0xFFFF_FFFF,
    ensures
        ({
            let h = canonical_ffi(handle);
            let after = ctx.insert(h, poll_effect(ctx[h], Ok(PollnetMessage::Text(msg))).0);
            &&& poll_effect(ctx[h], Ok(PollnetMessage::Text(msg))).1 == SocketResult::HasData
            &&& pending_data(after[h]) == encode_utf8(msg@)
            &&& reported_data_size(after, handle) == encode_utf8(msg@).len()
        }),
{
}

/// After `pollnet_clear_data` the socket holds no data.
pub proof fn law_cleared_data_is_gone(ctx: Map<u64, SocketView>, handle: u64)
    requires
        ctx.contains_key(canonical_ffi(handle)),
    ensures
        ({
            let h = canonical_ffi(handle);
            reported_data_size(ctx.insert(h, SocketView { data: None, ..ctx[h] }), handle) == 0
        }),
{
}

/// A connect message opens a socket; a disconnect (or a lost channel)
/// closes it; an error message puts it in the error state; every later poll
/// of a closed or failed socket answers the same and changes nothing.
pub proof fn law_lifecycle(s: SocketView)
    requires
        is_live(s.status),
    ensures
        poll_effect(s, Ok(PollnetMessage::Connect)).0.status == SocketStatus::Open,
        poll_effect(s, Ok(PollnetMessage::Disconnect)).0.status == SocketStatus::Closed,
        poll_effect(s, Err(crate::socket::RecvError::Disconnected)).0.status == SocketStatus::Closed,
        !is_live(poll_effect(s, Ok(PollnetMessage::Disconnect)).0.status),
        poll_effect(s, Err(crate::socket::RecvError::Empty)) == (s, SocketResult::NoData),
{
}

/// After a listening socket accepts a client, the client handle it reports
/// names an open socket of its own, and the listener's data is the client's
/// address.
pub proof fn law_new_client_is_reachable(
    ctx: Map<u64, SocketView>,
    handle: u64,
    id: Seq<char>,
    client: u64,
)
    requires
        ctx.contains_key(canonical_ffi(handle)),
        !ctx.contains_key(client),
        is_canonical_ffi(client),
    ensures
        ({
            let h = canonical_ffi(handle);
            let after = ctx.insert(client, fresh_socket(SocketStatus::Open)).insert(
                h,
                accepted_client(ctx[h], id, client),
            );
            &&& reported_client(after, handle) == client
            &&& reported_status(after, client) == socket_status_code(SocketStatus::Open)
            &&& pending_data(after[h]) == encode_utf8(id)
            &&& after.contains_key(client)
        }),
{
    assert(canonical_ffi(client) == client);
}

/// The codes of the C interface tell every status, and every poll result,
/// apart.
pub proof fn law_codes_are_distinct(a: SocketStatus, b: SocketStatus, x: SocketResult, y: SocketResult)
    ensures
        socket_status_code(a) == socket_status_code(b) ==> a == b,
        socket_result_code(x) == socket_result_code(y) ==> x == y,
{
}

/// A file added to a server is what a request for its path is answered
/// with, until it is removed.
pub proof fn law_virtual_file_read_after_write(
    files: Map<Seq<char>, Seq<u8>>,
    name: Seq<char>,
    data: Seq<u8>,
    other: Seq<char>,
)
    ensures
        files.insert(name, data).contains_key(name),
        files.insert(name, data)[name] == data,
        !files.insert(name, data).remove(name).contains_key(name),
        other != name ==> files.insert(name, data).remove(name).contains_key(other)
            == files.contains_key(other),
{
}

/// The three digits that begin a status line are read back as the same
/// code by the status parser of dynamic replies.
pub proof fn law_status_digits_read_back(code: u16)
    requires
        100 <= code <= 999,
    ensures
        status_of_bytes(encode_utf8(decimal_code(code))) == Some(code),
{
    let d = decimal_code(code);
    assert(vstd::utf8::is_ascii_chars(d));
    vstd::utf8::is_ascii_chars_encode_utf8(d);
    let b = encode_utf8(d);
    assert(b[0] == (48 + code / 100) as u8);
    assert(b[1] == (48 + (code / 10) % 10) as u8);
    assert(b[2] == (48 + code % 10) as u8);
    assert(code / 100 * 100 + (code / 10) % 10 * 10 + code % 10 == code) by (nonlinear_arith)
        requires
            100 <= code <= 999,
    ;
}

/// Closing stops every task: for every kind of socket, a disconnect from
/// the host, or a closed channel, ends its listener or request task.
pub proof fn law_disconnect_stops_every_task(kind: SocketKind)
    ensures
        !task_continues(kind, Some(PollnetMessage::Disconnect)),
        !task_continues(kind, None),
{
}

/// An HTTP server, static or dynamic, also stops on an error message from
/// the host, and keeps serving on anything else it is sent (a file added or
/// removed, data).
pub proof fn law_http_servers_stop_on_errors(kind: SocketKind, e: String, other: PollnetMessage)
    requires
        kind is StaticHttp || kind is DynamicHttp,
        !(other is Disconnect),
        !(other is Error),
    ensures
        !task_continues(kind, Some(PollnetMessage::Error(e))),
        task_continues(kind, Some(other)),
{
}

/// Every socket that holds a stream or a listener (WebSocket or TCP, client
/// or server) tells the host when it is connected or bound; the HTTP
/// sockets never do.
pub proof fn law_streams_and_listeners_announce(kind: SocketKind)
    ensures
        (kind is WsClient || kind is WsServer || kind is TcpClient || kind is TcpServer) ==> announces_connect(
            kind,
        ),
        (kind is StaticHttp || kind is DynamicHttp || kind is HttpGet || kind is HttpPost) ==> !announces_connect(
            kind,
        ),
{
}

} // verus!

use pollnet::api::{
    pollnet_clear_data, pollnet_get_connected_client_handle, pollnet_get_data,
    pollnet_get_data_size, pollnet_get_nanoid, pollnet_handle_is_valid, pollnet_invalid_handle,
    pollnet_status,
};
use pollnet::context::PollnetContext;
use pollnet::handle::SocketHandle;
use pollnet::socket::{PollnetMessage, RecvError, SocketResult, SocketStatus};

fn open_socket(ctx: &mut PollnetContext) -> SocketHandle {
    ctx.open_tcp()
}

#[test]
fn handle_conversions_canonicalize_the_version() {
    assert_eq!(u64::from(SocketHandle::from(0u64)), 0x1_0000_0000);
    assert_eq!(u64::from(SocketHandle::from(0x1_0000_0005u64)), 0x1_0000_0005);
    assert_eq!(u64::from(SocketHandle::from(0x2_0000_0005u64)), 0x3_0000_0005);
    assert_eq!(u64::from(SocketHandle::null()), 0x1_FFFF_FFFF);
    assert!(SocketHandle::null().is_null());
    assert!(!SocketHandle::from(7u64).is_null());
}

#[test]
fn handle_is_valid_reports_the_null_handle() {
    assert_eq!(pollnet_invalid_handle(), 0x1_FFFF_FFFF);
    assert!(pollnet_handle_is_valid(pollnet_invalid_handle()));
    assert!(!pollnet_handle_is_valid(0x1_0000_0001));
}

#[test]
fn status_and_result_codes() {
    assert_eq!(u32::from(SocketStatus::InvalidHandle), 0);
    assert_eq!(u32::from(SocketStatus::Closed), 1);
    assert_eq!(u32::from(SocketStatus::Open), 2);
    assert_eq!(u32::from(SocketStatus::Opening), 3);
    assert_eq!(u32::from(SocketStatus::Error), 4);
    assert_eq!(u32::from(SocketResult::InvalidHandle), 0);
    assert_eq!(u32::from(SocketResult::Closed), 1);
    assert_eq!(u32::from(SocketResult::Opening), 2);
    assert_eq!(u32::from(SocketResult::NoData), 3);
    assert_eq!(u32::from(SocketResult::HasData), 4);
    assert_eq!(u32::from(SocketResult::Error), 5);
    assert_eq!(u32::from(SocketResult::NewClient), 6);
}

#[test]
fn new_sockets_start_opening_with_distinct_handles() {
    let mut ctx = PollnetContext::new();
    assert_eq!(ctx.socket_count(), 0);
    let a = open_socket(&mut ctx);
    let b = ctx.listen_ws();
    assert_ne!(u64::from(a), u64::from(b));
    assert_eq!(ctx.socket_count(), 2);
    assert_eq!(pollnet_status(&ctx, a.into()), 3);
    assert_eq!(pollnet_status(&ctx, b.into()), 3);
    assert_eq!(pollnet_get_connected_client_handle(&ctx, a.into()), 0x1_FFFF_FFFF);
    assert!(ctx.needs_receive(a));
}

#[test]
fn unknown_handles_are_invalid() {
    let mut ctx = PollnetContext::new();
    let bogus = SocketHandle::from(12345u64);
    assert_eq!(pollnet_status(&ctx, bogus.into()), 0);
    assert_eq!(pollnet_get_data_size(&ctx, bogus.into()), 0);
    assert!(matches!(ctx.update(bogus, Ok(PollnetMessage::Connect)), SocketResult::InvalidHandle));
    assert!(!ctx.close(bogus));
    assert!(ctx.send(bogus, "hi".to_string()).is_none());
}

#[test]
fn connect_opens_and_text_is_read_back() {
    let mut ctx = PollnetContext::new();
    let h = open_socket(&mut ctx);
    assert_eq!(ctx.update(h, Ok(PollnetMessage::Connect)), SocketResult::Opening);
    assert_eq!(pollnet_status(&ctx, h.into()), 2);
    assert_eq!(ctx.update(h, Err(RecvError::Empty)), SocketResult::NoData);
    assert_eq!(ctx.update(h, Ok(PollnetMessage::Text("héllo".to_string()))), SocketResult::HasData);
    assert_eq!(pollnet_get_data_size(&ctx, h.into()), 6);

    let mut small = [0u8; 3];
    assert_eq!(pollnet_get_data(&ctx, h.into(), &mut small), 6);
    assert_eq!(small, [0, 0, 0]);

    let mut big = [9u8; 8];
    assert_eq!(pollnet_get_data(&ctx, h.into(), &mut big), 6);
    assert_eq!(&big[..6], "héllo".as_bytes());
    assert_eq!(&big[6..], &[9, 9]);

    pollnet_clear_data(&mut ctx, h.into());
    assert_eq!(pollnet_get_data_size(&ctx, h.into()), 0);
    let mut buf = [5u8; 4];
    assert_eq!(pollnet_get_data(&ctx, h.into(), &mut buf), 0);
    assert_eq!(buf, [5, 5, 5, 5]);
}

#[test]
fn binary_data_and_errors() {
    let mut ctx = PollnetContext::new();
    let h = open_socket(&mut ctx);
    assert_eq!(ctx.update(h, Ok(PollnetMessage::Binary(vec![1, 2, 3]))), SocketResult::HasData);
    assert_eq!(ctx.get(h).unwrap().data, Some(vec![1, 2, 3]));
    assert_eq!(ctx.update(h, Ok(PollnetMessage::FileRemove("x".to_string()))), SocketResult::NoData);
    assert_eq!(ctx.update(h, Ok(PollnetMessage::Error("boom".to_string()))), SocketResult::Error);
    assert_eq!(pollnet_status(&ctx, h.into()), 4);
    assert_eq!(ctx.get(h).unwrap().error, Some("boom".to_string()));
    // an errored socket no longer receives
    assert!(!ctx.needs_receive(h));
    assert_eq!(ctx.update(h, Ok(PollnetMessage::Connect)), SocketResult::Error);
    assert_eq!(pollnet_status(&ctx, h.into()), 4);
    assert!(ctx.send_binary(h, vec![1]).is_none());
}

#[test]
fn disconnect_closes_for_good() {
    let mut ctx = PollnetContext::new();
    let h = open_socket(&mut ctx);
    assert_eq!(ctx.update(h, Ok(PollnetMessage::Disconnect)), SocketResult::Closed);
    assert_eq!(pollnet_status(&ctx, h.into()), 1);
    assert_eq!(ctx.update(h, Ok(PollnetMessage::Connect)), SocketResult::Closed);
    assert_eq!(pollnet_status(&ctx, h.into()), 1);

    let g = open_socket(&mut ctx);
    assert_eq!(ctx.update(g, Err(RecvError::Disconnected)), SocketResult::Closed);
    assert_eq!(pollnet_status(&ctx, g.into()), 1);
    // closing a closed socket needs no disconnect message
    assert!(!ctx.close(g));
    assert_eq!(pollnet_status(&ctx, g.into()), 0);
}

#[test]
fn close_removes_and_asks_for_a_disconnect() {
    let mut ctx = PollnetContext::new();
    let h = open_socket(&mut ctx);
    assert!(ctx.close(h));
    assert_eq!(pollnet_status(&ctx, h.into()), 0);
    assert_eq!(ctx.update(h, Ok(PollnetMessage::Connect)), SocketResult::InvalidHandle);
    assert!(!ctx.close(h));
    // a new socket never reuses the handle of a closed one right away
    let k = open_socket(&mut ctx);
    assert_ne!(u64::from(k), u64::from(h));
}

#[test]
fn close_all_notifies_live_sockets_only() {
    let mut ctx = PollnetContext::new();
    let a = open_socket(&mut ctx);
    let b = open_socket(&mut ctx);
    let c = open_socket(&mut ctx);
    ctx.update(b, Ok(PollnetMessage::Disconnect));
    ctx.update(c, Ok(PollnetMessage::Connect));
    let mut notified: Vec<u64> = ctx.close_all().into_iter().map(u64::from).collect();
    notified.sort();
    let mut expected = vec![u64::from(a), u64::from(c)];
    expected.sort();
    assert_eq!(notified, expected);
    assert_eq!(ctx.socket_count(), 0);
    assert_eq!(pollnet_status(&ctx, a.into()), 0);
    assert_eq!(ctx.shutdown().len(), 0);
}

#[test]
fn new_client_gets_its_own_open_socket() {
    let mut ctx = PollnetContext::new();
    let server = ctx.listen_tcp();
    ctx.update(server, Ok(PollnetMessage::Connect));
    let r = ctx.update(server, Ok(PollnetMessage::NewClient("127.0.0.1:5000".to_string())));
    assert_eq!(r, SocketResult::NewClient);
    let client = pollnet_get_connected_client_handle(&ctx, server.into());
    assert_ne!(client, u64::from(server));
    assert_eq!(pollnet_status(&ctx, client), 2);
    assert_eq!(pollnet_get_data_size(&ctx, server.into()), 14);
    let mut buf = [0u8; 20];
    assert_eq!(pollnet_get_data(&ctx, server.into(), &mut buf), 14);
    assert_eq!(&buf[..14], b"127.0.0.1:5000");
    assert_eq!(ctx.socket_count(), 2);
    assert!(ctx.needs_receive(SocketHandle::from(client)));
}

#[test]
fn sends_are_forwarded_to_live_sockets() {
    let mut ctx = PollnetContext::new();
    let h = open_socket(&mut ctx);
    match ctx.send(h, "ping".to_string()) {
        Some(PollnetMessage::Text(t)) => assert_eq!(t, "ping"),
        other => panic!("unexpected {:?}", other),
    }
    match ctx.send_binary(h, vec![7]) {
        Some(PollnetMessage::Binary(b)) => assert_eq!(b, vec![7]),
        other => panic!("unexpected {:?}", other),
    }
    match ctx.add_virtual_file(h, "/a".to_string(), vec![1]) {
        Some(PollnetMessage::FileAdd(n, d)) => {
            assert_eq!(n, "/a");
            assert_eq!(d, vec![1]);
        }
        other => panic!("unexpected {:?}", other),
    }
    match ctx.remove_virtual_file(h, "/a".to_string()) {
        Some(PollnetMessage::FileRemove(n)) => assert_eq!(n, "/a"),
        other => panic!("unexpected {:?}", other),
    }
    ctx.update(h, Ok(PollnetMessage::Disconnect));
    assert!(ctx.send(h, "late".to_string()).is_none());
    assert!(ctx.remove_virtual_file(h, "/a".to_string()).is_none());
}

#[test]
fn open_ws_parses_the_address() {
    let mut ctx = PollnetContext::new();
    let (h, parsed) = ctx.open_ws("ws://localhost:9001/chat");
    assert_eq!(parsed.ok(), Some("ws://localhost:9001/chat".to_string()));
    let (_, normalized) = ctx.open_ws("WS://Example.COM");
    assert_eq!(normalized.ok(), Some("ws://example.com/".to_string()));
    assert_eq!(pollnet_status(&ctx, h.into()), 3);
    let (_, bad) = ctx.open_ws("not a url");
    match bad {
        Err(PollnetMessage::Error(e)) => assert_eq!(e, "relative URL without a base"),
        _ => panic!("expected a parse error"),
    }
}

#[test]
fn http_sockets_carry_their_setup() {
    let mut ctx = PollnetContext::new();
    let (_, headers) = ctx.open_http_get_simple("Accept: text/html\nbad header:x\nnocolon\n");
    assert_eq!(headers.len(), 1);
    assert_eq!(headers.get("accept").unwrap().to_str().unwrap(), " text/html");
    let (_, post_headers) = ctx.open_http_post_simple("");
    assert!(post_headers.is_empty());
    let (_, server) = ctx.serve_http(Some("/srv".to_string()));
    assert_eq!(server.serve_dir, Some("/srv".to_string()));
    let d = ctx.serve_http_dynamic();
    assert_eq!(pollnet_status(&ctx, d.into()), 3);
    assert_eq!(ctx.socket_count(), 4);
}

#[test]
fn opened_handles_are_never_null() {
    let mut ctx = PollnetContext::new();
    let (h, _) = ctx.serve_http(None);
    assert_ne!(u64::from(h), 0x1_FFFF_FFFF);
    assert_eq!(u64::from(h) >> 32, 1);
    assert_eq!(ctx.socket_count(), 1);
    let t = ctx.open_tcp();
    assert_ne!(u64::from(t), 0x1_FFFF_FFFF);
    assert_eq!(ctx.socket_count(), 2);
}

#[test]
fn nanoid_fills_up_to_21_bytes() {
    let mut buf = [0u8; 32];
    assert_eq!(pollnet_get_nanoid(&mut buf), 21);
    assert!(buf[..21]
        .iter()
        .all(|b| b.is_ascii_alphanumeric() || *b == b'_' || *b == b'-'));
    assert!(buf[21..].iter().all(|b| *b == 0));
    let mut small = [0u8; 5];
    assert_eq!(pollnet_get_nanoid(&mut small), 5);
    assert!(small.iter().all(|b| *b != 0));
}

#[test]
fn binary_data_read_back_exactly() {
    let mut ctx = PollnetContext::new();
    let h = open_socket(&mut ctx);
    ctx.update(h, Ok(PollnetMessage::Binary(vec![10, 20, 30])));
    assert_eq!(pollnet_get_data_size(&ctx, h.into()), 3);
    let mut exact = [0u8; 3];
    assert_eq!(pollnet_get_data(&ctx, h.into(), &mut exact), 3);
    assert_eq!(exact, [10, 20, 30]);
    let mut empty: [u8; 0] = [];
    assert_eq!(pollnet_get_data(&ctx, h.into(), &mut empty), 3);
}

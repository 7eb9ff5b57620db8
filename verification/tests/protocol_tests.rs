use pollnet::channel::{eh, ChannelError};
use pollnet::headers::{format_headers, parse_header_pairs};
use pollnet::http::{
    dynamic_reply, headers_from_pairs, http_body_messages, http_head_messages, insert_header, parse_body,
    parse_header_line, parse_headers, parse_headers_msg, parse_status, request_info_messages,
};
use pollnet::paths::{build_and_validate_path, build_and_validate_path_in, target_path_style, PathStyle};
use pollnet::reactor::{
    accept_failure_report, bind_failure_report, connect_message, control_continues, tcp_command, tcp_read_report,
    write_failure_report, ws_command, ws_incoming_report, SocketKind, StreamCommand, TcpRead,
    WsCommand, WsIncoming,
};
use pollnet::socket::PollnetMessage;
use pollnet::text::str_eq;
use pollnet::vfiles::{handle_http_request, simple_file_send, HttpRoute, HttpServer, VirtualFiles};

fn pairs(v: &[(&str, &str)]) -> Vec<(String, String)> {
    v.iter().map(|(k, v)| (k.to_string(), v.to_string())).collect()
}

#[test]
fn header_pairs_split_at_first_colon() {
    assert_eq!(
        parse_header_pairs("a:1\n\nno colon here\nb: x:y\n"),
        pairs(&[("a", "1"), ("b", " x:y")])
    );
    assert_eq!(parse_header_pairs(""), Vec::<(String, String)>::new());
    assert_eq!(parse_header_pairs("k:"), pairs(&[("k", "")]));
    assert_eq!(parse_header_pairs(":v"), pairs(&[("", "v")]));
}

#[test]
fn header_lines_format_and_parse_back() {
    let map = vec![
        ("content-type".to_string(), Some("text/plain".to_string())),
        ("x-bin".to_string(), None),
    ];
    let text = format_headers(&map);
    assert_eq!(text, "content-type:text/plain\nx-bin:MALFORMED\n");
    assert_eq!(
        parse_header_pairs(&text),
        pairs(&[("content-type", "text/plain"), ("x-bin", "MALFORMED")])
    );
    assert_eq!(format_headers(&Vec::new()), "");
}

#[test]
fn request_headers_keep_valid_pairs() {
    let map = parse_headers("Accept: */*\nBad Name: 1\nX-Ctl: a\u{7f}b\nX-Tab: a\tb\n");
    assert_eq!(map.len(), 2);
    assert_eq!(map.get("accept").unwrap().to_str().unwrap(), " */*");
    assert_eq!(map.get("x-tab").unwrap().as_bytes(), b" a\tb");
    assert!(map.get("x-ctl").is_none());
    assert_eq!(parse_header_line("Host: example.com"), Some(("Host".to_string(), " example.com".to_string())));
    assert_eq!(parse_header_line("Ho st: x"), None);
    assert_eq!(parse_header_line("no colon"), None);
}

#[test]
fn parse_headers_lowercases_and_replaces() {
    let map = parse_headers("Accept: */*\nX-Foo:bar\nX-Foo:baz\nbad line\n");
    assert_eq!(map.len(), 2);
    assert_eq!(map.get("accept").unwrap().to_str().unwrap(), " */*");
    assert_eq!(map.get("x-foo").unwrap().to_str().unwrap(), "baz");
    assert_eq!(map.get_all("x-foo").iter().count(), 1);
    assert_eq!(map.keys().map(|k| k.as_str().to_string()).collect::<Vec<_>>(), vec!["accept", "x-foo"]);
}

#[test]
fn insert_header_checks_both_parts() {
    let mut headers = parse_headers("");
    assert_eq!(insert_header(&mut headers, "X-Ok", "yes"), Some(()));
    assert_eq!(insert_header(&mut headers, "X Bad", "yes"), None);
    assert_eq!(insert_header(&mut headers, "X-Bad", "a\nb"), None);
    assert_eq!(insert_header(&mut headers, "", "yes"), None);
    assert_eq!(insert_header(&mut headers, "X-Ok", "again"), Some(()));
    assert_eq!(headers.len(), 1);
    assert_eq!(headers.get("x-ok").unwrap().to_str().unwrap(), "again");
}

#[test]
fn headers_from_pairs_keeps_valid_pairs() {
    let map = headers_from_pairs(&pairs(&[("Host", "a"), ("Bad Name", "b"), ("HOST", "c")])).unwrap();
    assert_eq!(map.len(), 1);
    assert_eq!(map.get("host").unwrap().to_str().unwrap(), "c");
    assert!(headers_from_pairs(&Vec::new()).unwrap().is_empty());
}

#[test]
fn status_messages_parse_to_codes() {
    assert_eq!(parse_status(Some(PollnetMessage::Text("404".to_string()))), 404);
    assert_eq!(parse_status(Some(PollnetMessage::Binary(b"201".to_vec()))), 201);
    assert_eq!(parse_status(Some(PollnetMessage::Text("099".to_string()))), 500);
    assert_eq!(parse_status(Some(PollnetMessage::Text("20".to_string()))), 500);
    assert_eq!(parse_status(Some(PollnetMessage::Text("abc".to_string()))), 500);
    assert_eq!(parse_status(Some(PollnetMessage::Disconnect)), 500);
    assert_eq!(parse_status(None), 500);
}

#[test]
fn reply_bodies_and_header_messages() {
    assert_eq!(parse_body(Some(PollnetMessage::Binary(vec![1, 2]))), vec![1, 2]);
    assert_eq!(parse_body(Some(PollnetMessage::Text("hi".to_string()))), b"hi".to_vec());
    assert_eq!(parse_body(None), Vec::<u8>::new());
    assert_eq!(
        parse_headers_msg(Some(PollnetMessage::Binary(b"a:\xff\n".to_vec()))),
        pairs(&[("a", "\u{fffd}")])
    );
    assert_eq!(parse_headers_msg(Some(PollnetMessage::Text("k:v".to_string()))), pairs(&[("k", "v")]));
    assert_eq!(parse_headers_msg(None), Vec::<(String, String)>::new());
}

#[test]
fn dynamic_reply_from_three_messages() {
    let reply = dynamic_reply(
        Some(PollnetMessage::Text("200".to_string())),
        Some(PollnetMessage::Text("Content-Type:text/html\nBad Header:x\n".to_string())),
        Some(PollnetMessage::Text("<p>hi</p>".to_string())),
    )
    .unwrap();
    assert_eq!(reply.status, 200);
    assert_eq!(reply.headers.len(), 1);
    assert_eq!(reply.headers.get("content-type").unwrap().to_str().unwrap(), "text/html");
    assert_eq!(reply.body, b"<p>hi</p>".to_vec());
    let empty = dynamic_reply(None, None, None).unwrap();
    assert_eq!(empty.status, 500);
    assert!(empty.headers.is_empty());
    assert!(empty.body.is_empty());
}

#[test]
fn request_info_is_three_messages() {
    let headers = vec![("host".to_string(), Some("x".to_string()))];
    let msgs = request_info_messages("GET", "/index.html?q=1", &headers, vec![4, 5]);
    assert_eq!(msgs.len(), 3);
    assert!(matches!(&msgs[0], PollnetMessage::Text(t) if t == "GET /index.html?q=1"));
    assert!(matches!(&msgs[1], PollnetMessage::Text(t) if t == "host:x\n"));
    assert!(matches!(&msgs[2], PollnetMessage::Binary(b) if *b == vec![4, 5]));
}

#[test]
fn http_replies_come_as_status_headers_body() {
    let headers = vec![("server".to_string(), Some("test".to_string()))];
    let head = http_head_messages(200, &headers, false);
    assert_eq!(head.len(), 2);
    assert!(matches!(&head[0], PollnetMessage::Binary(b) if b == b"200 OK"));
    assert!(matches!(&head[1], PollnetMessage::Binary(b) if b == b"server:test\n"));
    assert!(http_head_messages(404, &headers, true).is_empty());
    let odd = http_head_messages(599, &Vec::new(), false);
    assert!(matches!(&odd[0], PollnetMessage::Binary(b) if b == b"599 <unknown status code>"));
    let body = http_body_messages(Ok(vec![1, 2, 3]));
    assert_eq!(body.len(), 2);
    assert!(matches!(&body[0], PollnetMessage::Binary(b) if *b == vec![1, 2, 3]));
    assert!(matches!(&body[1], PollnetMessage::Disconnect));
    let failed = http_body_messages(Err("timed out".to_string()));
    assert_eq!(failed.len(), 1);
    assert!(matches!(&failed[0], PollnetMessage::Error(e) if e == "timed out"));
}

#[test]
fn build_and_validate_path_joins_normal_components() {
    assert_eq!(build_and_validate_path("/srv", "/index.html"), Some("/srv/index.html".to_string()));
    assert_eq!(build_and_validate_path("/srv/", "a//b/./c"), Some("/srv/a/b/c".to_string()));
    assert_eq!(build_and_validate_path("/srv", "///x/"), Some("/srv/x".to_string()));
    assert_eq!(build_and_validate_path("", "a/b"), Some("a/b".to_string()));
    assert_eq!(build_and_validate_path("/srv", "/"), Some("/srv".to_string()));
    assert_eq!(build_and_validate_path("/srv", "./..."), Some("/srv/...".to_string()));
}

#[test]
fn build_and_validate_path_refuses_parent_components() {
    assert_eq!(build_and_validate_path("/srv", "/../etc/passwd"), None);
    assert_eq!(build_and_validate_path("/srv", "a/.."), None);
    assert_eq!(build_and_validate_path("/srv", "a/../b"), None);
    assert_eq!(build_and_validate_path("/srv", ".."), None);
}

#[test]
fn build_and_validate_path_reads_paths_as_the_target_does() {
    assert_eq!(target_path_style(), PathStyle::Unix);
    assert_eq!(build_and_validate_path("b", "c:"), Some("b/c:".to_string()));
    assert_eq!(build_and_validate_path("/srv", "c:/x"), Some("/srv/c:/x".to_string()));
    assert_eq!(build_and_validate_path("/srv", "a\\..\\b"), Some("/srv/a\\..\\b".to_string()));
    assert_eq!(build_and_validate_path("/srv", "\\x"), Some("/srv/\\x".to_string()));
    assert_eq!(build_and_validate_path("/srv", "a/../b"), None);
}

#[test]
fn unix_reading_keeps_backslashes_and_drives() {
    let unix = PathStyle::Unix;
    assert_eq!(build_and_validate_path_in(unix, "/srv/www", "/..\\x"), Some("/srv/www/..\\x".to_string()));
    assert_eq!(build_and_validate_path_in(unix, "/srv/", "a//b"), Some("/srv/a/b".to_string()));
    assert_eq!(build_and_validate_path_in(unix, "/srv", "x/.."), None);
}

#[test]
fn windows_reading_refuses_roots_drives_and_backslash_parents() {
    let win = PathStyle::Windows;
    assert_eq!(build_and_validate_path_in(win, "/srv/www", "/..\\x"), None);
    assert_eq!(build_and_validate_path_in(win, "/srv", "\\x"), None);
    assert_eq!(build_and_validate_path_in(win, "/srv", "c:/x"), None);
    assert_eq!(build_and_validate_path_in(win, "/srv", "a/c:/b"), None);
    assert_eq!(build_and_validate_path_in(win, "/srv", "a\\..\\b"), None);
    assert_eq!(build_and_validate_path_in(win, "/srv", "a\\b"), Some("/srv\\a\\b".to_string()));
    assert_eq!(build_and_validate_path_in(win, "/srv", "ab:c"), Some("/srv\\ab:c".to_string()));
    assert_eq!(build_and_validate_path_in(win, "C:", "x/y"), Some("C:x\\y".to_string()));
    assert_eq!(build_and_validate_path_in(win, "C:\\www\\", "a/./b"), Some("C:\\www\\a\\b".to_string()));
    assert_eq!(build_and_validate_path_in(win, "C:\\www/", "a"), Some("C:\\www/a".to_string()));
}

#[test]
fn virtual_files_read_after_write() {
    let mut files = VirtualFiles::new();
    assert!(files.get("/a").is_none());
    files.add("/a".to_string(), vec![1]);
    files.add("/b".to_string(), vec![2]);
    files.add("/a".to_string(), vec![3]);
    assert_eq!(files.get("/a"), Some(&vec![3]));
    assert_eq!(files.get("/b"), Some(&vec![2]));
    files.remove("/a");
    assert!(files.get("/a").is_none());
    assert_eq!(files.get("/b"), Some(&vec![2]));
    files.remove("/zzz");
    assert_eq!(files.get("/b"), Some(&vec![2]));
}

#[test]
fn requests_route_to_memory_then_disk() {
    let mut files = VirtualFiles::new();
    files.add("/hello.txt".to_string(), b"hi".to_vec());
    let dir = Some("/srv".to_string());
    assert!(matches!(handle_http_request("/hello.txt", &dir, &files), HttpRoute::Memory(d) if d == b"hi"));
    assert!(matches!(handle_http_request("/x.txt", &dir, &files), HttpRoute::File(p) if p == "/srv/x.txt"));
    assert!(matches!(handle_http_request("/../x", &dir, &files), HttpRoute::NotFound));
    assert!(matches!(handle_http_request("/x.txt", &None, &files), HttpRoute::NotFound));
    assert!(matches!(simple_file_send("/srv", "/a/b"), HttpRoute::File(p) if p == "/srv/a/b"));
}

#[test]
fn static_server_follows_host_messages() {
    let mut server = HttpServer::new(None);
    assert!(server.control(Some(PollnetMessage::FileAdd("/f".to_string(), vec![9]))));
    assert!(matches!(server.route("/f"), HttpRoute::Memory(d) if d == vec![9]));
    assert!(server.control(Some(PollnetMessage::Text("ignored".to_string()))));
    assert!(server.control(Some(PollnetMessage::FileRemove("/f".to_string()))));
    assert!(matches!(server.route("/f"), HttpRoute::NotFound));
    assert!(!server.control(Some(PollnetMessage::Error("x".to_string()))));
    assert!(!server.control(Some(PollnetMessage::Disconnect)));
    assert!(!server.control(None));
}

#[test]
fn stream_commands_from_host_messages() {
    assert!(matches!(tcp_command(Some(PollnetMessage::Text("ab".to_string()))), StreamCommand::Write(b) if b == b"ab"));
    assert!(matches!(tcp_command(Some(PollnetMessage::Binary(vec![1]))), StreamCommand::Write(b) if b == vec![1]));
    assert!(matches!(tcp_command(Some(PollnetMessage::Disconnect)), StreamCommand::Close));
    assert!(matches!(tcp_command(None), StreamCommand::Close));
    assert!(matches!(tcp_command(Some(PollnetMessage::Connect)), StreamCommand::Ignore));
    assert!(matches!(ws_command(Some(PollnetMessage::Text("ab".to_string()))), WsCommand::SendText(t) if t == "ab"));
    assert!(matches!(ws_command(Some(PollnetMessage::Binary(vec![2]))), WsCommand::SendBinary(b) if b == vec![2]));
    assert!(matches!(ws_command(None), WsCommand::Close));
    assert!(matches!(ws_command(Some(PollnetMessage::FileRemove("x".to_string()))), WsCommand::Ignore));
}

#[test]
fn stream_reports_to_the_host() {
    let r = tcp_read_report(TcpRead::Closed);
    assert!(r.stop && matches!(r.message, Some(PollnetMessage::Disconnect)));
    let r = tcp_read_report(TcpRead::Data(vec![1, 2]));
    assert!(!r.stop && matches!(r.message, Some(PollnetMessage::Binary(ref b)) if *b == vec![1, 2]));
    let r = tcp_read_report(TcpRead::WouldBlock);
    assert!(!r.stop && r.message.is_none());
    let r = tcp_read_report(TcpRead::Failed("reset".to_string()));
    assert!(r.stop && matches!(r.message, Some(PollnetMessage::Error(ref e)) if e == "reset"));
    let r = ws_incoming_report(WsIncoming::Message(vec![3]));
    assert!(!r.stop && matches!(r.message, Some(PollnetMessage::Binary(ref b)) if *b == vec![3]));
    let r = ws_incoming_report(WsIncoming::Failed("bad frame".to_string()));
    assert!(r.stop && matches!(r.message, Some(PollnetMessage::Error(ref e)) if e == "bad frame"));
    let r = ws_incoming_report(WsIncoming::Ended);
    assert!(r.stop && matches!(r.message, Some(PollnetMessage::Disconnect)));
    let r = write_failure_report("broken pipe".to_string());
    assert!(r.stop && matches!(r.message, Some(PollnetMessage::Error(ref e)) if e == "broken pipe"));
}

#[test]
fn listeners_and_requests_follow_host_messages() {
    assert!(matches!(connect_message(SocketKind::TcpServer), Some(PollnetMessage::Connect)));
    assert!(matches!(connect_message(SocketKind::WsClient), Some(PollnetMessage::Connect)));
    assert!(connect_message(SocketKind::HttpGet).is_none());
    assert!(connect_message(SocketKind::StaticHttp).is_none());

    let text = Some(PollnetMessage::Text("x".to_string()));
    let err = Some(PollnetMessage::Error("x".to_string()));
    assert!(control_continues(SocketKind::TcpServer, &text));
    assert!(!control_continues(SocketKind::TcpServer, &Some(PollnetMessage::Disconnect)));
    assert!(!control_continues(SocketKind::TcpServer, &None));
    assert!(control_continues(SocketKind::TcpServer, &err));
    assert!(control_continues(SocketKind::WsServer, &text));
    assert!(!control_continues(SocketKind::WsServer, &Some(PollnetMessage::Binary(vec![]))));
    assert!(!control_continues(SocketKind::DynamicHttp, &err));
    assert!(control_continues(SocketKind::DynamicHttp, &text));
    assert!(!control_continues(SocketKind::HttpPost, &None));
    assert!(control_continues(SocketKind::HttpGet, &text));

    let r = accept_failure_report(SocketKind::WsServer, "too many files".to_string());
    assert!(r.stop && matches!(r.message, Some(PollnetMessage::Error(ref e)) if e == "too many files"));
    let r = accept_failure_report(SocketKind::TcpServer, "x".to_string());
    assert!(!r.stop && r.message.is_none());
}

#[test]
fn channel_errors_and_text_helpers() {
    let (tx, rx) = std::sync::mpsc::channel::<u8>();
    assert_eq!(eh(tx.send(1)), Ok(()));
    drop(rx);
    assert_eq!(eh(tx.send(2)), Err(ChannelError));
    assert_eq!(ChannelError.message(), "Channel TX Error");
    assert!(str_eq("abc", "abc"));
    assert!(!str_eq("abc", "abd"));
    assert!(!str_eq("ab", "abc"));
}

#[test]
fn status_line_digits_read_back() {
    let head = http_head_messages(204, &Vec::new(), false);
    match &head[0] {
        PollnetMessage::Binary(b) => {
            assert_eq!(b, b"204 No Content");
            assert_eq!(parse_status(Some(PollnetMessage::Binary(b[..3].to_vec()))), 204);
        }
        _ => panic!("expected the status line"),
    }
}

#[test]
fn validated_paths_stay_under_the_base() {
    for req in ["/a/b", "x/./y/", "//z", "", "...", "a..b/c"] {
        let p = build_and_validate_path("/var/www", req).unwrap();
        assert!(p.starts_with("/var/www"));
        assert!(!p["/var/www".len()..].split('/').any(|piece| piece == ".."));
    }
}

#[test]
fn failed_bind_reports_and_stops() {
    let rep = bind_failure_report("address in use".to_string());
    assert!(rep.stop);
    match rep.message {
        Some(PollnetMessage::Error(e)) => assert_eq!(e, "address in use"),
        _ => panic!("expected the error"),
    }
}

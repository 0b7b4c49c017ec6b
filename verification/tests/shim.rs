use aifo_coder::shim_body::decode_chunked_body;
use aifo_coder::shim::{
    chunk_size_line, chunked_request_body, compute_wait_secs, exec_request_head, final_exit_code, find_header_end,
    native_exit_code,
    form_body, http_target, line_text, notify_body, notify_request_head, notify_response, parse_response_headers,
    signal_body, signal_curl_args, signal_exit_code, signal_for_count, signal_request_head, split_line, trailer_line,
    unix_socket_path, urlencode_component, ChunkLine, TrailerLine,
};

#[test]
fn notify_urlencode_component_covers_star_and_space() {
    assert_eq!(urlencode_component("say*"), "say%2A");
    assert_eq!(urlencode_component("a b"), "a+b");
    let body = notify_body("say*", &vec!["a b".to_string()]);
    assert!(body.contains("cmd=say%2A") || body.contains("cmd=say%2a"), "expected '*' encoded, got: {}", body);
    assert!(body.contains("arg=a+b") || body.contains("arg=a%20b"), "expected space encoded (+ or %20), got: {}", body);
    assert_eq!(body, "cmd=say%2A&arg=a+b");
}

#[test]
fn urlencode_keeps_unreserved_and_encodes_utf8_bytes() {
    assert_eq!(urlencode_component("Az09-_.~"), "Az09-_.~");
    assert_eq!(urlencode_component("ä"), "%C3%A4");
    let enc = urlencode_component("a&b=c d");
    assert_eq!(enc, "a%26b%3Dc+d");
    assert!(!enc.contains('&') && !enc.contains('=') && !enc.contains(' '));
}

#[test]
fn exec_form_body_has_tool_cwd_and_args() {
    let parts = vec![
        ("tool".to_string(), "cargo".to_string()),
        ("cwd".to_string(), ".".to_string()),
        ("arg".to_string(), "--help".to_string()),
    ];
    let body = form_body(&parts);
    assert!(body.contains("tool=") && body.contains("cwd="), "expected form parts, got: {}", body);
    assert_eq!(body, "tool=cargo&cwd=.&arg=--help");
    assert_eq!(form_body(&vec![]), "");
}

#[test]
fn exec_chunked_trailer_exit_code_124() {
    let (chunked, code) = parse_response_headers("HTTP/1.1 200 OK\r\nTransfer-Encoding: chunked\r\nConnection: close");
    assert!(chunked);
    assert_eq!(code, None);
    match chunk_size_line("5\r") {
        ChunkLine::Size(n) => assert_eq!(n, 5),
        _ => panic!("expected a size"),
    }
    match chunk_size_line("1a;ext=1") {
        ChunkLine::Size(n) => assert_eq!(n, 26),
        _ => panic!("expected a size"),
    }
    assert!(matches!(chunk_size_line("   "), ChunkLine::Blank));
    assert!(matches!(chunk_size_line("zz"), ChunkLine::Stop));
    match trailer_line("X-Exit-Code: 124") {
        TrailerLine::Exit(c) => assert_eq!(c, 124),
        _ => panic!("expected the exit code"),
    }
    assert!(matches!(trailer_line(""), TrailerLine::End));
    assert!(matches!(trailer_line("X-Other: 1"), TrailerLine::Other));
    assert_eq!(final_exit_code(Some(124), &None), 124);
    assert_eq!(final_exit_code(Some(124), &Some("0".to_string())), 124);
    assert_eq!(final_exit_code(None, &None), 0);
    assert_eq!(final_exit_code(None, &Some("1".to_string())), 0);
    assert_eq!(final_exit_code(None, &Some("0".to_string())), 1);
}

#[test]
fn header_end_lf_only_parsing_on_notify() {
    let buf = b"HTTP/1.1 200 OK\nX-Exit-Code: 86\nContent-Length: 0\nConnection: close\n\n";
    let end = find_header_end(buf).expect("end");
    assert_eq!(end, buf.len());
    let (code, body_at) = notify_response(buf);
    assert_eq!(code, 86);
    assert_eq!(body_at, buf.len());
    let crlf = b"HTTP/1.1 200 OK\r\nx-exit-code: 3\r\n\r\nbody";
    assert_eq!(find_header_end(crlf), Some(crlf.len() - 4));
    assert_eq!(notify_response(crlf).0, 3);
    assert_eq!(notify_response(b"HTTP/1.1 200 OK\r\n\r\n").0, 1);
    assert_eq!(find_header_end(b"no end"), None);
}

#[test]
fn response_headers_take_the_last_exit_code() {
    let (chunked, code) = parse_response_headers("HTTP/1.1 200 OK\nX-Exit-Code: 2\nx-exit-code: 7\n");
    assert!(!chunked);
    assert_eq!(code, Some(7));
}

#[test]
fn chunked_body_framing_and_lines() {
    assert_eq!(chunked_request_body(b"abc"), b"3\r\nabc\r\n0\r\n\r\n".to_vec());
    assert_eq!(chunked_request_body(b""), b"0\r\n\r\n".to_vec());
    let big = vec![b'x'; 8200];
    let framed = chunked_request_body(&big);
    assert!(framed.starts_with(b"2000\r\n"));
    let tail = format!("\r\n8\r\n{}\r\n0\r\n\r\n", "x".repeat(8));
    assert!(framed.ends_with(tail.as_bytes()));
    assert_eq!(split_line(b"ab\r\ncd"), Some((2, 4)));
    assert_eq!(split_line(b"ab\ncd"), Some((2, 3)));
    assert_eq!(split_line(b"abcd"), None);
    assert_eq!(line_text(b"ok").as_deref(), Some("ok"));
    assert_eq!(line_text(&[0xff, 0xfe]), None);
}

#[test]
fn targets_and_request_heads() {
    assert_eq!(http_target("http://127.0.0.1:8080/exec"), ("127.0.0.1".to_string(), 8080, "/exec".to_string()));
    assert_eq!(http_target("http://host"), ("host".to_string(), 80, "/exec".to_string()));
    assert_eq!(http_target("http://host:notaport/x"), ("host".to_string(), 80, "/x".to_string()));
    assert_eq!(unix_socket_path("unix:///tmp/shim.sock"), "/tmp/shim.sock");
    let h = exec_request_head("/exec", "localhost", "t", "e1");
    assert!(h.starts_with("POST /exec HTTP/1.1\r\n"));
    assert!(h.contains("Authorization: Bearer t\r\n"));
    assert!(h.contains("X-Aifo-Exec-Id: e1\r\n"));
    assert!(h.ends_with("\r\n\r\n"));
    let n = notify_request_head("localhost", "t", 12);
    assert!(n.contains("X-Aifo-Client: rust-shim-native\r\n") && n.contains("Content-Length: 12\r\n"));
    let s = signal_request_head("localhost", "t", 5);
    assert!(s.starts_with("POST /signal HTTP/1.1\r\n") && !s.contains("X-Aifo-Client"));
}

#[test]
fn send_signal_request_parts() {
    let body = signal_body("e1", "INT");
    assert!(body.contains("exec_id=e1"), "expected exec_id in body, got:\n{}", body);
    assert!(body.contains("signal=INT"), "expected signal=INT in body, got:\n{}", body);
    let head = signal_request_head("localhost", "t", body.len());
    assert!(head.contains("POST /signal"));
    assert!(head.contains("Authorization: Bearer t"));
    assert!(head.to_ascii_lowercase().contains("x-aifo-proto: 2"));
    let args = signal_curl_args("unix:///tmp/s.sock", "t", "e1", "INT");
    assert!(args.ends_with(&["--unix-socket".to_string(), "/tmp/s.sock".to_string(), "http://localhost/signal".to_string()]));
    let args = signal_curl_args("http://proxy:7/exec", "t", "e1", "TERM");
    assert_eq!(args.last().map(|s| s.as_str()), Some("http://proxy:7/signal"));
}

#[test]
fn signals_and_exit_codes() {
    assert_eq!(signal_for_count(1), "INT");
    assert_eq!(signal_for_count(2), "TERM");
    assert_eq!(signal_for_count(5), "KILL");
    assert_eq!(signal_exit_code(&None, "INT"), 0);
    assert_eq!(signal_exit_code(&Some("0".to_string()), "INT"), 130);
    assert_eq!(signal_exit_code(&Some("0".to_string()), "TERM"), 143);
    assert_eq!(signal_exit_code(&Some("0".to_string()), "HUP"), 129);
    assert_eq!(signal_exit_code(&Some("0".to_string()), "KILL"), 137);
    assert_eq!(compute_wait_secs(&None, false), 1);
    assert_eq!(compute_wait_secs(&None, true), 3);
    assert_eq!(compute_wait_secs(&Some(" 75 ".to_string()), false), 75);
    assert_eq!(compute_wait_secs(&Some("x".to_string()), false), 1);
}

#[test]
fn chunked_body_reads_back_with_trailer_code() {
    let body = b"hello world".to_vec();
    let framed = chunked_request_body(&body);
    assert_eq!(decode_chunked_body(&framed), (body, None));
    let big: Vec<u8> = (0..20000u32).map(|i| (i % 251) as u8).collect();
    assert_eq!(decode_chunked_body(&chunked_request_body(&big)).0, big);
    let resp = b"5\r\nhello\r\n\r\n6;x=1\r\n world\r\n0\r\nX-Exit-Code: 124\r\n\r\n";
    assert_eq!(decode_chunked_body(resp), (b"hello world".to_vec(), Some(124)));
    let lf_only = b"3\nabc\n0\nx-exit-code: 7\n\n";
    assert_eq!(decode_chunked_body(lf_only), (b"abc".to_vec(), Some(7)));
    let cut = b"a\r\nshort";
    assert_eq!(decode_chunked_body(cut), (b"short".to_vec(), None));
    let bad = b"zz\r\nabc\r\n";
    assert_eq!(decode_chunked_body(bad), (Vec::new(), None));
}

#[test]
fn test_disconnect_exit_code_default_and_override() {
    // The server answers with chunked headers and closes: no chunk, no trailer.
    let head = "HTTP/1.1 200 OK\r\nTransfer-Encoding: chunked\r\nConnection: close\r\n\r\n";
    assert_eq!(native_exit_code(head, b"", &None), 0, "default should be zero on disconnect");
    assert_eq!(native_exit_code(head, b"", &Some("0".to_string())), 1, "override should yield non-zero on disconnect");
}

#[test]
fn native_exit_code_from_trailer_or_header() {
    let chunked = "HTTP/1.1 200 OK\r\nTransfer-Encoding: chunked\r\nX-Exit-Code: 3\r\n\r\n";
    assert_eq!(native_exit_code(chunked, b"2\r\nok\r\n0\r\nX-Exit-Code: 124\r\n\r\n", &Some("0".to_string())), 124);
    let plain = "HTTP/1.1 200 OK\r\nX-Exit-Code: 7\r\n\r\n";
    assert_eq!(native_exit_code(plain, b"output", &None), 7);
    assert_eq!(native_exit_code("HTTP/1.1 200 OK\r\n\r\n", b"output", &Some("0".to_string())), 1);
}

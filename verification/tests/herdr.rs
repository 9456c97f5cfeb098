use herdr_simple_mcp::herdr::{
    config_dir, default_timeout, effective_timeout, encode_request, finish_request, frame_request,
    parse_response, pick_socket, prepare_request, request_id, session_socket_path,
    socket_candidates, Candidate, Deadline, HerdrError, Reply,
};
use herdr_simple_mcp::json::{parse_json, Json, Object};

fn message(err: HerdrError) -> String {
    match err {
        HerdrError::Transport(msg) => msg,
        other => panic!("expected transport error, got {other:?}"),
    }
}

fn empty() -> Json {
    Json::Object(Object::new())
}

#[test]
fn encodes_request_and_returns_result() {
    let prepared = prepare_request(1, "ping", empty(), None).unwrap();
    let sent: serde_json::Value = serde_json::from_slice(&prepared.line).unwrap();
    assert_eq!(sent["method"], "ping");
    assert!(sent["id"].as_str().unwrap().starts_with("req_"));
    assert!(sent["params"].is_object());

    let (id, deadline) = (prepared.id, prepared.deadline);
    let line = format!("{{\"id\":\"{id}\",\"result\":{{\"type\":\"pong\",\"version\":\"0.4.11\"}}}}\n");
    let result = finish_request(Reply::Read { bytes: line.len(), line }, &id, deadline).unwrap().into_value();
    assert_eq!(result["type"], "pong");
    assert_eq!(result["version"], "0.4.11");
}

#[test]
fn maps_error_envelope_to_api_error() {
    let params = parse_json(r#"{"pane_id": "nope"}"#).unwrap();
    let prepared = prepare_request(2, "pane.get", params, None).unwrap();
    let (id, deadline) = (prepared.id, prepared.deadline);
    let line = format!("{{\"id\":\"{id}\",\"error\":{{\"code\":\"not_found\",\"message\":\"no such pane\"}}}}\n");
    let err = finish_request(Reply::Read { bytes: line.len(), line }, &id, deadline).unwrap_err();
    match err {
        HerdrError::Api { code, message } => {
            assert_eq!(code, "not_found");
            assert_eq!(message, "no such pane");
        }
        other => panic!("expected Api error, got {other:?}"),
    }
}

#[test]
fn missing_result_is_a_protocol_error() {
    let err = parse_response(r#"{"id":"req_1"}"#, "req_1").unwrap_err();
    assert!(matches!(err, HerdrError::Transport(_)), "got {err:?}");
}

#[test]
fn id_mismatch_is_a_protocol_error() {
    let err = parse_response(r#"{"id":"other","result":{}}"#, "req_1").unwrap_err();
    match err {
        HerdrError::Transport(msg) => assert!(msg.contains("id mismatch"), "{msg}"),
        other => panic!("expected transport error, got {other:?}"),
    }
}

#[test]
fn responses_have_their_messages() {
    let of = |line: &str| message(parse_response(line, "req_1").unwrap_err());
    assert_eq!(of(r#"{"id":"req_1"}"#), "herdr response had neither result nor error");
    assert_eq!(
        of(r#"{"id":"a\"b","result":1}"#),
        "herdr response id mismatch: expected req_1, got Some(\"a\\\"b\")"
    );
    assert_eq!(of(r#"{"id":7,"result":1}"#), "herdr response id mismatch: expected req_1, got None");
    assert_eq!(of("[]"), "herdr response id mismatch: expected req_1, got None");
    assert!(of("{").starts_with("invalid JSON from herdr: EOF while parsing"));
    match parse_response(r#"{"id":"req_1","error":null}"#, "req_1").unwrap_err() {
        HerdrError::Api { code, message } => {
            assert_eq!(code, "unknown");
            assert_eq!(message, "(no message)");
        }
        other => panic!("expected Api error, got {other:?}"),
    }
    let result = parse_response(r#"{"id":"req_1","result":null}"#, "req_1").unwrap();
    assert!(matches!(result, Json::Null));
}

#[test]
fn an_error_with_another_id_is_a_protocol_error() {
    let line = r#"{"id":"other","error":{"code":"not_found","message":"no such pane"}}"#;
    assert_eq!(
        message(parse_response(line, "req_1").unwrap_err()),
        "herdr response id mismatch: expected req_1, got Some(\"other\")"
    );
    let line = r#"{"error":{"code":"not_found","message":"no such pane"}}"#;
    assert_eq!(
        message(parse_response(line, "req_1").unwrap_err()),
        "herdr response id mismatch: expected req_1, got None"
    );
    let line = r#"{"id":"req_1","error":{"code":"not_found","message":"m"},"result":1}"#;
    assert!(matches!(parse_response(line, "req_1"), Err(HerdrError::Api { .. })));
}

#[test]
fn a_request_is_one_line() {
    let mut params = Object::new();
    params.insert("text", Json::Str("a\nb\n".to_string()));
    let line = encode_request("req_7", "pane.send_text", Json::Object(params)).unwrap();
    assert_eq!(
        String::from_utf8(line).unwrap(),
        "{\"id\":\"req_7\",\"method\":\"pane.send_text\",\"params\":{\"text\":\"a\\nb\\n\"}}\n"
    );
    assert_eq!(
        message(frame_request(Err("boom".to_string())).unwrap_err()),
        "failed to encode request: boom"
    );
}

#[test]
fn request_ids_count() {
    assert_eq!(request_id(0), "req_0");
    assert_eq!(request_id(18446744073709551615), "req_18446744073709551615");
    assert_ne!(request_id(1), request_id(10));
}

#[test]
fn exchanges_that_fail_have_their_messages() {
    let deadline = Deadline { secs: 5, nanos: 500_000_000 };
    let of = |reply: Reply| message(finish_request(reply, "req_1", deadline).unwrap_err());
    let e = || "e".to_string();
    assert_eq!(of(Reply::ConnectFailed { path: "/s".to_string(), error: e() }), "connect /s: e");
    assert_eq!(of(Reply::WriteFailed { error: e() }), "write to herdr socket: e");
    assert_eq!(of(Reply::FlushFailed { error: e() }), "flush herdr socket: e");
    assert_eq!(of(Reply::TimedOut), "timed out after 5.5s waiting for herdr");
    assert_eq!(of(Reply::ReadFailed { error: e() }), "read from herdr socket: e");
    assert_eq!(
        of(Reply::Read { bytes: 0, line: String::new() }),
        "herdr socket closed before a response was received"
    );
}

#[test]
fn timeouts_follow_the_request_then_the_setting() {
    let params = parse_json(r#"{"timeout_ms": 1500}"#).unwrap();
    assert_eq!(effective_timeout(&params, Some("1")), Deadline { secs: 6, nanos: 500_000_000 });
    let params = parse_json(r#"{"timeout_ms": -1}"#).unwrap();
    assert_eq!(effective_timeout(&params, Some("2001")), Deadline { secs: 2, nanos: 1_000_000 });
    assert_eq!(effective_timeout(&Json::Null, None), Deadline { secs: 300, nanos: 0 });
    assert_eq!(default_timeout(Some("+20")), Deadline { secs: 0, nanos: 20_000_000 });
    assert_eq!(default_timeout(Some(" 20")), Deadline { secs: 300, nanos: 0 });
    assert_eq!(default_timeout(Some("")), Deadline { secs: 300, nanos: 0 });
    assert_eq!(default_timeout(Some("18446744073709551616")), Deadline { secs: 300, nanos: 0 });
    let most = parse_json(r#"{"timeout_ms": 18446744073709551615}"#).unwrap();
    assert_eq!(effective_timeout(&most, None), Deadline { secs: 18446744073709556, nanos: 615_000_000 });
}

#[test]
fn sockets_are_looked_for_in_order() {
    let home: &[u8] = b"/home/u";
    let all = |r: Result<Vec<Vec<u8>>, HerdrError>| {
        let paths: Vec<String> =
            r.unwrap().into_iter().map(|path| String::from_utf8(path).unwrap()).collect();
        paths.join(" ")
    };
    let session = "/home/u/.config/herdr/sessions/s/herdr.sock";
    let default = "/home/u/.config/herdr/herdr.sock";
    let x: Option<&[u8]> = Some(b"/x.sock");
    assert_eq!(
        all(socket_candidates(x, Some("s"), Some(home))),
        format!("/x.sock {session} {default}")
    );
    assert_eq!(all(socket_candidates(x, None, Some(home))), format!("/x.sock {default}"));
    assert_eq!(all(socket_candidates(x, Some(""), Some(home))), format!("/x.sock {default}"));
    assert_eq!(all(socket_candidates(x, Some("s"), None)), "/x.sock");
    assert_eq!(all(socket_candidates(x, None, None)), "/x.sock");
    assert_eq!(
        all(socket_candidates(None, Some("s"), Some(home))),
        format!("{session} {default}")
    );
    assert_eq!(all(socket_candidates(None, None, Some(home))), default);
    assert_eq!(all(socket_candidates(None, None, Some(b"/"))), "/.config/herdr/herdr.sock");
    assert_eq!(all(socket_candidates(None, None, Some(b""))), ".config/herdr/herdr.sock");
    assert_eq!(
        all(socket_candidates(None, Some("/s"), Some(home))),
        format!("/s/herdr.sock {default}")
    );
    assert_eq!(
        message(socket_candidates(None, Some(""), Some(home)).unwrap_err()),
        "HERDR_SESSION must not be empty"
    );
    assert_eq!(
        message(socket_candidates(None, Some("s"), None).unwrap_err()),
        "HOME is not set; cannot locate herdr socket"
    );
    assert_eq!(
        message(socket_candidates(None, None, None).unwrap_err()),
        "HOME is not set; cannot locate herdr socket"
    );
    assert_eq!(message(session_socket_path("", None).unwrap_err()), "HERDR_SESSION must not be empty");
    assert_eq!(config_dir(Some(home)).unwrap(), b"/home/u/.config/herdr".to_vec());
}

#[test]
fn the_first_socket_that_exists_is_picked() {
    let candidate = |path: &str, exists: bool| Candidate {
        path: path.as_bytes().to_vec(),
        shown: path.to_string(),
        exists,
    };
    assert_eq!(
        pick_socket(vec![candidate("/a", false), candidate("/b", true)]).unwrap(),
        b"/b".to_vec()
    );
    assert_eq!(
        message(pick_socket(vec![candidate("/a", false), candidate("/b", false)]).unwrap_err()),
        "no herdr socket found; checked: /a, /b"
    );
}

#[test]
fn failures_have_a_line() {
    assert_eq!(HerdrError::Transport("x".to_string()).text(), "x");
    let api = HerdrError::Api { code: "c".to_string(), message: "m".to_string() };
    assert_eq!(api.text(), "c: m");
}

use herdr_simple_mcp::config::SurfaceEnv;
use herdr_simple_mcp::herdr::HerdrError;
use herdr_simple_mcp::json::{parse_json, Json, Object};
use herdr_simple_mcp::manifest::{load, MethodSpec};
use herdr_simple_mcp::server::{
    answer, begin_call, build_surface, end_call, error_body, error_line, error_result,
    failure_result, guard_reason, plan_tool, success_result, Answer, Plan, Step, Surface,
};
use herdr_simple_mcp::version::{minor, ping_warning, version_skew};

fn surface_of(profile: &str, allow: &str, deny: &str) -> (Vec<MethodSpec>, Surface) {
    let methods = load();
    let env = SurfaceEnv {
        profile: Some(profile.to_string()),
        groups: None,
        allow: Some(allow.to_string()),
        deny: Some(deny.to_string()),
    };
    let surface = build_surface(&methods, &env);
    (methods, surface)
}

fn find<'a>(methods: &'a [MethodSpec], method: &str) -> &'a MethodSpec {
    methods.iter().find(|m| m.method == method).unwrap()
}

fn object(text: &str) -> Object {
    match parse_json(text).unwrap() {
        Json::Object(object) => object,
        _ => panic!("no object"),
    }
}

#[test]
fn one_tool_per_method_with_annotations() {
    let (methods, surface) = surface_of("observer", "", "");
    assert_eq!(surface.tools.len(), methods.len());
    assert_eq!(surface.summary, "23/76 tools enabled");
    for (method, tool) in methods.iter().zip(&surface.tools) {
        assert_eq!(method.tool_name, tool.name);
        assert_eq!(tool.read_only, method.group == "observe");
        assert_eq!(tool.destructive, !tool.read_only || method.danger);
        assert_eq!(tool.enabled, method.group == "observe");
    }
    assert!(!surface.known.contains("herdr_call"));
    assert!(surface.known.contains("server.stop"));
}

#[test]
fn calls_are_checked_before_they_are_sent() {
    let (methods, surface) = surface_of("full", "", "");
    let send = find(&methods, "agent.send");
    match plan_tool(send, object(r#"{"target": "x"}"#), &surface) {
        Plan::Refuse { kind, code, message, method } => {
            assert_eq!(kind, "request");
            assert_eq!(code, "invalid_params");
            assert_eq!(message, "missing required field `text`");
            assert_eq!(method, "agent.send");
        }
        other => panic!("got {other:?}"),
    }
    match plan_tool(send, object(r#"{"target": "x", "text": "y"}"#), &surface) {
        Plan::Forward { method, params } => {
            assert_eq!(method, "agent.send");
            assert_eq!(params.into_value()["text"], "y");
        }
        other => panic!("got {other:?}"),
    }
}

#[test]
fn the_escape_hatch_keeps_to_the_surface() {
    let (methods, surface) = surface_of("observer", "herdr_call", "plugin.*");
    let hatch = find(&methods, "herdr_call");
    let reason = |text: &str| match plan_tool(hatch, object(text), &surface) {
        Plan::Refuse { kind, code, message, method } => format!("{kind} {code} {message} {method}"),
        Plan::Forward { method, params } => format!("{method} {}", params.into_value()),
    };
    assert_eq!(
        reason(r#"{"method": "plugin.list"}"#),
        "request forbidden `plugin.list` is blocked by HERDR_MCP_DENY plugin.list"
    );
    assert_eq!(
        reason(r#"{"method": "server.stop"}"#),
        "request forbidden `server.stop` is disabled by the current profile; herdr_call cannot bypass it server.stop"
    );
    assert_eq!(reason("{}"), "request invalid_params missing required field `method` herdr_call");
    assert_eq!(reason(r#"{"method": "pane.list"}"#), "pane.list {}");
    assert_eq!(reason(r#"{"method": "brand.new", "params": {"a": 1}}"#), r#"brand.new {"a":1}"#);
    assert_eq!(
        guard_reason("pane.list", &surface.enabled, &surface.known, &surface.deny),
        None
    );
}

#[test]
fn failures_are_structured() {
    let body = error_body("api", "not_found", "no such pane", "pane.get").into_value();
    let expected: serde_json::Value = serde_json::from_str(
        r#"{"error":{"kind":"api","code":"not_found","message":"no such pane","method":"pane.get"}}"#,
    )
    .unwrap();
    assert_eq!(body, expected);
    assert_eq!(error_line("api", "c", "m", "x.y"), "api/c: m (x.y)");
}

#[test]
fn answers_follow_the_request() {
    assert!(matches!(answer("m", Ok(Json::UInt(3))), Answer::Success { result: Json::UInt(3) }));
    match answer("m", Err(HerdrError::Api { code: "c".to_string(), message: "t".to_string() })) {
        Answer::Failure { kind, code, message, method } => {
            assert_eq!((kind.as_str(), code.as_str(), message.as_str(), method.as_str()), ("api", "c", "t", "m"));
        }
        other => panic!("got {other:?}"),
    }
    match answer("m", Err(HerdrError::Transport("t".to_string()))) {
        Answer::Failure { kind, code, message, method } => {
            assert_eq!(
                (kind.as_str(), code.as_str(), message.as_str(), method.as_str()),
                ("transport", "transport", "t", "m")
            );
        }
        other => panic!("got {other:?}"),
    }
}

#[test]
fn versions_are_held_to_their_minor_number() {
    assert_eq!(minor("0.7.3"), "0.7");
    assert_eq!(minor("0.7"), "0.7");
    assert_eq!(minor("7"), "7");
    assert_eq!(minor(""), "");
    let pong = |text: &str| parse_json(text).unwrap();
    assert_eq!(version_skew(&pong(r#"{"version": "0.7.9"}"#), "0.7.0"), None);
    assert_eq!(version_skew(&pong(r#"{"version": ""}"#), "0.7.0"), None);
    assert_eq!(version_skew(&pong("{}"), "0.7.0"), None);
    assert_eq!(
        version_skew(&pong(r#"{"version": "0.8.0"}"#), "0.7.0").unwrap(),
        "herdr daemon version 0.8.0 differs from contract target 0.7.0; tool schemas may be stale (run `cargo test -- --ignored` for the drift check)"
    );
}

fn parsed(text: &str) -> serde_json::Value {
    serde_json::from_str(text).unwrap()
}

#[test]
fn refused_calls_are_answered_at_once() {
    let (methods, surface) = surface_of("full", "", "");
    let send = find(&methods, "agent.send");
    match begin_call(send, object(r#"{"target": "x", "text": "y", "typo": 1}"#), &surface) {
        Step::Done { result } => {
            assert!(result.is_error);
            assert_eq!(
                parsed(&result.text),
                parsed(
                    r#"{"error":{"kind":"request","code":"invalid_params","message":"unknown field `typo`","method":"agent.send"}}"#
                )
            );
        }
        other => panic!("got {other:?}"),
    }
    match begin_call(send, object(r#"{"target": "x", "text": "y"}"#), &surface) {
        Step::Request { method, params } => {
            assert_eq!(method, "agent.send");
            assert_eq!(params.into_value(), parsed(r#"{"target": "x", "text": "y"}"#));
        }
        other => panic!("got {other:?}"),
    }
}

#[test]
fn calls_end_with_the_outcome_of_their_request() {
    let result = end_call("ping", Ok(parse_json(r#"{"type": "pong"}"#).unwrap()));
    assert!(!result.is_error);
    assert_eq!(result.text, r#"{"type":"pong"}"#);
    let api = HerdrError::Api { code: "not_found".to_string(), message: "no such pane".to_string() };
    let result = end_call("pane.get", Err(api));
    assert!(result.is_error);
    assert_eq!(
        parsed(&result.text),
        parsed(
            r#"{"error":{"kind":"api","code":"not_found","message":"no such pane","method":"pane.get"}}"#
        )
    );
    let result = end_call("ping", Err(HerdrError::Transport("connect /s: refused".to_string())));
    assert!(result.is_error);
    assert_eq!(
        parsed(&result.text),
        parsed(
            r#"{"error":{"kind":"transport","code":"transport","message":"connect /s: refused","method":"ping"}}"#
        )
    );
}

#[test]
fn what_cannot_be_rendered_fails_in_one_line() {
    let result = failure_result(Err("e".to_string()), "api", "c", "m", "x.y");
    assert!(result.is_error);
    assert_eq!(result.text, "api/c: m (x.y)");
    let result = failure_result(Ok("{}".to_string()), "api", "c", "m", "x.y");
    assert!(result.is_error);
    assert_eq!(result.text, "{}");
    let result = success_result(Ok("3".to_string()), "x.y");
    assert!(!result.is_error);
    assert_eq!(result.text, "3");
    let result = success_result(Err("e".to_string()), "x.y");
    assert!(result.is_error);
    assert_eq!(result.text, error_result("transport", "serialize", "e", "x.y").text);
    assert_eq!(parsed(&result.text)["error"]["code"], "serialize");
}

#[test]
fn pings_warn_of_another_version_or_of_no_answer() {
    let pong = |text: &str| Ok(parse_json(text).unwrap());
    assert_eq!(ping_warning(pong(r#"{"version": "0.7.1"}"#), "0.7.0"), None);
    assert!(ping_warning(pong(r#"{"version": "1.7.0"}"#), "0.7.0").unwrap().contains("1.7.0"));
    let api = HerdrError::Api { code: "c".to_string(), message: "m".to_string() };
    assert_eq!(
        ping_warning(Err(api), "0.7.0").unwrap(),
        "could not verify herdr version (is it running?): c: m"
    );
    assert_eq!(
        ping_warning(Err(HerdrError::Transport("t".to_string())), "0.7.0").unwrap(),
        "could not verify herdr version (is it running?): t"
    );
}

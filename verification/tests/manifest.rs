use herdr_simple_mcp::contract::{default_type, read_manifest};
use herdr_simple_mcp::json::{parse_json, Json, Object};
use herdr_simple_mcp::manifest::{
    checked_herdr_version, checked_load, checked_parse, escape_hatch, herdr_version, load,
    method_specs, parse, MethodSpec, HERDR_CALL,
};
use herdr_simple_mcp::schema::{input_schema, validate};
use herdr_simple_mcp::yaml::parse_yaml;

fn value(text: &str) -> serde_json::Value {
    serde_json::from_str(text).unwrap()
}

fn arg(pairs: &[(&str, &str)]) -> Object {
    let mut object = Object::new();
    for (key, text) in pairs {
        object.insert(key, parse_json(text).unwrap());
    }
    object
}

fn find<'a>(specs: &'a [MethodSpec], method: &str) -> &'a MethodSpec {
    specs.iter().find(|s| s.method == method).unwrap()
}

fn schema(spec: &MethodSpec) -> serde_json::Value {
    input_schema(spec).into_value()
}

fn specs_of(text: &str) -> Option<Vec<MethodSpec>> {
    let node = parse_yaml(text)?;
    let manifest = read_manifest(&node)?;
    Some(method_specs(manifest))
}

#[test]
fn bundled_manifest_parses_and_includes_escape_hatch() {
    let specs = load();
    assert!(specs.len() >= 60, "expected the full surface, got {}", specs.len());
    assert!(specs.iter().any(|s| s.tool_name == HERDR_CALL));
    assert!(specs.iter().any(|s| s.method == "pane.send_input"));
    // every spec has a non-empty group and tool name
    for s in &specs {
        assert!(!s.group.is_empty(), "{} has no group", s.method);
        assert!(!s.tool_name.is_empty());
    }
}

#[test]
fn typed_method_schema_is_strict_with_required() {
    let specs = load();
    // a fully-enumerated method stays strict (additionalProperties:false)
    let send = find(&specs, "agent.send");
    let schema_of_send = schema(send);
    assert_eq!(schema_of_send["additionalProperties"], value("false"));
    assert_eq!(schema_of_send["required"], value(r#"["target", "text"]"#));
    // enums are encoded straight from the source structs (SplitDirection = right|down)
    let split = find(&specs, "pane.split");
    assert_eq!(schema(split)["properties"]["direction"]["enum"], value(r#"["right", "down"]"#));
}

#[test]
fn passthrough_method_schema_is_open() {
    let specs = load();
    let plugin = find(&specs, "plugin.list");
    assert_eq!(schema(plugin)["additionalProperties"], value("true"));
}

#[test]
fn validate_enforces_required_unknown_and_enum() {
    let specs = load();

    // required + enum (pane.split: direction required, enum right|down)
    let split = find(&specs, "pane.split");
    assert!(validate(split, &Object::new()).is_err(), "missing required direction");
    assert!(validate(split, &arg(&[("direction", "\"sideways\"")])).is_err(), "bad enum");
    assert!(validate(split, &arg(&[("direction", "\"right\"")])).is_ok(), "valid split");

    // unknown-field rejection on a strict (fully-enumerated) method
    let send = find(&specs, "agent.send");
    assert!(
        validate(send, &arg(&[("target", "\"x\""), ("text", "\"y\""), ("typo", "1")])).is_err(),
        "unknown field"
    );
    assert!(validate(send, &arg(&[("target", "\"x\""), ("text", "\"y\"")])).is_ok(), "valid send");

    // passthrough allows extras
    let plugin = find(&specs, "plugin.list");
    assert!(validate(plugin, &arg(&[("whatever", "true")])).is_ok(), "passthrough allows extras");
}

#[test]
fn wait_methods_have_expected_contract() {
    let specs = load();

    // events.wait requires match_event (not subscriptions), plus optional timeout_ms.
    let ew = find(&specs, "events.wait");
    assert!(validate(ew, &Object::new()).is_err(), "missing match_event");
    assert!(validate(
        ew,
        &arg(&[
            ("match_event", r#"{"event": "pane_agent_status_changed"}"#),
            ("timeout_ms", "5000"),
        ])
    )
    .is_ok());

    // pane.wait_for_output requires pane_id + source + match (a structured object).
    let wfo = find(&specs, "pane.wait_for_output");
    assert!(validate(wfo, &Object::new()).is_err(), "missing required");
    assert!(validate(
        wfo,
        &arg(&[
            ("pane_id", "\"w1:p1\""),
            ("source", "\"recent\""),
            ("match", r#"{"type": "substring", "value": "done"}"#),
        ])
    )
    .is_ok());
}

#[test]
fn bundled_contract_is_read() {
    assert_eq!(herdr_version(), "0.7.0");
    assert_eq!(checked_herdr_version(), Some("0.7.0".to_string()));
    assert_eq!(checked_load().unwrap().len(), 76);
    assert_eq!(parse().methods.entries.len(), 75);
    assert_eq!(checked_parse().unwrap().herdr_version, "0.7.0");
}

#[test]
fn surface_is_in_order_and_named_after_methods() {
    let specs = load();
    let n = specs.len();
    for i in 0..n - 2 {
        assert!(specs[i].method < specs[i + 1].method);
    }
    for s in &specs {
        assert_eq!(s.tool_name, s.method.replace('.', "_"));
        assert!(!s.tool_name.contains('.'));
        for p in s.params.windows(2) {
            assert!(p[0].name < p[1].name);
        }
    }
    assert_eq!(specs[n - 1].method, "herdr_call");
}

#[test]
fn escape_hatch_is_dangerous_and_open() {
    let hatch = escape_hatch();
    assert_eq!(hatch.method, "herdr_call");
    assert_eq!(hatch.group, "raw");
    assert!(hatch.danger && hatch.passthrough);
    assert_eq!(
        hatch.description,
        "Escape hatch: call any herdr socket method directly. Use for methods not otherwise exposed, or after a daemon upgrade adds methods."
    );
    assert_eq!(hatch.params.len(), 2);
    assert!(hatch.params[0].required && !hatch.params[1].required);
    assert_eq!(
        schema(&hatch),
        value(
            r#"{"type": "object", "additionalProperties": true, "required": ["method"],
                "properties": {
                    "method": {"type": "string", "description": "herdr method, e.g. pane.list"},
                    "params": {"type": "object", "description": "Params object for the method."}}}"#
        )
    );
}

#[test]
fn contracts_fill_in_defaults() {
    let specs = specs_of(
        "methods:\n  z.m:\n    group: io\n    params:\n      b: {required: true, enum: [x, y]}\n      a: {type: integer, desc: ~}\n  a.m: {group: raw, extra: 1}\n",
    )
    .unwrap();
    assert_eq!(specs.len(), 3);
    assert_eq!(specs[0].method, "a.m");
    assert_eq!(specs[0].description, "");
    assert!(!specs[0].danger && !specs[0].passthrough);
    assert_eq!(specs[1].tool_name, "z_m");
    assert_eq!(specs[1].params[0].name, "a");
    assert_eq!(specs[1].params[0].ty, "integer");
    assert_eq!(specs[1].params[0].desc, None);
    assert_eq!(specs[1].params[1].ty, "string");
    assert_eq!(specs[1].params[1].enum_values, Some(vec!["x".to_string(), "y".to_string()]));
    assert_eq!(default_type(), "string");
}

#[test]
fn other_documents_hold_no_contract() {
    assert!(specs_of("methods: {}").is_some());
    assert!(specs_of("[").is_none());
    assert!(specs_of("- methods").is_none());
    assert!(specs_of("herdr_version: 1.0.0").is_none());
    assert!(specs_of("methods: []").is_none());
    assert!(specs_of("herdr_version: [a]\nmethods: {}").is_none());
    assert!(specs_of("methods: {a: {}}").is_none());
    assert!(specs_of("methods: {a: {group: [x]}}").is_none());
    assert!(specs_of("methods: {a: {group: x, danger: perhaps}}").is_none());
    assert!(specs_of("methods: {a: {group: x, params: [b]}}").is_none());
    assert!(specs_of("methods: {a: {group: x, params: {b: c}}}").is_none());
    assert!(specs_of("methods: {a: {group: x, params: {b: {enum: [[]]}}}}").is_none());
    assert!(specs_of("methods: {a: {group: x, params: {b: {desc: {}}}}}").is_none());
    assert!(specs_of("methods: {[a]: {group: x}}").is_none());
    assert!(specs_of("methods: text").is_none());
    assert!(specs_of("methods: {a: text}").is_none());
    assert!(specs_of("methods: {a: }").is_none());
    assert!(specs_of("").is_none());
    assert!(specs_of("methods: {a: {group: x, danger: }}").is_none());
    assert!(specs_of("methods: {a: {group: x}, a: {group: y}}").is_none());
}

#[test]
fn texts_may_be_any_scalar_and_empty_nodes_are_empty() {
    let node = parse_yaml("herdr_version: 0.7\nmethods:\n").unwrap();
    let manifest = read_manifest(&node).unwrap();
    assert_eq!(manifest.herdr_version, "0.7");
    assert!(manifest.methods.entries.is_empty());

    let specs = specs_of(
        "methods:\n  7:\n    group: true\n    description:\n    params:\n  m: !tag\n    group: io\n    params:\n      a:\n      b: {enum: [1, -2, false, x]}\n      c: {desc: 3, enum: }\n",
    )
    .unwrap();
    assert_eq!(specs.len(), 3);
    assert_eq!((specs[0].method.as_str(), specs[0].group.as_str()), ("7", "true"));
    assert_eq!(specs[0].description, "");
    assert!(specs[0].params.is_empty());
    let params = &specs[1].params;
    assert_eq!((params[0].name.as_str(), params[0].ty.as_str()), ("a", "string"));
    let texts: Vec<String> = ["1", "-2", "false", "x"].iter().map(|t| t.to_string()).collect();
    assert_eq!(params[1].enum_values, Some(texts));
    assert_eq!(params[2].desc, Some("3".to_string()));
    assert_eq!(params[2].enum_values, None);
}

#[test]
fn values_outside_an_enumeration_are_refused_whatever_their_type() {
    let specs = specs_of(
        "methods: {m: {group: io, params: {n: {type: integer, required: true, enum: ['1', '2']}, w: {type: widget, enum: [x]}}}}",
    )
    .unwrap();
    let m = &specs[0];
    let outside = Err("field `n` must be one of [1, 2]".to_string());
    assert_eq!(validate(m, &arg(&[("n", "3")])), outside);
    assert_eq!(validate(m, &arg(&[("n", "1")])), outside);
    assert_eq!(validate(m, &arg(&[("n", "\"1\"")])), Err("field `n` must be integer".to_string()));

    let specs = specs_of("methods: {m: {group: io, params: {w: {type: widget, enum: [x]}}}}").unwrap();
    let m = &specs[0];
    assert_eq!(validate(m, &arg(&[("w", "null")])), Err("field `w` must be one of [x]".to_string()));
    assert_eq!(validate(m, &arg(&[("w", "\"x\"")])), Ok(()));
    assert_eq!(validate(m, &arg(&[])), Ok(()));
}

#[test]
fn violations_have_their_messages() {
    let specs = specs_of(
        "methods:\n  m:\n    group: io\n    params:\n      count: {type: integer, required: true}\n      mode: {enum: [on, off]}\n      rate: {type: number}\n      list: {type: array}\n      flag: {type: boolean}\n      map: {type: object}\n      odd: {type: widget}\n",
    )
    .unwrap();
    let m = &specs[0];
    let check = |pairs: &[(&str, &str)]| validate(m, &arg(pairs));
    assert_eq!(check(&[]), Err("missing required field `count`".to_string()));
    assert_eq!(check(&[("count", "1")]), Ok(()));
    assert_eq!(check(&[("count", "-1")]), Ok(()));
    assert_eq!(check(&[("count", "1.5")]), Err("field `count` must be integer".to_string()));
    assert_eq!(check(&[("count", "1"), ("zz", "0"), ("aa", "0")]), Err("unknown field `aa`".to_string()));
    assert_eq!(
        check(&[("count", "1"), ("mode", "\"no\"")]),
        Err("field `mode` must be one of [on, off]".to_string())
    );
    assert_eq!(check(&[("count", "1"), ("mode", "\"off\"")]), Ok(()));
    assert_eq!(check(&[("count", "1"), ("mode", "1")]), Err("field `mode` must be string".to_string()));
    assert_eq!(check(&[("count", "1"), ("rate", "1.5")]), Ok(()));
    assert_eq!(check(&[("count", "1"), ("rate", "true")]), Err("field `rate` must be number".to_string()));
    assert_eq!(check(&[("count", "1"), ("list", "{}")]), Err("field `list` must be array".to_string()));
    assert_eq!(check(&[("count", "1"), ("list", "[]")]), Ok(()));
    assert_eq!(check(&[("count", "1"), ("flag", "null")]), Err("field `flag` must be boolean".to_string()));
    assert_eq!(check(&[("count", "1"), ("map", "[]")]), Err("field `map` must be object".to_string()));
    assert_eq!(check(&[("count", "1"), ("odd", "null")]), Ok(()));
}

#[test]
fn schema_lists_what_a_method_takes() {
    let specs = specs_of(
        "methods:\n  m:\n    group: io\n    params:\n      a: {type: integer}\n      b: {required: true, desc: second, enum: [x]}\n",
    )
    .unwrap();
    assert_eq!(
        schema(&specs[0]),
        value(
            r#"{"type": "object", "additionalProperties": false, "required": ["b"], "properties": {
                "a": {"type": "integer"},
                "b": {"type": "string", "description": "second", "enum": ["x"]}}}"#
        )
    );
    let specs = specs_of("methods: {m: {group: io}}").unwrap();
    assert_eq!(
        schema(&specs[0]),
        value(r#"{"type": "object", "additionalProperties": false, "properties": {}}"#)
    );
}

#[test]
fn json_values_keep_what_they_hold() {
    let text = r#"{"a":[null,true,18446744073709551615,-9223372036854775808,1.5,"x\n"],"b":{}}"#;
    let tree = parse_json(text).unwrap();
    assert_eq!(tree.into_value(), value(text));
    assert_eq!(Json::from_value(value(text)).into_value(), value(text));
    let mut object = Object::new();
    object.insert("k", Json::UInt(1));
    object.insert("k", Json::NegInt(-2));
    assert!(matches!(object.get("k"), Some(Json::NegInt(-2))));
    assert!(object.get("j").is_none());
    assert_eq!(Json::Object(object).into_value(), value(r#"{"k":-2}"#));
    assert!(parse_json("{").is_err());
}

#[test]
fn the_last_entry_of_a_key_counts() {
    let mut object = Object::new();
    for n in 0..40 {
        object.insert(if n % 3 == 0 { "a" } else { "b" }, Json::UInt(n));
    }
    object.insert("c", Json::Null);
    assert!(matches!(object.get("a"), Some(Json::UInt(39))));
    assert!(matches!(object.get("b"), Some(Json::UInt(38))));
    assert_eq!(Json::Object(object).into_value(), value(r#"{"a":39,"b":38,"c":null}"#));
}

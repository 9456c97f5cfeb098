use herdr_simple_mcp::config::{deny_matches, resolve};
use herdr_simple_mcp::herdr::{parse_response, request_id};
use herdr_simple_mcp::json::{parse_json, Object};
use herdr_simple_mcp::manifest::{input_schema, load, validate};

fn s(v: &[&str]) -> Vec<String> {
    v.iter().map(|x| x.to_string()).collect()
}

#[test]
fn only_methods_of_the_contract_are_enabled() {
    let m = load();
    let e = resolve(&m, "full", Some("observe,nonsense"), &s(&["*", "no.such"]), &[]);
    assert_eq!(e.len(), m.len());
    assert!(!e.contains("no.such"));
}

#[test]
fn loading_twice_gives_the_same_methods_and_no_name_twice() {
    let (a, b) = (load(), load());
    assert_eq!(a.len(), b.len());
    for (x, y) in a.iter().zip(&b) {
        assert_eq!(x.method, y.method);
        assert_eq!(x.params.len(), y.params.len());
    }
    let mut names: Vec<&str> = a.iter().map(|m| m.method.as_str()).collect();
    names.sort();
    names.dedup();
    assert_eq!(names.len(), a.len());
}

#[test]
fn the_hatch_and_the_surface_deny_the_same() {
    let m = load();
    let deny = s(&["plugin_*", "server.stop", " pane.re* "]);
    let e = resolve(&m, "full", Some("raw"), &s(&["*"]), &deny);
    for spec in &m {
        assert_eq!(e.contains(spec.method.as_str()), !deny_matches(&deny, &spec.method));
    }
}

#[test]
fn arguments_pass_if_the_schema_takes_them() {
    let m = load();
    let split = m.iter().find(|x| x.method == "pane.split").unwrap();
    let schema = input_schema(split).into_value();
    let values = schema["properties"]["direction"]["enum"].as_array().unwrap();
    for value in ["right", "down", "left"] {
        let mut args = Object::new();
        args.insert("direction", parse_json(&format!("\"{value}\"")).unwrap());
        assert_eq!(validate(split, &args).is_ok(), values.iter().any(|v| v == value));
    }
    assert_eq!(schema["required"][0], "direction");
    assert!(validate(split, &Object::new()).is_err());
}

#[test]
fn an_answer_belongs_to_one_request() {
    let line = format!("{{\"id\":\"{}\",\"result\":7}}", request_id(1));
    for number in [0, 1, 10, 11] {
        assert_eq!(parse_response(&line, &request_id(number)).is_ok(), number == 1);
    }
}

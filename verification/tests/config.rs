use herdr_simple_mcp::config::{
    deny_matches, deny_patterns, enabled_methods, glob_match, profile_groups, profile_warning, resolve,
    split_list, summary, unknown_profile, SurfaceEnv,
};
use herdr_simple_mcp::manifest;
use herdr_simple_mcp::manifest::MethodSpec;

fn s(v: &[&str]) -> Vec<String> {
    v.iter().map(|x| x.to_string()).collect()
}

fn env(profile: Option<&str>, groups: Option<&str>, allow: Option<&str>, deny: Option<&str>) -> SurfaceEnv {
    SurfaceEnv {
        profile: profile.map(|x| x.to_string()),
        groups: groups.map(|x| x.to_string()),
        allow: allow.map(|x| x.to_string()),
        deny: deny.map(|x| x.to_string()),
    }
}

fn method(name: &str, tool_name: &str, group: &str) -> MethodSpec {
    MethodSpec {
        method: name.to_string(),
        tool_name: tool_name.to_string(),
        group: group.to_string(),
        description: String::new(),
        danger: false,
        passthrough: false,
        params: Vec::new(),
    }
}

#[test]
fn full_enables_everything_but_raw() {
    let m = manifest::load();
    let e = resolve(&m, "full", None, &[], &[]);
    assert_eq!(e.len(), m.len() - 1); // all but the herdr_call escape hatch
    assert!(!e.contains("herdr_call"));
}

#[test]
fn client_is_narrow() {
    let m = manifest::load();
    let e = resolve(&m, "client", None, &[], &[]);
    assert!(e.contains("pane.send_input")); // io
    assert!(e.contains("pane.read")); // observe
    assert!(e.contains("pane.report_agent")); // authority
    assert!(e.contains("events.wait")); // events
    assert!(!e.contains("workspace.create")); // structure
    assert!(!e.contains("agent.start")); // agents
    assert!(!e.contains("server.stop")); // admin
    assert!(!e.contains("herdr_call")); // raw escape hatch excluded
}

#[test]
fn coordinator_has_agents_not_admin_or_raw() {
    let m = manifest::load();
    let e = resolve(&m, "coordinator", None, &[], &[]);
    assert!(e.contains("agent.start"));
    assert!(e.contains("workspace.create"));
    assert!(!e.contains("server.stop"));
    assert!(!e.contains("pane.report_agent"));
    assert!(!e.contains("herdr_call"));
}

#[test]
fn raw_escape_hatch_is_opt_in() {
    let m = manifest::load();
    assert!(!resolve(&m, "full", None, &[], &[]).contains("herdr_call"));
    assert!(!resolve(&m, "observer", None, &[], &[]).contains("herdr_call"));
    // opt in explicitly via ALLOW or the raw group
    assert!(resolve(&m, "observer", None, &s(&["herdr_call"]), &[]).contains("herdr_call"));
    assert!(resolve(&m, "full", Some("raw"), &[], &[]).contains("herdr_call"));
}

#[test]
fn unknown_profile_fails_closed_to_observer() {
    let m = manifest::load();
    let e = resolve(&m, "obsever", None, &[], &[]);
    assert!(e.contains("workspace.list")); // observe
    assert!(!e.contains("workspace.create")); // not structure
    assert!(!e.contains("server.stop")); // not admin
}

#[test]
fn groups_override_and_deny_wins() {
    let m = manifest::load();
    let e = resolve(&m, "full", Some("observe"), &[], &[]);
    assert!(e.contains("workspace.list"));
    assert!(!e.contains("workspace.create"));

    let e = resolve(&m, "full", None, &s(&["server.stop"]), &s(&["server.*"]));
    assert!(!e.contains("server.stop"));
    assert!(!e.contains("server.reload_config"));

    // underscore-form glob also matches
    let e = resolve(&m, "full", None, &[], &s(&["plugin_*"]));
    assert!(!e.contains("plugin.list"));
    assert!(!e.contains("plugin.enable"));
}

#[test]
fn profiles_have_the_documented_sizes() {
    let m = manifest::load();
    assert_eq!(resolve(&m, "full", None, &[], &[]).len(), 75);
    assert_eq!(resolve(&m, "coordinator", None, &[], &[]).len(), 53);
    assert_eq!(resolve(&m, "client", None, &[], &[]).len(), 34);
    assert_eq!(resolve(&m, "observer", None, &[], &[]).len(), 23);
    assert_eq!(resolve(&m, "obsever", None, &[], &[]).len(), 23);
    assert_eq!(resolve(&m, "  FULL ", None, &[], &[]).len(), 75);
}

#[test]
fn named_groups_are_trimmed_and_lowered_and_blank_ones_ignored() {
    let m = manifest::load();
    let e = resolve(&m, "full", Some(" , IO ,, Events "), &[], &[]);
    assert_eq!(e.len(), 6);
    assert!(e.contains("pane.send_keys"));
    assert!(e.contains("events.subscribe"));
    assert_eq!(resolve(&m, "client", Some("  "), &[], &[]).len(), 34);
    assert_eq!(resolve(&m, "client", Some(","), &[], &[]).len(), 0);
}

#[test]
fn denial_removes_by_name() {
    let m = vec![method("a.b", "a_b", "observe"), method("a.b", "other", "io"), method("c", "c", "io")];
    let e = resolve(&m, "observer", None, &[], &s(&["other"]));
    assert!(!e.contains("a.b"));
    let e = resolve(&m, "observer", None, &s(&[" c "]), &[]);
    assert!(e.contains("c"));
    assert_eq!(e.len(), 2);
}

#[test]
fn globs_match_by_prefix_or_whole() {
    assert!(glob_match("pane.*", "pane.read"));
    assert!(!glob_match("pane.*", "pan"));
    assert!(glob_match("*", ""));
    assert!(!glob_match("", "x"));
    assert!(glob_match("", ""));
    assert!(glob_match("pane.read", "pane.read"));
    assert!(!glob_match("pane.read", "pane.reads"));
    assert!(glob_match("a**", "a*b"));
    assert!(!glob_match("a**", "ab"));
    assert!(herdr_simple_mcp::config::matches(" pane_* ", &method("pane.read", "pane_read", "observe")));
    assert!(!herdr_simple_mcp::config::matches("tab*", &method("pane.read", "pane_read", "observe")));
}

#[test]
fn lists_are_split_trimmed_and_freed_of_empty_items() {
    assert_eq!(split_list(None), Vec::<String>::new());
    assert_eq!(split_list(Some(" a, ,b ,\u{3000}c\u{85}")), s(&["a", "b", "c"]));
    assert_eq!(split_list(Some("")), Vec::<String>::new());
}

#[test]
fn deny_patterns_match_either_name() {
    let patterns = deny_patterns(&env(None, None, None, Some("server.*, plugin_list")));
    assert_eq!(patterns, s(&["server.*", "plugin_list"]));
    assert!(deny_matches(&patterns, "server.stop"));
    assert!(deny_matches(&patterns, "plugin.list"));
    assert!(!deny_matches(&patterns, "plugin.link"));
    assert!(!deny_matches(&[], "plugin.link"));
}

#[test]
fn settings_select_the_surface() {
    let m = manifest::load();
    assert_eq!(enabled_methods(&m, &env(None, None, None, None)).len(), 75);
    let e = enabled_methods(&m, &env(Some("observer"), None, Some("agent.*"), Some("agent.start")));
    assert!(e.contains("agent.send"));
    assert!(!e.contains("agent.start"));
    assert_eq!(summary(&m, &env(Some("client"), None, None, None)), "34/76 tools enabled");
    assert_eq!(summary(&[], &env(None, None, None, None)), "0/0 tools enabled");
}

#[test]
fn unknown_profiles_are_named() {
    assert_eq!(unknown_profile(" Obsever"), Some("obsever".to_string()));
    assert_eq!(unknown_profile(" Observer"), None);
    assert_eq!(unknown_profile(""), Some("".to_string()));
}

#[test]
fn unknown_profiles_that_count_give_a_warning() {
    let warning = "unknown HERDR_MCP_PROFILE=\"obs\\\"ever\"; failing closed to 'observer' (read-only)";
    assert_eq!(
        profile_warning(&env(Some(" OBS\"ever "), Some(" "), None, None)),
        Some(warning.to_string())
    );
    assert_eq!(profile_warning(&env(Some("obsever"), Some("io"), None, None)), None);
    assert_eq!(profile_warning(&env(Some("Client"), None, None, None)), None);
    assert_eq!(profile_warning(&env(None, None, None, None)), None);
}

#[test]
fn profile_groups_take_out_raw() {
    let m = vec![method("x", "x", "raw"), method("y", "y", "custom")];
    let e = resolve(&m, "full", None, &[], &[]);
    assert!(e.contains("y"));
    assert!(!e.contains("x"));
    let groups = profile_groups("full", resolve(&m, "full", Some("raw,custom"), &[], &[]));
    assert_eq!(groups.len(), 2);
}

#[test]
fn profiles_nest_and_patterns_keep_them_nested() {
    let m = manifest::load();
    let (allow, deny) = (s(&["server.*"]), s(&["pane_*"]));
    let of = |profile: &str| resolve(&m, profile, None, &allow, &deny);
    for spec in &m {
        let name = spec.method.as_str();
        assert!(!of("observer").contains(name) || of("client").contains(name));
        assert!(!of("observer").contains(name) || of("coordinator").contains(name));
        assert!(!of("client").contains(name) || of("full").contains(name));
        assert!(!of("coordinator").contains(name) || of("full").contains(name));
    }
    assert!(of("observer").contains("server.stop"));
    assert!(!of("full").contains("pane.read"));
}

#[test]
fn raw_is_enabled_by_name_only() {
    let m = manifest::load();
    assert!(!resolve(&m, "full", Some("observe,io"), &s(&["pane.*"]), &[]).contains("herdr_call"));
    assert!(!resolve(&m, "full", Some("  "), &[], &[]).contains("herdr_call"));
    assert!(resolve(&m, "observer", Some("io, RAW"), &[], &[]).contains("herdr_call"));
    assert!(!resolve(&m, "observer", Some("raw"), &[], &s(&["herdr*"])).contains("herdr_call"));
}

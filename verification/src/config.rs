//! Which tools are offered.
//!
//! Methods carry a capability group, which the contract gives them. A profile is a named
//! bundle of groups. Four settings select the surface:
//!
//! - the profile: `full` (default), `coordinator`, `client` or `observer`;
//! - the groups: a comma list, which overrides the profile;
//! - what is allowed: a comma list of methods and `prefix*` patterns to add;
//! - what is denied: a comma list of methods and `prefix*` patterns to remove, which wins.
//!
//! Patterns match the dotted method (`pane.*`) or the tool name (`pane_*`). The group `raw`,
//! that of the escape hatch, is in no profile: it has to be asked for by group or allowed.

use vstd::hash_set::StringHashSet;
use vstd::prelude::*;

use crate::contract::optional_text;
use crate::herdr::{debug_str, debug_text};
use crate::manifest::{methods_view, tool_name_of, MethodSpec, MethodView};
use crate::text::{
    characters, decimal, items, list_items, lowered, replace, same, starts_with, texts, to_decimal,
    to_lower, trim, trimmed,
};

verus! {

/// Whether a pattern matches a text: a pattern that ends in `*` by its start, any other as a
/// whole.
pub open spec fn glob(pattern: Seq<char>, target: Seq<char>) -> bool {
    if pattern.len() > 0 && pattern.last() == '*' {
        pattern.drop_last().is_prefix_of(target)
    } else {
        target == pattern
    }
}

/// Whether a pattern matches one of two names.
pub open spec fn glob_either(pattern: Seq<char>, method: Seq<char>, tool_name: Seq<char>) -> bool {
    glob(trimmed(pattern), method) || glob(trimmed(pattern), tool_name)
}

/// Whether one of the patterns matches a method, by its dotted name or its tool name.
pub open spec fn any_matches(patterns: Seq<Seq<char>>, method: MethodView) -> bool {
    exists|i: int|
        0 <= i < patterns.len() && glob_either(
            #[trigger] patterns[i],
            method.method,
            method.tool_name,
        )
}

/// Whether one of the patterns matches a dotted name or the tool name that belongs to it.
pub open spec fn any_hits(patterns: Seq<Seq<char>>, method: Seq<char>) -> bool {
    exists|i: int|
        0 <= i < patterns.len() && glob_either(
            #[trigger] patterns[i],
            method,
            tool_name_of(method),
        )
}

/// Whether a pattern matches a text.
pub fn glob_match(pat: &str, target: &str) -> (found: bool)
    ensures
        found == glob(pat@, target@),
{
    let chars: Vec<char> = characters(pat);
    let n: usize = chars.len();
    if n > 0 && chars[n - 1] == '*' {
        let prefix: &str = pat.substring_char(0, n - 1);
        assert(prefix@ =~= pat@.drop_last());
        starts_with(target, prefix)
    } else {
        same(target, pat)
    }
}

/// Whether a pattern matches a method.
pub fn matches(pat: &str, spec: &MethodSpec) -> (found: bool)
    ensures
        found == glob_either(pat@, spec@.method, spec@.tool_name),
{
    let pat: &str = trim(pat);
    glob_match(pat, spec.method.as_str()) || glob_match(pat, spec.tool_name.as_str())
}

/// Whether one of the patterns matches a method.
fn matches_any(patterns: &[String], spec: &MethodSpec) -> (found: bool)
    ensures
        found == any_matches(texts(patterns@), spec@),
{
    let ghost list = texts(patterns@);
    let mut i: usize = 0;
    while i < patterns.len()
        invariant
            i <= patterns.len() == list.len(),
            list == texts(patterns@),
            forall|j: int|
                0 <= j < i ==> !glob_either(#[trigger] list[j], spec@.method, spec@.tool_name),
        decreases patterns.len() - i,
    {
        assert(list[i as int] == patterns[i as int]@);
        if matches(patterns[i].as_str(), spec) {
            return true;
        }
        i = i + 1;
    }
    false
}

/// The items of an optional comma list.
pub open spec fn optional_items(value: Option<Seq<char>>) -> Seq<Seq<char>> {
    match value {
        Some(s) => list_items(s),
        None => Seq::empty(),
    }
}

/// The items of an optional comma list.
pub fn split_list(value: Option<&str>) -> (list: Vec<String>)
    ensures
        texts(list@) == optional_items(crate::json::text_option(value)),
{
    match value {
        Some(s) => items(s),
        None => {
            let list: Vec<String> = Vec::new();
            assert(texts(list@) =~= Seq::<Seq<char>>::empty());
            list
        },
    }
}

/// The groups of a profile. `full` is every group but `raw`; a profile that is not known
/// gives what `observer` gives.
pub open spec fn profile_set(profile: Seq<char>, all: Set<Seq<char>>) -> Set<Seq<char>> {
    let name = lowered(trimmed(profile));
    if name == "full"@ {
        all.remove("raw"@)
    } else if name == "coordinator"@ {
        set!["observe"@, "structure"@, "panes"@, "io"@, "agents"@, "events"@]
    } else if name == "client"@ {
        set!["observe"@, "io"@, "authority"@, "events"@]
    } else {
        set!["observe"@]
    }
}

/// Whether a profile has one of the four names.
pub open spec fn known_profile(profile: Seq<char>) -> bool {
    let name = lowered(trimmed(profile));
    name == "full"@ || name == "coordinator"@ || name == "client"@ || name == "observer"@
}

/// The name of a profile that is not known, for a warning.
pub fn unknown_profile(profile: &str) -> (r: Option<String>)
    ensures
        optional_text(r) == if known_profile(profile@) {
            None
        } else {
            Some(lowered(trimmed(profile@)))
        },
{
    let name: String = to_lower(trim(profile));
    if same(name.as_str(), "full") || same(name.as_str(), "coordinator") || same(
        name.as_str(),
        "client",
    ) || same(name.as_str(), "observer") {
        None
    } else {
        Some(name)
    }
}

/// The groups of a profile, out of all groups that there are.
pub fn profile_groups(profile: &str, all_groups: StringHashSet) -> (groups: StringHashSet)
    ensures
        groups@ == profile_set(profile@, all_groups@),
{
    let name: String = to_lower(trim(profile));
    if same(name.as_str(), "full") {
        let mut groups: StringHashSet = all_groups;
        groups.remove("raw");
        return groups;
    }
    let mut groups: StringHashSet = StringHashSet::new();
    groups.insert("observe".to_string());
    if same(name.as_str(), "coordinator") {
        groups.insert("structure".to_string());
        groups.insert("panes".to_string());
        groups.insert("io".to_string());
        groups.insert("agents".to_string());
        groups.insert("events".to_string());
    } else if same(name.as_str(), "client") {
        groups.insert("io".to_string());
        groups.insert("authority".to_string());
        groups.insert("events".to_string());
    }
    assert(groups@ =~= profile_set(profile@, all_groups@));
    groups
}

/// The groups that methods carry.
pub open spec fn all_groups(methods: Seq<MethodView>) -> Set<Seq<char>> {
    Set::new(
        |group: Seq<char>|
            exists|i: int| 0 <= i < methods.len() && (#[trigger] methods[i]).group == group,
    )
}

/// The groups that a comma list names, in lower case.
pub open spec fn named_groups(list: Seq<char>) -> Set<Seq<char>> {
    Set::new(
        |group: Seq<char>|
            exists|i: int|
                0 <= i < list_items(list).len() && lowered(#[trigger] list_items(list)[i]) == group,
    )
}

/// The selected groups: those that are named, if any text is given for them, else those of
/// the profile.
pub open spec fn selected_groups(
    methods: Seq<MethodView>,
    profile: Seq<char>,
    groups: Option<Seq<char>>,
) -> Set<Seq<char>> {
    match groups {
        Some(list) => if trimmed(list).len() > 0 {
            named_groups(list)
        } else {
            profile_set(profile, all_groups(methods))
        },
        None => profile_set(profile, all_groups(methods)),
    }
}

/// Whether a method of this name is in a selected group or allowed.
pub open spec fn wanted(
    methods: Seq<MethodView>,
    groups: Set<Seq<char>>,
    allow: Seq<Seq<char>>,
    name: Seq<char>,
) -> bool {
    exists|i: int|
        0 <= i < methods.len() && (#[trigger] methods[i]).method == name && (groups.contains(
            methods[i].group,
        ) || any_matches(allow, methods[i]))
}

/// Whether a method of this name is denied.
pub open spec fn denied(
    methods: Seq<MethodView>,
    deny: Seq<Seq<char>>,
    name: Seq<char>,
) -> bool {
    exists|i: int|
        0 <= i < methods.len() && (#[trigger] methods[i]).method == name && any_matches(
            deny,
            methods[i],
        )
}

/// The enabled methods: those of the selected groups and those that are allowed, without
/// those that are denied.
pub open spec fn surface(
    methods: Seq<MethodView>,
    profile: Seq<char>,
    groups: Option<Seq<char>>,
    allow: Seq<Seq<char>>,
    deny: Seq<Seq<char>>,
) -> Set<Seq<char>> {
    let selected = selected_groups(methods, profile, groups);
    Set::new(
        |name: Seq<char>|
            wanted(methods, selected, allow, name) && !denied(methods, deny, name),
    )
}

/// The groups that methods carry.
fn collect_groups(methods: &[MethodSpec]) -> (groups: StringHashSet)
    ensures
        groups@ == all_groups(methods_view(methods@)),
{
    let ghost views = methods_view(methods@);
    let mut groups: StringHashSet = StringHashSet::new();
    let mut i: usize = 0;
    assert(groups@ =~= all_groups(views.take(0)));
    while i < methods.len()
        invariant
            i <= methods.len() == views.len(),
            views == methods_view(methods@),
            groups@ == all_groups(views.take(i as int)),
        decreases methods.len() - i,
    {
        let ghost before = groups@;
        groups.insert(methods[i].group.clone());
        proof {
            let done = views.take(i as int);
            let next = views.take(i + 1);
            assert(next[i as int].group == methods[i as int].group@);
            assert forall|group: Seq<char>| all_groups(next).contains(group) <==> before.insert(
                methods[i as int].group@,
            ).contains(group) by {
                if all_groups(done).contains(group) {
                    let j = choose|j: int|
                        0 <= j < done.len() && (#[trigger] done[j]).group == group;
                    assert(next[j].group == group);
                }
                if all_groups(next).contains(group) {
                    let j = choose|j: int|
                        0 <= j < next.len() && (#[trigger] next[j]).group == group;
                    if j < i {
                        assert(done[j].group == group);
                    }
                }
            }
            assert(groups@ =~= all_groups(next));
        }
        i = i + 1;
    }
    assert(views.take(views.len() as int) =~= views);
    groups
}

/// The groups that a comma list names, in lower case.
fn parse_groups(list: &str) -> (groups: StringHashSet)
    ensures
        groups@ == named_groups(list@),
{
    let names: Vec<String> = items(list);
    let ghost wanted_names = list_items(list@);
    let mut groups: StringHashSet = StringHashSet::new();
    let mut i: usize = 0;
    while i < names.len()
        invariant
            i <= names.len() == wanted_names.len(),
            texts(names@) == wanted_names,
            forall|group: Seq<char>| #[trigger]
                groups@.contains(group) <==> exists|j: int|
                    0 <= j < i && lowered(#[trigger] wanted_names[j]) == group,
        decreases names.len() - i,
    {
        let ghost before = groups@;
        assert(wanted_names[i as int] == names[i as int]@);
        groups.insert(to_lower(names[i].as_str()));
        proof {
            assert forall|group: Seq<char>| #[trigger] groups@.contains(group) <==> exists|j: int|
                0 <= j < i + 1 && lowered(#[trigger] wanted_names[j]) == group by {
                if before.contains(group) {
                    let j = choose|j: int|
                        0 <= j < i && lowered(#[trigger] wanted_names[j]) == group;
                    assert(lowered(wanted_names[j]) == group);
                }
            }
        }
        i = i + 1;
    }
    assert(groups@ =~= named_groups(list@));
    groups
}

/// Resolves the surface: the groups of the profile or those that are named, then what is
/// allowed, then without what is denied.
pub fn resolve(
    methods: &[MethodSpec],
    profile: &str,
    groups_env: Option<&str>,
    allow: &[String],
    deny: &[String],
) -> (enabled: StringHashSet)
    ensures
        enabled@ == surface(
            methods_view(methods@),
            profile@,
            crate::json::text_option(groups_env),
            texts(allow@),
            texts(deny@),
        ),
{
    let ghost views = methods_view(methods@);
    let ghost selected = selected_groups(
        views,
        profile@,
        crate::json::text_option(groups_env),
    );
    let all: StringHashSet = collect_groups(methods);
    let groups: StringHashSet = match groups_env {
        Some(list) => {
            if !trim(list).is_empty() {
                parse_groups(list)
            } else {
                profile_groups(profile, all)
            }
        },
        None => profile_groups(profile, all),
    };
    assert(groups@ == selected);
    let mut enabled: StringHashSet = StringHashSet::new();
    let mut i: usize = 0;
    while i < methods.len()
        invariant
            i <= methods.len() == views.len(),
            views == methods_view(methods@),
            groups@ == selected,
            forall|name: Seq<char>| #[trigger]
                enabled@.contains(name) <==> wanted(
                    views.take(i as int),
                    selected,
                    texts(allow@),
                    name,
                ),
        decreases methods.len() - i,
    {
        let ghost before = enabled@;
        assert(views[i as int] == methods[i as int]@);
        if groups.contains(methods[i].group.as_str()) || matches_any(allow, &methods[i]) {
            enabled.insert(methods[i].method.clone());
        }
        proof {
            let done = views.take(i as int);
            let next = views.take(i + 1);
            assert(next[i as int] == methods[i as int]@);
            assert forall|name: Seq<char>| #[trigger] enabled@.contains(name) <==> wanted(
                next,
                selected,
                texts(allow@),
                name,
            ) by {
                if wanted(done, selected, texts(allow@), name) {
                    let j = choose|j: int|
                        0 <= j < done.len() && (#[trigger] done[j]).method == name && (
                        selected.contains(done[j].group) || any_matches(texts(allow@), done[j]));
                    assert(next[j] == done[j]);
                }
                if wanted(next, selected, texts(allow@), name) {
                    let j = choose|j: int|
                        0 <= j < next.len() && (#[trigger] next[j]).method == name && (
                        selected.contains(next[j].group) || any_matches(texts(allow@), next[j]));
                    if j < i {
                        assert(next[j] == done[j]);
                    }
                }
                assert(before.contains(name) <==> wanted(done, selected, texts(allow@), name));
            }
        }
        i = i + 1;
    }
    assert(views.take(views.len() as int) =~= views);
    let mut k: usize = 0;
    while k < methods.len()
        invariant
            k <= methods.len() == views.len(),
            views == methods_view(methods@),
            forall|name: Seq<char>| #[trigger]
                enabled@.contains(name) <==> wanted(views, selected, texts(allow@), name)
                    && !denied(views.take(k as int), texts(deny@), name),
        decreases methods.len() - k,
    {
        let ghost before = enabled@;
        assert(views[k as int] == methods[k as int]@);
        if matches_any(deny, &methods[k]) {
            enabled.remove(methods[k].method.as_str());
        }
        proof {
            let done = views.take(k as int);
            let next = views.take(k + 1);
            assert(next[k as int] == methods[k as int]@);
            assert forall|name: Seq<char>| #[trigger] enabled@.contains(name) <==> wanted(
                views,
                selected,
                texts(allow@),
                name,
            ) && !denied(next, texts(deny@), name) by {
                if denied(done, texts(deny@), name) {
                    let j = choose|j: int|
                        0 <= j < done.len() && (#[trigger] done[j]).method == name
                            && any_matches(texts(deny@), done[j]);
                    assert(next[j] == done[j]);
                }
                if denied(next, texts(deny@), name) {
                    let j = choose|j: int|
                        0 <= j < next.len() && (#[trigger] next[j]).method == name
                            && any_matches(texts(deny@), next[j]);
                    if j < k {
                        assert(next[j] == done[j]);
                    }
                }
                assert(before.contains(name) <==> wanted(views, selected, texts(allow@), name)
                    && !denied(done, texts(deny@), name));
            }
        }
        k = k + 1;
    }
    assert(enabled@ =~= surface(
        views,
        profile@,
        crate::json::text_option(groups_env),
        texts(allow@),
        texts(deny@),
    ));
    enabled
}

/// The settings of the surface, each as it was given.
#[derive(Debug)]
pub struct SurfaceEnv {
    pub profile: Option<String>,
    pub groups: Option<String>,
    pub allow: Option<String>,
    pub deny: Option<String>,
}

/// What the settings of the surface are.
pub struct SurfaceView {
    pub profile: Option<Seq<char>>,
    pub groups: Option<Seq<char>>,
    pub allow: Option<Seq<char>>,
    pub deny: Option<Seq<char>>,
}

impl SurfaceEnv {
    pub open spec fn view(self) -> SurfaceView {
        SurfaceView {
            profile: optional_text(self.profile),
            groups: optional_text(self.groups),
            allow: optional_text(self.allow),
            deny: optional_text(self.deny),
        }
    }
}

/// The methods that the settings enable. The profile is `full` where none is given.
pub open spec fn configured(methods: Seq<MethodView>, env: SurfaceView) -> Set<Seq<char>> {
    let profile = match env.profile {
        Some(profile) => profile,
        None => "full"@,
    };
    surface(
        methods,
        profile,
        env.groups,
        optional_items(env.allow),
        optional_items(env.deny),
    )
}

fn borrow_text(text: &Option<String>) -> (r: Option<&str>)
    ensures
        crate::json::text_option(r) == optional_text(*text),
{
    match text {
        Some(t) => Some(t.as_str()),
        None => None,
    }
}

/// The methods that the settings enable.
pub fn enabled_methods(methods: &[MethodSpec], env: &SurfaceEnv) -> (enabled: StringHashSet)
    ensures
        enabled@ == configured(methods_view(methods@), env@),
{
    let profile: &str = match &env.profile {
        Some(profile) => profile.as_str(),
        None => "full",
    };
    let allow: Vec<String> = split_list(borrow_text(&env.allow));
    let deny: Vec<String> = split_list(borrow_text(&env.deny));
    resolve(methods, profile, borrow_text(&env.groups), &allow, &deny)
}

/// The warning that the settings give rise to: the profile counts, and is not known.
pub open spec fn profile_warning_view(env: SurfaceView) -> Option<Seq<char>> {
    let named = match env.groups {
        Some(list) => trimmed(list).len() > 0,
        None => false,
    };
    match env.profile {
        Some(profile) => if named || known_profile(profile) {
            None
        } else {
            Some(
                "unknown HERDR_MCP_PROFILE="@ + debug_str(lowered(trimmed(profile)))
                    + "; failing closed to 'observer' (read-only)"@,
            )
        },
        None => None,
    }
}

/// The warning that the settings give rise to.
pub fn profile_warning(env: &SurfaceEnv) -> (warning: Option<String>)
    ensures
        optional_text(warning) == profile_warning_view(env@),
{
    if let Some(list) = &env.groups {
        if !trim(list.as_str()).is_empty() {
            return None;
        }
    }
    match &env.profile {
        Some(profile) => match unknown_profile(profile.as_str()) {
            Some(name) => {
                let mut warning: String = "unknown HERDR_MCP_PROFILE=".to_string();
                warning.append(debug_text(name.as_str()).as_str());
                warning.append("; failing closed to 'observer' (read-only)");
                Some(warning)
            },
            None => None,
        },
        None => None,
    }
}

/// The patterns of what is denied.
pub fn deny_patterns(env: &SurfaceEnv) -> (patterns: Vec<String>)
    ensures
        texts(patterns@) == optional_items(env@.deny),
{
    split_list(borrow_text(&env.deny))
}

/// Whether one of the patterns matches a method, by its dotted name or its tool name.
pub fn deny_matches(patterns: &[String], method: &str) -> (found: bool)
    ensures
        found == any_hits(texts(patterns@), method@),
{
    let tool_name: String = replace(method, '.', '_');
    let ghost list = texts(patterns@);
    let mut i: usize = 0;
    while i < patterns.len()
        invariant
            i <= patterns.len() == list.len(),
            list == texts(patterns@),
            tool_name@ == tool_name_of(method@),
            forall|j: int|
                0 <= j < i ==> !glob_either(#[trigger] list[j], method@, tool_name_of(method@)),
        decreases patterns.len() - i,
    {
        assert(list[i as int] == patterns[i as int]@);
        let pattern: &str = trim(patterns[i].as_str());
        if glob_match(pattern, method) || glob_match(pattern, tool_name.as_str()) {
            return true;
        }
        i = i + 1;
    }
    false
}

/// How many of the methods the settings enable, in one line.
pub fn summary(methods: &[MethodSpec], env: &SurfaceEnv) -> (line: String)
    ensures
        line@ == decimal(configured(methods_view(methods@), env@).len()) + "/"@ + decimal(
            methods@.len(),
        ) + " tools enabled"@,
{
    let enabled: StringHashSet = enabled_methods(methods, env);
    let mut line: String = to_decimal(enabled.len() as u64);
    line.append("/");
    line.append(to_decimal(methods.len() as u64).as_str());
    line.append(" tools enabled");
    line
}

} // verus!

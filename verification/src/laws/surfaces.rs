//! What holds of the tool surface, by the settings as they are given.

use vstd::prelude::*;

use crate::config::{
    all_groups, any_hits, any_matches, configured, denied, glob, glob_either, known_profile,
    named_groups, optional_items, profile_set, profile_warning_view, selected_groups, wanted,
    SurfaceView,
};
use crate::herdr::debug_str;
use crate::manifest::MethodView;
use crate::text::{list_items, lowered, trimmed};

verus! {

/// Whether a pattern takes a name: one that ends in `*` takes the names that start with what is
/// before it, any other takes itself.
pub open spec fn takes(pattern: Seq<char>, name: Seq<char>) -> bool {
    if exists|start: Seq<char>| pattern == #[trigger] start.push('*') {
        name.len() >= pattern.len() - 1 && forall|k: int|
            0 <= k < pattern.len() - 1 ==> name[k] == pattern[k]
    } else {
        name == pattern
    }
}

/// Whether one of the items of a comma list, if there is one, takes a method by one of its two
/// names.
pub open spec fn list_takes(list: Option<Seq<char>>, method: MethodView) -> bool {
    list matches Some(text) && exists|i: int|
        0 <= i < list_items(text).len() && (takes(
            trimmed(#[trigger] list_items(text)[i]),
            method.method,
        ) || takes(trimmed(list_items(text)[i]), method.tool_name))
}

/// Whether a comma list names a group, in any case.
pub open spec fn list_names(text: Seq<char>, group: Seq<char>) -> bool {
    exists|i: int|
        0 <= i < list_items(text).len() && lowered(#[trigger] list_items(text)[i]) == group
}

/// Whether a setting is not given, or blank.
pub open spec fn blank(setting: Option<Seq<char>>) -> bool {
    setting matches Some(text) ==> trimmed(text).len() == 0
}

/// Whether the group is one that a profile has, by the name of the profile.
pub open spec fn profile_has(name: Seq<char>, group: Seq<char>) -> bool {
    if name == "full"@ {
        group != "raw"@
    } else if name == "coordinator"@ {
        ["observe"@, "structure"@, "panes"@, "io"@, "agents"@, "events"@]@.contains(group)
    } else if name == "client"@ {
        ["observe"@, "io"@, "authority"@, "events"@]@.contains(group)
    } else {
        group == "observe"@
    }
}

/// A pattern matches what it takes.
pub proof fn law_patterns_match_by_start_or_whole(pattern: Seq<char>, name: Seq<char>)
    ensures
        glob(pattern, name) <==> takes(pattern, name),
{
    if pattern.len() > 0 && pattern.last() == '*' {
        assert(pattern =~= pattern.drop_last().push('*'));
        assert(exists|start: Seq<char>| pattern == #[trigger] start.push('*'));
        if takes(pattern, name) {
            assert(pattern.drop_last() =~= name.subrange(0, pattern.len() - 1));
        }
        if glob(pattern, name) {
            assert forall|k: int| 0 <= k < pattern.len() - 1 implies name[k] == pattern[k] by {
                assert(pattern.drop_last()[k] == name.subrange(0, pattern.len() - 1)[k]);
            }
        }
    } else if exists|start: Seq<char>| pattern == #[trigger] start.push('*') {
        let start = choose|start: Seq<char>| pattern == #[trigger] start.push('*');
        assert(start.push('*').last() == '*');
    }
}

/// A pattern matches a method by its dotted name or by its tool name.
pub proof fn law_patterns_match_either_name(
    patterns: Seq<Seq<char>>,
    method: MethodView,
    name: Seq<char>,
)
    ensures
        any_matches(patterns, method) <==> exists|i: int|
            0 <= i < patterns.len() && (takes(trimmed(#[trigger] patterns[i]), method.method)
                || takes(trimmed(patterns[i]), method.tool_name)),
        any_hits(patterns, name) <==> exists|i: int|
            0 <= i < patterns.len() && (takes(trimmed(#[trigger] patterns[i]), name) || takes(
                trimmed(patterns[i]),
                name.map_values(|c: char| if c == '.' { '_' } else { c }),
            )),
{
    let flat = name.map_values(|c: char| if c == '.' { '_' } else { c });
    assert(flat =~= crate::manifest::tool_name_of(name));
    assert forall|i: int| 0 <= i < patterns.len() implies {
        &&& glob_either(#[trigger] patterns[i], method.method, method.tool_name) <==> takes(
            trimmed(patterns[i]),
            method.method,
        ) || takes(trimmed(patterns[i]), method.tool_name)
        &&& glob_either(patterns[i], name, flat) <==> takes(trimmed(patterns[i]), name) || takes(
            trimmed(patterns[i]),
            flat,
        )
    } by {
        law_patterns_match_by_start_or_whole(trimmed(patterns[i]), method.method);
        law_patterns_match_by_start_or_whole(trimmed(patterns[i]), method.tool_name);
        law_patterns_match_by_start_or_whole(trimmed(patterns[i]), name);
        law_patterns_match_by_start_or_whole(trimmed(patterns[i]), flat);
    }
    if any_matches(patterns, method) {
        let i = choose|i: int|
            0 <= i < patterns.len() && glob_either(
                #[trigger] patterns[i],
                method.method,
                method.tool_name,
            );
        assert(takes(trimmed(patterns[i]), method.method) || takes(
            trimmed(patterns[i]),
            method.tool_name,
        ));
    }
    if any_hits(patterns, name) {
        let i = choose|i: int|
            0 <= i < patterns.len() && glob_either(
                #[trigger] patterns[i],
                name,
                crate::manifest::tool_name_of(name),
            );
        assert(takes(trimmed(patterns[i]), name) || takes(trimmed(patterns[i]), flat));
    }
}

/// What an allow or deny setting takes is what the patterns in it match.
pub proof fn law_settings_are_comma_lists(list: Option<Seq<char>>, method: MethodView)
    ensures
        any_matches(optional_items(list), method) <==> list_takes(list, method),
        list is None ==> optional_items(list).len() == 0,
        list matches Some(text) ==> optional_items(list) == list_items(text),
{
    law_patterns_match_either_name(optional_items(list), method, Seq::empty());
}

/// The groups of a profile, whatever the case of its name and the white space around it; those of
/// `full` are among all groups.
pub proof fn law_profiles_have_their_groups(
    profile: Seq<char>,
    all: Set<Seq<char>>,
    group: Seq<char>,
)
    requires
        all.contains(group) || lowered(trimmed(profile)) != "full"@,
    ensures
        profile_set(profile, all).contains(group) <==> profile_has(
            lowered(trimmed(profile)),
            group,
        ),
{
    let six = ["observe"@, "structure"@, "panes"@, "io"@, "agents"@, "events"@]@;
    assert(six[0] == "observe"@ && six[1] == "structure"@ && six[2] == "panes"@ && six[3] == "io"@
        && six[4] == "agents"@ && six[5] == "events"@);
    let four = ["observe"@, "io"@, "authority"@, "events"@]@;
    assert(four[0] == "observe"@ && four[1] == "io"@ && four[2] == "authority"@ && four[3]
        == "events"@);
    if six.contains(group) {
        let i = six.index_of(group);
        assert(six[i] == group);
    }
    if four.contains(group) {
        let i = four.index_of(group);
        assert(four[i] == group);
    }
}

/// `full` has no group that is not among all groups, and is the one profile to depend on them.
pub proof fn law_only_full_depends_on_all_groups(
    profile: Seq<char>,
    all: Set<Seq<char>>,
    other: Set<Seq<char>>,
)
    ensures
        lowered(trimmed(profile)) == "full"@ ==> profile_set(profile, all).subset_of(all),
        lowered(trimmed(profile)) != "full"@ ==> profile_set(profile, all) == profile_set(
            profile,
            other,
        ),
{
}

/// Named groups select: with groups that are not blank, and nothing allowed or denied, a name is
/// enabled if and only if a method of it is in one of the groups that the setting names,
/// whatever the profile.
pub proof fn law_groups_setting_selects(
    methods: Seq<MethodView>,
    env: SurfaceView,
    groups: Seq<char>,
    name: Seq<char>,
)
    requires
        env.groups == Some(groups),
        trimmed(groups).len() > 0,
        env.allow is None,
        env.deny is None,
    ensures
        configured(methods, env).contains(name) <==> exists|i: int|
            0 <= i < methods.len() && (#[trigger] methods[i]).method == name && list_names(
                groups,
                methods[i].group,
            ),
{
    lemma_configured(methods, env, name);
}

/// The profile selects: with no groups, and nothing allowed or denied, a name is enabled if and
/// only if a method of it is in one of the groups of the profile, which is `full` where none is
/// given.
pub proof fn law_profile_setting_selects(
    methods: Seq<MethodView>,
    env: SurfaceView,
    name: Seq<char>,
)
    requires
        blank(env.groups),
        env.allow is None,
        env.deny is None,
    ensures
        configured(methods, env).contains(name) <==> exists|i: int|
            0 <= i < methods.len() && (#[trigger] methods[i]).method == name && profile_has(
                match env.profile {
                    Some(profile) => lowered(trimmed(profile)),
                    None => "full"@,
                },
                methods[i].group,
            ),
{
    lemma_configured(methods, env, name);
}

/// The group that a setting selects.
spec fn selects(env: SurfaceView, group: Seq<char>) -> bool {
    if blank(env.groups) {
        profile_has(
            match env.profile {
                Some(profile) => lowered(trimmed(profile)),
                None => "full"@,
            },
            group,
        )
    } else {
        list_names(env.groups->0, group)
    }
}

proof fn lemma_configured(methods: Seq<MethodView>, env: SurfaceView, name: Seq<char>)
    ensures
        configured(methods, env).contains(name) <==> (exists|i: int|
            0 <= i < methods.len() && (#[trigger] methods[i]).method == name && (selects(
                env,
                methods[i].group,
            ) || list_takes(env.allow, methods[i]))) && !(exists|i: int|
            0 <= i < methods.len() && (#[trigger] methods[i]).method == name && list_takes(
                env.deny,
                methods[i],
            )),
{
    reveal_strlit("full");
    assert(lowered(trimmed("full"@)) =~= "full"@);
    let profile = match env.profile {
        Some(profile) => profile,
        None => "full"@,
    };
    let selected = selected_groups(methods, profile, env.groups);
    assert forall|i: int| 0 <= i < methods.len() implies {
        &&& selected.contains((#[trigger] methods[i]).group) <==> selects(env, methods[i].group)
        &&& any_matches(optional_items(env.allow), methods[i]) <==> list_takes(
            env.allow,
            methods[i],
        )
        &&& any_matches(optional_items(env.deny), methods[i]) <==> list_takes(env.deny, methods[i])
    } by {
        let all = all_groups(methods);
        assert(all.contains(methods[i].group));
        law_profiles_have_their_groups(profile, all, methods[i].group);
        law_settings_are_comma_lists(env.allow, methods[i]);
        law_settings_are_comma_lists(env.deny, methods[i]);
        if let Some(groups) = env.groups {
            assert(named_groups(groups).contains(methods[i].group) <==> list_names(
                groups,
                methods[i].group,
            ));
        }
    }
    let allow = optional_items(env.allow);
    let deny = optional_items(env.deny);
    if wanted(methods, selected, allow, name) {
        let i = choose|i: int|
            0 <= i < methods.len() && (#[trigger] methods[i]).method == name && (selected.contains(
                methods[i].group,
            ) || any_matches(allow, methods[i]));
        assert(selects(env, methods[i].group) || list_takes(env.allow, methods[i]));
    }
    if denied(methods, deny, name) {
        let i = choose|i: int|
            0 <= i < methods.len() && (#[trigger] methods[i]).method == name && any_matches(
                deny,
                methods[i],
            );
        assert(list_takes(env.deny, methods[i]));
    }
}

/// The allow setting adds what its patterns take, unless that is denied, and nothing else.
pub proof fn law_allow_setting_adds(
    methods: Seq<MethodView>,
    env: SurfaceView,
    without: SurfaceView,
    name: Seq<char>,
)
    requires
        without == (SurfaceView { allow: None, ..env }),
    ensures
        configured(methods, env).contains(name) <==> configured(methods, without).contains(name)
            || ((exists|i: int|
            0 <= i < methods.len() && (#[trigger] methods[i]).method == name && list_takes(
                env.allow,
                methods[i],
            )) && !(exists|i: int|
            0 <= i < methods.len() && (#[trigger] methods[i]).method == name && list_takes(
                env.deny,
                methods[i],
            ))),
{
    lemma_configured(methods, env, name);
    lemma_configured(methods, without, name);
    assert forall|i: int| 0 <= i < methods.len() implies selects(
        env,
        (#[trigger] methods[i]).group,
    ) == selects(without, methods[i].group) by {}
}

/// The deny setting takes out what its patterns take, and nothing else.
pub proof fn law_deny_setting_removes(
    methods: Seq<MethodView>,
    env: SurfaceView,
    without: SurfaceView,
    name: Seq<char>,
)
    requires
        without == (SurfaceView { deny: None, ..env }),
    ensures
        configured(methods, env).contains(name) <==> configured(methods, without).contains(name)
            && !(exists|i: int|
            0 <= i < methods.len() && (#[trigger] methods[i]).method == name && list_takes(
                env.deny,
                methods[i],
            )),
{
    lemma_configured(methods, env, name);
    lemma_configured(methods, without, name);
    assert forall|i: int| 0 <= i < methods.len() implies selects(
        env,
        (#[trigger] methods[i]).group,
    ) == selects(without, methods[i].group) by {}
}

/// The four profiles are known, in any case and with white space around their names, and no
/// others.
pub proof fn law_four_profiles_are_known(profile: Seq<char>)
    ensures
        known_profile(profile) <==> ["full"@, "coordinator"@, "client"@, "observer"@]@.contains(
            lowered(trimmed(profile)),
        ),
{
    let four = ["full"@, "coordinator"@, "client"@, "observer"@]@;
    assert(four[0] == "full"@ && four[1] == "coordinator"@ && four[2] == "client"@ && four[3]
        == "observer"@);
    if four.contains(lowered(trimmed(profile))) {
        let i = four.index_of(lowered(trimmed(profile)));
        assert(four[i] == lowered(trimmed(profile)));
    }
}

/// There is a warning if and only if the profile counts and is none of the four, and the warning
/// shows its name.
pub proof fn law_unknown_profiles_are_warned_of(env: SurfaceView)
    ensures
        profile_warning_view(env) is Some <==> blank(env.groups) && env.profile is Some
            && !["full"@, "coordinator"@, "client"@, "observer"@]@.contains(
            lowered(trimmed(env.profile->0)),
        ),
        profile_warning_view(env) matches Some(warning) ==> warning
            == "unknown HERDR_MCP_PROFILE="@ + debug_str(lowered(trimmed(env.profile->0)))
            + "; failing closed to 'observer' (read-only)"@,
{
    if let Some(profile) = env.profile {
        law_four_profiles_are_known(profile);
    }
}

} // verus!

//! What holds of the library as a whole.

use vstd::prelude::*;

pub mod calls;
pub mod contracts;
pub mod requests;
pub mod surfaces;
pub mod texts;
pub mod values;

use crate::config::{
    all_groups, any_hits, any_matches, configured, denied, glob_either, known_profile, named_groups,
    optional_items, profile_set, selected_groups, surface, wanted, SurfaceView,
};
use crate::contract::{RawMethodView, RawParamView};
use crate::herdr::{
    bytes_of, config_dir_under, default_socket_for, effective_millis, first_existing, path_join,
    request_id_view, response_outcome, session_socket_for, socket_places, Candidate,
    HerdrErrorView,
};
use crate::json::JsonView;
use crate::manifest::{
    describes, escape_hatch_view, is_surface, lists_params, method_names, param_names,
    tool_name_of, MethodView, ParamView, HERDR_CALL,
};
use crate::ordered::{lemma_ascending_distinct, lemma_lists_unique};
use crate::schema::{
    json_strings, listed, param_violation, params_violation, properties_view, property_view,
    required_names, schema_view, type_accepts, unknown_field, violation,
};
use crate::server::{
    call_view, content_of, error_line_view, error_view, escape_params, escape_target,
    is_escape, is_read_only, known_methods, offer, step_view, tool_plan, tool_view,
    CallView, OfferView, PlanView,
};
use crate::text::{decimal, digit, joined, lowered, trimmed};

verus! {

/// Denial wins: a method that a deny pattern matches is never enabled.
pub proof fn law_deny_wins(
    methods: Seq<MethodView>,
    profile: Seq<char>,
    groups: Option<Seq<char>>,
    allow: Seq<Seq<char>>,
    deny: Seq<Seq<char>>,
    i: int,
)
    requires
        0 <= i < methods.len(),
        any_matches(deny, methods[i]),
    ensures
        !surface(methods, profile, groups, allow, deny).contains(methods[i].method),
{
    assert(denied(methods, deny, methods[i].method));
}

/// Allowing adds: a method that an allow pattern matches is enabled, whatever the profile and
/// the groups, unless it is denied.
pub proof fn law_allow_adds(
    methods: Seq<MethodView>,
    profile: Seq<char>,
    groups: Option<Seq<char>>,
    allow: Seq<Seq<char>>,
    deny: Seq<Seq<char>>,
    i: int,
)
    requires
        0 <= i < methods.len(),
        any_matches(allow, methods[i]),
        !denied(methods, deny, methods[i].method),
    ensures
        surface(methods, profile, groups, allow, deny).contains(methods[i].method),
{
    let selected = selected_groups(methods, profile, groups);
    assert(wanted(methods, selected, allow, methods[i].method));
}

/// Only methods of the contract are ever enabled.
pub proof fn law_surface_within_contract(
    methods: Seq<MethodView>,
    profile: Seq<char>,
    groups: Option<Seq<char>>,
    allow: Seq<Seq<char>>,
    deny: Seq<Seq<char>>,
    name: Seq<char>,
)
    requires
        surface(methods, profile, groups, allow, deny).contains(name),
    ensures
        method_names(methods).contains(name),
{
    let selected = selected_groups(methods, profile, groups);
    let i = choose|i: int|
        0 <= i < methods.len() && (#[trigger] methods[i]).method == name && (selected.contains(
            methods[i].group,
        ) || any_matches(allow, methods[i]));
    assert(method_names(methods)[i] == name);
}

/// Named groups override the profile.
pub proof fn law_groups_override_profile(
    methods: Seq<MethodView>,
    profile: Seq<char>,
    other: Seq<char>,
    groups: Seq<char>,
    allow: Seq<Seq<char>>,
    deny: Seq<Seq<char>>,
)
    requires
        trimmed(groups).len() > 0,
    ensures
        surface(methods, profile, Some(groups), allow, deny) == surface(
            methods,
            other,
            Some(groups),
            allow,
            deny,
        ),
{
}

/// A blank list of groups is as good as none.
pub proof fn law_blank_groups_are_none(
    methods: Seq<MethodView>,
    profile: Seq<char>,
    groups: Seq<char>,
    allow: Seq<Seq<char>>,
    deny: Seq<Seq<char>>,
)
    requires
        trimmed(groups).len() == 0,
    ensures
        surface(methods, profile, Some(groups), allow, deny) == surface(
            methods,
            profile,
            None,
            allow,
            deny,
        ),
{
}

/// The names of the four profiles stand for themselves, and differ.
proof fn lemma_profile_names()
    ensures
        lowered(trimmed("full"@)) == "full"@,
        lowered(trimmed("coordinator"@)) == "coordinator"@,
        lowered(trimmed("client"@)) == "client"@,
        lowered(trimmed("observer"@)) == "observer"@,
        "full"@.len() == 4,
        "coordinator"@.len() == 11,
        "client"@.len() == 6,
        "observer"@.len() == 8,
{
    reveal_strlit("full");
    reveal_strlit("coordinator");
    reveal_strlit("client");
    reveal_strlit("observer");
    assert(lowered("full"@) =~= "full"@);
    assert(lowered("coordinator"@) =~= "coordinator"@);
    assert(lowered("client"@) =~= "client"@);
    assert(lowered("observer"@) =~= "observer"@);
}

/// Configuration fails closed: a profile that is not known enables what `observer` enables.
pub proof fn law_unknown_profile_is_observer(
    methods: Seq<MethodView>,
    profile: Seq<char>,
    groups: Option<Seq<char>>,
    allow: Seq<Seq<char>>,
    deny: Seq<Seq<char>>,
)
    requires
        !known_profile(profile),
    ensures
        surface(methods, profile, groups, allow, deny) == surface(
            methods,
            "observer"@,
            groups,
            allow,
            deny,
        ),
{
    lemma_profile_names();
    assert(profile_set(profile, all_groups(methods)) == profile_set(
        "observer"@,
        all_groups(methods),
    ));
}

/// The group `raw` is in no profile.
proof fn lemma_raw_in_no_profile(profile: Seq<char>, all: Set<Seq<char>>)
    ensures
        !profile_set(profile, all).contains("raw"@),
{
    reveal_strlit("raw");
    reveal_strlit("observe");
    reveal_strlit("structure");
    reveal_strlit("panes");
    reveal_strlit("io");
    reveal_strlit("agents");
    reveal_strlit("authority");
    reveal_strlit("events");
    assert("raw"@.len() == 3);
    assert("observe"@.len() == 7);
    assert("structure"@.len() == 9);
    assert("panes"@.len() == 5);
    assert("io"@.len() == 2);
    assert("agents"@.len() == 6);
    assert("authority"@.len() == 9);
    assert("events"@.len() == 6);
}

/// The group `raw` is opt-in: unless it is named, or an allow pattern matches, no profile
/// enables a method of it.
pub proof fn law_raw_is_opt_in(
    methods: Seq<MethodView>,
    profile: Seq<char>,
    groups: Option<Seq<char>>,
    allow: Seq<Seq<char>>,
    deny: Seq<Seq<char>>,
    name: Seq<char>,
)
    requires
        groups matches Some(list) ==> !named_groups(list).contains("raw"@),
        forall|i: int|
            0 <= i < methods.len() && (#[trigger] methods[i]).method == name ==> methods[i].group
                == "raw"@ && !any_matches(allow, methods[i]),
    ensures
        !surface(methods, profile, groups, allow, deny).contains(name),
{
    lemma_raw_in_no_profile(profile, all_groups(methods));
}

/// The escape hatch of a contract's surface is opt-in: unless the group `raw` is named, or an
/// allow pattern matches the hatch, no profile enables it.
pub proof fn law_escape_hatch_is_opt_in(
    methods: Seq<MethodView>,
    declared: Map<Seq<char>, RawMethodView>,
    profile: Seq<char>,
    groups: Option<Seq<char>>,
    allow: Seq<Seq<char>>,
    deny: Seq<Seq<char>>,
)
    requires
        is_surface(methods, declared),
        !declared.dom().contains(HERDR_CALL@),
        groups matches Some(list) ==> !named_groups(list).contains("raw"@),
        !any_matches(allow, escape_hatch_view()),
    ensures
        !surface(methods, profile, groups, allow, deny).contains(HERDR_CALL@),
{
    let rest = methods.drop_last();
    assert forall|i: int|
        0 <= i < methods.len() && (#[trigger] methods[i]).method == HERDR_CALL@ implies methods[i].group
        == "raw"@ && !any_matches(allow, methods[i]) by {
        if i < rest.len() {
            assert(method_names(rest)[i] == methods[i].method);
            assert(method_names(rest).contains(HERDR_CALL@));
        }
    }
    law_raw_is_opt_in(methods, profile, groups, allow, deny, HERDR_CALL@);
}

/// Naming the group `raw` enables its methods, unless they are denied.
pub proof fn law_raw_can_be_named(
    methods: Seq<MethodView>,
    profile: Seq<char>,
    groups: Seq<char>,
    allow: Seq<Seq<char>>,
    deny: Seq<Seq<char>>,
    i: int,
)
    requires
        0 <= i < methods.len(),
        methods[i].group == "raw"@,
        named_groups(groups).contains("raw"@),
        !denied(methods, deny, methods[i].method),
    ensures
        surface(methods, profile, Some(groups), allow, deny).contains(methods[i].method),
{
    if trimmed(groups).len() == 0 {
        crate::text::lemma_blank_list(groups);
    }
    assert(wanted(methods, named_groups(groups), allow, methods[i].method));
}

/// The profile `full` on its own enables the methods outside the group `raw`, and no others.
pub proof fn law_full_is_all_but_raw(methods: Seq<MethodView>, name: Seq<char>)
    ensures
        surface(methods, "full"@, None, Seq::empty(), Seq::empty()).contains(name) <==> exists|
            i: int,
        |
            0 <= i < methods.len() && (#[trigger] methods[i]).method == name && methods[i].group
                != "raw"@,
{
    lemma_profile_names();
    let selected = selected_groups(methods, "full"@, None);
    if exists|i: int|
        0 <= i < methods.len() && (#[trigger] methods[i]).method == name && methods[i].group
            != "raw"@ {
        let i = choose|i: int|
            0 <= i < methods.len() && (#[trigger] methods[i]).method == name && methods[i].group
                != "raw"@;
        assert(all_groups(methods).contains(methods[i].group));
        assert(wanted(methods, selected, Seq::empty(), name));
    }
}

/// A wider choice of groups enables no less.
proof fn lemma_wider_groups(
    methods: Seq<MethodView>,
    profile: Seq<char>,
    wider: Seq<char>,
    allow: Seq<Seq<char>>,
    deny: Seq<Seq<char>>,
)
    requires
        forall|i: int|
            0 <= i < methods.len() && selected_groups(methods, profile, None).contains(
                (#[trigger] methods[i]).group,
            ) ==> selected_groups(methods, wider, None).contains(methods[i].group),
    ensures
        surface(methods, profile, None, allow, deny).subset_of(
            surface(methods, wider, None, allow, deny),
        ),
{
    let small = selected_groups(methods, profile, None);
    let large = selected_groups(methods, wider, None);
    assert forall|name: Seq<char>|
        surface(methods, profile, None, allow, deny).contains(name) implies surface(
        methods,
        wider,
        None,
        allow,
        deny,
    ).contains(name) by {
        let i = choose|i: int|
            0 <= i < methods.len() && (#[trigger] methods[i]).method == name && (small.contains(
                methods[i].group,
            ) || any_matches(allow, methods[i]));
        assert(large.contains(methods[i].group) || any_matches(allow, methods[i]));
        assert(wanted(methods, large, allow, name));
    }
}

/// The profiles nest: `observer` enables no more than `client` and `coordinator` do, and those
/// no more than `full`, with the same patterns.
pub proof fn law_profiles_nest(
    methods: Seq<MethodView>,
    allow: Seq<Seq<char>>,
    deny: Seq<Seq<char>>,
)
    ensures
        surface(methods, "observer"@, None, allow, deny).subset_of(
            surface(methods, "client"@, None, allow, deny),
        ),
        surface(methods, "observer"@, None, allow, deny).subset_of(
            surface(methods, "coordinator"@, None, allow, deny),
        ),
        surface(methods, "client"@, None, allow, deny).subset_of(
            surface(methods, "full"@, None, allow, deny),
        ),
        surface(methods, "coordinator"@, None, allow, deny).subset_of(
            surface(methods, "full"@, None, allow, deny),
        ),
{
    lemma_profile_names();
    let all = all_groups(methods);
    lemma_raw_in_no_profile("client"@, all);
    lemma_raw_in_no_profile("coordinator"@, all);
    assert forall|i: int| 0 <= i < methods.len() implies all.contains(
        (#[trigger] methods[i]).group,
    ) by {}
    lemma_wider_groups(methods, "observer"@, "client"@, allow, deny);
    lemma_wider_groups(methods, "observer"@, "coordinator"@, allow, deny);
    lemma_wider_groups(methods, "client"@, "full"@, allow, deny);
    lemma_wider_groups(methods, "coordinator"@, "full"@, allow, deny);
}

/// `observer` is read-only: on the surface of a contract where no tool but the escape hatch has
/// its name, with nothing allowed on top, every tool that `observer` enables only reads. So does
/// every tool that a profile enables which is not known.
pub proof fn law_observer_only_reads(
    methods: Seq<MethodView>,
    declared: Map<Seq<char>, RawMethodView>,
    profile: Seq<char>,
    groups: Option<Seq<char>>,
    deny: Seq<Seq<char>>,
    i: int,
)
    requires
        is_surface(methods, declared),
        forall|name: Seq<char>| #[trigger]
            declared.dom().contains(name) ==> tool_name_of(name) != HERDR_CALL@,
        lowered(trimmed(profile)) == "observer"@ || !known_profile(profile),
        groups matches Some(list) ==> trimmed(list).len() == 0,
        0 <= i < methods.len(),
        surface(methods, profile, groups, Seq::empty(), deny).contains(methods[i].method),
    ensures
        is_read_only(methods[i]),
{
    lemma_profile_names();
    lemma_hatch_name();
    law_surface_names_are_distinct(methods, declared);
    let selected = selected_groups(methods, profile, groups);
    let name = methods[i].method;
    let j = choose|j: int|
        0 <= j < methods.len() && (#[trigger] methods[j]).method == name && (selected.contains(
            methods[j].group,
        ) || any_matches(Seq::empty(), methods[j]));
    assert(j == i);
    lemma_raw_in_no_profile(profile, all_groups(methods));
    let rest = methods.drop_last();
    assert(i < rest.len());
    assert(rest[i] == methods[i]);
    assert(describes(rest[i], declared[rest[i].method]));
    assert(method_names(rest)[i] == name);
    assert(method_names(rest).contains(name));
}

/// The escape hatch is its own tool name.
proof fn lemma_hatch_name()
    ensures
        tool_name_of(HERDR_CALL@) == HERDR_CALL@,
{
    reveal_strlit("herdr_call");
    assert(HERDR_CALL@ =~= tool_name_of(HERDR_CALL@));
}

/// Every tool that does not only read is marked as destructive.
pub proof fn law_read_only_or_destructive(method: MethodView, enabled: Set<Seq<char>>)
    ensures
        !tool_view(method, enabled).read_only ==> tool_view(method, enabled).destructive,
        method.danger ==> tool_view(method, enabled).destructive,
        is_escape(method) ==> tool_view(method, enabled).destructive && !tool_view(
            method,
            enabled,
        ).read_only,
{
}

/// The escape hatch cannot bypass the surface: what it sends on is not denied, and if the
/// contract knows it, it is enabled.
pub proof fn law_escape_hatch_keeps_to_surface(
    methods: Seq<MethodView>,
    env: SurfaceView,
    hatch: MethodView,
    args: Map<Seq<char>, JsonView>,
)
    requires
        is_escape(hatch),
        tool_plan(hatch, args, offer(methods, env)) is Forward,
    ensures
        ({
            let target = tool_plan(hatch, args, offer(methods, env))->Forward_method;
            &&& !any_hits(optional_items(env.deny), target)
            &&& known_methods(methods).contains(target) ==> configured(methods, env).contains(
                target,
            )
        }),
{
}

/// The escape hatch lets through what it may: a target that is not denied, and is enabled or
/// not in the contract, goes to herdr under its name with the given parameters.
pub proof fn law_escape_hatch_lets_through(
    methods: Seq<MethodView>,
    env: SurfaceView,
    hatch: MethodView,
    args: Map<Seq<char>, JsonView>,
)
    requires
        is_escape(hatch),
        violation(hatch, args) is None,
        !any_hits(optional_items(env.deny), escape_target(args)),
        configured(methods, env).contains(escape_target(args)) || !known_methods(
            methods,
        ).contains(escape_target(args)),
    ensures
        tool_plan(hatch, args, offer(methods, env)) == (PlanView::Forward {
            method: escape_target(args),
            params: escape_params(args),
        }),
{
}

/// Nothing is sent to herdr for a call whose arguments violate the contract, and the answer
/// says so.
pub proof fn law_invalid_calls_are_refused(
    method: MethodView,
    args: Map<Seq<char>, JsonView>,
    offer: OfferView,
)
    requires
        violation(method, args) is Some,
    ensures
        tool_plan(method, args, offer) is Refuse,
        tool_plan(method, args, offer)->Refuse_kind == "request"@,
        tool_plan(method, args, offer)->Refuse_code == "invalid_params"@,
        tool_plan(method, args, offer)->Refuse_message == violation(method, args)->0,
{
}

/// A refused call is over before herdr has a part in it, and its result is a failure of the kind
/// `request` with the structured body of the refusal, or its line where the body cannot be
/// rendered.
pub proof fn law_refused_calls_are_answered(
    method: MethodView,
    args: Map<Seq<char>, JsonView>,
    offer: OfferView,
)
    requires
        tool_plan(method, args, offer) is Refuse,
    ensures
        step_view(tool_plan(method, args, offer)) is Done,
        tool_plan(method, args, offer)->Refuse_kind == "request"@,
        ({
            let plan = tool_plan(method, args, offer);
            let result = step_view(plan)->result;
            let body = error_view(
                plan->Refuse_kind,
                plan->Refuse_code,
                plan->Refuse_message,
                plan->Refuse_method,
            );
            &&& result.is_error
            &&& result.text == match content_of(body) {
                Ok(text) => text,
                Err(_) => error_line_view(
                    plan->Refuse_kind,
                    plan->Refuse_code,
                    plan->Refuse_message,
                    plan->Refuse_method,
                ),
            }
        }),
{
}

/// A request that failed makes a failed call, with a structured body that tells herdr's own
/// failures, under their code, from those of the transport.
pub proof fn law_failures_are_structured(method: Seq<char>, error: HerdrErrorView)
    ensures
        call_view(method, Err(error)).is_error,
        ({
            let (kind, code, message) = match error {
                HerdrErrorView::Api { code, message } => ("api"@, code, message),
                HerdrErrorView::Transport(message) => ("transport"@, "transport"@, message),
            };
            call_view(method, Err(error)).text == match content_of(
                error_view(kind, code, message, method),
            ) {
                Ok(text) => text,
                Err(_) => error_line_view(kind, code, message, method),
            }
        }),
{
}

/// herdr's result is the result of the call, as it is rendered; where it cannot be rendered,
/// the call failed.
pub proof fn law_results_pass_through(method: Seq<char>, value: JsonView)
    ensures
        content_of(value) matches Ok(text) ==> call_view(method, Ok(value)) == (CallView {
            is_error: false,
            text,
        }),
        content_of(value) is Err ==> call_view(method, Ok(value)).is_error,
{
}

/// A strict method refuses every field that it does not declare.
pub proof fn law_strict_methods_refuse_typos(
    method: MethodView,
    args: Map<Seq<char>, JsonView>,
    key: Seq<char>,
)
    requires
        !method.passthrough,
        args.dom().contains(key),
        !param_names(method.params).contains(key),
    ensures
        violation(method, args) is Some,
{
    assert(unknown_field(method, args, key));
}

/// A method that passes fields through is checked for its declared parameters only.
pub proof fn law_open_methods_take_more(
    method: MethodView,
    args: Map<Seq<char>, JsonView>,
    key: Seq<char>,
    value: JsonView,
)
    requires
        method.passthrough,
        !param_names(method.params).contains(key),
    ensures
        violation(method, args.insert(key, value)) == violation(method, args),
{
    assert forall|i: int| 0 <= i < method.params.len() implies (#[trigger] method.params[i]).name
        != key by {
        assert(param_names(method.params)[i] == method.params[i].name);
    }
    lemma_other_arguments(method.params, args, key, value);
}

proof fn lemma_other_arguments(
    params: Seq<ParamView>,
    args: Map<Seq<char>, JsonView>,
    key: Seq<char>,
    value: JsonView,
)
    requires
        forall|i: int| 0 <= i < params.len() ==> (#[trigger] params[i]).name != key,
    ensures
        params_violation(params, args.insert(key, value)) == params_violation(params, args),
    decreases params.len(),
{
    if params.len() > 0 {
        assert(params.first() == params[0]);
        assert forall|i: int| 0 <= i < params.drop_first().len() implies (
        #[trigger] params.drop_first()[i]).name != key by {
            assert(params.drop_first()[i] == params[i + 1]);
        }
        lemma_other_arguments(params.drop_first(), args, key, value);
    }
}

/// Whether a value is one that the schema of a property takes: it has its type, and is one of its
/// enumeration, where it has one.
pub open spec fn fits(property: JsonView, value: JsonView) -> bool {
    &&& property.member_text("type"@) matches Some(ty) ==> type_accepts(ty, value)
    &&& property.member("enum"@) matches Some(JsonView::Array(values)) ==> values.contains(value)
}

/// The names that a schema requires.
pub open spec fn required_by(schema: JsonView) -> Seq<JsonView> {
    match schema.member("required"@) {
        Some(JsonView::Array(names)) => names,
        _ => Seq::empty(),
    }
}

/// The schema of a property, where a schema has it.
pub open spec fn property_of(schema: JsonView, key: Seq<char>) -> Option<JsonView> {
    match schema.member("properties"@) {
        Some(properties) => properties.member(key),
        None => None,
    }
}

/// Whether arguments are ones that a schema takes: all required ones are there, no others than
/// its properties where it is closed, and each property fits.
pub open spec fn conforms(schema: JsonView, args: Map<Seq<char>, JsonView>) -> bool {
    &&& forall|name: Seq<char>| #[trigger]
        required_by(schema).contains(JsonView::Str(name)) ==> args.dom().contains(name)
    &&& schema.member("additionalProperties"@) == Some(JsonView::Bool(false)) ==> forall|
        key: Seq<char>,
    | #[trigger] args.dom().contains(key) ==> property_of(schema, key) is Some
    &&& forall|key: Seq<char>| #[trigger]
        args.dom().contains(key) && property_of(schema, key) is Some ==> fits(
            property_of(schema, key)->0,
            args[key],
        )
}

/// Whether no two parameters share a name.
pub open spec fn distinct_params(params: Seq<ParamView>) -> bool {
    forall|i: int, j: int|
        0 <= i < j < params.len() ==> (#[trigger] params[i]).name != (#[trigger] params[j]).name
}

proof fn lemma_schema_keys()
    ensures
        "type"@ != "description"@,
        "type"@ != "enum"@,
        "description"@ != "enum"@,
        "type"@ != "properties"@,
        "type"@ != "additionalProperties"@,
        "type"@ != "required"@,
        "properties"@ != "additionalProperties"@,
        "properties"@ != "required"@,
        "additionalProperties"@ != "required"@,
{
    reveal_strlit("type");
    reveal_strlit("description");
    reveal_strlit("enum");
    reveal_strlit("properties");
    reveal_strlit("additionalProperties");
    reveal_strlit("required");
    assert("type"@.len() == 4 && "type"@[0] == 't');
    assert("enum"@.len() == 4 && "enum"@[0] == 'e');
    assert("description"@.len() == 11);
    assert("properties"@.len() == 10);
    assert("additionalProperties"@.len() == 20);
    assert("required"@.len() == 8);
}

proof fn lemma_json_strings(list: Seq<Seq<char>>, s: Seq<char>)
    ensures
        json_strings(list).contains(JsonView::Str(s)) <==> list.contains(s),
{
    if list.contains(s) {
        let i = list.index_of(s);
        assert(json_strings(list)[i] == JsonView::Str(s));
    }
    if json_strings(list).contains(JsonView::Str(s)) {
        let i = json_strings(list).index_of(JsonView::Str(s));
        assert(list[i] == s);
    }
}

/// What the schema of a parameter takes is what its check takes.
proof fn lemma_fits(param: ParamView, value: JsonView)
    ensures
        fits(property_view(param), value) <==> type_accepts(param.ty, value) && listed(
            param.enum_values,
            value,
        ),
{
    lemma_schema_keys();
    let property = property_view(param);
    assert(property.member("type"@) == Some(JsonView::Str(param.ty)));
    match param.enum_values {
        Some(values) => {
            assert(property.member("enum"@) == Some(JsonView::Array(json_strings(values))));
            if let JsonView::Str(s) = value {
                lemma_json_strings(values, s);
            } else if json_strings(values).contains(value) {
                let i = json_strings(values).index_of(value);
                assert(json_strings(values)[i] == JsonView::Str(values[i]));
            }
        },
        None => {
            assert(property.member("enum"@) is None);
        },
    }
}

proof fn lemma_properties(params: Seq<ParamView>, i: int)
    requires
        distinct_params(params),
        0 <= i < params.len(),
    ensures
        properties_view(params).dom().contains(params[i].name),
        properties_view(params)[params[i].name] == property_view(params[i]),
    decreases params.len(),
{
    if i < params.len() - 1 {
        let rest = params.drop_last();
        assert forall|j: int, k: int| 0 <= j < k < rest.len() implies (#[trigger] rest[j]).name != (
        #[trigger] rest[k]).name by {
            assert(rest[j] == params[j] && rest[k] == params[k]);
        }
        lemma_properties(rest, i);
        assert(params[i].name != params[params.len() - 1].name);
    }
}

proof fn lemma_properties_keys(params: Seq<ParamView>, key: Seq<char>)
    ensures
        properties_view(params).dom().contains(key) <==> param_names(params).contains(key),
    decreases params.len(),
{
    if params.len() > 0 {
        let rest = params.drop_last();
        lemma_properties_keys(rest, key);
        let names = param_names(params);
        assert(names.drop_last() =~= param_names(rest));
        if param_names(rest).contains(key) {
            let i = param_names(rest).index_of(key);
            assert(names[i] == key);
        }
        if names.contains(key) {
            let i = names.index_of(key);
            if i < rest.len() {
                assert(param_names(rest)[i] == key);
            }
        }
        if params.last().name == key {
            assert(names[params.len() - 1] == key);
        }
    }
}

proof fn lemma_required(params: Seq<ParamView>, name: Seq<char>)
    ensures
        required_names(params).contains(name) <==> exists|i: int|
            0 <= i < params.len() && (#[trigger] params[i]).name == name && params[i].required,
    decreases params.len(),
{
    reveal(Seq::filter);
    let needed = |p: ParamView| p.required;
    if params.len() > 0 {
        let rest = params.drop_last();
        lemma_required(rest, name);
        let before_last = required_names(rest);
        let names = required_names(params);
        if params.last().required {
            assert(params.filter(needed) == rest.filter(needed).push(params.last()));
            assert(names =~= before_last.push(params.last().name));
        } else {
            assert(names =~= before_last);
        }
        if before_last.contains(name) {
            let i = before_last.index_of(name);
            assert(names[i] == name);
            let j = choose|j: int|
                0 <= j < rest.len() && (#[trigger] rest[j]).name == name && rest[j].required;
            assert(params[j] == rest[j]);
        }
        if names.contains(name) {
            let i = names.index_of(name);
            if i < before_last.len() {
                assert(before_last[i] == name);
            } else {
                assert(params[params.len() - 1].name == name);
            }
        }
        if exists|j: int|
            0 <= j < params.len() && (#[trigger] params[j]).name == name && params[j].required {
            let j = choose|j: int|
                0 <= j < params.len() && (#[trigger] params[j]).name == name && params[j].required;
            if j < rest.len() {
                assert(rest[j] == params[j]);
            } else {
                assert(names[names.len() - 1] == name);
            }
        }
    }
}

proof fn lemma_params_violation(params: Seq<ParamView>, args: Map<Seq<char>, JsonView>)
    ensures
        params_violation(params, args) is None <==> forall|i: int|
            0 <= i < params.len() ==> param_violation(#[trigger] params[i], args) is None,
    decreases params.len(),
{
    if params.len() > 0 {
        let rest = params.drop_first();
        lemma_params_violation(rest, args);
        assert(params.first() == params[0]);
        if params_violation(params, args) is None {
            assert forall|i: int| 0 <= i < params.len() implies param_violation(
                #[trigger] params[i],
                args,
            ) is None by {
                if i > 0 {
                    assert(rest[i - 1] == params[i]);
                }
            }
        }
        if forall|i: int|
            0 <= i < params.len() ==> param_violation(#[trigger] params[i], args) is None {
            assert forall|i: int| 0 <= i < rest.len() implies param_violation(
                #[trigger] rest[i],
                args,
            ) is None by {
                assert(rest[i] == params[i + 1]);
            }
        }
    }
}

/// The check of call arguments is the advertised schema: where no two parameters share a name,
/// arguments pass the check if and only if they conform to the schema of the method.
pub proof fn law_validation_is_the_schema(method: MethodView, args: Map<Seq<char>, JsonView>)
    requires
        distinct_params(method.params),
    ensures
        violation(method, args) is None <==> conforms(schema_view(method), args),
{
    lemma_schema_keys();
    let params = method.params;
    let schema = schema_view(method);
    let required = required_names(params);
    assert(schema.member("properties"@) == Some(JsonView::Object(properties_view(params))));
    assert(schema.member("additionalProperties"@) == Some(JsonView::Bool(method.passthrough)));
    assert(required_by(schema) =~= json_strings(required));
    lemma_params_violation(params, args);
    assert forall|key: Seq<char>| #[trigger] args.dom().contains(key) implies (property_of(
        schema,
        key,
    ) is Some <==> param_names(params).contains(key)) by {
        lemma_properties_keys(params, key);
    }
    if violation(method, args) is None {
        assert forall|name: Seq<char>| #[trigger]
            required_by(schema).contains(JsonView::Str(name)) implies args.dom().contains(name) by {
            lemma_json_strings(required, name);
            lemma_required(params, name);
            let i = choose|i: int|
                0 <= i < params.len() && (#[trigger] params[i]).name == name && params[i].required;
            assert(param_violation(params[i], args) is None);
        }
        assert forall|key: Seq<char>| #[trigger]
            args.dom().contains(key) && property_of(schema, key) is Some implies fits(
            property_of(schema, key)->0,
            args[key],
        ) by {
            let i = param_names(params).index_of(key);
            assert(params[i].name == key);
            lemma_properties(params, i);
            lemma_fits(params[i], args[key]);
            assert(param_violation(params[i], args) is None);
        }
        assert forall|key: Seq<char>| #[trigger]
            args.dom().contains(key) && !method.passthrough implies property_of(
            schema,
            key,
        ) is Some by {
            assert(!unknown_field(method, args, key));
        }
    }
    if conforms(schema, args) {
        assert forall|i: int| 0 <= i < params.len() implies param_violation(
            #[trigger] params[i],
            args,
        ) is None by {
            let key = params[i].name;
            lemma_properties(params, i);
            if args.dom().contains(key) {
                lemma_fits(params[i], args[key]);
                assert(fits(property_view(params[i]), args[key]));
            } else if params[i].required {
                lemma_required(params, key);
                lemma_json_strings(required, key);
                assert(required_by(schema).contains(JsonView::Str(key)));
            }
        }
        assert forall|key: Seq<char>| !unknown_field(method, args, key) by {
            if !method.passthrough && args.dom().contains(key) {
                assert(property_of(schema, key) is Some);
            }
        }
    }
}

/// The surface of a contract is determined by what the contract declares.
pub proof fn law_surface_is_determined(
    a: Seq<MethodView>,
    b: Seq<MethodView>,
    declared: Map<Seq<char>, RawMethodView>,
)
    requires
        is_surface(a, declared),
        is_surface(b, declared),
    ensures
        a == b,
{
    let left = a.drop_last();
    let right = b.drop_last();
    lemma_lists_unique(method_names(left), method_names(right), declared.dom());
    assert(left.len() == method_names(left).len());
    assert(right.len() == method_names(right).len());
    assert forall|i: int| 0 <= i < left.len() implies left[i] == right[i] by {
        assert(method_names(left)[i] == left[i].method);
        assert(method_names(right)[i] == right[i].method);
        let raw = declared[left[i].method];
        assert(describes(left[i], raw));
        assert(describes(right[i], raw));
        lemma_params_determined(left[i].params, right[i].params, raw.params);
    }
    assert(left =~= right);
    assert(a =~= left.push(a.last()));
    assert(b =~= right.push(b.last()));
}

proof fn lemma_params_determined(
    a: Seq<ParamView>,
    b: Seq<ParamView>,
    declared: Map<Seq<char>, RawParamView>,
)
    requires
        lists_params(a, declared),
        lists_params(b, declared),
    ensures
        a == b,
{
    lemma_lists_unique(param_names(a), param_names(b), declared.dom());
    assert(a.len() == param_names(a).len());
    assert(b.len() == param_names(b).len());
    assert forall|i: int| 0 <= i < a.len() implies a[i] == b[i] by {
        assert(param_names(a)[i] == a[i].name);
        assert(param_names(b)[i] == b[i].name);
    }
    assert(a =~= b);
}

/// On the surface of a contract that does not declare the escape hatch, no two methods share a
/// name, and no two parameters of a method do.
pub proof fn law_surface_names_are_distinct(
    methods: Seq<MethodView>,
    declared: Map<Seq<char>, RawMethodView>,
)
    requires
        is_surface(methods, declared),
        !declared.dom().contains(HERDR_CALL@),
    ensures
        forall|i: int, j: int|
            0 <= i < j < methods.len() ==> (#[trigger] methods[i]).method != (
            #[trigger] methods[j]).method,
        forall|i: int|
            0 <= i < methods.len() ==> distinct_params((#[trigger] methods[i]).params),
{
    let rest = methods.drop_last();
    let names = method_names(rest);
    assert forall|i: int, j: int| 0 <= i < j < methods.len() implies (#[trigger] methods[i]).method
        != (#[trigger] methods[j]).method by {
        assert(names[i] == methods[i].method);
        assert(names.contains(names[i]));
        if j < rest.len() {
            assert(names[j] == methods[j].method);
            lemma_ascending_distinct(names, i, j);
        }
    }
    assert forall|i: int| 0 <= i < methods.len() implies distinct_params(
        (#[trigger] methods[i]).params,
    ) by {
        let params = methods[i].params;
        if i < rest.len() {
            assert(rest[i] == methods[i]);
            assert(describes(rest[i], declared[rest[i].method]));
            assert forall|j: int, k: int| 0 <= j < k < params.len() implies (
            #[trigger] params[j]).name != (#[trigger] params[k]).name by {
                assert(param_names(params)[j] == params[j].name);
                assert(param_names(params)[k] == params[k].name);
                lemma_ascending_distinct(param_names(params), j, k);
            }
        } else {
            reveal_strlit("method");
            reveal_strlit("params");
            assert("method"@[0] == 'm');
            assert("params"@[0] == 'p');
        }
    }
}

/// Every tool on the surface of a contract is named after its method, with `_` for each `.`,
/// so no tool name holds a `.`.
pub proof fn law_tools_are_named_after_methods(
    methods: Seq<MethodView>,
    declared: Map<Seq<char>, RawMethodView>,
    i: int,
)
    requires
        is_surface(methods, declared),
        0 <= i < methods.len(),
    ensures
        methods[i].tool_name == tool_name_of(methods[i].method),
        !methods[i].tool_name.contains('.'),
{
    let rest = methods.drop_last();
    if i < rest.len() {
        assert(rest[i] == methods[i]);
        assert(describes(rest[i], declared[rest[i].method]));
    } else {
        lemma_hatch_name();
    }
    assert(!tool_name_of(methods[i].method).contains('.'));
}

/// The escape hatch denies what the surface denies: for a tool that is named after its method,
/// the deny patterns match the method's name if and only if they match the method.
pub proof fn law_denials_agree(deny: Seq<Seq<char>>, method: MethodView)
    requires
        method.tool_name == tool_name_of(method.method),
    ensures
        any_hits(deny, method.method) == any_matches(deny, method),
{
    if any_hits(deny, method.method) {
        let i = choose|i: int|
            0 <= i < deny.len() && glob_either(
                #[trigger] deny[i],
                method.method,
                tool_name_of(method.method),
            );
        assert(glob_either(deny[i], method.method, method.tool_name));
    }
    if any_matches(deny, method) {
        let i = choose|i: int|
            0 <= i < deny.len() && glob_either(
                #[trigger] deny[i],
                method.method,
                method.tool_name,
            );
        assert(glob_either(deny[i], method.method, tool_name_of(method.method)));
    }
}

/// Different numbers have different digits.
proof fn lemma_decimal_injective(a: nat, b: nat)
    requires
        decimal(a) == decimal(b),
    ensures
        a == b,
    decreases a,
{
    assert(decimal(a).last() == digit(a % 10));
    assert(decimal(b).last() == digit(b % 10));
    assert(digit(a % 10) as nat == 48 + a % 10);
    assert(digit(b % 10) as nat == 48 + b % 10);
    lemma_decimal_length(a);
    lemma_decimal_length(b);
    if a >= 10 && b >= 10 {
        assert(decimal(a).drop_last() =~= decimal(a / 10));
        assert(decimal(b).drop_last() =~= decimal(b / 10));
        lemma_decimal_injective(a / 10, b / 10);
    }
}

proof fn lemma_decimal_length(n: nat)
    ensures
        decimal(n).len() >= 1,
        n >= 10 <==> decimal(n).len() >= 2,
    decreases n,
{
    if n >= 10 {
        lemma_decimal_length(n / 10);
    }
}

/// Requests with different numbers have different ids.
pub proof fn law_request_ids_are_unique(a: nat, b: nat)
    requires
        a != b,
    ensures
        request_id_view(a) != request_id_view(b),
{
    if request_id_view(a) == request_id_view(b) {
        let n = "req_"@.len();
        assert(request_id_view(a).skip(n as int) =~= decimal(a));
        assert(request_id_view(b).skip(n as int) =~= decimal(b));
        lemma_decimal_injective(a, b);
    }
}

/// A response is taken as the result of a request only if it carries the request's id, no
/// error, and a result, which it then gives as it is.
pub proof fn law_results_belong_to_their_request(value: JsonView, id: Seq<char>)
    ensures
        response_outcome(value, id) is Ok <==> value.member("error"@) is None && value.member_text(
            "id"@,
        ) == Some(id) && value.member("result"@) is Some,
        response_outcome(value, id) is Ok ==> value.member("result"@) == Some(
            response_outcome(value, id)->Ok_0,
        ),
{
}

/// herdr's own failures belong to their request too: a response is taken as one only if it
/// carries the request's id and an error.
pub proof fn law_failures_belong_to_their_request(value: JsonView, id: Seq<char>)
    ensures
        response_outcome(value, id) matches Err(error) && error is Api <==> value.member_text(
            "id"@,
        ) == Some(id) && value.member("error"@) is Some,
{
}

/// The answer to one request, a result or a failure of herdr's own, is never taken as that to
/// another.
pub proof fn law_answers_are_not_mixed_up(value: JsonView, a: nat, b: nat)
    requires
        a != b,
        response_outcome(value, request_id_view(a)) matches Err(error) ==> error is Api,
    ensures
        response_outcome(value, request_id_view(b)) matches Err(error) && error is Transport,
{
    law_request_ids_are_unique(a, b);
}

/// The bytes of the parts of herdr's paths.
proof fn lemma_path_bytes()
    ensures
        bytes_of(".config"@) == seq![46u8, 99, 111, 110, 102, 105, 103],
        bytes_of("herdr"@) == seq![104u8, 101, 114, 100, 114],
        bytes_of("sessions"@) == seq![115u8, 101, 115, 115, 105, 111, 110, 115],
        bytes_of("herdr.sock"@) == seq![104u8, 101, 114, 100, 114, 46, 115, 111, 99, 107],
        bytes_of(".config/herdr/herdr.sock"@) == bytes_of(".config"@) + seq![47u8] + bytes_of(
            "herdr"@,
        ) + seq![47u8] + bytes_of("herdr.sock"@),
        bytes_of(".config/herdr/sessions/"@) == bytes_of(".config"@) + seq![47u8] + bytes_of(
            "herdr"@,
        ) + seq![47u8] + bytes_of("sessions"@) + seq![47u8],
{
    reveal_strlit(".config");
    reveal_strlit("herdr");
    reveal_strlit("sessions");
    reveal_strlit("herdr.sock");
    reveal_strlit(".config/herdr/herdr.sock");
    reveal_strlit(".config/herdr/sessions/");
    vstd::utf8::is_ascii_chars_encode_utf8(".config"@);
    vstd::utf8::is_ascii_chars_encode_utf8("herdr"@);
    vstd::utf8::is_ascii_chars_encode_utf8("sessions"@);
    vstd::utf8::is_ascii_chars_encode_utf8("herdr.sock"@);
    vstd::utf8::is_ascii_chars_encode_utf8(".config/herdr/herdr.sock"@);
    vstd::utf8::is_ascii_chars_encode_utf8(".config/herdr/sessions/"@);
    assert(bytes_of(".config"@) =~= seq![46u8, 99, 111, 110, 102, 105, 103]);
    assert(bytes_of("herdr"@) =~= seq![104u8, 101, 114, 100, 114]);
    assert(bytes_of("sessions"@) =~= seq![115u8, 101, 115, 115, 105, 111, 110, 115]);
    assert(bytes_of("herdr.sock"@) =~= seq![104u8, 101, 114, 100, 114, 46, 115, 111, 99, 107]);
    assert(bytes_of(".config/herdr/herdr.sock"@) =~= bytes_of(".config"@) + seq![47u8] + bytes_of(
        "herdr"@,
    ) + seq![47u8] + bytes_of("herdr.sock"@));
    assert(bytes_of(".config/herdr/sessions/"@) =~= bytes_of(".config"@) + seq![47u8] + bytes_of(
        "herdr"@,
    ) + seq![47u8] + bytes_of("sessions"@) + seq![47u8]);
}

/// The first byte of a character is that of `/` for no other character.
proof fn lemma_first_byte_of(c: char)
    requires
        c != '/',
    ensures
        vstd::utf8::encode_scalar(c as u32).len() > 0,
        vstd::utf8::encode_scalar(c as u32)[0] != 47u8,
{
    let scalar: u32 = c as u32;
    assert(scalar != 47);
    assert(scalar <= 0x7F && scalar != 47 ==> (scalar & 0x7F) as u8 != 47u8) by (bit_vector);
    assert(0xC0 | ((scalar >> 6) & 0x1F) as u8 != 47u8) by (bit_vector);
    assert(0xE0 | ((scalar >> 12) & 0x0F) as u8 != 47u8) by (bit_vector);
    assert(0xF0 | ((scalar >> 18) & 0x7) as u8 != 47u8) by (bit_vector);
}

/// A text that does not start with `/` has bytes, and they do not start with that of `/`.
proof fn lemma_first_byte(text: Seq<char>)
    requires
        text.len() > 0,
        text.first() != '/',
    ensures
        bytes_of(text).len() > 0,
        bytes_of(text).first() != 47u8,
{
    lemma_first_byte_of(text.first());
    assert(bytes_of(text)[0] == vstd::utf8::encode_scalar(text.first() as u32)[0]);
}

/// An explicit socket path is tried before all else.
pub proof fn law_explicit_socket_comes_first(
    path: Seq<u8>,
    session: Option<Seq<char>>,
    home: Option<Seq<u8>>,
)
    ensures
        socket_places(Some(path), session, home) is Ok,
        socket_places(Some(path), session, home)->Ok_0.len() > 0,
        socket_places(Some(path), session, home)->Ok_0[0] == path,
{
}

/// With a home directory the default socket, `.config/herdr/herdr.sock` in it, is tried last,
/// wherever a search takes place at all.
pub proof fn law_default_socket_comes_last(
    explicit: Option<Seq<u8>>,
    session: Option<Seq<char>>,
    home: Seq<u8>,
)
    requires
        socket_places(explicit, session, Some(home)) is Ok,
    ensures
        socket_places(explicit, session, Some(home))->Ok_0.len() > 0,
        socket_places(explicit, session, Some(home))->Ok_0.last() == path_join(
            home,
            bytes_of(".config/herdr/herdr.sock"@),
        ),
{
    lemma_path_bytes();
    assert(path_join(config_dir_under(home), bytes_of("herdr.sock"@)) =~= path_join(
        home,
        bytes_of(".config/herdr/herdr.sock"@),
    ));
}

/// With a session whose name does not start with `/`, its socket is
/// `.config/herdr/sessions/<session>/herdr.sock` in the home directory, and is tried right before
/// the default one.
#[verifier::spinoff_prover]
pub proof fn law_session_socket_comes_before_default(
    explicit: Option<Seq<u8>>,
    session: Seq<char>,
    home: Seq<u8>,
)
    requires
        session.len() > 0,
        session.first() != '/',
    ensures
        socket_places(explicit, Some(session), Some(home)) is Ok,
        ({
            let places = socket_places(explicit, Some(session), Some(home))->Ok_0;
            &&& places.len() >= 2
            &&& places[places.len() - 2] == path_join(
                path_join(home, bytes_of(".config/herdr/sessions/"@) + bytes_of(session)),
                bytes_of("herdr.sock"@),
            )
        }),
{
    lemma_path_bytes();
    lemma_first_byte(session);
    assert(path_join(path_join(config_dir_under(home), bytes_of("sessions"@)), bytes_of(session))
        =~= path_join(home, bytes_of(".config/herdr/sessions/"@) + bytes_of(session)));
    let place = path_join(
        path_join(home, bytes_of(".config/herdr/sessions/"@) + bytes_of(session)),
        bytes_of("herdr.sock"@),
    );
    let last = path_join(config_dir_under(home), bytes_of("herdr.sock"@));
    assert(session_socket_for(session, Some(home)) == Ok::<Seq<u8>, HerdrErrorView>(place));
    assert(default_socket_for(Some(home)) == Ok::<Seq<u8>, HerdrErrorView>(last));
    let places = socket_places(explicit, Some(session), Some(home))->Ok_0;
    match explicit {
        Some(path) => {
            assert(places =~= seq![path, place, last]);
        },
        None => {
            assert(places =~= seq![place, last]);
        },
    }
}

/// The first candidate that exists wins.
pub proof fn law_first_existing_socket_wins(candidates: Seq<Candidate>, all: Seq<Seq<char>>, i: int)
    requires
        0 <= i < candidates.len(),
        candidates[i].exists,
        forall|j: int| 0 <= j < i ==> !(#[trigger] candidates[j]).exists,
    ensures
        first_existing(candidates, all) == Ok::<Seq<u8>, HerdrErrorView>(candidates[i].path@),
    decreases candidates.len(),
{
    if i > 0 {
        assert(!candidates[0].exists);
        let rest = candidates.drop_first();
        assert forall|j: int| 0 <= j < i - 1 implies !(#[trigger] rest[j]).exists by {
            assert(rest[j] == candidates[j + 1]);
        }
        law_first_existing_socket_wins(rest, all, i - 1);
    }
}

/// Where no candidate exists, the failure lists what was checked.
pub proof fn law_missing_sockets_are_listed(candidates: Seq<Candidate>, all: Seq<Seq<char>>)
    requires
        forall|j: int| 0 <= j < candidates.len() ==> !(#[trigger] candidates[j]).exists,
    ensures
        first_existing(candidates, all) == Err::<Seq<u8>, HerdrErrorView>(
            HerdrErrorView::Transport("no herdr socket found; checked: "@ + joined(all, ", "@)),
        ),
    decreases candidates.len(),
{
    if candidates.len() > 0 {
        assert(!candidates[0].exists);
        let rest = candidates.drop_first();
        assert forall|j: int| 0 <= j < rest.len() implies !(#[trigger] rest[j]).exists by {
            assert(rest[j] == candidates[j + 1]);
        }
        law_missing_sockets_are_listed(rest, all);
    }
}

/// herdr's own timeout comes first: the wait for an answer outlasts what the request asks for.
pub proof fn law_own_timeout_comes_first(
    params: JsonView,
    setting: Option<Seq<char>>,
    value: JsonView,
    millis: u64,
)
    requires
        params.member("timeout_ms"@) == Some(value),
        value.unsigned() == Some(millis),
    ensures
        effective_millis(params, setting) > millis,
{
}

} // verus!

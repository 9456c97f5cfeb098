//! What holds of the tools that are offered, and of calls from their arguments to their results.

use vstd::prelude::*;

use crate::config::{any_hits, configured, SurfaceView};
use crate::herdr::HerdrErrorView;
use crate::json::JsonView;
use crate::laws::surfaces::{law_patterns_match_either_name, law_settings_are_comma_lists, takes};
use crate::laws::{
    conforms, distinct_params, law_validation_is_the_schema, lemma_properties,
    lemma_properties_keys, lemma_schema_keys, property_of,
};
use crate::manifest::{param_names, MethodView, ParamView};
use crate::schema::{
    first_unknown, json_strings, param_violation, params_violation, required_names, type_accepts,
    unknown_field, violation,
};
use crate::server::{
    call_view, content_of, error_line_view, error_view, known_methods, offer, refusal, step_view,
    tool_plan, OfferView, PlanView, StepView,
};
use crate::text::{joined, list_items, trimmed};

verus! {

/// Whether a method declares a parameter of this name.
pub open spec fn declares(method: MethodView, key: Seq<char>) -> bool {
    exists|i: int| 0 <= i < method.params.len() && (#[trigger] method.params[i]).name == key
}

/// Whether a value is of a type, by the name of the type. A name that is none of the six is that
/// of a type that every value is of.
pub open spec fn is_of_type(value: JsonView, ty: Seq<char>) -> bool {
    match value {
        JsonView::Null => !["string"@, "integer"@, "number"@, "boolean"@, "object"@,
            "array"@]@.contains(ty),
        JsonView::Bool(_) => !["string"@, "integer"@, "number"@, "object"@, "array"@]@.contains(ty),
        JsonView::Int(_) => !["string"@, "boolean"@, "object"@, "array"@]@.contains(ty),
        JsonView::Float(_) => !["string"@, "integer"@, "boolean"@, "object"@, "array"@]@.contains(
            ty,
        ),
        JsonView::Str(_) => !["integer"@, "number"@, "boolean"@, "object"@, "array"@]@.contains(ty),
        JsonView::Array(_) => !["string"@, "integer"@, "number"@, "boolean"@, "object"@]@.contains(
            ty,
        ),
        JsonView::Object(_) => !["string"@, "integer"@, "number"@, "boolean"@, "array"@]@.contains(
            ty,
        ),
    }
}

/// Whether a value is in an enumeration, where there is one.
pub open spec fn is_enumerated(value: JsonView, values: Option<Seq<Seq<char>>>) -> bool {
    values matches Some(allowed) ==> exists|k: int|
        0 <= k < allowed.len() && value == JsonView::Str(#[trigger] allowed[k])
}

/// Whether a parameter is as it should be in the arguments.
pub open spec fn is_met(param: ParamView, args: Map<Seq<char>, JsonView>) -> bool {
    if args.dom().contains(param.name) {
        is_of_type(args[param.name], param.ty) && is_enumerated(args[param.name], param.enum_values)
    } else {
        !param.required
    }
}

proof fn lemma_type_names()
    ensures
        "string"@ != "integer"@,
        "string"@ != "number"@,
        "string"@ != "boolean"@,
        "string"@ != "object"@,
        "string"@ != "array"@,
        "integer"@ != "number"@,
        "integer"@ != "boolean"@,
        "integer"@ != "object"@,
        "integer"@ != "array"@,
        "number"@ != "boolean"@,
        "number"@ != "object"@,
        "number"@ != "array"@,
        "boolean"@ != "object"@,
        "boolean"@ != "array"@,
        "object"@ != "array"@,
{
    reveal_strlit("string");
    reveal_strlit("integer");
    reveal_strlit("number");
    reveal_strlit("boolean");
    reveal_strlit("object");
    reveal_strlit("array");
    assert("string"@[0] == 's');
    assert("integer"@[0] == 'i');
    assert("number"@[0] == 'n');
    assert("boolean"@[0] == 'b');
    assert("object"@[0] == 'o');
    assert("array"@[0] == 'a');
}

proof fn lemma_among5(
    a: Seq<char>,
    b: Seq<char>,
    c: Seq<char>,
    d: Seq<char>,
    e: Seq<char>,
    x: Seq<char>,
)
    ensures
        [a, b, c, d, e]@.contains(x) <==> x == a || x == b || x == c || x == d || x == e,
{
    let list = [a, b, c, d, e]@;
    assert(list[0] == a && list[1] == b && list[2] == c && list[3] == d && list[4] == e);
    if list.contains(x) {
        let i = list.index_of(x);
        assert(list[i] == x);
    }
}

/// A declared type takes the values that are of it.
pub proof fn law_types_take_their_values(ty: Seq<char>, value: JsonView)
    ensures
        type_accepts(ty, value) <==> is_of_type(value, ty),
{
    lemma_type_names();
    let six = ["string"@, "integer"@, "number"@, "boolean"@, "object"@, "array"@]@;
    assert(six[0] == "string"@ && six[1] == "integer"@ && six[2] == "number"@ && six[3]
        == "boolean"@ && six[4] == "object"@ && six[5] == "array"@);
    if six.contains(ty) {
        let i = six.index_of(ty);
        assert(six[i] == ty);
    }
    let four = ["string"@, "boolean"@, "object"@, "array"@]@;
    assert(four[0] == "string"@ && four[1] == "boolean"@ && four[2] == "object"@ && four[3]
        == "array"@);
    if four.contains(ty) {
        let i = four.index_of(ty);
        assert(four[i] == ty);
    }
    lemma_among5("string"@, "integer"@, "number"@, "object"@, "array"@, ty);
    lemma_among5("string"@, "integer"@, "boolean"@, "object"@, "array"@, ty);
    lemma_among5("integer"@, "number"@, "boolean"@, "object"@, "array"@, ty);
    lemma_among5("string"@, "integer"@, "number"@, "boolean"@, "object"@, ty);
    lemma_among5("string"@, "integer"@, "number"@, "boolean"@, "array"@, ty);
}

proof fn lemma_param(param: ParamView, args: Map<Seq<char>, JsonView>)
    ensures
        param_violation(param, args) is None <==> is_met(param, args),
{
    if args.dom().contains(param.name) {
        let value = args[param.name];
        law_types_take_their_values(param.ty, value);
        if let Some(allowed) = param.enum_values {
            if let JsonView::Str(s) = value {
                if allowed.contains(s) {
                    let k = allowed.index_of(s);
                    assert(value == JsonView::Str(allowed[k]));
                }
            }
            if is_enumerated(value, param.enum_values) {
                let k = choose|k: int|
                    0 <= k < allowed.len() && value == JsonView::Str(#[trigger] allowed[k]);
                assert(allowed.contains(allowed[k]));
            }
        }
    }
}

proof fn lemma_declares(method: MethodView, key: Seq<char>)
    ensures
        declares(method, key) <==> param_names(method.params).contains(key),
{
    let names = param_names(method.params);
    if names.contains(key) {
        let i = names.index_of(key);
        assert(method.params[i].name == key);
    }
    if declares(method, key) {
        let i = choose|i: int|
            0 <= i < method.params.len() && (#[trigger] method.params[i]).name == key;
        assert(names[i] == key);
    }
}

proof fn lemma_params(params: Seq<ParamView>, args: Map<Seq<char>, JsonView>)
    ensures
        params_violation(params, args) is None <==> forall|i: int|
            0 <= i < params.len() ==> is_met(#[trigger] params[i], args),
        forall|i: int|
            0 <= i < params.len() && !is_met(#[trigger] params[i], args) && (forall|j: int|
                0 <= j < i ==> is_met(#[trigger] params[j], args)) ==> params_violation(params, args)
                == param_violation(params[i], args),
    decreases params.len(),
{
    if params.len() > 0 {
        let rest = params.drop_first();
        lemma_params(rest, args);
        lemma_param(params[0], args);
        assert(params.first() == params[0]);
        if params_violation(params, args) is None {
            assert forall|i: int| 0 <= i < params.len() implies is_met(#[trigger] params[i], args) by {
                if i > 0 {
                    assert(rest[i - 1] == params[i]);
                }
            }
        }
        if forall|i: int| 0 <= i < params.len() ==> is_met(#[trigger] params[i], args) {
            assert forall|i: int| 0 <= i < rest.len() implies is_met(#[trigger] rest[i], args) by {
                assert(rest[i] == params[i + 1]);
            }
        }
        assert forall|i: int|
            0 <= i < params.len() && !is_met(#[trigger] params[i], args) && (forall|j: int|
                0 <= j < i ==> is_met(#[trigger] params[j], args)) implies params_violation(
            params,
            args,
        ) == param_violation(params[i], args) by {
            if i > 0 {
                assert(is_met(params[0], args));
                assert(rest[i - 1] == params[i]);
                assert forall|j: int| 0 <= j < i - 1 implies is_met(#[trigger] rest[j], args) by {
                    assert(rest[j] == params[j + 1]);
                }
            }
        }
    }
}

/// Arguments pass if and only if every parameter is as it should be, and a method that does not
/// pass fields through declares them all.
pub proof fn law_arguments_pass_if_every_parameter_is_met(
    method: MethodView,
    args: Map<Seq<char>, JsonView>,
)
    ensures
        violation(method, args) is None <==> (forall|i: int|
            0 <= i < method.params.len() ==> is_met(#[trigger] method.params[i], args)) && (
        method.passthrough || forall|key: Seq<char>| #[trigger]
            args.dom().contains(key) ==> declares(method, key)),
{
    lemma_params(method.params, args);
    assert forall|key: Seq<char>| #[trigger] args.dom().contains(key) implies (unknown_field(
        method,
        args,
        key,
    ) <==> !method.passthrough && !declares(method, key)) by {
        lemma_declares(method, key);
    }
    if exists|key: Seq<char>| unknown_field(method, args, key) {
        let key = choose|key: Seq<char>| unknown_field(method, args, key);
        assert(args.dom().contains(key));
    }
}

/// An unknown field of a strict method is told by its name: the first in the order of texts.
pub proof fn law_unknown_fields_are_named(
    method: MethodView,
    args: Map<Seq<char>, JsonView>,
    key: Seq<char>,
)
    requires
        !method.passthrough,
        args.dom().contains(key),
        !declares(method, key),
        forall|other: Seq<char>| #[trigger]
            args.dom().contains(other) && !declares(method, other) ==> other == key
                || crate::text::before(key, other),
    ensures
        violation(method, args) == Some("unknown field `"@ + key + "`"@),
{
    lemma_declares(method, key);
    assert(unknown_field(method, args, key));
    assert forall|other: Seq<char>| #[trigger]
        unknown_field(method, args, other) implies other == key || crate::text::before(key, other) by {
        lemma_declares(method, other);
    }
    assert(first_unknown(method, args, key));
    let chosen = choose|k: Seq<char>| first_unknown(method, args, k);
    crate::schema::lemma_first_unknown_unique(method, args, key, chosen);
}

/// Where no field is unknown, the first parameter that is not as it should be is told: that it is
/// missing, its type, or its enumeration.
pub proof fn law_first_fault_is_told(method: MethodView, args: Map<Seq<char>, JsonView>, i: int)
    requires
        method.passthrough || forall|key: Seq<char>| #[trigger]
            args.dom().contains(key) ==> declares(method, key),
        0 <= i < method.params.len(),
        !is_met(method.params[i], args),
        forall|j: int| 0 <= j < i ==> is_met(#[trigger] method.params[j], args),
    ensures
        ({
            let param = method.params[i];
            violation(method, args) == Some(
                if !args.dom().contains(param.name) {
                    "missing required field `"@ + param.name + "`"@
                } else if !is_of_type(args[param.name], param.ty) {
                    "field `"@ + param.name + "` must be "@ + param.ty
                } else {
                    "field `"@ + param.name + "` must be one of ["@ + joined(
                        param.enum_values->0,
                        ", "@,
                    ) + "]"@
                },
            )
        }),
{
    lemma_params(method.params, args);
    lemma_param(method.params[i], args);
    if args.dom().contains(method.params[i].name) {
        law_types_take_their_values(method.params[i].ty, args[method.params[i].name]);
    }
    assert forall|key: Seq<char>| !unknown_field(method, args, key) by {
        lemma_declares(method, key);
    }
}

/// A call of a herdr method whose arguments pass sends that method with the arguments as they
/// are, whether the method is strict or passes fields through, and whatever the surface.
pub proof fn law_accepted_calls_go_unchanged(
    method: MethodView,
    args: Map<Seq<char>, JsonView>,
    offer: OfferView,
)
    requires
        method.tool_name != "herdr_call"@,
        violation(method, args) is None,
    ensures
        tool_plan(method, args, offer) == (PlanView::Forward {
            method: method.method,
            params: JsonView::Object(args),
        }),
        step_view(tool_plan(method, args, offer)) == (StepView::Request {
            method: method.method,
            params: JsonView::Object(args),
        }),
{
}

/// A call whose arguments do not pass is refused under the name of what was called, with the
/// fault as its message.
pub proof fn law_faulty_calls_are_refused_by_name(
    method: MethodView,
    args: Map<Seq<char>, JsonView>,
    offer: OfferView,
    fault: Seq<char>,
)
    requires
        violation(method, args) == Some(fault),
    ensures
        tool_plan(method, args, offer) == (PlanView::Refuse {
            kind: "request"@,
            code: "invalid_params"@,
            message: fault,
            method: if method.tool_name == "herdr_call"@ {
                "herdr_call"@
            } else {
                method.method
            },
        }),
{
}

/// The escape hatch does not reach what the surface disables: for every method on the list that
/// is not the hatch, if its name is not enabled, no call of the hatch sends it.
pub proof fn law_hatch_does_not_reach_disabled_methods(
    methods: Seq<MethodView>,
    env: SurfaceView,
    hatch: MethodView,
    args: Map<Seq<char>, JsonView>,
    i: int,
)
    requires
        hatch.tool_name == "herdr_call"@,
        0 <= i < methods.len(),
        methods[i].tool_name != "herdr_call"@,
        !configured(methods, env).contains(methods[i].method),
    ensures
        tool_plan(hatch, args, offer(methods, env)) matches PlanView::Forward { method, .. }
            ==> method != methods[i].method,
{
    assert(known_methods(methods).contains(methods[i].method));
}

/// The escape hatch does not reach what is denied: a target that an item of the deny setting
/// takes, as it is or with `_` for each `.`, is never sent.
pub proof fn law_hatch_does_not_reach_denied_methods(
    methods: Seq<MethodView>,
    env: SurfaceView,
    hatch: MethodView,
    args: Map<Seq<char>, JsonView>,
    deny: Seq<char>,
    k: int,
)
    requires
        hatch.tool_name == "herdr_call"@,
        env.deny == Some(deny),
        0 <= k < list_items(deny).len(),
    ensures
        tool_plan(hatch, args, offer(methods, env)) matches PlanView::Forward { method, .. }
            ==> !takes(trimmed(list_items(deny)[k]), method) && !takes(
            trimmed(list_items(deny)[k]),
            method.map_values(|c: char| if c == '.' { '_' } else { c }),
        ),
{
    if let PlanView::Forward { method, .. } = tool_plan(hatch, args, offer(methods, env)) {
        law_settings_are_comma_lists(env.deny, hatch);
        law_patterns_match_either_name(list_items(deny), hatch, method);
    }
}

/// Whether one of the items of the deny setting takes a name, as it is or with `_` for each `.`.
pub open spec fn deny_takes(env: SurfaceView, name: Seq<char>) -> bool {
    env.deny matches Some(deny) && exists|k: int|
        0 <= k < list_items(deny).len() && (takes(trimmed(#[trigger] list_items(deny)[k]), name)
            || takes(
            trimmed(list_items(deny)[k]),
            name.map_values(|c: char| if c == '.' { '_' } else { c }),
        ))
}

/// What becomes of a call of the escape hatch whose arguments pass, with the target that they
/// name, or an empty one: a target that is denied is
/// refused, and so is one on the list of methods that is not enabled; any other is sent with the
/// parameters that were given, or none.
pub proof fn law_hatch_sends_all_else(
    methods: Seq<MethodView>,
    env: SurfaceView,
    hatch: MethodView,
    args: Map<Seq<char>, JsonView>,
    target: Seq<char>,
)
    requires
        hatch.tool_name == "herdr_call"@,
        violation(hatch, args) is None,
        if args.dom().contains("method"@) && args["method"@] is Str {
            args["method"@] == JsonView::Str(target)
        } else {
            target.len() == 0
        },
    ensures
        ({
            let plan = tool_plan(hatch, args, offer(methods, env));
            let listed = exists|i: int|
                0 <= i < methods.len() && (#[trigger] methods[i]).method == target
                    && methods[i].tool_name != "herdr_call"@;
            if deny_takes(env, target) {
                plan == (PlanView::Refuse {
                    kind: "request"@,
                    code: "forbidden"@,
                    message: "`"@ + target + "` is blocked by HERDR_MCP_DENY"@,
                    method: target,
                })
            } else if listed && !configured(methods, env).contains(target) {
                plan == (PlanView::Refuse {
                    kind: "request"@,
                    code: "forbidden"@,
                    message: "`"@ + target
                        + "` is disabled by the current profile; herdr_call cannot bypass it"@,
                    method: target,
                })
            } else {
                plan == (PlanView::Forward {
                    method: target,
                    params: if args.dom().contains("params"@) {
                        args["params"@]
                    } else {
                        JsonView::Object(Map::empty())
                    },
                })
            }
        }),
{
    assert(target =~= crate::server::escape_target(args));
    law_settings_are_comma_lists(env.deny, hatch);
    law_patterns_match_either_name(offer(methods, env).deny, hatch, target);
    let listed = exists|i: int|
        0 <= i < methods.len() && (#[trigger] methods[i]).method == target && methods[i].tool_name
            != "herdr_call"@;
    assert(known_methods(methods).contains(target) <==> listed);
    assert(any_hits(offer(methods, env).deny, target) <==> deny_takes(env, target));
}

/// The guard refuses what a deny pattern takes, and what is known but not enabled, and tells
/// which; it refuses nothing else.
pub proof fn law_guard_refuses_denied_and_disabled(
    method: Seq<char>,
    enabled: Set<Seq<char>>,
    known: Set<Seq<char>>,
    deny: Seq<Seq<char>>,
)
    ensures
        ({
            let blocked = exists|i: int|
                0 <= i < deny.len() && (takes(trimmed(#[trigger] deny[i]), method) || takes(
                    trimmed(deny[i]),
                    method.map_values(|c: char| if c == '.' { '_' } else { c }),
                ));
            &&& refusal(method, enabled, known, deny) is None <==> !blocked && (enabled.contains(
                method,
            ) || !known.contains(method))
            &&& blocked ==> refusal(method, enabled, known, deny) == Some(
                "`"@ + method + "` is blocked by HERDR_MCP_DENY"@,
            )
            &&& !blocked && known.contains(method) && !enabled.contains(method) ==> refusal(
                method,
                enabled,
                known,
                deny,
            ) == Some(
                "`"@ + method + "` is disabled by the current profile; herdr_call cannot bypass it"@,
            )
        }),
{
    let none = MethodView {
        method,
        tool_name: method,
        group: method,
        description: method,
        danger: false,
        passthrough: false,
        params: Seq::empty(),
    };
    law_patterns_match_either_name(deny, none, method);
}

/// The known methods are those on the list that are not the escape hatch.
pub proof fn law_listed_methods_are_known(methods: Seq<MethodView>, name: Seq<char>)
    ensures
        known_methods(methods).contains(name) <==> exists|i: int|
            0 <= i < methods.len() && (#[trigger] methods[i]).method == name
                && methods[i].tool_name != "herdr_call"@,
{
}

/// One tool is offered for each method, in order, under its tool name and with its description.
/// It is enabled if and only if the settings enable the method. It only reads if and only if the
/// method is in the group `observe` and not the escape hatch; else, and where the method is
/// dangerous, it is destructive.
pub proof fn law_every_method_has_its_tool(methods: Seq<MethodView>, env: SurfaceView, i: int)
    requires
        0 <= i < methods.len(),
    ensures
        offer(methods, env).tools.len() == methods.len(),
        ({
            let method = methods[i];
            let tool = offer(methods, env).tools[i];
            &&& tool.name == method.tool_name
            &&& tool.description == method.description
            &&& tool.enabled <==> configured(methods, env).contains(method.method)
            &&& tool.read_only <==> method.group == "observe"@ && method.tool_name != "herdr_call"@
            &&& tool.destructive <==> !tool.read_only || method.danger
        }),
        offer(methods, env).summary == crate::text::decimal(configured(methods, env).len()) + "/"@
            + crate::text::decimal(methods.len()) + " tools enabled"@,
{
}

/// The schema that an offered tool carries takes exactly the arguments that pass in a call of its
/// method, where no two of the parameters share a name.
pub proof fn law_offered_schemas_take_what_calls_take(
    methods: Seq<MethodView>,
    env: SurfaceView,
    i: int,
    args: Map<Seq<char>, JsonView>,
)
    requires
        0 <= i < methods.len(),
        distinct_params(methods[i].params),
    ensures
        conforms(offer(methods, env).tools[i].schema, args) <==> violation(methods[i], args) is None,
{
    law_validation_is_the_schema(methods[i], args);
}

/// The schema of an offered tool is that of an object: one property for each parameter of the
/// method and no other, open to more if and only if the method passes fields through, with the
/// required parameters in their order where there are any, and nothing else.
pub proof fn law_offered_schemas_are_of_objects(
    methods: Seq<MethodView>,
    env: SurfaceView,
    i: int,
    key: Seq<char>,
)
    requires
        0 <= i < methods.len(),
    ensures
        ({
            let method = methods[i];
            let schema = offer(methods, env).tools[i].schema;
            let required = method.params.filter(|p: ParamView| p.required);
            &&& schema.member("type"@) == Some(JsonView::Str("object"@))
            &&& property_of(schema, key) is Some <==> declares(method, key)
            &&& schema.member("properties"@) matches Some(JsonView::Object(_))
            &&& schema.member("additionalProperties"@) == Some(JsonView::Bool(method.passthrough))
            &&& required.len() == 0 ==> schema.member("required"@) is None
            &&& required.len() > 0 ==> schema.member("required"@) == Some(
                JsonView::Array(required.map_values(|p: ParamView| JsonView::Str(p.name))),
            )
            &&& schema.member(key) is Some ==> [
                "type"@,
                "properties"@,
                "additionalProperties"@,
                "required"@,
            ]@.contains(key)
        }),
{
    lemma_schema_keys();
    let method = methods[i];
    lemma_properties_keys(method.params, key);
    lemma_declares(method, key);
    let required = method.params.filter(|p: ParamView| p.required);
    assert(json_strings(required_names(method.params)) =~= required.map_values(
        |p: ParamView| JsonView::Str(p.name),
    ));
    let four = ["type"@, "properties"@, "additionalProperties"@, "required"@]@;
    assert(four[0] == "type"@ && four[1] == "properties"@ && four[2] == "additionalProperties"@
        && four[3] == "required"@);
}

/// The property of a parameter tells its type, its description and its enumeration where it has
/// them, and nothing else.
pub proof fn law_offered_properties_tell_their_parameter(
    methods: Seq<MethodView>,
    env: SurfaceView,
    i: int,
    j: int,
    key: Seq<char>,
)
    requires
        0 <= i < methods.len(),
        distinct_params(methods[i].params),
        0 <= j < methods[i].params.len(),
    ensures
        ({
            let param = methods[i].params[j];
            let property = property_of(offer(methods, env).tools[i].schema, param.name);
            &&& property is Some
            &&& property->0.member("type"@) == Some(JsonView::Str(param.ty))
            &&& property->0.member("description"@) == match param.desc {
                Some(desc) => Some(JsonView::Str(desc)),
                None => None,
            }
            &&& param.enum_values is None ==> property->0.member("enum"@) is None
            &&& param.enum_values matches Some(values) ==> property->0.member("enum"@) == Some(
                JsonView::Array(values.map_values(|v: Seq<char>| JsonView::Str(v))),
            )
            &&& property->0.member(key) is Some ==> ["type"@, "description"@, "enum"@]@.contains(
                key,
            )
        }),
{
    lemma_schema_keys();
    lemma_properties(methods[i].params, j);
    if let Some(values) = methods[i].params[j].enum_values {
        assert(json_strings(values) =~= values.map_values(|v: Seq<char>| JsonView::Str(v)));
    }
    let three = ["type"@, "description"@, "enum"@]@;
    assert(three[0] == "type"@ && three[1] == "description"@ && three[2] == "enum"@);
}

proof fn lemma_error_keys()
    ensures
        "kind"@ != "code"@,
        "kind"@ != "message"@,
        "kind"@ != "method"@,
        "code"@ != "message"@,
        "code"@ != "method"@,
        "message"@ != "method"@,
{
    reveal_strlit("kind");
    reveal_strlit("code");
    reveal_strlit("message");
    reveal_strlit("method");
    assert("kind"@.len() == 4 && "kind"@[0] == 'k');
    assert("code"@.len() == 4 && "code"@[0] == 'c');
    assert("message"@.len() == 7);
    assert("method"@.len() == 6);
}

/// The body of a failure is an object with the one member `error`, which has the four members
/// `kind`, `code`, `message` and `method`, each as it was given, and no others.
pub proof fn law_failure_bodies_tell_what_failed(
    kind: Seq<char>,
    code: Seq<char>,
    message: Seq<char>,
    method: Seq<char>,
    key: Seq<char>,
)
    ensures
        ({
            let body = error_view(kind, code, message, method);
            &&& body.member(key) is Some <==> key == "error"@
            &&& body.member("error"@) matches Some(error) && {
                &&& error.member("kind"@) == Some(JsonView::Str(kind))
                &&& error.member("code"@) == Some(JsonView::Str(code))
                &&& error.member("message"@) == Some(JsonView::Str(message))
                &&& error.member("method"@) == Some(JsonView::Str(method))
                &&& error.member(key) is Some <==> key == "kind"@ || key == "code"@ || key
                    == "message"@ || key == "method"@
            }
        }),
        error_line_view(kind, code, message, method) == kind + "/"@ + code + ": "@ + message + " ("@
            + method + ")"@,
{
    lemma_error_keys();
}

/// A result that cannot be rendered makes a failure of the transport, with the code `serialize`
/// and the message of the attempt.
pub proof fn law_unrendered_results_fail(
    method: Seq<char>,
    value: JsonView,
    message: Seq<char>,
)
    requires
        content_of(value) == Err::<Seq<char>, Seq<char>>(message),
    ensures
        call_view(method, Ok(value)).is_error,
        call_view(method, Ok(value)).text == match content_of(
            error_view("transport"@, "serialize"@, message, method),
        ) {
            Ok(text) => text,
            Err(_) => "transport"@ + "/"@ + "serialize"@ + ": "@ + message + " ("@ + method + ")"@,
        },
{
}

/// What a call gives back tells results from failures: it is a failure if the request failed, and
/// is none if the request gave a result that can be rendered.
pub proof fn law_results_are_told_from_failures(
    method: Seq<char>,
    r: Result<JsonView, HerdrErrorView>,
)
    ensures
        call_view(method, r).is_error <==> !(r matches Ok(value) && content_of(value) is Ok),
        r matches Ok(value) ==> (content_of(value) matches Ok(text) ==> call_view(method, r).text
            == text),
{
}

} // verus!

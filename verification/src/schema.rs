//! The input schema of a method, and the check of call arguments against its contract.

use vstd::prelude::*;

use crate::json::{items_view, lemma_items_view_push, Json, JsonView, Object};
use crate::manifest::{
    param_names, params_view, MethodSpec, MethodView, ParamSpec, ParamView,
};
use crate::text::{before, comes_before, join, joined, same, texts};

verus! {

/// Texts as JSON strings.
pub open spec fn json_strings(list: Seq<Seq<char>>) -> Seq<JsonView> {
    list.map_values(|s: Seq<char>| JsonView::Str(s))
}

/// The schema of one parameter.
pub open spec fn property_view(param: ParamView) -> JsonView {
    let typed = Map::<Seq<char>, JsonView>::empty().insert("type"@, JsonView::Str(param.ty));
    let described = match param.desc {
        Some(desc) => typed.insert("description"@, JsonView::Str(desc)),
        None => typed,
    };
    JsonView::Object(
        match param.enum_values {
            Some(values) => described.insert("enum"@, JsonView::Array(json_strings(values))),
            None => described,
        },
    )
}

/// The schemas of the parameters, each under its name.
pub open spec fn properties_view(params: Seq<ParamView>) -> Map<Seq<char>, JsonView>
    decreases params.len(),
{
    if params.len() == 0 {
        Map::empty()
    } else {
        properties_view(params.drop_last()).insert(params.last().name, property_view(params.last()))
    }
}

/// The names of the required parameters, in order.
pub open spec fn required_names(params: Seq<ParamView>) -> Seq<Seq<char>> {
    param_names(params.filter(|p: ParamView| p.required))
}

/// The input schema of a method: its parameters, closed to other fields unless the method
/// passes them through.
pub open spec fn schema_view(method: MethodView) -> JsonView {
    let base = Map::<Seq<char>, JsonView>::empty().insert(
        "type"@,
        JsonView::Str("object"@),
    ).insert("properties"@, JsonView::Object(properties_view(method.params))).insert(
        "additionalProperties"@,
        JsonView::Bool(method.passthrough),
    );
    let required = required_names(method.params);
    JsonView::Object(
        if required.len() > 0 {
            base.insert("required"@, JsonView::Array(json_strings(required)))
        } else {
            base
        },
    )
}

fn string_array(list: &Vec<String>) -> (array: Vec<Json>)
    ensures
        items_view(array@) == json_strings(texts(list@)),
{
    let mut array: Vec<Json> = Vec::new();
    let mut i: usize = 0;
    assert(json_strings(texts(list@).take(0)) =~= Seq::<JsonView>::empty());
    while i < list.len()
        invariant
            i <= list.len(),
            items_view(array@) == json_strings(texts(list@).take(i as int)),
        decreases list.len() - i,
    {
        let item: Json = Json::Str(list[i].clone());
        proof {
            lemma_items_view_push(array@, item);
            assert(json_strings(texts(list@).take(i + 1)) =~= json_strings(
                texts(list@).take(i as int),
            ).push(item@));
        }
        array.push(item);
        i = i + 1;
    }
    assert(texts(list@).take(list.len() as int) =~= texts(list@));
    array
}

fn property(param: &ParamSpec) -> (schema: Json)
    ensures
        schema@ == property_view(param@),
{
    let mut members: Object = Object::new();
    members.insert("type", Json::Str(param.ty.clone()));
    if let Some(desc) = &param.desc {
        members.insert("description", Json::Str(desc.clone()));
    }
    if let Some(values) = &param.enum_values {
        members.insert("enum", Json::Array(string_array(values)));
    }
    Json::Object(members)
}

proof fn lemma_required_push(params: Seq<ParamView>, param: ParamView)
    ensures
        required_names(params.push(param)) == if param.required {
            required_names(params).push(param.name)
        } else {
            required_names(params)
        },
{
    reveal(Seq::filter);
    assert(params.push(param).drop_last() =~= params);
    assert(required_names(params.push(param)) =~= if param.required {
        required_names(params).push(param.name)
    } else {
        required_names(params)
    });
}

/// Builds the JSON schema of a method's input. Declared parameters yield a strict schema,
/// so typos are refused; methods that pass fields through stay open.
pub fn input_schema(spec: &MethodSpec) -> (schema: Json)
    ensures
        schema@ == schema_view(spec@),
{
    let ghost params = params_view(spec.params@);
    let mut properties: Object = Object::new();
    let mut required: Vec<String> = Vec::new();
    let mut i: usize = 0;
    proof {
        reveal(Seq::filter);
        assert(texts(required@) =~= required_names(params.take(0)));
    }
    while i < spec.params.len()
        invariant
            i <= spec.params.len(),
            params == params_view(spec.params@),
            properties@ == properties_view(params.take(i as int)),
            texts(required@) == required_names(params.take(i as int)),
        decreases spec.params.len() - i,
    {
        let param: &ParamSpec = &spec.params[i];
        proof {
            assert(params.take(i + 1) =~= params.take(i as int).push(param@));
            assert(params.take(i + 1).drop_last() =~= params.take(i as int));
            lemma_required_push(params.take(i as int), param@);
        }
        properties.insert(param.name.as_str(), property(param));
        let ghost names = texts(required@);
        if param.required {
            required.push(param.name.clone());
            assert(texts(required@) =~= names.push(param.name@));
        }
        i = i + 1;
    }
    assert(params.take(params.len() as int) =~= params);
    let mut schema: Object = Object::new();
    schema.insert("type", Json::Str("object".to_string()));
    schema.insert("properties", Json::Object(properties));
    schema.insert("additionalProperties", Json::Bool(spec.passthrough));
    if required.len() > 0 {
        schema.insert("required", Json::Array(string_array(&required)));
    }
    Json::Object(schema)
}

/// Whether a value has the declared type. A type that is none of the known ones takes every
/// value.
pub open spec fn type_accepts(ty: Seq<char>, value: JsonView) -> bool {
    if ty == "string"@ {
        value is Str
    } else if ty == "integer"@ {
        value is Int
    } else if ty == "number"@ {
        value is Int || value is Float
    } else if ty == "boolean"@ {
        value is Bool
    } else if ty == "object"@ {
        value is Object
    } else if ty == "array"@ {
        value is Array
    } else {
        true
    }
}

/// Whether a value is one of an enumeration, where there is one.
pub open spec fn listed(values: Option<Seq<Seq<char>>>, value: JsonView) -> bool {
    match values {
        Some(allowed) => value is Str && allowed.contains(value->Str_0),
        None => true,
    }
}

/// Whether an argument is in none of the declared parameters of a method that is strict.
pub open spec fn unknown_field(
    method: MethodView,
    args: Map<Seq<char>, JsonView>,
    key: Seq<char>,
) -> bool {
    &&& !method.passthrough
    &&& args.dom().contains(key)
    &&& !param_names(method.params).contains(key)
}

/// Whether `key` is the first unknown argument in the order of texts.
pub open spec fn first_unknown(
    method: MethodView,
    args: Map<Seq<char>, JsonView>,
    key: Seq<char>,
) -> bool {
    &&& unknown_field(method, args, key)
    &&& forall|other: Seq<char>| #[trigger]
        unknown_field(method, args, other) ==> other == key || before(key, other)
}

/// What is wrong with the argument for one parameter, if anything is.
pub open spec fn param_violation(param: ParamView, args: Map<Seq<char>, JsonView>) -> Option<
    Seq<char>,
> {
    if !args.dom().contains(param.name) {
        if param.required {
            Some("missing required field `"@ + param.name + "`"@)
        } else {
            None
        }
    } else if !type_accepts(param.ty, args[param.name]) {
        Some("field `"@ + param.name + "` must be "@ + param.ty)
    } else if !listed(param.enum_values, args[param.name]) {
        Some(
            "field `"@ + param.name + "` must be one of ["@ + joined(
                param.enum_values->0,
                ", "@,
            ) + "]"@,
        )
    } else {
        None
    }
}

/// What is wrong with the first argument that is wrong, in the order of the parameters.
pub open spec fn params_violation(
    params: Seq<ParamView>,
    args: Map<Seq<char>, JsonView>,
) -> Option<Seq<char>>
    decreases params.len(),
{
    if params.len() == 0 {
        None
    } else {
        match param_violation(params.first(), args) {
            Some(message) => Some(message),
            None => params_violation(params.drop_first(), args),
        }
    }
}

/// The first violation of a method's contract in its call arguments: an unknown field of a
/// strict method, else a missing, ill-typed or unlisted one.
pub open spec fn violation(method: MethodView, args: Map<Seq<char>, JsonView>) -> Option<
    Seq<char>,
> {
    if exists|key: Seq<char>| unknown_field(method, args, key) {
        Some(
            "unknown field `"@ + (choose|key: Seq<char>| first_unknown(method, args, key)) + "`"@,
        )
    } else {
        params_violation(method.params, args)
    }
}

/// There is one first unknown argument at most.
pub proof fn lemma_first_unknown_unique(
    method: MethodView,
    args: Map<Seq<char>, JsonView>,
    a: Seq<char>,
    b: Seq<char>,
)
    requires
        first_unknown(method, args, a),
        first_unknown(method, args, b),
    ensures
        a == b,
{
    if a != b {
        crate::text::lemma_before_transitive(a, b, a);
        crate::text::lemma_before_irreflexive(a);
    }
}

/// Whether a value has the declared type.
fn type_ok(ty: &str, value: &Json) -> (ok: bool)
    ensures
        ok == type_accepts(ty@, value@),
{
    if same(ty, "string") {
        matches!(value, Json::Str(_))
    } else if same(ty, "integer") {
        matches!(value, Json::UInt(_)) || matches!(value, Json::NegInt(_))
    } else if same(ty, "number") {
        matches!(value, Json::UInt(_)) || matches!(value, Json::NegInt(_)) || matches!(
            value,
            Json::Float(_)
        )
    } else if same(ty, "boolean") {
        matches!(value, Json::Bool(_))
    } else if same(ty, "object") {
        matches!(value, Json::Object(_))
    } else if same(ty, "array") {
        matches!(value, Json::Array(_))
    } else {
        true
    }
}

/// Whether a list holds a text.
fn holds(list: &Vec<String>, text: &str) -> (found: bool)
    ensures
        found == texts(list@).contains(text@),
{
    let mut i: usize = 0;
    while i < list.len()
        invariant
            i <= list.len(),
            forall|j: int| 0 <= j < i ==> (#[trigger] texts(list@)[j]) != text@,
        decreases list.len() - i,
    {
        assert(texts(list@)[i as int] == list[i as int]@);
        if same(list[i].as_str(), text) {
            return true;
        }
        i = i + 1;
    }
    false
}

/// Whether a method declares a parameter.
fn declares(params: &Vec<ParamSpec>, name: &str) -> (found: bool)
    ensures
        found == param_names(params_view(params@)).contains(name@),
{
    let ghost names = param_names(params_view(params@));
    let mut i: usize = 0;
    while i < params.len()
        invariant
            i <= params.len() == names.len(),
            names == param_names(params_view(params@)),
            forall|j: int| 0 <= j < i ==> (#[trigger] names[j]) != name@,
        decreases params.len() - i,
    {
        assert(names[i as int] == params[i as int].name@);
        if same(params[i].name.as_str(), name) {
            return true;
        }
        i = i + 1;
    }
    false
}

/// The first argument of a strict method that no parameter declares.
fn find_unknown<'a>(spec: &MethodSpec, args: &'a Object) -> (found: Option<&'a str>)
    ensures
        match found {
            Some(key) => first_unknown(spec@, args@, key@),
            None => forall|key: Seq<char>| !unknown_field(spec@, args@, key),
        },
{
    if spec.passthrough {
        return None;
    }
    let mut first: Option<&'a str> = None;
    let mut i: usize = 0;
    while i < args.entries.len()
        invariant
            i <= args.entries.len(),
            !spec.passthrough,
            match first {
                Some(key) => {
                    &&& unknown_field(spec@, args@, key@)
                    &&& forall|j: int|
                        0 <= j < i && unknown_field(
                            spec@,
                            args@,
                            (#[trigger] args.entries[j]).0@,
                        ) ==> args.entries[j].0@ == key@ || before(key@, args.entries[j].0@)
                },
                None => forall|j: int|
                    0 <= j < i ==> !unknown_field(spec@, args@, (#[trigger] args.entries[j]).0@),
            },
        decreases args.entries.len() - i,
    {
        let key: &'a str = args.entries[i].0.as_str();
        proof {
            crate::json::lemma_entries_keys(args.entries@, key@);
            assert(args.entries[i as int].0@ == key@);
        }
        if !declares(&spec.params, key) {
            match first {
                Some(other) => {
                    if comes_before(key, other) {
                        proof {
                            assert forall|j: int|
                                0 <= j < i + 1 && unknown_field(
                                    spec@,
                                    args@,
                                    (#[trigger] args.entries[j]).0@,
                                ) implies args.entries[j].0@ == key@ || before(
                                key@,
                                args.entries[j].0@,
                            ) by {
                                if j < i && args.entries[j].0@ != other@ {
                                    crate::text::lemma_before_transitive(
                                        key@,
                                        other@,
                                        args.entries[j].0@,
                                    );
                                }
                            }
                        }
                        first = Some(key);
                    } else {
                        proof {
                            crate::text::lemma_before_total(key@, other@);
                        }
                    }
                },
                None => {
                    first = Some(key);
                },
            }
        }
        i = i + 1;
    }
    proof {
        assert forall|key: Seq<char>| #[trigger] unknown_field(spec@, args@, key) implies exists|
            j: int,
        | 0 <= j < args.entries.len() && (#[trigger] args.entries[j]).0@ == key by {
            crate::json::lemma_entries_keys(args.entries@, key);
        }
    }
    first
}

/// What is wrong with the argument for one parameter, if anything is.
fn check_param(param: &ParamSpec, args: &Object) -> (r: Option<String>)
    ensures
        crate::contract::optional_text(r) == param_violation(param@, args@),
{
    match args.get(param.name.as_str()) {
        None => {
            if param.required {
                let mut message: String = "missing required field `".to_string();
                message.append(param.name.as_str());
                message.append("`");
                Some(message)
            } else {
                None
            }
        },
        Some(value) => {
            if !type_ok(param.ty.as_str(), value) {
                let mut message: String = "field `".to_string();
                message.append(param.name.as_str());
                message.append("` must be ");
                message.append(param.ty.as_str());
                return Some(message);
            }
            if let Some(allowed) = &param.enum_values {
                let held: bool = match value.as_str() {
                    Some(text) => holds(allowed, text),
                    None => false,
                };
                if !held {
                    let mut message: String = "field `".to_string();
                    message.append(param.name.as_str());
                    message.append("` must be one of [");
                    message.append(join(allowed, ", ").as_str());
                    message.append("]");
                    return Some(message);
                }
            }
            None
        },
    }
}

/// What a verdict on call arguments is.
pub open spec fn verdict(r: Result<(), String>) -> Option<Seq<char>> {
    match r {
        Ok(_) => None,
        Err(message) => Some(message@),
    }
}

/// Checks call arguments against a method's contract. The message is that of the first
/// violation: an unknown field (strict methods only), a missing required field, a wrong
/// type, or a value outside an enumeration.
pub fn validate(spec: &MethodSpec, args: &Object) -> (r: Result<(), String>)
    ensures
        verdict(r) == violation(spec@, args@),
{
    if let Some(key) = find_unknown(spec, args) {
        proof {
            let chosen = choose|k: Seq<char>| first_unknown(spec@, args@, k);
            lemma_first_unknown_unique(spec@, args@, key@, chosen);
        }
        let mut message: String = "unknown field `".to_string();
        message.append(key);
        message.append("`");
        return Err(message);
    }
    let ghost params = params_view(spec.params@);
    let mut i: usize = 0;
    assert(params.skip(0) =~= params);
    while i < spec.params.len()
        invariant
            i <= spec.params.len(),
            params == params_view(spec.params@),
            forall|key: Seq<char>| !unknown_field(spec@, args@, key),
            params_violation(params, args@) == params_violation(params.skip(i as int), args@),
        decreases spec.params.len() - i,
    {
        assert(params.skip(i as int).first() == spec.params[i as int]@);
        assert(params.skip(i as int).drop_first() =~= params.skip(i + 1));
        if let Some(message) = check_param(&spec.params[i], args) {
            return Err(message);
        }
        i = i + 1;
    }
    Ok(())
}

} // verus!

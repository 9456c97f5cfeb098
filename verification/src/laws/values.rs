//! What holds of values and of what they stand for.

use vstd::prelude::*;

use crate::config::SurfaceEnv;
use crate::contract::{optional_text, optional_texts, RawManifest, RawMethod, RawParam};
use crate::herdr::{
    outcome, path_option, path_outcome, paths_outcome, HerdrError, HerdrErrorView,
};
use crate::json::{entries_view, items_view, json_option, text_option, Float, Json, JsonView, Object};
use crate::manifest::{methods_view, params_view, MethodSpec, ParamSpec};
use crate::schema::verdict;
use crate::server::{
    rendered_view, Answer, AnswerView, CallResult, Plan, PlanView, Step, StepView, Surface, Tool,
};
use crate::text::texts;

verus! {

/// A scalar stands for what it holds; integers stand for their number, whatever their sign.
pub proof fn law_scalars_stand_for_themselves(b: bool, n: u64, m: i64, f: Float, s: String)
    ensures
        Json::Null@ == JsonView::Null,
        Json::Bool(b)@ == JsonView::Bool(b),
        Json::UInt(n)@ == JsonView::Int(n as int),
        Json::NegInt(m)@ == JsonView::Int(m as int),
        Json::Float(f)@ == JsonView::Float(f),
        Json::Str(s)@ == JsonView::Str(s@),
{
}

proof fn lemma_items(items: Seq<Json>)
    ensures
        items_view(items).len() == items.len(),
        forall|i: int| 0 <= i < items.len() ==> #[trigger] items_view(items)[i] == items[i]@,
    decreases items.len(),
{
    if items.len() > 0 {
        lemma_items(items.drop_last());
    }
}

/// A list stands for what its items stand for, one by one.
pub proof fn law_lists_stand_for_their_items(items: Vec<Json>)
    ensures
        Json::Array(items)@ matches JsonView::Array(views) && views.len() == items.len()
            && forall|i: int| 0 <= i < items.len() ==> #[trigger] views[i] == items[i]@,
{
    lemma_items(items@);
}

/// In an object the last entry of a key counts, and a key without an entry has no member.
pub proof fn law_last_entries_count(object: Object, key: Seq<char>)
    ensures
        Json::Object(object)@ == JsonView::Object(object@),
        object@.dom().contains(key) <==> exists|i: int|
            0 <= i < object.entries.len() && (#[trigger] object.entries[i]).0@ == key,
        forall|i: int|
            0 <= i < object.entries.len() && (#[trigger] object.entries[i]).0@ == key && (forall|
                j: int,
            |
                i < j < object.entries.len() ==> (#[trigger] object.entries[j]).0@ != key)
                ==> object@[key] == object.entries[i].1@,
{
    crate::json::lemma_entries_keys(object.entries@, key);
    lemma_last(object.entries@, key);
}

proof fn lemma_last(entries: Seq<(String, Json)>, key: Seq<char>)
    ensures
        forall|i: int|
            0 <= i < entries.len() && (#[trigger] entries[i]).0@ == key && (forall|j: int|
                i < j < entries.len() ==> (#[trigger] entries[j]).0@ != key) ==> entries_view(
                entries,
            )[key] == entries[i].1@,
    decreases entries.len(),
{
    if entries.len() > 0 {
        let rest = entries.drop_last();
        lemma_last(rest, key);
        assert forall|i: int|
            0 <= i < entries.len() && (#[trigger] entries[i]).0@ == key && (forall|j: int|
                i < j < entries.len() ==> (#[trigger] entries[j]).0@ != key) implies entries_view(
            entries,
        )[key] == entries[i].1@ by {
            if i < rest.len() {
                assert(rest[i] == entries[i]);
                assert(entries[entries.len() - 1].0@ != key);
                assert forall|j: int| i < j < rest.len() implies (#[trigger] rest[j]).0@ != key by {
                    assert(rest[j] == entries[j]);
                }
            }
        }
    }
}

/// Objects have members, strings have a text, and integers that fit have a number; no other
/// values do.
pub proof fn law_values_are_told_apart(value: JsonView, key: Seq<char>)
    ensures
        value.member(key) == match value {
            JsonView::Object(members) => members.get(key),
            _ => None,
        },
        value.text() is Some <==> value is Str,
        value.text() matches Some(s) ==> value == JsonView::Str(s),
        value.unsigned() is Some <==> value is Int && 0 <= value->Int_0 < 0x1_0000_0000_0000_0000,
        value.unsigned() matches Some(n) ==> value == JsonView::Int(n as int),
        value.member_text(key) is Some <==> (value.member(key) matches Some(member) && member is
            Str),
        value.member_text(key) matches Some(s) ==> value.member(key) == Some(JsonView::Str(s)),
{
}

/// What is there stands for itself, and what is not for nothing.
pub proof fn law_options_stand_for_what_is_there(
    tree: &Json,
    text: &str,
    owned: String,
    list: Vec<String>,
    path: &[u8],
)
    ensures
        json_option(Some(tree)) == Some(tree@),
        json_option(None) is None,
        text_option(Some(text)) == Some(text@),
        text_option(None) is None,
        optional_text(Some(owned)) == Some(owned@),
        optional_text(None) is None,
        optional_texts(Some(list)) == Some(texts(list@)),
        optional_texts(None) is None,
        path_option(Some(path)) == Some(path@),
        path_option(None) is None,
{
}

/// What was found stands for itself, and a failure for what it tells.
pub proof fn law_outcomes_stand_for_what_came(
    value: Json,
    path: Vec<u8>,
    list: Vec<Vec<u8>>,
    text: String,
    error: HerdrError,
    i: int,
)
    ensures
        outcome(Ok(value)) == Ok::<JsonView, HerdrErrorView>(value@),
        outcome(Err(error)) == Err::<JsonView, HerdrErrorView>(error@),
        path_outcome(Ok(path)) == Ok::<Seq<u8>, HerdrErrorView>(path@),
        path_outcome(Err(error)) == Err::<Seq<u8>, HerdrErrorView>(error@),
        paths_outcome(Err(error)) == Err::<Seq<Seq<u8>>, HerdrErrorView>(error@),
        paths_outcome(Ok(list)) matches Ok(paths) && paths.len() == list.len() && (0 <= i
            < list.len() ==> paths[i] == list[i]@),
        rendered_view(Ok(text)) == Ok::<Seq<char>, Seq<char>>(text@),
        rendered_view(Err(text)) == Err::<Seq<char>, Seq<char>>(text@),
        verdict(Ok(())) is None,
        verdict(Err(text)) == Some(text@),
        error matches HerdrError::Transport(message) ==> error@ == HerdrErrorView::Transport(
            message@,
        ),
        error matches HerdrError::Api { code, message } ==> error@ == (HerdrErrorView::Api {
            code: code@,
            message: message@,
        }),
{
}

/// Lists stand for what they list, one by one.
pub proof fn law_lists_stand_for_what_they_list(
    list: Seq<String>,
    params: Seq<ParamSpec>,
    methods: Seq<MethodSpec>,
    i: int,
)
    ensures
        texts(list).len() == list.len(),
        0 <= i < list.len() ==> texts(list)[i] == list[i]@,
        params_view(params).len() == params.len(),
        0 <= i < params.len() ==> params_view(params)[i] == params[i]@,
        methods_view(methods).len() == methods.len(),
        0 <= i < methods.len() ==> methods_view(methods)[i] == methods[i]@,
{
}

/// A method and a parameter stand for all that they hold.
pub proof fn law_methods_stand_for_all_they_hold(method: MethodSpec, param: ParamSpec)
    ensures
        method@.method == method.method@,
        method@.tool_name == method.tool_name@,
        method@.group == method.group@,
        method@.description == method.description@,
        method@.danger == method.danger,
        method@.passthrough == method.passthrough,
        method@.params == params_view(method.params@),
        param@.name == param.name@,
        param@.ty == param.ty@,
        param@.required == param.required,
        param@.desc is Some <==> param.desc is Some,
        param.desc matches Some(desc) ==> param@.desc == Some(desc@),
        param@.enum_values is Some <==> param.enum_values is Some,
        param.enum_values matches Some(values) ==> param@.enum_values == Some(texts(values@)),
{
}

/// What a contract declares stands for all that it holds.
pub proof fn law_declarations_stand_for_all_they_hold(
    manifest: RawManifest,
    method: RawMethod,
    param: RawParam,
    name: Seq<char>,
)
    ensures
        manifest@.herdr_version == manifest.herdr_version@,
        manifest@.methods.dom().contains(name) <==> manifest.methods@.dom().contains(name),
        manifest.methods@.dom().contains(name) ==> manifest@.methods[name]
            == manifest.methods@[name]@,
        method@.group == method.group@,
        method@.description == method.description@,
        method@.danger == method.danger,
        method@.passthrough == method.passthrough,
        method@.params.dom().contains(name) <==> method.params@.dom().contains(name),
        method.params@.dom().contains(name) ==> method@.params[name] == method.params@[name]@,
        param@.ty == param.ty@,
        param@.required == param.required,
        param@.desc is Some <==> param.desc is Some,
        param.desc matches Some(desc) ==> param@.desc == Some(desc@),
        param@.enum_values is Some <==> param.enum_values is Some,
        param.enum_values matches Some(values) ==> param@.enum_values == Some(texts(values@)),
{
}

/// The settings stand for the texts that were given.
pub proof fn law_settings_stand_for_what_was_given(env: SurfaceEnv)
    ensures
        env@.profile is Some <==> env.profile is Some,
        env.profile matches Some(text) ==> env@.profile == Some(text@),
        env@.groups is Some <==> env.groups is Some,
        env.groups matches Some(text) ==> env@.groups == Some(text@),
        env@.allow is Some <==> env.allow is Some,
        env.allow matches Some(text) ==> env@.allow == Some(text@),
        env@.deny is Some <==> env.deny is Some,
        env.deny matches Some(text) ==> env@.deny == Some(text@),
{
}

/// A tool and a surface stand for all that they hold.
pub proof fn law_tools_stand_for_all_they_hold(tool: Tool, surface: Surface, i: int)
    ensures
        tool@.name == tool.name@,
        tool@.description == tool.description@,
        tool@.schema == tool.schema@,
        tool@.read_only == tool.read_only,
        tool@.destructive == tool.destructive,
        tool@.enabled == tool.enabled,
        surface@.tools.len() == surface.tools.len(),
        0 <= i < surface.tools.len() ==> surface@.tools[i] == surface.tools[i]@,
        surface@.enabled == surface.enabled@,
        surface@.known == surface.known@,
        surface@.deny == texts(surface.deny@),
        surface@.summary == surface.summary@,
{
}

/// Plans, steps, answers and results stand for all that they hold.
pub proof fn law_calls_stand_for_all_they_hold(
    kind: String,
    code: String,
    message: String,
    method: String,
    params: Json,
    result: CallResult,
)
    ensures
        (Plan::Refuse { kind, code, message, method })@ == (PlanView::Refuse {
            kind: kind@,
            code: code@,
            message: message@,
            method: method@,
        }),
        (Plan::Forward { method, params })@ == (PlanView::Forward {
            method: method@,
            params: params@,
        }),
        (Answer::Success { result: params })@ == (AnswerView::Success { result: params@ }),
        (Answer::Failure { kind, code, message, method })@ == (AnswerView::Failure {
            kind: kind@,
            code: code@,
            message: message@,
            method: method@,
        }),
        result@.is_error == result.is_error,
        result@.text == result.text@,
        (Step::Done { result })@ == (StepView::Done { result: result@ }),
        (Step::Request { method, params })@ == (StepView::Request {
            method: method@,
            params: params@,
        }),
{
}

} // verus!

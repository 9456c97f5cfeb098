//! What holds of the tool contract: how a document declares methods, and how they make the
//! surface.

use vstd::prelude::*;

use crate::bundled::BUNDLED;
use crate::contract::{
    manifest_of, raw_method, raw_methods, raw_param, raw_params, RawMethodView, RawParamView,
};
use crate::manifest::{
    bundled_manifest, describes, is_surface, method_names, param_names, tool_name_of, MethodView,
};
use crate::text::before;
use crate::yaml::{
    bare, field, lemma_nodes_view, mapping_pairs, nodes_view, pairs_view, scalar_text, yaml_parsed, Yaml,
    YamlView,
};

verus! {

/// Scalars have a text, mappings have pairs, a null node is empty as either, and a tag changes
/// neither.
pub proof fn law_nodes_are_read_for_what_they_hold(
    s: Seq<char>,
    b: bool,
    nodes: Seq<YamlView>,
    pairs: Seq<(YamlView, YamlView)>,
    tag: Seq<char>,
    node: YamlView,
)
    ensures
        scalar_text(YamlView::Str(s)) == Some(s),
        scalar_text(YamlView::Number(s)) == Some(s),
        scalar_text(YamlView::Bool(true)) == Some("true"@),
        scalar_text(YamlView::Bool(false)) == Some("false"@),
        scalar_text(YamlView::Null) == Some(Seq::<char>::empty()),
        scalar_text(YamlView::Sequence(nodes)) is None,
        scalar_text(YamlView::Mapping(pairs)) is None,
        scalar_text(YamlView::Tagged(tag, Box::new(node))) == scalar_text(node),
        mapping_pairs(YamlView::Mapping(pairs)) == Some(pairs),
        mapping_pairs(YamlView::Null) == Some(Seq::<(YamlView, YamlView)>::empty()),
        mapping_pairs(YamlView::Str(s)) is None,
        mapping_pairs(YamlView::Number(s)) is None,
        mapping_pairs(YamlView::Bool(b)) is None,
        mapping_pairs(YamlView::Sequence(nodes)) is None,
        mapping_pairs(YamlView::Tagged(tag, Box::new(node))) == mapping_pairs(node),
        bare(YamlView::Tagged(tag, Box::new(node))) == bare(node),
        bare(YamlView::Sequence(nodes)) == YamlView::Sequence(nodes),
{
    reveal_with_fuel(bare, 2);
}

/// A node stands for what it holds.
pub proof fn law_nodes_stand_for_what_they_hold(
    b: bool,
    s: String,
    nodes: Vec<Yaml>,
    pairs: Vec<(Yaml, Yaml)>,
    inner: Box<Yaml>,
    i: int,
)
    ensures
        Yaml::Null@ == YamlView::Null,
        Yaml::Bool(b)@ == YamlView::Bool(b),
        Yaml::Number(s)@ == YamlView::Number(s@),
        Yaml::Str(s)@ == YamlView::Str(s@),
        Yaml::Tagged(s, inner)@ == YamlView::Tagged(s@, Box::new((*inner)@)),
        Yaml::Sequence(nodes)@ == YamlView::Sequence(nodes_view(nodes@)),
        nodes_view(nodes@).len() == nodes.len(),
        0 <= i < nodes.len() ==> nodes_view(nodes@)[i] == nodes[i]@,
        Yaml::Mapping(pairs)@ == YamlView::Mapping(pairs_view(pairs@)),
        pairs_view(pairs@).len() == pairs.len(),
        0 <= i < pairs.len() ==> pairs_view(pairs@)[i] == (pairs[i].0@, pairs[i].1@),
{
    lemma_nodes_view(nodes@);
    lemma_pairs(pairs@);
}

proof fn lemma_pairs(pairs: Seq<(Yaml, Yaml)>)
    ensures
        pairs_view(pairs).len() == pairs.len(),
        forall|i: int|
            0 <= i < pairs.len() ==> #[trigger] pairs_view(pairs)[i] == (pairs[i].0@, pairs[i].1@),
    decreases pairs.len(),
{
    if pairs.len() > 0 {
        lemma_pairs(pairs.drop_last());
    }
}

/// The field of a mapping is the node under the key with its name, the last where there are more,
/// and none where there is no such key.
pub proof fn law_fields_are_found_by_name(
    pairs: Seq<(YamlView, YamlView)>,
    name: Seq<char>,
    i: int,
)
    requires
        0 <= i < pairs.len(),
        forall|j: int| i < j < pairs.len() ==> scalar_text((#[trigger] pairs[j]).0) != Some(name),
    ensures
        scalar_text(pairs[i].0) == Some(name) ==> field(pairs, name) == Some(pairs[i].1),
        i == 0 && scalar_text(pairs[i].0) != Some(name) ==> field(pairs, name) is None,
        field(Seq::empty(), name) is None,
    decreases pairs.len(),
{
    if i < pairs.len() - 1 {
        let rest = pairs.drop_last();
        assert(scalar_text(pairs[pairs.len() - 1].0) != Some(name));
        assert forall|j: int| i < j < rest.len() implies scalar_text((#[trigger] rest[j]).0)
            != Some(name) by {
            assert(rest[j] == pairs[j]);
        }
        assert(rest[i] == pairs[i]);
        law_fields_are_found_by_name(rest, name, i);
    } else if i == 0 {
        assert(pairs.drop_last() =~= Seq::empty());
    }
}

/// Whether a node is a list of scalars.
pub open spec fn is_list_of_scalars(node: YamlView) -> bool {
    bare(node) matches YamlView::Sequence(nodes) && forall|k: int|
        0 <= k < nodes.len() ==> scalar_text(#[trigger] nodes[k]) is Some
}

/// Whether a field is missing, or a scalar.
pub open spec fn missing_or_scalar(found: Option<YamlView>) -> bool {
    found matches Some(node) ==> scalar_text(node) is Some
}

/// Whether a field is missing, or a boolean.
pub open spec fn missing_or_flag(found: Option<YamlView>) -> bool {
    found matches Some(node) ==> node is Bool
}

/// A mapping declares a parameter if and only if its fields are of the right shape, and the
/// parameter has what they say: the type `string` where none is given, required only where that is
/// said, and a description and an enumeration only where they are given.
pub proof fn law_parameters_are_what_they_are_declared(pairs: Seq<(YamlView, YamlView)>, k: int)
    ensures
        ({
            let ty = field(pairs, "type"@);
            let required = field(pairs, "required"@);
            let desc = field(pairs, "desc"@);
            let values = field(pairs, "enum"@);
            let declared = raw_param(YamlView::Mapping(pairs));
            &&& declared is Some <==> missing_or_scalar(ty) && missing_or_flag(required)
                && missing_or_scalar(desc) && (values matches Some(node) ==> node is Null
                || is_list_of_scalars(node))
            &&& declared matches Some(param) ==> {
                &&& ty is None ==> param.ty == "string"@
                &&& ty matches Some(node) ==> Some(param.ty) == scalar_text(node)
                &&& param.required <==> required == Some(YamlView::Bool(true))
                &&& desc is None || desc == Some(YamlView::Null) ==> param.desc is None
                &&& desc matches Some(node) ==> (node is Null || param.desc == scalar_text(node))
                &&& values is None || values == Some(YamlView::Null) ==> param.enum_values is None
                &&& values matches Some(node) ==> (node is Null || (bare(
                    node,
                ) matches YamlView::Sequence(nodes) && param.enum_values matches Some(list)
                    && list.len() == nodes.len() && (0 <= k < nodes.len() ==> Some(list[k])
                    == scalar_text(nodes[k]))))
            }
        }),
        raw_param(YamlView::Null) == raw_param(YamlView::Mapping(Seq::empty())),
{
    law_nodes_are_read_for_what_they_hold(
        Seq::empty(),
        true,
        Seq::empty(),
        pairs,
        Seq::empty(),
        YamlView::Null,
    );
}

/// A mapping declares a method if and only if its fields are of the right shape, and the method
/// has what they say: a group, which has to be given, an empty description where none is given,
/// dangerous and open only where that is said, and no parameters where none are given.
pub proof fn law_methods_are_what_they_are_declared(
    pairs: Seq<(YamlView, YamlView)>,
)
    ensures
        ({
            let group = field(pairs, "group"@);
            let description = field(pairs, "description"@);
            let danger = field(pairs, "danger"@);
            let passthrough = field(pairs, "passthrough"@);
            let params = field(pairs, "params"@);
            let declared = raw_method(YamlView::Mapping(pairs));
            &&& declared is Some <==> group is Some && missing_or_scalar(group)
                && missing_or_scalar(description) && missing_or_flag(danger) && missing_or_flag(
                passthrough,
            ) && (params matches Some(node) ==> mapping_pairs(node) is Some && raw_params(
                mapping_pairs(node)->0,
            ) is Some)
            &&& declared matches Some(method) ==> {
                &&& Some(method.group) == scalar_text(group->0)
                &&& description is None ==> method.description.len() == 0
                &&& description matches Some(node) ==> Some(method.description) == scalar_text(node)
                &&& method.danger <==> danger == Some(YamlView::Bool(true))
                &&& method.passthrough <==> passthrough == Some(YamlView::Bool(true))
                &&& params is None ==> method.params.dom() =~= Set::empty()
                &&& params matches Some(node) ==> Some(method.params) == raw_params(
                    mapping_pairs(node)->0,
                )
            }
        }),
{
    law_nodes_are_read_for_what_they_hold(
        Seq::empty(),
        true,
        Seq::empty(),
        pairs,
        Seq::empty(),
        YamlView::Null,
    );
}

/// A mapping declares a contract if and only if its version, where it has one, is a scalar, and
/// its methods are there and declared; the contract has that version, empty where there is none,
/// and those methods.
pub proof fn law_contracts_are_what_they_are_declared(pairs: Seq<(YamlView, YamlView)>)
    ensures
        ({
            let version = field(pairs, "herdr_version"@);
            let methods = field(pairs, "methods"@);
            let declared = manifest_of(YamlView::Mapping(pairs));
            &&& declared is Some <==> missing_or_scalar(version) && (methods matches Some(node)
                && mapping_pairs(node) is Some && raw_methods(mapping_pairs(node)->0) is Some)
            &&& declared matches Some(manifest) ==> {
                &&& version is None ==> manifest.herdr_version.len() == 0
                &&& version matches Some(node) ==> Some(manifest.herdr_version) == scalar_text(node)
                &&& Some(manifest.methods) == raw_methods(mapping_pairs(methods->0)->0)
            }
        }),
        manifest_of(YamlView::Null) is None,
        yaml_parsed(BUNDLED@) is None ==> bundled_manifest() is None,
        yaml_parsed(BUNDLED@) matches Some(node) ==> bundled_manifest() == manifest_of(node),
{
    law_nodes_are_read_for_what_they_hold(
        Seq::empty(),
        true,
        Seq::empty(),
        pairs,
        Seq::empty(),
        YamlView::Null,
    );
}

/// One more pair declares one more parameter or method under its key; what is not declared right
/// spoils the whole.
pub proof fn law_declarations_add_up(
    pairs: Seq<(YamlView, YamlView)>,
    key: YamlView,
    node: YamlView,
    name: Seq<char>,
)
    requires
        scalar_text(key) == Some(name),
    ensures
        raw_params(Seq::empty()) == Some(Map::<Seq<char>, RawParamView>::empty()),
        raw_params(pairs) is None || raw_param(node) is None ==> raw_params(pairs.push((key, node)))
            is None,
        raw_params(pairs) matches Some(params) ==> (raw_param(node) matches Some(param)
            ==> raw_params(pairs.push((key, node))) == Some(params.insert(name, param))),
        raw_methods(Seq::empty()) == Some(Map::<Seq<char>, RawMethodView>::empty()),
        raw_methods(pairs) is None || raw_method(node) is None ==> raw_methods(
            pairs.push((key, node)),
        ) is None,
        raw_methods(pairs) matches Some(methods) ==> (raw_method(node) matches Some(method)
            ==> raw_methods(pairs.push((key, node))) == Some(methods.insert(name, method))),
{
    assert(pairs.push((key, node)).drop_last() =~= pairs);
}

/// A key that is no scalar declares nothing and spoils the whole.
pub proof fn law_keys_are_scalars(
    pairs: Seq<(YamlView, YamlView)>,
    key: YamlView,
    node: YamlView,
)
    requires
        scalar_text(key) is None,
    ensures
        raw_params(pairs.push((key, node))) is None,
        raw_methods(pairs.push((key, node))) is None,
{
    assert(pairs.push((key, node)).drop_last() =~= pairs);
}

/// Every declared method is on the surface once, before the escape hatch, as it was declared.
pub proof fn law_declared_methods_are_on_the_surface(
    methods: Seq<MethodView>,
    declared: Map<Seq<char>, RawMethodView>,
    name: Seq<char>,
)
    requires
        is_surface(methods, declared),
        declared.dom().contains(name),
    ensures
        exists|i: int|
            0 <= i < methods.len() - 1 && (#[trigger] methods[i]).method == name && methods[i].group
                == declared[name].group && methods[i].description == declared[name].description
                && methods[i].danger == declared[name].danger && methods[i].passthrough
                == declared[name].passthrough,
{
    let rest = methods.drop_last();
    assert(method_names(rest).contains(name));
    let i = method_names(rest).index_of(name);
    assert(methods[i].method == name);
    assert(rest[i] == methods[i]);
    assert(describes(rest[i], declared[rest[i].method]));
}

/// Nothing else is on the surface: before the escape hatch stand declared methods only, in the
/// order of their names, each named as a tool by its method with `_` for each `.`.
pub proof fn law_surface_holds_declared_methods_in_order(
    methods: Seq<MethodView>,
    declared: Map<Seq<char>, RawMethodView>,
    i: int,
    j: int,
)
    requires
        is_surface(methods, declared),
        0 <= i < j < methods.len(),
    ensures
        declared.dom().contains(methods[i].method),
        j < methods.len() - 1 ==> before(methods[i].method, methods[j].method),
        methods[i].tool_name == methods[i].method.map_values(
            |c: char|
                if c == '.' {
                    '_'
                } else {
                    c
                },
        ),
{
    let rest = methods.drop_last();
    let names = method_names(rest);
    assert(names[i] == methods[i].method);
    assert(names.contains(names[i]));
    assert(rest[i] == methods[i]);
    assert(describes(rest[i], declared[rest[i].method]));
    if j < rest.len() {
        assert(names[j] == methods[j].method);
    }
    assert(tool_name_of(methods[i].method) =~= methods[i].method.map_values(
        |c: char|
            if c == '.' {
                '_'
            } else {
                c
            },
    ));
}

/// Every declared parameter of a method on the surface is there as it was declared, and no other
/// is; they stand in the order of their names.
pub proof fn law_declared_parameters_are_on_the_surface(
    methods: Seq<MethodView>,
    declared: Map<Seq<char>, RawMethodView>,
    i: int,
    name: Seq<char>,
)
    requires
        is_surface(methods, declared),
        0 <= i < methods.len() - 1,
    ensures
        declared[methods[i].method].params.dom().contains(name) <==> exists|k: int|
            0 <= k < methods[i].params.len() && (#[trigger] methods[i].params[k]).name == name,
        forall|k: int|
            0 <= k < methods[i].params.len() ==> ({
                let param = #[trigger] methods[i].params[k];
                let raw = declared[methods[i].method].params[param.name];
                &&& param.ty == raw.ty
                &&& param.required == raw.required
                &&& param.desc == raw.desc
                &&& param.enum_values == raw.enum_values
            }),
        forall|k: int, l: int|
            0 <= k < l < methods[i].params.len() ==> before(
                (#[trigger] methods[i].params[k]).name,
                (#[trigger] methods[i].params[l]).name,
            ),
{
    let rest = methods.drop_last();
    assert(rest[i] == methods[i]);
    assert(describes(rest[i], declared[rest[i].method]));
    let params = methods[i].params;
    let names = param_names(params);
    let raw = declared[methods[i].method].params;
    assert(names.contains(name) <==> raw.dom().contains(name));
    if names.contains(name) {
        let k = names.index_of(name);
        assert(params[k].name == name);
    }
    if exists|k: int| 0 <= k < params.len() && (#[trigger] params[k]).name == name {
        let k = choose|k: int| 0 <= k < params.len() && (#[trigger] params[k]).name == name;
        assert(names[k] == name);
    }
    assert forall|k: int, l: int| 0 <= k < l < params.len() implies before(
        (#[trigger] params[k]).name,
        (#[trigger] params[l]).name,
    ) by {
        assert(names[k] == params[k].name && names[l] == params[l].name);
    }
}

/// The escape hatch is last on every surface. It is dangerous and open, in the group `raw`, and
/// takes a method, which it needs, and an object of parameters.
pub proof fn law_hatch_is_last_on_every_surface(
    methods: Seq<MethodView>,
    declared: Map<Seq<char>, RawMethodView>,
)
    requires
        is_surface(methods, declared),
    ensures
        methods.len() > 0,
        ({
            let hatch = methods[methods.len() - 1];
            &&& hatch.method == "herdr_call"@
            &&& hatch.tool_name == "herdr_call"@
            &&& hatch.group == "raw"@
            &&& hatch.danger
            &&& hatch.passthrough
            &&& hatch.params.len() == 2
            &&& hatch.params[0].name == "method"@ && hatch.params[0].ty == "string"@
                && hatch.params[0].required && hatch.params[0].enum_values is None
            &&& hatch.params[1].name == "params"@ && hatch.params[1].ty == "object"@
                && !hatch.params[1].required && hatch.params[1].enum_values is None
        }),
{
}

} // verus!

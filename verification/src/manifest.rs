//! The tool contract: which herdr methods are exposed, their group, description and
//! parameter schema. The contract is built into the library; nothing overrides it at run
//! time.

use vstd::prelude::*;

use crate::bundled::BUNDLED;
use crate::contract::{
    manifest_of, optional_text, optional_texts, read_manifest, ManifestView, RawManifest,
    RawMethodView, RawParam, RawParamView,
};
use crate::ordered::{lists, OrderedMap};
use crate::text::{replace, replaced, texts};
use crate::yaml::{parse_yaml, yaml_parsed};

pub use crate::schema::{input_schema, validate};

verus! {

/// Name of the raw escape-hatch tool, which is no herdr method.
pub const HERDR_CALL: &'static str = "herdr_call";

/// One method of the tool surface.
#[derive(Debug, Clone)]
pub struct MethodSpec {
    /// herdr socket method, as `pane.send_input`. For the escape hatch, `herdr_call`.
    pub method: String,
    /// Tool name: the method with `_` for each `.`.
    pub tool_name: String,
    pub group: String,
    pub description: String,
    pub danger: bool,
    pub passthrough: bool,
    pub params: Vec<ParamSpec>,
}

/// One parameter of a method.
#[derive(Debug, Clone)]
pub struct ParamSpec {
    pub name: String,
    pub ty: String,
    pub required: bool,
    pub desc: Option<String>,
    pub enum_values: Option<Vec<String>>,
}

/// What a method is.
pub struct MethodView {
    pub method: Seq<char>,
    pub tool_name: Seq<char>,
    pub group: Seq<char>,
    pub description: Seq<char>,
    pub danger: bool,
    pub passthrough: bool,
    pub params: Seq<ParamView>,
}

/// What a parameter is.
pub struct ParamView {
    pub name: Seq<char>,
    pub ty: Seq<char>,
    pub required: bool,
    pub desc: Option<Seq<char>>,
    pub enum_values: Option<Seq<Seq<char>>>,
}

impl ParamSpec {
    pub open spec fn view(self) -> ParamView {
        ParamView {
            name: self.name@,
            ty: self.ty@,
            required: self.required,
            desc: optional_text(self.desc),
            enum_values: optional_texts(self.enum_values),
        }
    }
}

impl MethodSpec {
    pub open spec fn view(self) -> MethodView {
        MethodView {
            method: self.method@,
            tool_name: self.tool_name@,
            group: self.group@,
            description: self.description@,
            danger: self.danger,
            passthrough: self.passthrough,
            params: params_view(self.params@),
        }
    }
}

/// What a list of parameters is.
pub open spec fn params_view(params: Seq<ParamSpec>) -> Seq<ParamView> {
    params.map_values(|p: ParamSpec| p@)
}

/// What a list of methods is.
pub open spec fn methods_view(methods: Seq<MethodSpec>) -> Seq<MethodView> {
    methods.map_values(|m: MethodSpec| m@)
}

/// The names of a list of parameters.
pub open spec fn param_names(params: Seq<ParamView>) -> Seq<Seq<char>> {
    params.map_values(|p: ParamView| p.name)
}

/// The names of a list of methods.
pub open spec fn method_names(methods: Seq<MethodView>) -> Seq<Seq<char>> {
    methods.map_values(|m: MethodView| m.method)
}

/// The tool name of a method.
pub open spec fn tool_name_of(method: Seq<char>) -> Seq<char> {
    replaced(method, '.', '_')
}

/// A declared parameter under its name.
pub open spec fn named_param(name: Seq<char>, raw: RawParamView) -> ParamView {
    ParamView {
        name,
        ty: raw.ty,
        required: raw.required,
        desc: raw.desc,
        enum_values: raw.enum_values,
    }
}

/// Whether `params` are the declared parameters, in the order of their names.
pub open spec fn lists_params(
    params: Seq<ParamView>,
    declared: Map<Seq<char>, RawParamView>,
) -> bool {
    &&& lists(param_names(params), declared.dom())
    &&& forall|i: int|
        0 <= i < params.len() ==> #[trigger] params[i] == named_param(
            params[i].name,
            declared[params[i].name],
        )
}

/// Whether a method is the declared one under its name.
pub open spec fn describes(method: MethodView, raw: RawMethodView) -> bool {
    &&& method.tool_name == tool_name_of(method.method)
    &&& method.group == raw.group
    &&& method.description == raw.description
    &&& method.danger == raw.danger
    &&& method.passthrough == raw.passthrough
    &&& lists_params(method.params, raw.params)
}

/// Whether `methods` are the declared methods, in the order of their names.
pub open spec fn lists_methods(
    methods: Seq<MethodView>,
    declared: Map<Seq<char>, RawMethodView>,
) -> bool {
    &&& lists(method_names(methods), declared.dom())
    &&& forall|i: int|
        0 <= i < methods.len() ==> describes(
            #[trigger] methods[i],
            declared[methods[i].method],
        )
}

/// Whether `methods` are the surface of a contract: its methods in the order of their
/// names, then the escape hatch.
pub open spec fn is_surface(
    methods: Seq<MethodView>,
    declared: Map<Seq<char>, RawMethodView>,
) -> bool {
    &&& methods.len() > 0
    &&& methods.last() == escape_hatch_view()
    &&& lists_methods(methods.drop_last(), declared)
}

/// What the escape hatch is.
pub open spec fn escape_hatch_view() -> MethodView {
    MethodView {
        method: HERDR_CALL@,
        tool_name: HERDR_CALL@,
        group: "raw"@,
        description:
            "Escape hatch: call any herdr socket method directly. Use for methods not otherwise exposed, or after a daemon upgrade adds methods."@,
        danger: true,
        passthrough: true,
        params: seq![
            ParamView {
                name: "method"@,
                ty: "string"@,
                required: true,
                desc: Some("herdr method, e.g. pane.list"@),
                enum_values: None,
            },
            ParamView {
                name: "params"@,
                ty: "object"@,
                required: false,
                desc: Some("Params object for the method."@),
                enum_values: None,
            },
        ],
    }
}

/// The contract that the built-in document holds.
pub open spec fn bundled_manifest() -> Option<ManifestView> {
    match yaml_parsed(BUNDLED@) {
        Some(node) => manifest_of(node),
        None => None,
    }
}

/// Reads the built-in document, if it holds a contract.
fn read_bundled() -> (r: Option<RawManifest>)
    ensures
        match r {
            Some(manifest) => manifest.wf() && bundled_manifest() == Some(manifest@),
            None => bundled_manifest() is None,
        },
{
    match parse_yaml(BUNDLED) {
        Some(node) => read_manifest(&node),
        None => None,
    }
}

/// Reads the built-in contract.
pub fn parse() -> (manifest: RawManifest)
    requires
        bundled_manifest() is Some,
    ensures
        manifest.wf(),
        bundled_manifest() == Some(manifest@),
{
    read_bundled().unwrap()
}

/// Reads the built-in contract, if the built-in document holds one.
pub fn checked_parse() -> (r: Option<RawManifest>)
    ensures
        match r {
            Some(manifest) => manifest.wf() && bundled_manifest() == Some(manifest@),
            None => bundled_manifest() is None,
        },
{
    match read_bundled() {
        Some(_) => Some(parse()),
        None => None,
    }
}

/// The herdr version that the built-in contract targets.
pub fn herdr_version() -> (version: String)
    requires
        bundled_manifest() is Some,
    ensures
        version@ == bundled_manifest()->0.herdr_version,
{
    parse().herdr_version
}

/// The herdr version that the built-in contract targets, if there is a contract.
pub fn checked_herdr_version() -> (r: Option<String>)
    ensures
        optional_text(r) == match bundled_manifest() {
            Some(manifest) => Some(manifest.herdr_version),
            None => None,
        },
{
    match read_bundled() {
        Some(_) => Some(herdr_version()),
        None => None,
    }
}

/// The methods of the built-in contract, then the escape hatch.
pub fn load() -> (methods: Vec<MethodSpec>)
    requires
        bundled_manifest() is Some,
    ensures
        is_surface(methods_view(methods@), bundled_manifest()->0.methods),
{
    method_specs(parse())
}

/// The methods of the built-in contract, then the escape hatch, if there is a contract.
pub fn checked_load() -> (r: Option<Vec<MethodSpec>>)
    ensures
        match r {
            Some(methods) => bundled_manifest() is Some && is_surface(
                methods_view(methods@),
                bundled_manifest()->0.methods,
            ),
            None => bundled_manifest() is None,
        },
{
    match read_bundled() {
        Some(_) => Some(load()),
        None => None,
    }
}

fn copy_texts(list: &Vec<String>) -> (r: Vec<String>)
    ensures
        texts(r@) == texts(list@),
{
    let mut r: Vec<String> = Vec::new();
    let mut i: usize = 0;
    while i < list.len()
        invariant
            i <= list.len(),
            r.len() == i,
            forall|j: int| 0 <= j < i ==> (#[trigger] r[j])@ == list[j]@,
        decreases list.len() - i,
    {
        r.push(list[i].clone());
        i = i + 1;
    }
    assert(texts(r@) =~= texts(list@));
    r
}

/// The parameters of a declared method, in the order of their names.
fn param_specs(declared: &OrderedMap<RawParam>) -> (params: Vec<ParamSpec>)
    requires
        declared.wf(),
    ensures
        lists_params(params_view(params@), declared@.map_values(|p: RawParam| p@)),
{
    let ghost map = declared@.map_values(|p: RawParam| p@);
    let mut params: Vec<ParamSpec> = Vec::new();
    let mut i: usize = 0;
    while i < declared.entries.len()
        invariant
            i <= declared.entries.len(),
            declared.wf(),
            map == declared@.map_values(|p: RawParam| p@),
            params.len() == i,
            forall|j: int|
                0 <= j < i ==> (#[trigger] params[j])@ == named_param(
                    declared.entries[j].0@,
                    declared.entries[j].1@,
                ),
        decreases declared.entries.len() - i,
    {
        let (name, raw) = &declared.entries[i];
        let desc: Option<String> = match &raw.desc {
            Some(text) => Some(text.clone()),
            None => None,
        };
        let enum_values: Option<Vec<String>> = match &raw.enum_values {
            Some(list) => Some(copy_texts(list)),
            None => None,
        };
        params.push(
            ParamSpec {
                name: name.clone(),
                ty: raw.ty.clone(),
                required: raw.required,
                desc,
                enum_values,
            },
        );
        i = i + 1;
    }
    proof {
        let views = params_view(params@);
        assert(param_names(views) =~= crate::ordered::keys(declared.entries@));
        assert forall|j: int| 0 <= j < views.len() implies #[trigger] views[j] == named_param(
            views[j].name,
            map[views[j].name],
        ) by {
            declared.lemma_entry(j);
            assert(views[j] == params[j]@);
        }
    }
    params
}

/// The methods of a contract, in the order of their names, then the escape hatch.
pub fn method_specs(manifest: RawManifest) -> (methods: Vec<MethodSpec>)
    requires
        manifest.wf(),
    ensures
        is_surface(methods_view(methods@), manifest@.methods),
{
    let ghost declared = manifest@.methods;
    let mut methods: Vec<MethodSpec> = Vec::new();
    let mut i: usize = 0;
    while i < manifest.methods.entries.len()
        invariant
            i <= manifest.methods.entries.len(),
            manifest.wf(),
            declared == manifest@.methods,
            methods.len() == i,
            forall|j: int|
                0 <= j < i ==> (#[trigger] methods[j])@.method == manifest.methods.entries[j].0@,
            forall|j: int|
                0 <= j < i ==> describes(
                    (#[trigger] methods[j])@,
                    manifest.methods.entries[j].1@,
                ),
        decreases manifest.methods.entries.len() - i,
    {
        assert(manifest.methods.entries[i as int].1.wf());
        let (method, raw) = &manifest.methods.entries[i];
        methods.push(
            MethodSpec {
                method: method.clone(),
                tool_name: replace(method.as_str(), '.', '_'),
                group: raw.group.clone(),
                description: raw.description.clone(),
                danger: raw.danger,
                passthrough: raw.passthrough,
                params: param_specs(&raw.params),
            },
        );
        i = i + 1;
    }
    let ghost listed = methods_view(methods@);
    proof {
        assert(method_names(listed) =~= crate::ordered::keys(manifest.methods.entries@));
        assert forall|j: int| 0 <= j < listed.len() implies describes(
            #[trigger] listed[j],
            declared[listed[j].method],
        ) by {
            manifest.methods.lemma_entry(j);
            assert(listed[j] == methods[j]@);
        }
    }
    methods.push(escape_hatch());
    assert(methods_view(methods@).drop_last() =~= listed);
    methods
}

/// The escape hatch, which calls any herdr method.
pub fn escape_hatch() -> (method: MethodSpec)
    ensures
        method@ == escape_hatch_view(),
{
    let mut params: Vec<ParamSpec> = Vec::new();
    params.push(
        ParamSpec {
            name: "method".to_string(),
            ty: "string".to_string(),
            required: true,
            desc: Some("herdr method, e.g. pane.list".to_string()),
            enum_values: None,
        },
    );
    params.push(
        ParamSpec {
            name: "params".to_string(),
            ty: "object".to_string(),
            required: false,
            desc: Some("Params object for the method.".to_string()),
            enum_values: None,
        },
    );
    assert(params_view(params@) =~= escape_hatch_view().params);
    MethodSpec {
        method: HERDR_CALL.to_string(),
        tool_name: HERDR_CALL.to_string(),
        group: "raw".to_string(),
        danger: true,
        passthrough: true,
        description:
            "Escape hatch: call any herdr socket method directly. Use for methods not otherwise exposed, or after a daemon upgrade adds methods.".to_string(),
        params,
    }
}

} // verus!

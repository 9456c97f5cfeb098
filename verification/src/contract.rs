//! The shape of the tool contract: what a YAML document must hold to be one.
//!
//! Texts may be any scalar, a null node counts as an empty one, and tags are passed over. The
//! reader of documents gives numbers as values, so the text of a number is that of its value, not
//! its spelling, and it refuses a document in which a mapping has a key twice.

use vstd::prelude::*;

use crate::ordered::OrderedMap;
use crate::text::texts;
use crate::yaml::{
    bare, bare_node, field, get_field, lemma_nodes_view, mapping_pairs, nodes_view, pairs_view,
    read_scalar, scalar_text, Yaml, YamlView,
};

verus! {

/// A parameter as the contract declares it.
#[derive(Debug)]
pub struct RawParam {
    pub ty: String,
    pub required: bool,
    pub desc: Option<String>,
    pub enum_values: Option<Vec<String>>,
}

/// A method as the contract declares it.
#[derive(Debug)]
pub struct RawMethod {
    pub group: String,
    pub description: String,
    pub danger: bool,
    pub passthrough: bool,
    pub params: OrderedMap<RawParam>,
}

/// The contract: the methods, and the herdr version that they target.
#[derive(Debug)]
pub struct RawManifest {
    pub herdr_version: String,
    pub methods: OrderedMap<RawMethod>,
}

/// What a declared parameter is.
pub struct RawParamView {
    pub ty: Seq<char>,
    pub required: bool,
    pub desc: Option<Seq<char>>,
    pub enum_values: Option<Seq<Seq<char>>>,
}

/// What a declared method is.
pub struct RawMethodView {
    pub group: Seq<char>,
    pub description: Seq<char>,
    pub danger: bool,
    pub passthrough: bool,
    pub params: Map<Seq<char>, RawParamView>,
}

/// What a contract is.
pub struct ManifestView {
    pub herdr_version: Seq<char>,
    pub methods: Map<Seq<char>, RawMethodView>,
}

/// What an optional text is.
pub open spec fn optional_text(text: Option<String>) -> Option<Seq<char>> {
    match text {
        Some(t) => Some(t@),
        None => None,
    }
}

/// What an optional list of texts is.
pub open spec fn optional_texts(list: Option<Vec<String>>) -> Option<Seq<Seq<char>>> {
    match list {
        Some(l) => Some(texts(l@)),
        None => None,
    }
}

impl RawParam {
    pub open spec fn view(self) -> RawParamView {
        RawParamView {
            ty: self.ty@,
            required: self.required,
            desc: optional_text(self.desc),
            enum_values: optional_texts(self.enum_values),
        }
    }
}

impl RawMethod {
    pub open spec fn view(self) -> RawMethodView {
        RawMethodView {
            group: self.group@,
            description: self.description@,
            danger: self.danger,
            passthrough: self.passthrough,
            params: self.params@.map_values(|p: RawParam| p@),
        }
    }

    /// Whether the parameters stand in the order of their names.
    pub open spec fn wf(self) -> bool {
        self.params.wf()
    }
}

impl RawManifest {
    pub open spec fn view(self) -> ManifestView {
        ManifestView {
            herdr_version: self.herdr_version@,
            methods: self.methods@.map_values(|m: RawMethod| m@),
        }
    }

    /// Whether the methods stand in the order of their names, and so do their parameters.
    pub open spec fn wf(self) -> bool {
        &&& self.methods.wf()
        &&& forall|i: int|
            0 <= i < self.methods.entries.len() ==> (#[trigger] self.methods.entries[i]).1.wf()
    }
}

/// The text under `name`, or `missing` where nothing stands there. Nothing where something else
/// than a scalar does.
pub open spec fn text_field(
    pairs: Seq<(YamlView, YamlView)>,
    name: Seq<char>,
    missing: Option<Seq<char>>,
) -> Option<Seq<char>> {
    match field(pairs, name) {
        None => missing,
        Some(node) => scalar_text(node),
    }
}

/// The boolean under `name`, false where nothing stands there.
pub open spec fn flag_field(pairs: Seq<(YamlView, YamlView)>, name: Seq<char>) -> Option<bool> {
    match field(pairs, name) {
        None => Some(false),
        Some(YamlView::Bool(b)) => Some(b),
        Some(_) => None,
    }
}

/// The text under `name`, which may be missing or null.
pub open spec fn optional_text_field(
    pairs: Seq<(YamlView, YamlView)>,
    name: Seq<char>,
) -> Option<Option<Seq<char>>> {
    match field(pairs, name) {
        None => Some(None),
        Some(YamlView::Null) => Some(None),
        Some(node) => match scalar_text(node) {
            Some(text) => Some(Some(text)),
            None => None,
        },
    }
}

/// Whether every node is a scalar.
pub open spec fn all_scalars(nodes: Seq<YamlView>) -> bool {
    forall|i: int| 0 <= i < nodes.len() ==> scalar_text(#[trigger] nodes[i]) is Some
}

/// The texts of a list of scalars.
pub open spec fn scalar_texts(nodes: Seq<YamlView>) -> Seq<Seq<char>> {
    nodes.map_values(|n: YamlView| scalar_text(n)->0)
}

/// The list of texts under `name`, which may be missing or null.
pub open spec fn optional_list_field(
    pairs: Seq<(YamlView, YamlView)>,
    name: Seq<char>,
) -> Option<Option<Seq<Seq<char>>>> {
    match field(pairs, name) {
        None => Some(None),
        Some(YamlView::Null) => Some(None),
        Some(node) => match bare(node) {
            YamlView::Sequence(nodes) => if all_scalars(nodes) {
                Some(Some(scalar_texts(nodes)))
            } else {
                None
            },
            _ => None,
        },
    }
}

/// The parameter that a node declares.
pub open spec fn raw_param(node: YamlView) -> Option<RawParamView> {
    match mapping_pairs(node) {
        Some(pairs) => match (
            text_field(pairs, "type"@, Some("string"@)),
            flag_field(pairs, "required"@),
            optional_text_field(pairs, "desc"@),
            optional_list_field(pairs, "enum"@),
        ) {
            (Some(ty), Some(required), Some(desc), Some(enum_values)) => Some(
                RawParamView { ty, required, desc, enum_values },
            ),
            _ => None,
        },
        None => None,
    }
}

/// The parameters that the pairs of a mapping declare, each under its name.
pub open spec fn raw_params(pairs: Seq<(YamlView, YamlView)>) -> Option<
    Map<Seq<char>, RawParamView>,
>
    decreases pairs.len(),
{
    if pairs.len() == 0 {
        Some(Map::empty())
    } else {
        match (raw_params(pairs.drop_last()), scalar_text(pairs.last().0), raw_param(pairs.last().1)) {
            (Some(params), Some(name), Some(param)) => Some(params.insert(name, param)),
            _ => None,
        }
    }
}

/// The parameters under `name`, none where nothing stands there.
pub open spec fn params_field(pairs: Seq<(YamlView, YamlView)>, name: Seq<char>) -> Option<
    Map<Seq<char>, RawParamView>,
> {
    match field(pairs, name) {
        None => Some(Map::empty()),
        Some(node) => match mapping_pairs(node) {
            Some(params) => raw_params(params),
            None => None,
        },
    }
}

/// The method that a node declares.
pub open spec fn raw_method(node: YamlView) -> Option<RawMethodView> {
    match mapping_pairs(node) {
        Some(pairs) => match (
            text_field(pairs, "group"@, None),
            text_field(pairs, "description"@, Some(Seq::empty())),
            flag_field(pairs, "danger"@),
            flag_field(pairs, "passthrough"@),
            params_field(pairs, "params"@),
        ) {
            (Some(group), Some(description), Some(danger), Some(passthrough), Some(params)) => Some(
                RawMethodView { group, description, danger, passthrough, params },
            ),
            _ => None,
        },
        None => None,
    }
}

/// The methods that the pairs of a mapping declare, each under its name.
pub open spec fn raw_methods(pairs: Seq<(YamlView, YamlView)>) -> Option<
    Map<Seq<char>, RawMethodView>,
>
    decreases pairs.len(),
{
    if pairs.len() == 0 {
        Some(Map::empty())
    } else {
        match (raw_methods(pairs.drop_last()), scalar_text(pairs.last().0), raw_method(pairs.last().1)) {
            (Some(methods), Some(name), Some(method)) => Some(
                methods.insert(name, method),
            ),
            _ => None,
        }
    }
}

/// The methods under `name`, which have to be there.
pub open spec fn methods_field(pairs: Seq<(YamlView, YamlView)>, name: Seq<char>) -> Option<
    Map<Seq<char>, RawMethodView>,
> {
    match field(pairs, name) {
        None => None,
        Some(node) => match mapping_pairs(node) {
            Some(methods) => raw_methods(methods),
            None => None,
        },
    }
}

/// The contract that a document holds. A document that is no mapping, has no methods, or
/// declares something in another shape holds none; further keys are passed over.
pub open spec fn manifest_of(node: YamlView) -> Option<ManifestView> {
    match mapping_pairs(node) {
        Some(pairs) => match (
            text_field(pairs, "herdr_version"@, Some(Seq::empty())),
            methods_field(pairs, "methods"@),
        ) {
            (Some(herdr_version), Some(methods)) => Some(ManifestView { herdr_version, methods }),
            _ => None,
        },
        None => None,
    }
}

fn read_text(pairs: &[(Yaml, Yaml)], name: &str, missing: Option<&str>) -> (r: Option<String>)
    ensures
        optional_text(r) == text_field(
            pairs_view(pairs@),
            name@,
            crate::json::text_option(missing),
        ),
{
    match get_field(pairs, name) {
        None => match missing {
            Some(text) => Some(text.to_string()),
            None => None,
        },
        Some(node) => read_scalar(node),
    }
}

fn read_flag(pairs: &[(Yaml, Yaml)], name: &str) -> (r: Option<bool>)
    ensures
        r == flag_field(pairs_view(pairs@), name@),
{
    match get_field(pairs, name) {
        None => Some(false),
        Some(Yaml::Bool(b)) => Some(*b),
        Some(_) => None,
    }
}

fn read_optional_text(pairs: &[(Yaml, Yaml)], name: &str) -> (r: Option<Option<String>>)
    ensures
        match r {
            Some(text) => Some(optional_text(text)),
            None => None,
        } == optional_text_field(pairs_view(pairs@), name@),
{
    match get_field(pairs, name) {
        None => Some(None),
        Some(Yaml::Null) => Some(None),
        Some(node) => match read_scalar(node) {
            Some(text) => Some(Some(text)),
            None => None,
        },
    }
}

/// The texts of a list of nodes, if all of them are scalars.
fn read_scalars(nodes: &[Yaml]) -> (r: Option<Vec<String>>)
    ensures
        optional_texts(r) == if all_scalars(nodes_view(nodes@)) {
            Some(scalar_texts(nodes_view(nodes@)))
        } else {
            None
        },
{
    proof {
        lemma_nodes_view(nodes@);
    }
    let ghost views = nodes_view(nodes@);
    let mut list: Vec<String> = Vec::new();
    let mut i: usize = 0;
    while i < nodes.len()
        invariant
            i <= nodes.len() == views.len(),
            views == nodes_view(nodes@),
            forall|j: int| 0 <= j < nodes.len() ==> #[trigger] views[j] == nodes[j]@,
            list.len() == i,
            forall|j: int| 0 <= j < i ==> scalar_text(#[trigger] views[j]) == Some(list[j]@),
        decreases nodes.len() - i,
    {
        assert(views[i as int] == nodes[i as int]@);
        match read_scalar(&nodes[i]) {
            Some(text) => {
                list.push(text);
            },
            None => {
                return None;
            },
        }
        i = i + 1;
    }
    assert(texts(list@) =~= scalar_texts(views));
    Some(list)
}

fn read_optional_list(pairs: &[(Yaml, Yaml)], name: &str) -> (r: Option<Option<Vec<String>>>)
    ensures
        match r {
            Some(list) => Some(optional_texts(list)),
            None => None,
        } == optional_list_field(pairs_view(pairs@), name@),
{
    match get_field(pairs, name) {
        None => Some(None),
        Some(Yaml::Null) => Some(None),
        Some(node) => match bare_node(node) {
            Yaml::Sequence(nodes) => match read_scalars(nodes) {
                Some(list) => Some(Some(list)),
                None => None,
            },
            _ => None,
        },
    }
}

/// The pairs of a mapping; `empty` where the node is null.
fn mapping_or<'a>(node: &'a Yaml, empty: &'a Vec<(Yaml, Yaml)>) -> (r: Option<&'a [(Yaml, Yaml)]>)
    requires
        empty.len() == 0,
    ensures
        mapping_pairs(node@) == match r {
            Some(pairs) => Some(pairs_view(pairs@)),
            None => None::<Seq<(YamlView, YamlView)>>,
        },
{
    match bare_node(node) {
        Yaml::Mapping(pairs) => Some(pairs.as_slice()),
        Yaml::Null => Some(empty.as_slice()),
        _ => None,
    }
}

/// The type of a parameter that declares none.
pub fn default_type() -> (ty: String)
    ensures
        ty@ == "string"@,
{
    "string".to_string()
}

fn read_param(node: &Yaml) -> (r: Option<RawParam>)
    ensures
        match r {
            Some(param) => Some(param@),
            None => None,
        } == raw_param(node@),
{
    let empty: Vec<(Yaml, Yaml)> = Vec::new();
    match mapping_or(node, &empty) {
        Some(pairs) => {
            let ty_default: String = default_type();
            let ty = read_text(pairs, "type", Some(ty_default.as_str()));
            let required = read_flag(pairs, "required");
            let desc = read_optional_text(pairs, "desc");
            let enum_values = read_optional_list(pairs, "enum");
            match (ty, required, desc, enum_values) {
                (Some(ty), Some(required), Some(desc), Some(enum_values)) => Some(
                    RawParam { ty, required, desc, enum_values },
                ),
                _ => None,
            }
        },
        None => None,
    }
}

/// Reads the parameters that the pairs of a mapping declare.
fn read_params(pairs: &[(Yaml, Yaml)]) -> (r: Option<OrderedMap<RawParam>>)
    ensures
        match r {
            Some(params) => params.wf() && raw_params(pairs_view(pairs@)) == Some(
                params@.map_values(|p: RawParam| p@),
            ),
            None => raw_params(pairs_view(pairs@)) is None,
        },
{
    let mut params: OrderedMap<RawParam> = OrderedMap::new();
    let mut i: usize = 0;
    proof {
        assert(pairs_view(pairs@.take(0)) =~= Seq::<(YamlView, YamlView)>::empty());
        assert(params@.map_values(|p: RawParam| p@) =~= Map::<Seq<char>, RawParamView>::empty());
    }
    while i < pairs.len()
        invariant
            i <= pairs.len(),
            params.wf(),
            raw_params(pairs_view(pairs@.take(i as int))) == Some(
                params@.map_values(|p: RawParam| p@),
            ),
        decreases pairs.len() - i,
    {
        proof {
            lemma_raw_params_step(pairs@, i as int);
            if raw_params(pairs_view(pairs@.take(i + 1))) is None {
                lemma_raw_params_none(pairs@, i + 1);
            }
        }
        match (read_scalar(&pairs[i].0), read_param(&pairs[i].1)) {
            (Some(name), Some(param)) => {
                let ghost before = params@;
                params.insert(name, param);
                assert(params@.map_values(|p: RawParam| p@) =~= before.map_values(
                    |p: RawParam| p@,
                ).insert(name@, param@));
            },
            _ => {
                return None;
            },
        }
        i = i + 1;
    }
    assert(pairs@.take(pairs.len() as int) =~= pairs@);
    Some(params)
}

/// One more pair adds one parameter.
proof fn lemma_raw_params_step(pairs: Seq<(Yaml, Yaml)>, i: int)
    requires
        0 <= i < pairs.len(),
    ensures
        raw_params(pairs_view(pairs.take(i + 1))) == match (
            raw_params(pairs_view(pairs.take(i))),
            scalar_text(pairs[i].0@),
            raw_param(pairs[i].1@),
        ) {
            (Some(params), Some(name), Some(param)) => Some(params.insert(name, param)),
            _ => None,
        },
{
    let prefix = pairs.take(i + 1);
    assert(prefix.drop_last() =~= pairs.take(i));
    assert(pairs_view(prefix).drop_last() =~= pairs_view(pairs.take(i)));
}

/// What does not read as parameters does not with more pairs either.
proof fn lemma_raw_params_none(pairs: Seq<(Yaml, Yaml)>, i: int)
    requires
        0 <= i <= pairs.len(),
        raw_params(pairs_view(pairs.take(i))) is None,
    ensures
        raw_params(pairs_view(pairs)) is None,
    decreases pairs.len() - i,
{
    if i < pairs.len() {
        lemma_raw_params_step(pairs, i);
        lemma_raw_params_none(pairs, i + 1);
    } else {
        assert(pairs.take(i) =~= pairs);
    }
}

fn read_params_field(pairs: &[(Yaml, Yaml)], name: &str) -> (r: Option<OrderedMap<RawParam>>)
    ensures
        match r {
            Some(params) => params.wf() && params_field(pairs_view(pairs@), name@) == Some(
                params@.map_values(|p: RawParam| p@),
            ),
            None => params_field(pairs_view(pairs@), name@) is None,
        },
{
    match get_field(pairs, name) {
        None => {
            let params: OrderedMap<RawParam> = OrderedMap::new();
            assert(params@.map_values(|p: RawParam| p@) =~= Map::<
                Seq<char>,
                RawParamView,
            >::empty());
            Some(params)
        },
        Some(node) => {
            let empty: Vec<(Yaml, Yaml)> = Vec::new();
            match mapping_or(node, &empty) {
                Some(nodes) => read_params(nodes),
                None => None,
            }
        },
    }
}

fn read_method(node: &Yaml) -> (r: Option<RawMethod>)
    ensures
        match r {
            Some(method) => method.wf() && raw_method(node@) == Some(method@),
            None => raw_method(node@) is None,
        },
{
    let empty: Vec<(Yaml, Yaml)> = Vec::new();
    match mapping_or(node, &empty) {
        Some(pairs) => {
            let group = read_text(pairs, "group", None);
            let description = read_text(pairs, "description", Some(""));
            let danger = read_flag(pairs, "danger");
            let passthrough = read_flag(pairs, "passthrough");
            let params = read_params_field(pairs, "params");
            proof {
                reveal_strlit("");
                assert(""@ =~= Seq::<char>::empty());
            }
            match (group, description, danger, passthrough, params) {
                (Some(group), Some(description), Some(danger), Some(passthrough), Some(params)) => {
                    Some(RawMethod { group, description, danger, passthrough, params })
                },
                _ => None,
            }
        },
        None => None,
    }
}

/// One more pair adds one method.
proof fn lemma_raw_methods_step(pairs: Seq<(Yaml, Yaml)>, i: int)
    requires
        0 <= i < pairs.len(),
    ensures
        raw_methods(pairs_view(pairs.take(i + 1))) == match (
            raw_methods(pairs_view(pairs.take(i))),
            scalar_text(pairs[i].0@),
            raw_method(pairs[i].1@),
        ) {
            (Some(methods), Some(name), Some(method)) => Some(
                methods.insert(name, method),
            ),
            _ => None,
        },
{
    let prefix = pairs.take(i + 1);
    assert(prefix.drop_last() =~= pairs.take(i));
    assert(pairs_view(prefix).drop_last() =~= pairs_view(pairs.take(i)));
}

/// What does not read as methods does not with more pairs either.
proof fn lemma_raw_methods_none(pairs: Seq<(Yaml, Yaml)>, i: int)
    requires
        0 <= i <= pairs.len(),
        raw_methods(pairs_view(pairs.take(i))) is None,
    ensures
        raw_methods(pairs_view(pairs)) is None,
    decreases pairs.len() - i,
{
    if i < pairs.len() {
        lemma_raw_methods_step(pairs, i);
        lemma_raw_methods_none(pairs, i + 1);
    } else {
        assert(pairs.take(i) =~= pairs);
    }
}

/// Whether every stored method has its parameters in order.
pub open spec fn all_wf(methods: Map<Seq<char>, RawMethod>) -> bool {
    forall|name: Seq<char>| #[trigger] methods.dom().contains(name) ==> methods[name].wf()
}

/// Reads the methods that the pairs of a mapping declare.
fn read_methods(pairs: &[(Yaml, Yaml)]) -> (r: Option<OrderedMap<RawMethod>>)
    ensures
        match r {
            Some(methods) => methods.wf() && all_wf(methods@) && raw_methods(pairs_view(pairs@))
                == Some(methods@.map_values(|m: RawMethod| m@)),
            None => raw_methods(pairs_view(pairs@)) is None,
        },
{
    let mut methods: OrderedMap<RawMethod> = OrderedMap::new();
    let mut i: usize = 0;
    proof {
        assert(pairs_view(pairs@.take(0)) =~= Seq::<(YamlView, YamlView)>::empty());
        assert(methods@.map_values(|m: RawMethod| m@) =~= Map::<Seq<char>, RawMethodView>::empty());
    }
    while i < pairs.len()
        invariant
            i <= pairs.len(),
            methods.wf(),
            all_wf(methods@),
            raw_methods(pairs_view(pairs@.take(i as int))) == Some(
                methods@.map_values(|m: RawMethod| m@),
            ),
        decreases pairs.len() - i,
    {
        proof {
            lemma_raw_methods_step(pairs@, i as int);
            if raw_methods(pairs_view(pairs@.take(i + 1))) is None {
                lemma_raw_methods_none(pairs@, i + 1);
            }
        }
        match (read_scalar(&pairs[i].0), read_method(&pairs[i].1)) {
            (Some(name), Some(method)) => {
                let ghost before = methods@;
                methods.insert(name, method);
                assert(methods@.map_values(|m: RawMethod| m@) =~= before.map_values(
                    |m: RawMethod| m@,
                ).insert(name@, method@));
            },
            _ => {
                return None;
            },
        }
        i = i + 1;
    }
    assert(pairs@.take(pairs.len() as int) =~= pairs@);
    Some(methods)
}

fn read_methods_field(pairs: &[(Yaml, Yaml)], name: &str) -> (r: Option<OrderedMap<RawMethod>>)
    ensures
        match r {
            Some(methods) => methods.wf() && all_wf(methods@) && methods_field(
                pairs_view(pairs@),
                name@,
            ) == Some(methods@.map_values(|m: RawMethod| m@)),
            None => methods_field(pairs_view(pairs@), name@) is None,
        },
{
    match get_field(pairs, name) {
        None => None,
        Some(node) => {
            let empty: Vec<(Yaml, Yaml)> = Vec::new();
            match mapping_or(node, &empty) {
                Some(nodes) => read_methods(nodes),
                None => None,
            }
        },
    }
}

/// Reads the contract that a document holds.
pub fn read_manifest(node: &Yaml) -> (r: Option<RawManifest>)
    ensures
        match r {
            Some(manifest) => manifest.wf() && manifest_of(node@) == Some(manifest@),
            None => manifest_of(node@) is None,
        },
{
    let empty: Vec<(Yaml, Yaml)> = Vec::new();
    match mapping_or(node, &empty) {
        Some(pairs) => {
            let herdr_version = read_text(pairs, "herdr_version", Some(""));
            proof {
                reveal_strlit("");
                assert(""@ =~= Seq::<char>::empty());
            }
            match (herdr_version, read_methods_field(pairs, "methods")) {
                (Some(herdr_version), Some(methods)) => {
                    proof {
                        assert forall|i: int| 0 <= i < methods.entries.len() implies (
                        #[trigger] methods.entries[i]).1.wf() by {
                            methods.lemma_entry(i);
                        }
                    }
                    Some(RawManifest { herdr_version, methods })
                },
                _ => None,
            }
        },
        None => None,
    }
}

} // verus!

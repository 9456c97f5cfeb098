//! YAML documents, which `serde_yaml` reads.

use vstd::prelude::*;

use crate::text::same;

verus! {

/// The outside type `serde_yaml::Value`, opaque to proofs.
#[verifier::external_type_specification]
#[verifier::external_body]
pub struct ExYamlValue(serde_yaml::Value);

/// A YAML node. A number is kept as its text.
#[derive(Debug)]
pub enum Yaml {
    Null,
    Bool(bool),
    Number(String),
    Str(String),
    Sequence(Vec<Yaml>),
    Mapping(Vec<(Yaml, Yaml)>),
    Tagged(String, Box<Yaml>),
}

/// What a YAML node is.
pub enum YamlView {
    Null,
    Bool(bool),
    Number(Seq<char>),
    Str(Seq<char>),
    Sequence(Seq<YamlView>),
    Mapping(Seq<(YamlView, YamlView)>),
    Tagged(Seq<char>, Box<YamlView>),
}

impl Yaml {
    pub open spec fn view(self) -> YamlView
        decreases self,
    {
        match self {
            Yaml::Null => YamlView::Null,
            Yaml::Bool(b) => YamlView::Bool(b),
            Yaml::Number(s) => YamlView::Number(s@),
            Yaml::Str(s) => YamlView::Str(s@),
            Yaml::Sequence(nodes) => YamlView::Sequence(nodes_view(nodes@)),
            Yaml::Mapping(pairs) => YamlView::Mapping(pairs_view(pairs@)),
            Yaml::Tagged(tag, node) => YamlView::Tagged(tag@, Box::new((*node).view())),
        }
    }
}

/// The nodes of a sequence.
pub open spec fn nodes_view(nodes: Seq<Yaml>) -> Seq<YamlView>
    decreases nodes,
{
    if nodes.len() == 0 {
        Seq::empty()
    } else {
        nodes_view(nodes.drop_last()).push(nodes.last().view())
    }
}

/// The pairs of a mapping.
pub open spec fn pairs_view(pairs: Seq<(Yaml, Yaml)>) -> Seq<(YamlView, YamlView)>
    decreases pairs,
{
    if pairs.len() == 0 {
        Seq::empty()
    } else {
        pairs_view(pairs.drop_last()).push((pairs.last().0.view(), pairs.last().1.view()))
    }
}

/// Element by element, the nodes of a sequence.
pub proof fn lemma_nodes_view(nodes: Seq<Yaml>)
    ensures
        nodes_view(nodes).len() == nodes.len(),
        forall|i: int| 0 <= i < nodes.len() ==> #[trigger] nodes_view(nodes)[i] == nodes[i]@,
    decreases nodes.len(),
{
    if nodes.len() > 0 {
        lemma_nodes_view(nodes.drop_last());
    }
}

/// What a `serde_yaml::Value` holds.
pub uninterp spec fn yaml_contents(value: serde_yaml::Value) -> YamlView;

/// What `serde_yaml::from_str` makes of a text, if the text is YAML.
pub uninterp spec fn yaml_parsed(text: Seq<char>) -> Option<YamlView>;

/// Reads a `serde_yaml::Value` variant by variant. The result is what the value holds.
#[verifier::external_body]
fn tree_of(value: serde_yaml::Value) -> (tree: Yaml)
    ensures
        tree@ == yaml_contents(value),
{
    match value {
        serde_yaml::Value::Null => Yaml::Null,
        serde_yaml::Value::Bool(b) => Yaml::Bool(b),
        serde_yaml::Value::Number(n) => Yaml::Number(n.to_string()),
        serde_yaml::Value::String(s) => Yaml::Str(s),
        serde_yaml::Value::Sequence(s) => Yaml::Sequence(s.into_iter().map(tree_of).collect()),
        serde_yaml::Value::Mapping(m) => Yaml::Mapping(
            m.into_iter().map(|(key, node)| (tree_of(key), tree_of(node))).collect(),
        ),
        serde_yaml::Value::Tagged(t) => Yaml::Tagged(t.tag.to_string(), Box::new(tree_of(t.value))),
    }
}

/// `serde_yaml::from_str`, for a `serde_yaml::Value`. What it returns is a function of the
/// text.
#[verifier::external_body]
fn value_from_str(text: &str) -> (parsed: Option<serde_yaml::Value>)
    ensures
        yaml_parsed(text@) == match parsed {
            Some(value) => Some(yaml_contents(value)),
            None => None::<YamlView>,
        },
{
    serde_yaml::from_str(text).ok()
}

/// Reads a YAML document.
pub fn parse_yaml(text: &str) -> (parsed: Option<Yaml>)
    ensures
        yaml_parsed(text@) == match parsed {
            Some(tree) => Some(tree@),
            None => None::<YamlView>,
        },
{
    match value_from_str(text) {
        Some(value) => Some(tree_of(value)),
        None => None,
    }
}

/// A node without the tags in front of it.
pub open spec fn bare(node: YamlView) -> YamlView
    decreases node,
{
    match node {
        YamlView::Tagged(_, inner) => bare(*inner),
        _ => node,
    }
}

/// The text of a scalar. That of a number is the one that the node keeps; a null node counts as
/// an empty one.
pub open spec fn scalar_text(node: YamlView) -> Option<Seq<char>> {
    match bare(node) {
        YamlView::Str(s) => Some(s),
        YamlView::Number(s) => Some(s),
        YamlView::Bool(b) => Some(
            if b {
                "true"@
            } else {
                "false"@
            },
        ),
        YamlView::Null => Some(Seq::empty()),
        _ => None,
    }
}

/// The pairs of a mapping. A null node counts as an empty one.
pub open spec fn mapping_pairs(node: YamlView) -> Option<Seq<(YamlView, YamlView)>> {
    match bare(node) {
        YamlView::Mapping(pairs) => Some(pairs),
        YamlView::Null => Some(Seq::empty()),
        _ => None,
    }
}

/// A node without the tags in front of it.
pub fn bare_node(node: &Yaml) -> (r: &Yaml)
    ensures
        r@ == bare(node@),
        !(r is Tagged),
    decreases node,
{
    match node {
        Yaml::Tagged(_, inner) => bare_node(inner),
        _ => node,
    }
}

/// The text of a scalar.
pub fn read_scalar(node: &Yaml) -> (r: Option<String>)
    ensures
        scalar_text(node@) == match r {
            Some(text) => Some(text@),
            None => None::<Seq<char>>,
        },
{
    match bare_node(node) {
        Yaml::Str(s) => Some(s.clone()),
        Yaml::Number(s) => Some(s.clone()),
        Yaml::Bool(b) => Some(
            if *b {
                "true".to_string()
            } else {
                "false".to_string()
            },
        ),
        Yaml::Null => Some(String::new()),
        _ => None,
    }
}

/// The node that a mapping holds under a key; where the key stands twice, the last.
pub open spec fn field(pairs: Seq<(YamlView, YamlView)>, name: Seq<char>) -> Option<YamlView>
    decreases pairs.len(),
{
    if pairs.len() == 0 {
        None
    } else if scalar_text(pairs.last().0) == Some(name) {
        Some(pairs.last().1)
    } else {
        field(pairs.drop_last(), name)
    }
}

/// The node that a mapping holds under a key.
pub fn get_field<'a>(pairs: &'a [(Yaml, Yaml)], name: &str) -> (found: Option<&'a Yaml>)
    ensures
        field(pairs_view(pairs@), name@) == match found {
            Some(node) => Some(node@),
            None => None::<YamlView>,
        },
{
    let mut i: usize = pairs.len();
    assert(pairs@.take(i as int) =~= pairs@);
    while i > 0
        invariant
            i <= pairs.len(),
            field(pairs_view(pairs@), name@) == field(pairs_view(pairs@.take(i as int)), name@),
        decreases i,
    {
        proof {
            let prefix = pairs@.take(i as int);
            assert(prefix.drop_last() =~= pairs@.take(i - 1));
            assert(pairs_view(prefix).drop_last() =~= pairs_view(pairs@.take(i - 1)));
            assert(pairs_view(prefix).last() == (pairs@[i - 1].0@, pairs@[i - 1].1@));
        }
        i = i - 1;
        if let Some(key) = read_scalar(&pairs[i].0) {
            if same(key.as_str(), name) {
                return Some(&pairs[i].1);
            }
        }
    }
    None
}

} // verus!

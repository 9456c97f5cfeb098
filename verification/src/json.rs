//! JSON values, and their text form, which `serde_json` reads and writes.

use vstd::prelude::*;

use crate::text::same;

verus! {

/// The outside type `serde_json::Value`, opaque to proofs.
#[verifier::external_type_specification]
#[verifier::external_body]
pub struct ExValue(serde_json::Value);

/// The outside type `serde_json::Number`, opaque to proofs.
#[verifier::external_type_specification]
#[verifier::external_body]
pub struct ExNumber(serde_json::Number);

/// A JSON number that is no integer, or none that 64 bits hold. Only reading a
/// `serde_json::Value` makes one, and nothing is computed with it.
#[derive(Debug)]
pub struct Float {
    number: serde_json::Number,
}

/// A JSON value.
#[derive(Debug)]
pub enum Json {
    Null,
    Bool(bool),
    UInt(u64),
    NegInt(i64),
    Float(Float),
    Str(String),
    Array(Vec<Json>),
    Object(Object),
}

/// The members of a JSON object. Where a key stands twice, its last entry counts.
#[derive(Debug)]
pub struct Object {
    pub entries: Vec<(String, Json)>,
}

/// What a JSON value is.
pub enum JsonView {
    Null,
    Bool(bool),
    Int(int),
    Float(Float),
    Str(Seq<char>),
    Array(Seq<JsonView>),
    Object(Map<Seq<char>, JsonView>),
}

impl JsonView {
    /// The member of an object under `key`; none of any other value.
    pub open spec fn member(self, key: Seq<char>) -> Option<JsonView> {
        match self {
            JsonView::Object(members) => if members.dom().contains(key) {
                Some(members[key])
            } else {
                None
            },
            _ => None,
        }
    }

    /// The characters of a string; none of any other value.
    pub open spec fn text(self) -> Option<Seq<char>> {
        match self {
            JsonView::Str(s) => Some(s),
            _ => None,
        }
    }

    /// The number of an integer that an unsigned 64-bit integer holds; none of any other
    /// value.
    pub open spec fn unsigned(self) -> Option<u64> {
        match self {
            JsonView::Int(n) => if 0 <= n <= u64::MAX {
                Some(n as u64)
            } else {
                None
            },
            _ => None,
        }
    }

    /// The characters of the member under `key`, where it is there and a string.
    pub open spec fn member_text(self, key: Seq<char>) -> Option<Seq<char>> {
        match self.member(key) {
            Some(value) => value.text(),
            None => None,
        }
    }
}

impl Json {
    pub open spec fn view(self) -> JsonView
        decreases self,
    {
        match self {
            Json::Null => JsonView::Null,
            Json::Bool(b) => JsonView::Bool(b),
            Json::UInt(n) => JsonView::Int(n as int),
            Json::NegInt(n) => JsonView::Int(n as int),
            Json::Float(f) => JsonView::Float(f),
            Json::Str(s) => JsonView::Str(s@),
            Json::Array(items) => JsonView::Array(items_view(items@)),
            Json::Object(object) => JsonView::Object(entries_view(object.entries@)),
        }
    }

    /// The member of an object under `key`.
    pub fn get(&self, key: &str) -> (found: Option<&Json>)
        ensures
            json_option(found) == self@.member(key@),
    {
        match self {
            Json::Object(object) => object.get(key),
            _ => None,
        }
    }

    /// The text of a string.
    pub fn as_str(&self) -> (found: Option<&str>)
        ensures
            text_option(found) == self@.text(),
    {
        match self {
            Json::Str(s) => Some(s.as_str()),
            _ => None,
        }
    }

    /// The number of an integer that an unsigned 64-bit integer holds.
    pub fn as_u64(&self) -> (found: Option<u64>)
        ensures
            found == self@.unsigned(),
    {
        match self {
            Json::UInt(n) => Some(*n),
            Json::NegInt(n) => if *n >= 0 {
                Some(*n as u64)
            } else {
                None
            },
            _ => None,
        }
    }

    /// The text of the member under `key`, where it is there and a string.
    pub fn get_str(&self, key: &str) -> (found: Option<&str>)
        ensures
            text_option(found) == self@.member_text(key@),
    {
        match self.get(key) {
            Some(value) => value.as_str(),
            None => None,
        }
    }

    /// The value of a `serde_json::Value`.
    pub fn from_value(value: serde_json::Value) -> (tree: Json)
        ensures
            tree@ == json_contents(value),
    {
        tree_of(value)
    }

    /// The `serde_json::Value` with this value.
    pub fn into_value(self) -> (value: serde_json::Value)
        ensures
            json_contents(value) == self@,
    {
        value_of(self)
    }
}

/// The values of a list.
pub open spec fn items_view(items: Seq<Json>) -> Seq<JsonView>
    decreases items,
{
    if items.len() == 0 {
        Seq::empty()
    } else {
        items_view(items.drop_last()).push(items.last().view())
    }
}

/// The members that a list of entries stands for.
pub open spec fn entries_view(entries: Seq<(String, Json)>) -> Map<Seq<char>, JsonView>
    decreases entries,
{
    if entries.len() == 0 {
        Map::empty()
    } else {
        entries_view(entries.drop_last()).insert(entries.last().0@, entries.last().1.view())
    }
}

/// What an optional JSON value is.
pub open spec fn json_option(value: Option<&Json>) -> Option<JsonView> {
    match value {
        Some(tree) => Some(tree@),
        None => None,
    }
}

/// What an optional text is.
pub open spec fn text_option(text: Option<&str>) -> Option<Seq<char>> {
    match text {
        Some(t) => Some(t@),
        None => None,
    }
}

/// The values of a list that grows by one.
pub proof fn lemma_items_view_push(items: Seq<Json>, item: Json)
    ensures
        items_view(items.push(item)) == items_view(items).push(item@),
{
    assert(items.push(item).drop_last() =~= items);
}

/// The members of a list of entries that grows by one.
pub proof fn lemma_entries_view_push(entries: Seq<(String, Json)>, entry: (String, Json))
    ensures
        entries_view(entries.push(entry)) == entries_view(entries).insert(entry.0@, entry.1@),
{
    assert(entries.push(entry).drop_last() =~= entries);
}

/// The keys of the members are the keys of the entries.
pub proof fn lemma_entries_keys(entries: Seq<(String, Json)>, key: Seq<char>)
    ensures
        entries_view(entries).dom().contains(key) <==> exists|i: int|
            0 <= i < entries.len() && (#[trigger] entries[i]).0@ == key,
    decreases entries.len(),
{
    if entries.len() > 0 {
        let rest = entries.drop_last();
        lemma_entries_keys(rest, key);
        if exists|i: int| 0 <= i < rest.len() && (#[trigger] rest[i]).0@ == key {
            let i = choose|i: int| 0 <= i < rest.len() && (#[trigger] rest[i]).0@ == key;
            assert(entries[i].0@ == key);
        }
        if exists|i: int| 0 <= i < entries.len() && (#[trigger] entries[i]).0@ == key {
            let i = choose|i: int| 0 <= i < entries.len() && (#[trigger] entries[i]).0@ == key;
            if i < rest.len() {
                assert(rest[i].0@ == key);
            }
        }
        if entries.last().0@ == key {
            assert(entries[entries.len() - 1].0@ == key);
        }
    }
}

impl Object {
    pub open spec fn view(self) -> Map<Seq<char>, JsonView> {
        entries_view(self.entries@)
    }

    /// An object without members.
    pub fn new() -> (object: Object)
        ensures
            object@ == Map::<Seq<char>, JsonView>::empty(),
    {
        Object { entries: Vec::new() }
    }

    /// Sets the member under `key`.
    pub fn insert(&mut self, key: &str, value: Json)
        ensures
            final(self)@ == old(self)@.insert(key@, value@),
    {
        let entry: (String, Json) = (key.to_string(), value);
        proof {
            lemma_entries_view_push(self.entries@, entry);
        }
        self.entries.push(entry);
    }

    /// Where the entry of `key` that counts stands.
    fn position(&self, key: &str) -> (found: Option<usize>)
        ensures
            match found {
                Some(i) => {
                    &&& i < self.entries.len()
                    &&& self@.dom().contains(key@)
                    &&& self@[key@] == self.entries[i as int].1@
                },
                None => !self@.dom().contains(key@),
            },
    {
        let mut i: usize = self.entries.len();
        assert(self.entries@.take(i as int) =~= self.entries@);
        while i > 0
            invariant
                i <= self.entries.len(),
                self@.dom().contains(key@) == entries_view(
                    self.entries@.take(i as int),
                ).dom().contains(key@),
                self@[key@] == entries_view(self.entries@.take(i as int))[key@] || !self@.dom().contains(key@),
            decreases i,
        {
            let ghost prefix = self.entries@.take(i as int);
            assert(prefix.drop_last() =~= self.entries@.take(i - 1));
            i = i - 1;
            if same(self.entries[i].0.as_str(), key) {
                return Some(i);
            }
        }
        None
    }

    /// The member under `key`.
    pub fn get(&self, key: &str) -> (found: Option<&Json>)
        ensures
            json_option(found) == JsonView::Object(self@).member(key@),
    {
        match self.position(key) {
            Some(i) => Some(&self.entries[i].1),
            None => None,
        }
    }

    /// The member under `key`, taken out of an object that is no longer needed.
    pub fn take(self, key: &str) -> (found: Option<Json>)
        ensures
            match found {
                Some(tree) => Some(tree@),
                None => None,
            } == JsonView::Object(self@).member(key@),
    {
        match self.position(key) {
            Some(i) => {
                let mut entries: Vec<(String, Json)> = self.entries;
                let (_, value) = entries.swap_remove(i);
                Some(value)
            },
            None => None,
        }
    }
}

/// What a `serde_json::Value` holds.
pub uninterp spec fn json_contents(value: serde_json::Value) -> JsonView;

/// What `serde_json::from_str` makes of a text: a value, or a message.
pub uninterp spec fn json_parsed(text: Seq<char>) -> Result<JsonView, Seq<char>>;

/// What `serde_json::to_vec` makes of a value: bytes, or a message.
pub uninterp spec fn json_bytes(value: JsonView) -> Result<Seq<u8>, Seq<char>>;

/// Reads a `serde_json::Value` variant by variant. The result is what the value holds. Numbers
/// are told apart by `Number::as_u64` and `Number::as_i64`: one for which both give nothing is
/// no integer that 64 bits hold.
#[verifier::external_body]
fn tree_of(value: serde_json::Value) -> (tree: Json)
    ensures
        tree@ == json_contents(value),
{
    match value {
        serde_json::Value::Null => Json::Null,
        serde_json::Value::Bool(b) => Json::Bool(b),
        serde_json::Value::Number(n) => match (n.as_u64(), n.as_i64()) {
            (Some(u), _) => Json::UInt(u),
            (None, Some(i)) => Json::NegInt(i),
            (None, None) => Json::Float(Float { number: n }),
        },
        serde_json::Value::String(s) => Json::Str(s),
        serde_json::Value::Array(items) => Json::Array(items.into_iter().map(tree_of).collect()),
        serde_json::Value::Object(map) => Json::Object(
            Object { entries: map.into_iter().map(|(key, item)| (key, tree_of(item))).collect() },
        ),
    }
}

/// Makes a `serde_json::Value` variant by variant. It holds what the tree is: the entries of an
/// object go into a `serde_json::Map` in their order by `Map::insert`, which puts a later value of
/// a key in the place of an earlier one.
#[verifier::external_body]
fn value_of(tree: Json) -> (value: serde_json::Value)
    ensures
        json_contents(value) == tree@,
{
    let mut map: serde_json::Map<String, serde_json::Value> = serde_json::Map::new();
    match tree {
        Json::Null => return serde_json::Value::Null,
        Json::Bool(b) => return serde_json::Value::Bool(b),
        Json::UInt(n) => return serde_json::Value::from(n),
        Json::NegInt(n) => return serde_json::Value::from(n),
        Json::Float(f) => return serde_json::Value::Number(f.number),
        Json::Str(s) => return serde_json::Value::String(s),
        Json::Array(items) => return items.into_iter().map(value_of).collect(),
        Json::Object(object) => for (key, item) in object.entries {
            map.insert(key, value_of(item));
        },
    }
    serde_json::Value::Object(map)
}

/// `serde_json::from_str`, for a `serde_json::Value`. What it returns, the message of an
/// error included, is a function of the text.
#[verifier::external_body]
fn value_from_str(text: &str) -> (parsed: Result<serde_json::Value, String>)
    ensures
        match parsed {
            Ok(value) => json_parsed(text@) == Ok::<JsonView, Seq<char>>(json_contents(value)),
            Err(message) => json_parsed(text@) == Err::<JsonView, Seq<char>>(message@),
        },
{
    serde_json::from_str(text).map_err(|e| e.to_string())
}

/// `serde_json::to_vec`, of a `serde_json::Value`. What it returns is a function of what
/// the value holds. The bytes hold no line feed: nothing is laid out over lines, and a
/// line feed within a string or a key is written as an escape.
#[verifier::external_body]
fn value_to_vec(value: &serde_json::Value) -> (written: Result<Vec<u8>, String>)
    ensures
        match written {
            Ok(bytes) => {
                &&& json_bytes(json_contents(*value)) == Ok::<Seq<u8>, Seq<char>>(bytes@)
                &&& !bytes@.contains(10u8)
            },
            Err(message) => json_bytes(json_contents(*value)) == Err::<Seq<u8>, Seq<char>>(
                message@,
            ),
        },
{
    serde_json::to_vec(value).map_err(|e| e.to_string())
}

/// Reads one JSON value from a text.
pub fn parse_json(text: &str) -> (parsed: Result<Json, String>)
    ensures
        match parsed {
            Ok(tree) => json_parsed(text@) == Ok::<JsonView, Seq<char>>(tree@),
            Err(message) => json_parsed(text@) == Err::<JsonView, Seq<char>>(message@),
        },
{
    match value_from_str(text) {
        Ok(value) => Ok(tree_of(value)),
        Err(message) => Err(message),
    }
}

/// Writes a JSON value as bytes without a line feed.
pub fn encode_json(tree: Json) -> (written: Result<Vec<u8>, String>)
    ensures
        match written {
            Ok(bytes) => {
                &&& json_bytes(tree@) == Ok::<Seq<u8>, Seq<char>>(bytes@)
                &&& !bytes@.contains(10u8)
            },
            Err(message) => json_bytes(tree@) == Err::<Seq<u8>, Seq<char>>(message@),
        },
{
    let value: serde_json::Value = value_of(tree);
    value_to_vec(&value)
}

} // verus!

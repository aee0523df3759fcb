//! JSON values.

use crate::text::{same_text, views};
use serde_json::{Number, Value};
use vstd::prelude::*;

verus! {

/// `serde_json::Value`, a JSON document as the parser holds it.
#[verifier::external_type_specification]
#[verifier::external_body]
pub struct ExValue(serde_json::Value);

/// `serde_json::Number`, a number as the parser holds it.
#[verifier::external_type_specification]
#[verifier::external_body]
pub struct ExNumber(serde_json::Number);

/// `serde_json::Map`, the fields of an object.
#[verifier::external_type_specification]
#[verifier::external_body]
#[verifier::reject_recursive_types(K)]
#[verifier::reject_recursive_types(V)]
pub struct ExFields<K, V>(serde_json::Map<K, V>);

/// The integer that a `serde_json::Number` holds, where it holds one.
pub uninterp spec fn number_value(number: Number) -> Option<int>;

/// What a JSON value is.
pub enum JsonTree {
    Null,
    Bool(bool),
    Integer(int),
    Float(Number),
    Text(Seq<char>),
    Array(Seq<JsonTree>),
    Object(Map<Seq<char>, JsonTree>),
}

/// A JSON value. Of fields with one name the last counts.
#[derive(Debug)]
pub enum Json {
    Null,
    Bool(bool),
    Unsigned(u64),
    Signed(i64),
    Number(Number),
    Text(String),
    Array(Vec<Json>),
    Object(Vec<(String, Json)>),
}

/// The tree that a number stands for: an integer, or else the number itself.
pub open spec fn number_tree(number: Number) -> JsonTree {
    match number_value(number) {
        Some(n) => JsonTree::Integer(n),
        None => JsonTree::Float(number),
    }
}

/// The tree that a value stands for.
pub open spec fn tree(json: Json) -> JsonTree
    decreases json,
{
    match json {
        Json::Null => JsonTree::Null,
        Json::Bool(b) => JsonTree::Bool(b),
        Json::Unsigned(n) => JsonTree::Integer(n as int),
        Json::Signed(n) => JsonTree::Integer(n as int),
        Json::Number(n) => number_tree(n),
        Json::Text(s) => JsonTree::Text(s@),
        Json::Array(items) => JsonTree::Array(
            Seq::new(
                items@.len(),
                |i: int|
                    if 0 <= i < items@.len() {
                        tree(items@[i])
                    } else {
                        JsonTree::Null
                    },
            ),
        ),
        Json::Object(fields) => JsonTree::Object(field_map(fields@)),
    }
}

/// The names and values of a list of fields; of fields with one name the last counts.
pub open spec fn field_map(fields: Seq<(String, Json)>) -> Map<Seq<char>, JsonTree>
    decreases fields,
{
    if fields.len() == 0 {
        Map::empty()
    } else {
        field_map(fields.drop_last()).insert(fields.last().0@, tree(fields.last().1))
    }
}

impl View for Json {
    type V = JsonTree;

    open spec fn view(&self) -> JsonTree {
        tree(*self)
    }
}

/// The tree of an optional value.
pub open spec fn opt_tree(json: Option<&Json>) -> Option<JsonTree> {
    match json {
        Some(j) => Some(j@),
        None => None,
    }
}

/// The characters of an optional text.
pub open spec fn opt_str(text: Option<&str>) -> Option<Seq<char>> {
    match text {
        Some(t) => Some(t@),
        None => None,
    }
}

impl JsonTree {
    /// The object without fields.
    pub open spec fn object() -> JsonTree {
        JsonTree::Object(Map::empty())
    }

    /// The field `key` of an object.
    pub open spec fn get(self, key: Seq<char>) -> Option<JsonTree> {
        match self {
            JsonTree::Object(fields) => if fields.dom().contains(key) {
                Some(fields[key])
            } else {
                None
            },
            _ => None,
        }
    }

    /// An object with the field `key` set; anything else stays as it is.
    pub open spec fn with(self, key: Seq<char>, value: JsonTree) -> JsonTree {
        match self {
            JsonTree::Object(fields) => JsonTree::Object(fields.insert(key, value)),
            _ => self,
        }
    }

    /// The characters of a text.
    pub open spec fn as_text(self) -> Option<Seq<char>> {
        match self {
            JsonTree::Text(s) => Some(s),
            _ => None,
        }
    }

    /// The value of an integer that fits `u64`.
    pub open spec fn as_u64(self) -> Option<u64> {
        match self {
            JsonTree::Integer(n) => if 0 <= n <= u64::MAX {
                Some(n as u64)
            } else {
                None
            },
            _ => None,
        }
    }

    /// The items of an array.
    pub open spec fn as_array(self) -> Option<Seq<JsonTree>> {
        match self {
            JsonTree::Array(items) => Some(items),
            _ => None,
        }
    }

    /// The field `key` where it is a text.
    pub open spec fn text_at(self, key: Seq<char>) -> Option<Seq<char>> {
        match self.get(key) {
            Some(value) => value.as_text(),
            None => None,
        }
    }

    /// The field `key` where it is an integer that fits `u64`.
    pub open spec fn u64_at(self, key: Seq<char>) -> Option<u64> {
        match self.get(key) {
            Some(value) => value.as_u64(),
            None => None,
        }
    }

    /// The field `key`, and null where there is none.
    pub open spec fn at(self, key: Seq<char>) -> JsonTree {
        match self.get(key) {
            Some(value) => value,
            None => JsonTree::Null,
        }
    }
}

/// Setting the last field named `key` sets `key` in the map.
proof fn lemma_field_update(fields: Seq<(String, Json)>, i: int, field: (String, Json))
    requires
        0 <= i < fields.len(),
        fields[i].0@ == field.0@,
        forall|j: int| i < j < fields.len() ==> (#[trigger] fields[j]).0@ != field.0@,
    ensures
        field_map(fields.update(i, field)) == field_map(fields).insert(field.0@, tree(field.1)),
    decreases fields.len(),
{
    let changed = fields.update(i, field);
    if i == fields.len() - 1 {
        assert(changed.drop_last() =~= fields.drop_last());
        assert(field_map(changed) =~= field_map(fields).insert(field.0@, tree(field.1)));
    } else {
        assert(changed.drop_last() =~= fields.drop_last().update(i, field));
        lemma_field_update(fields.drop_last(), i, field);
        assert(field_map(changed) =~= field_map(fields).insert(field.0@, tree(field.1)));
    }
}

impl Clone for Json {
    fn clone(&self) -> (copy: Json)
        ensures
            copy@ == self@,
        decreases self,
    {
        match self {
            Json::Null => Json::Null,
            Json::Bool(b) => Json::Bool(*b),
            Json::Unsigned(n) => Json::Unsigned(*n),
            Json::Signed(n) => Json::Signed(*n),
            Json::Number(n) => Json::Number(copy_number(n)),
            Json::Text(s) => Json::Text(s.clone()),
            Json::Array(items) => {
                let mut copies: Vec<Json> = Vec::new();
                let mut i: usize = 0;
                while i < items.len()
                    invariant
                        i <= items.len(),
                        copies.len() == i,
                        *self == Json::Array(*items),
                        forall|j: int| 0 <= j < i ==> (#[trigger] copies@[j])@ == items@[j]@,
                    decreases items.len() - i,
                {
                    assert(decreases_to!(*self => self->Array_0@[i as int]));
                    copies.push(items[i].clone());
                    i = i + 1;
                }
                let copy = Json::Array(copies);
                assert(copy@->Array_0 =~= self@->Array_0);
                copy
            },
            Json::Object(fields) => {
                let mut copies: Vec<(String, Json)> = Vec::new();
                let mut i: usize = 0;
                while i < fields.len()
                    invariant
                        i <= fields.len(),
                        *self == Json::Object(*fields),
                        field_map(copies@) == field_map(fields@.take(i as int)),
                    decreases fields.len() - i,
                {
                    assert(decreases_to!(*self => self->Object_0@[i as int].1));
                    let field = (fields[i].0.clone(), fields[i].1.clone());
                    proof {
                        assert(copies@.push(field).drop_last() =~= copies@);
                        assert(fields@.take(i + 1).drop_last() =~= fields@.take(i as int));
                    }
                    copies.push(field);
                    i = i + 1;
                }
                assert(fields@.take(fields.len() as int) =~= fields@);
                Json::Object(copies)
            },
        }
    }
}

/// Calls `Number::clone`, which gives the same number again.
#[verifier::external_body]
fn copy_number(number: &Number) -> (copy: Number)
    ensures
        copy == *number,
{
    number.clone()
}

/// Calls `Number::as_u64`, which gives the integer that the number holds, where it holds one that
/// `u64` holds too.
#[verifier::external_body]
fn number_u64(number: &Number) -> (n: Option<u64>)
    ensures
        n == number_tree(*number).as_u64(),
        n is Some ==> number_value(*number) == Some(n->0 as int),
{
    number.as_u64()
}

impl Json {
    /// The object without fields.
    pub fn object() -> (json: Json)
        ensures
            json@ == JsonTree::object(),
    {
        let fields: Vec<(String, Json)> = Vec::new();
        assert(field_map(fields@) == Map::<Seq<char>, JsonTree>::empty());
        Json::Object(fields)
    }

    /// A text.
    pub fn text(text: &str) -> (json: Json)
        ensures
            json@ == JsonTree::Text(text@),
    {
        Json::Text(text.to_owned())
    }

    /// A list of texts.
    pub fn texts(texts: &Vec<String>) -> (json: Json)
        ensures
            json@ == text_list(views(texts@)),
    {
        let mut items: Vec<Json> = Vec::new();
        let mut i: usize = 0;
        while i < texts.len()
            invariant
                i <= texts.len(),
                items.len() == i,
                forall|j: int|
                    0 <= j < i ==> (#[trigger] items@[j])@ == JsonTree::Text(texts@[j]@),
            decreases texts.len() - i,
        {
            items.push(Json::Text(texts[i].clone()));
            i = i + 1;
        }
        let json = Json::Array(items);
        assert(json@->Array_0 =~= text_list(views(texts@))->Array_0);
        json
    }

    /// The list of the values.
    pub fn list(items: Vec<Json>) -> (json: Json)
        ensures
            json@ == JsonTree::Array(trees(items@)),
    {
        let json = Json::Array(items);
        assert(json@->Array_0 =~= trees(items@));
        json
    }

    /// The list of one value.
    pub fn single(item: Json) -> (json: Json)
        ensures
            json@ == JsonTree::Array(seq![item@]),
    {
        let items: Vec<Json> = vec![item];
        let json = Json::Array(items);
        assert(json@->Array_0 =~= seq![item@]);
        json
    }

    /// The list of two values.
    pub fn pair(first: Json, second: Json) -> (json: Json)
        ensures
            json@ == JsonTree::Array(seq![first@, second@]),
    {
        let items: Vec<Json> = vec![first, second];
        let json = Json::Array(items);
        assert(json@->Array_0 =~= seq![first@, second@]);
        json
    }

    /// An object with the field `key` set; anything else stays as it is.
    pub fn with(self, key: &str, value: Json) -> (json: Json)
        ensures
            json@ == self@.with(key@, value@),
    {
        match self {
            Json::Object(fields) => {
                let mut fields = fields;
                let ghost start = fields@;
                assert(self@ == JsonTree::Object(field_map(start)));
                let mut i: usize = fields.len();
                while i > 0
                    invariant
                        i <= fields.len(),
                        fields@ == start,
                        self@ == JsonTree::Object(field_map(start)),
                        forall|j: int| i <= j < fields.len() ==> (#[trigger] start[j]).0@ != key@,
                    decreases i,
                {
                    i = i - 1;
                    if same_text(fields[i].0.as_str(), key) {
                        let field = (key.to_owned(), value);
                        proof {
                            lemma_field_update(start, i as int, field);
                        }
                        fields[i] = field;
                        assert(fields@ == start.update(i as int, field));
                        let json = Json::Object(fields);
                        assert(json@ == JsonTree::Object(field_map(fields@)));
                        return json;
                    }
                }
                fields.push((key.to_owned(), value));
                assert(fields@.drop_last() =~= start);
                let json = Json::Object(fields);
                assert(json@ == JsonTree::Object(field_map(fields@)));
                json
            },
            other => other,
        }
    }

    /// The field `key` of an object.
    pub fn get(&self, key: &str) -> (value: Option<&Json>)
        ensures
            opt_tree(value) == self@.get(key@),
    {
        match self {
            Json::Object(fields) => {
                let mut i: usize = fields.len();
                assert(fields@.take(i as int) =~= fields@);
                while i > 0
                    invariant
                        i <= fields.len(),
                        *self == Json::Object(*fields),
                        self@.get(key@) == JsonTree::Object(
                            field_map(fields@.take(i as int)),
                        ).get(key@),
                    decreases i,
                {
                    assert(fields@.take(i as int).drop_last() =~= fields@.take(i - 1));
                    i = i - 1;
                    if same_text(fields[i].0.as_str(), key) {
                        return Some(&fields[i].1);
                    }
                }
                None
            },
            _ => None,
        }
    }

    /// The characters of a text.
    pub fn as_str(&self) -> (text: Option<&str>)
        ensures
            opt_str(text) == self@.as_text(),
    {
        match self {
            Json::Text(s) => Some(s.as_str()),
            _ => None,
        }
    }

    /// The value of an integer that fits `u64`.
    pub fn as_u64(&self) -> (number: Option<u64>)
        ensures
            number == self@.as_u64(),
    {
        match self {
            Json::Unsigned(n) => Some(*n),
            Json::Signed(n) => if *n >= 0 {
                Some(*n as u64)
            } else {
                None
            },
            Json::Number(n) => number_u64(n),
            _ => None,
        }
    }

    /// The items of an array.
    pub fn as_array(&self) -> (items: Option<&Vec<Json>>)
        ensures
            match items {
                Some(v) => self@.as_array() == Some(trees(v@)),
                None => self@.as_array() is None,
            },
    {
        match self {
            Json::Array(items) => {
                assert(self@->Array_0 =~= trees(items@));
                Some(items)
            },
            _ => None,
        }
    }

    /// Tells whether the value is null.
    pub fn is_null(&self) -> (null: bool)
        ensures
            null == (self@ is Null),
    {
        match self {
            Json::Null => true,
            _ => false,
        }
    }

    /// The field `key` where it is a text.
    pub fn text_at(&self, key: &str) -> (text: Option<&str>)
        ensures
            opt_str(text) == self@.text_at(key@),
    {
        match self.get(key) {
            Some(value) => value.as_str(),
            None => None,
        }
    }

    /// The field `key` where it is an integer that fits `u64`.
    pub fn u64_at(&self, key: &str) -> (number: Option<u64>)
        ensures
            number == self@.u64_at(key@),
    {
        match self.get(key) {
            Some(value) => value.as_u64(),
            None => None,
        }
    }

    /// A copy of the field `key`, and null where there is none.
    pub fn at(&self, key: &str) -> (value: Json)
        ensures
            value@ == self@.at(key@),
    {
        match self.get(key) {
            Some(value) => value.clone(),
            None => Json::Null,
        }
    }
}

/// The trees of a list of values.
pub open spec fn trees(items: Seq<Json>) -> Seq<JsonTree> {
    items.map_values(|j: Json| j@)
}

/// The list of the texts.
pub open spec fn text_list(texts: Seq<Seq<char>>) -> JsonTree {
    JsonTree::Array(texts.map_values(|t: Seq<char>| JsonTree::Text(t)))
}

/// The tree that a `serde_json::Value` holds.
pub uninterp spec fn value_tree(value: Value) -> JsonTree;

/// One level of a `serde_json::Value`.
pub enum Node {
    Null,
    Bool(bool),
    Unsigned(u64),
    Signed(i64),
    Number(Number),
    Text(String),
    Items(Vec<Value>),
    Fields(serde_json::Map<String, Value>),
}

/// The names and trees that the fields of a `serde_json::Value` hold.
pub uninterp spec fn map_fields(fields: serde_json::Map<String, Value>) -> Map<Seq<char>, JsonTree>;

/// The names and trees of a list of fields.
pub open spec fn value_map(fields: Seq<(String, Value)>) -> Map<Seq<char>, JsonTree>
    decreases fields.len(),
{
    if fields.len() == 0 {
        Map::empty()
    } else {
        value_map(fields.drop_last()).insert(fields.last().0@, value_tree(fields.last().1))
    }
}

/// No two fields have one name.
pub open spec fn distinct_names(fields: Seq<(String, Value)>) -> bool {
    forall|i: int, j: int|
        0 <= i < j < fields.len() ==> (#[trigger] fields[i]).0@ != (#[trigger] fields[j]).0@
}

/// The tree that one level stands for.
pub open spec fn node_tree(node: Node) -> JsonTree {
    match node {
        Node::Null => JsonTree::Null,
        Node::Bool(b) => JsonTree::Bool(b),
        Node::Unsigned(n) => JsonTree::Integer(n as int),
        Node::Signed(n) => JsonTree::Integer(n as int),
        Node::Number(n) => number_tree(n),
        Node::Text(s) => JsonTree::Text(s@),
        Node::Items(items) => JsonTree::Array(items@.map_values(|v: Value| value_tree(v))),
        Node::Fields(fields) => JsonTree::Object(map_fields(fields)),
    }
}

/// Tells the variants of a `serde_json::Value` apart. A number is what `Number::as_u64` gives, else
/// what `Number::as_i64` gives, else the number itself, which then holds no integer.
#[verifier::external_body]
fn open_value(value: Value) -> (node: Node)
    ensures
        node_tree(node) == value_tree(value),
        node matches Node::Number(n) ==> number_value(n) is None,
{
    match value {
        Value::Null => Node::Null,
        Value::Bool(b) => Node::Bool(b),
        Value::Number(n) => match (n.as_u64(), n.as_i64()) {
            (Some(u), _) => Node::Unsigned(u),
            (None, Some(i)) => Node::Signed(i),
            (None, None) => Node::Number(n),
        },
        Value::String(s) => Node::Text(s),
        Value::Array(items) => Node::Items(items),
        Value::Object(fields) => Node::Fields(fields),
    }
}

/// Makes a `serde_json::Value` of one level, each variant from its own.
#[verifier::external_body]
fn close_value(node: Node) -> (value: Value)
    ensures
        value_tree(value) == node_tree(node),
{
    match node {
        Node::Null => Value::Null,
        Node::Bool(b) => Value::Bool(b),
        Node::Unsigned(n) => Value::Number(n.into()),
        Node::Signed(n) => Value::Number(n.into()),
        Node::Number(n) => Value::Number(n),
        Node::Text(s) => Value::String(s),
        Node::Items(items) => Value::Array(items),
        Node::Fields(fields) => Value::Object(fields),
    }
}

/// Calls `Map::new`, which makes a map without fields.
#[verifier::external_body]
fn new_fields() -> (fields: serde_json::Map<String, Value>)
    ensures
        map_fields(fields) =~= map![],
{
    serde_json::Map::new()
}

/// Calls `Map::insert`, which sets the field and leaves the others as they are.
#[verifier::external_body]
fn put_field(fields: &mut serde_json::Map<String, Value>, name: String, value: Value)
    ensures
        map_fields(*final(fields)) == map_fields(*old(fields)).insert(name@, value_tree(value)),
{
    fields.insert(name, value);
}

/// Calls `Map::into_iter`, which hands out each field once.
#[verifier::external_body]
fn list_fields(fields: serde_json::Map<String, Value>) -> (list: Vec<(String, Value)>)
    ensures
        distinct_names(list@),
        value_map(list@) == map_fields(fields),
{
    fields.into_iter().collect()
}

/// What `serde_json::from_slice` reads out of a run of bytes, where it is a JSON document.
pub uninterp spec fn parsed_bytes(bytes: Seq<u8>) -> Option<JsonTree>;

/// Calls `serde_json::from_slice`. Whether there is a value, and which, depends on the bytes
/// alone.
#[verifier::external_body]
fn read_value(bytes: &[u8]) -> (value: Option<Value>)
    ensures
        match value {
            Some(v) => parsed_bytes(bytes@) == Some(value_tree(v)),
            None => parsed_bytes(bytes@) is None,
        },
{
    serde_json::from_slice(bytes).ok()
}

/// What `serde_json::to_vec` writes for a tree.
pub uninterp spec fn compact_bytes(tree: JsonTree) -> Option<Seq<u8>>;

/// The view of optional bytes.
pub open spec fn opt_bytes(bytes: Option<Vec<u8>>) -> Option<Seq<u8>> {
    match bytes {
        Some(b) => Some(b@),
        None => None,
    }
}

/// A run of bytes is one line: it holds no line feed.
pub open spec fn is_one_line(bytes: Seq<u8>) -> bool {
    forall|i: int| 0 <= i < bytes.len() ==> bytes[i] != 10u8
}

/// Calls `serde_json::to_vec`. There always are bytes: it fails only on maps whose keys are not
/// texts, and on values that refuse to be written, and a `Value` is neither. The bytes depend on the
/// tree alone, and they are one line: nothing is written between the parts of a value, and a line
/// feed in a text is escaped.
#[verifier::external_body]
fn write_compact(value: &Value) -> (bytes: Option<Vec<u8>>)
    ensures
        bytes is Some,
        opt_bytes(bytes) == compact_bytes(value_tree(*value)),
        is_one_line(bytes->0@),
{
    serde_json::to_vec(value).ok()
}

/// The one-line text that `Value::to_string` gives for a tree.
pub uninterp spec fn compact_text(tree: JsonTree) -> Seq<char>;

/// Calls `Value::to_string`. The text depends on the tree alone.
#[verifier::external_body]
fn write_text(value: &Value) -> (text: String)
    ensures
        text@ == compact_text(value_tree(*value)),
{
    value.to_string()
}

/// What `serde_json::to_vec_pretty` writes for a tree.
pub uninterp spec fn pretty_bytes(tree: JsonTree) -> Option<Seq<u8>>;

/// Trees with no more than `levels` arrays and objects inside one another, integers that
/// `u64` or `i64` holds, and no other numbers.
pub open spec fn readable(tree: JsonTree, levels: nat) -> bool
    decreases levels,
{
    match tree {
        JsonTree::Float(_) => false,
        JsonTree::Integer(n) => i64::MIN <= n <= u64::MAX,
        JsonTree::Array(items) => levels > 0 && forall|i: int|
            0 <= i < items.len() ==> readable(#[trigger] items[i], (levels - 1) as nat),
        JsonTree::Object(fields) => levels > 0 && forall|k: Seq<char>|
            fields.dom().contains(k) ==> readable(#[trigger] fields[k], (levels - 1) as nat),
        _ => true,
    }
}

/// Calls `serde_json::to_vec_pretty`. There always are bytes, as with `serde_json::to_vec`. They
/// depend on the tree alone, and
/// `serde_json::from_slice` reads the tree back from them: it stops at the 128th level of
/// nesting, and without its feature `float_roundtrip` it may read a float back changed in the
/// last place, so this is said of trees of at most 127 levels that hold no floats.
#[verifier::external_body]
fn write_pretty(value: &Value) -> (bytes: Option<Vec<u8>>)
    ensures
        bytes is Some,
        opt_bytes(bytes) == pretty_bytes(value_tree(*value)),
        readable(value_tree(*value), 127) ==> parsed_bytes(bytes->0@) == Some(value_tree(*value)),
{
    serde_json::to_vec_pretty(value).ok()
}

/// Each field's tree is in the map of fields with distinct names.
proof fn lemma_value_map_at(fields: Seq<(String, Value)>, i: int)
    requires
        distinct_names(fields),
        0 <= i < fields.len(),
    ensures
        value_map(fields).dom().contains(fields[i].0@),
        value_map(fields)[fields[i].0@] == value_tree(fields[i].1),
    decreases fields.len(),
{
    if i < fields.len() - 1 {
        assert(fields[i].0@ != fields[fields.len() - 1].0@);
        lemma_value_map_at(fields.drop_last(), i);
    }
}

/// The map has finitely many names.
proof fn lemma_value_map_finite(fields: Seq<(String, Value)>)
    ensures
        value_map(fields).dom().finite(),
    decreases fields.len(),
{
    if fields.len() > 0 {
        lemma_value_map_finite(fields.drop_last());
    }
}

/// The value that a `serde_json::Value` holds.
fn from_value(value: Value) -> (json: Json)
    ensures
        json@ == value_tree(value),
    decreases value_tree(value),
{
    let ghost whole = value_tree(value);
    let node = open_value(value);
    match node {
        Node::Null => Json::Null,
        Node::Bool(b) => Json::Bool(b),
        Node::Unsigned(n) => Json::Unsigned(n),
        Node::Signed(n) => Json::Signed(n),
        Node::Number(n) => Json::Number(n),
        Node::Text(s) => Json::Text(s),
        Node::Items(items) => {
            let ghost parts = items@;
            let mut done: Vec<Json> = Vec::new();
            for item in it: items
                invariant
                    it.seq() == parts,
                    whole == JsonTree::Array(parts.map_values(|v: Value| value_tree(v))),
                    whole == value_tree(value),
                    done.len() == it.index(),
                    forall|j: int|
                        0 <= j < done.len() ==> (#[trigger] done@[j])@ == value_tree(parts[j]),
            {
                proof {
                    let at = done.len() as int;
                    assert(whole->Array_0[at] == value_tree(item));
                    assert(decreases_to!(whole => whole->Array_0[at]));
                }
                done.push(from_value(item));
            }
            let json = Json::Array(done);
            assert(json@->Array_0 =~= whole->Array_0);
            json
        },
        Node::Fields(fields) => {
            let list = list_fields(fields);
            let ghost parts = list@;
            let mut done: Vec<(String, Json)> = Vec::new();
            assert(parts.take(0) =~= Seq::<(String, Value)>::empty());
            for field in it: list
                invariant
                    it.seq() == parts,
                    distinct_names(parts),
                    whole == JsonTree::Object(value_map(parts)),
                    whole == value_tree(value),
                    done.len() == it.index(),
                    field_map(done@) == value_map(parts.take(done.len() as int)),
            {
                let ghost at = done.len() as int;
                let (name, item) = field;
                proof {
                    assert((name, item) == parts[at]);
                    lemma_value_map_at(parts, at);
                    lemma_value_map_finite(parts);
                    assert(decreases_to!(whole => whole->Object_0[name@]));
                }
                let json = from_value(item);
                let ghost earlier = done@;
                done.push((name, json));
                proof {
                    assert(done@.drop_last() =~= earlier);
                    assert(parts.take(at + 1).drop_last() =~= parts.take(at));
                }
            }
            assert(parts.take(done.len() as int) =~= parts);
            let json = Json::Object(done);
            assert(json@ == JsonTree::Object(field_map(done@)));
            json
        },
    }
}

/// The `serde_json::Value` that holds a value.
fn to_value(json: &Json) -> (value: Value)
    ensures
        value_tree(value) == json@,
    decreases json,
{
    match json {
        Json::Null => close_value(Node::Null),
        Json::Bool(b) => close_value(Node::Bool(*b)),
        Json::Unsigned(n) => close_value(Node::Unsigned(*n)),
        Json::Signed(n) => close_value(Node::Signed(*n)),
        Json::Number(n) => close_value(Node::Number(copy_number(n))),
        Json::Text(s) => close_value(Node::Text(s.clone())),
        Json::Array(items) => {
            let mut done: Vec<Value> = Vec::new();
            let mut i: usize = 0;
            while i < items.len()
                invariant
                    i <= items.len(),
                    done.len() == i,
                    *json == Json::Array(*items),
                    forall|j: int|
                        0 <= j < i ==> value_tree(#[trigger] done@[j]) == items@[j]@,
                decreases items.len() - i,
            {
                assert(decreases_to!(*json => json->Array_0@[i as int]));
                done.push(to_value(&items[i]));
                i = i + 1;
            }
            assert(json@->Array_0 =~= done@.map_values(|v: Value| value_tree(v)));
            close_value(Node::Items(done))
        },
        Json::Object(fields) => {
            let mut done = new_fields();
            let mut i: usize = 0;
            while i < fields.len()
                invariant
                    i <= fields.len(),
                    *json == Json::Object(*fields),
                    map_fields(done) == field_map(fields@.take(i as int)),
                decreases fields.len() - i,
            {
                assert(decreases_to!(*json => json->Object_0@[i as int].1));
                assert(fields@.take(i + 1).drop_last() =~= fields@.take(i as int));
                put_field(&mut done, fields[i].0.clone(), to_value(&fields[i].1));
                i = i + 1;
            }
            assert(fields@.take(i as int) =~= fields@);
            assert(json@ == JsonTree::Object(field_map(fields@)));
            close_value(Node::Fields(done))
        },
    }
}

/// Reads a JSON document.
pub fn parse(bytes: &[u8]) -> (json: Option<Json>)
    ensures
        match json {
            Some(j) => parsed_bytes(bytes@) == Some(j@),
            None => parsed_bytes(bytes@) is None,
        },
{
    match read_value(bytes) {
        Some(value) => Some(from_value(value)),
        None => None,
    }
}

/// Writes a value on one line.
pub fn write_line(json: &Json) -> (bytes: Option<Vec<u8>>)
    ensures
        bytes is Some,
        opt_bytes(bytes) == compact_bytes(json@),
        is_one_line(bytes->0@),
{
    let value = to_value(json);
    write_compact(&value)
}

/// Writes a value on one line; what cannot be written becomes an empty object.
pub fn render(json: &Json) -> (bytes: Vec<u8>)
    ensures
        bytes@ == rendered(json@),
        compact_bytes(json@) == Some(bytes@),
        is_one_line(bytes@),
{
    match write_line(json) {
        Some(bytes) => bytes,
        None => {
            let bytes: Vec<u8> = vec![123, 125];
            assert(bytes@ =~= seq![123u8, 125u8]);
            bytes
        },
    }
}

/// The bytes of a value on one line, and `{}` where it cannot be written.
pub open spec fn rendered(tree: JsonTree) -> Seq<u8> {
    match compact_bytes(tree) {
        Some(bytes) => bytes,
        None => seq![123u8, 125u8],
    }
}

/// The text of a value on one line.
pub fn to_text(json: &Json) -> (text: String)
    ensures
        text@ == compact_text(json@),
{
    let value = to_value(json);
    write_text(&value)
}

/// Writes a value over several lines, as the registry files hold it. Where a value has at most
/// 127 levels and no floats, `parse` reads it back.
pub fn render_pretty(json: &Json) -> (bytes: Option<Vec<u8>>)
    ensures
        bytes is Some,
        opt_bytes(bytes) == pretty_bytes(json@),
        readable(json@, 127) ==> parsed_bytes(bytes->0@) == Some(json@),
{
    let value = to_value(json);
    write_pretty(&value)
}

} // verus!

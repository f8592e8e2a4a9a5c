//! JSON values as the tool-output limits see them: a tree of strings,
//! arrays and objects, walked by paths, whose size is that of its compact
//! serialization.
use vstd::prelude::*;

use serde_json::Value;

use crate::text::{all_digits, approx_token_count, decimal_chars, digits_value, integer_chars, tokens_for_bytes, utf8_len};

verus! {

/// What a JSON value holds. Object entries are in the map's order.
pub enum JsonModel {
    Null,
    Bool(bool),
    /// A number, as its JSON text.
    Number(Seq<char>),
    Str(Seq<char>),
    Array(Seq<JsonModel>),
    Object(Seq<(Seq<char>, JsonModel)>),
}

/// What a `serde_json::Value` holds.
pub uninterp spec fn json_contents(value: Value) -> JsonModel;

/// The compact text of a JSON value, as `serde_json::to_string` writes it.
pub uninterp spec fn compact_json_text(value: JsonModel) -> Seq<char>;

/// The indented text of a JSON value, as `serde_json::to_string_pretty`
/// writes it.
pub uninterp spec fn pretty_json_text(value: JsonModel) -> Seq<char>;

/// The value of a number's text when it is a non-negative integer: a number
/// holds an unsigned integer exactly when its text is all digits (a float's
/// text always has a point or an exponent).
pub open spec fn number_u64(text: Seq<char>) -> Option<nat> {
    if text.len() > 0 && all_digits(text) {
        Some(digits_value(text))
    } else {
        None
    }
}

/// The value of a number's text when it is an integer that fits `i64`.
pub open spec fn number_i64(text: Seq<char>) -> Option<int> {
    if text.len() > 0 && all_digits(text) {
        if digits_value(text) <= i64::MAX { Some(digits_value(text) as int) } else { None }
    } else if text.len() > 1 && text[0] == '-' && all_digits(text.drop_first()) {
        Some(-(digits_value(text.drop_first()) as int))
    } else {
        None
    }
}

/// The kind of a JSON value.
#[derive(PartialEq, Eq, Structural)]
pub enum JsonKind {
    Null,
    Bool,
    Number,
    Str,
    Array,
    Object,
}

pub open spec fn model_kind(m: JsonModel) -> JsonKind {
    match m {
        JsonModel::Null => JsonKind::Null,
        JsonModel::Bool(_) => JsonKind::Bool,
        JsonModel::Number(_) => JsonKind::Number,
        JsonModel::Str(_) => JsonKind::Str,
        JsonModel::Array(_) => JsonKind::Array,
        JsonModel::Object(_) => JsonKind::Object,
    }
}

/// A step from a value to one of its children.
pub enum JsonPathSegment {
    Key(String),
    Index(usize),
}

/// A step from a value to one of its children, as the specification sees it.
pub enum PathStep {
    Key(Seq<char>),
    Index(nat),
}

impl View for JsonPathSegment {
    type V = PathStep;

    open spec fn view(&self) -> PathStep {
        match self {
            JsonPathSegment::Key(key) => PathStep::Key(key@),
            JsonPathSegment::Index(i) => PathStep::Index(*i as nat),
        }
    }
}

/// The first entry of `entries` under `key`, or -1.
pub open spec fn first_key_index(entries: Seq<(Seq<char>, JsonModel)>, key: Seq<char>) -> int
    decreases entries.len(),
{
    if entries.len() == 0 {
        -1
    } else if entries[0].0 == key {
        0
    } else {
        let rest = first_key_index(entries.drop_first(), key);
        if rest < 0 { -1 } else { rest + 1 }
    }
}

/// The child of `m` that `segment` leads to.
pub open spec fn model_child(m: JsonModel, segment: PathStep) -> Option<JsonModel> {
    match (m, segment) {
        (JsonModel::Object(entries), PathStep::Key(key)) => {
            let i = first_key_index(entries, key);
            if i < 0 { None } else { Some(entries[i].1) }
        },
        (JsonModel::Array(items), PathStep::Index(i)) => if i < items.len() { Some(items[i as int]) } else { None },
        _ => None,
    }
}

/// `m` with the child that `segment` leads to replaced by `child`.
pub open spec fn model_put(m: JsonModel, segment: PathStep, child: JsonModel) -> JsonModel {
    match (m, segment) {
        (JsonModel::Object(entries), PathStep::Key(key)) => {
            let i = first_key_index(entries, key);
            if i < 0 { m } else { JsonModel::Object(entries.update(i, (entries[i].0, child))) }
        },
        (JsonModel::Array(items), PathStep::Index(i)) => if i < items.len() {
            JsonModel::Array(items.update(i as int, child))
        } else {
            m
        },
        _ => m,
    }
}

/// `serde_json::Value`'s variants, told apart.
#[verifier::external_body]
pub(crate) fn json_kind(value: &Value) -> (kind: JsonKind)
    ensures
        kind == model_kind(json_contents(*value)),
{
    match value {
        Value::Null => JsonKind::Null,
        Value::Bool(_) => JsonKind::Bool,
        Value::Number(_) => JsonKind::Number,
        Value::String(_) => JsonKind::Str,
        Value::Array(_) => JsonKind::Array,
        Value::Object(_) => JsonKind::Object,
    }
}

/// `Value::as_str`: the text of a string value.
#[verifier::external_body]
pub(crate) fn json_as_str(value: &Value) -> (text: Option<&str>)
    ensures
        match json_contents(*value) {
            JsonModel::Str(t) => text matches Some(s) && s@ == t,
            _ => text is None,
        },
{
    value.as_str()
}

/// `Value::as_array`, and the number of items.
#[verifier::external_body]
pub(crate) fn json_array_len(value: &Value) -> (len: usize)
    requires
        json_contents(*value) is Array,
    ensures
        len == json_contents(*value)->Array_0.len(),
{
    value.as_array().map_or(0, |items| items.len())
}

/// `Value::as_array`, and one item.
#[verifier::external_body]
pub(crate) fn json_array_item(value: &Value, index: usize) -> (item: &Value)
    requires
        json_contents(*value) is Array,
        index < json_contents(*value)->Array_0.len(),
    ensures
        json_contents(*item) == json_contents(*value)->Array_0[index as int],
{
    &value.as_array().unwrap()[index]
}

/// `Value::as_object`, and the number of entries.
#[verifier::external_body]
pub(crate) fn json_object_len(value: &Value) -> (len: usize)
    requires
        json_contents(*value) is Object,
    ensures
        len == json_contents(*value)->Object_0.len(),
{
    value.as_object().map_or(0, |entries| entries.len())
}

/// `Map::iter`: the entry at `index`, in the map's order.
#[verifier::external_body]
pub(crate) fn json_object_entry(value: &Value, index: usize) -> (entry: (&String, &Value))
    requires
        json_contents(*value) is Object,
        index < json_contents(*value)->Object_0.len(),
    ensures
        (entry.0@, json_contents(*entry.1)) == json_contents(*value)->Object_0[index as int],
        forall|j: int|
            0 <= j < json_contents(*value)->Object_0.len() && j != index ==> #[trigger] json_contents(*value)->Object_0[j].0
                != entry.0@,
{
    value.as_object().unwrap().iter().nth(index).unwrap()
}

/// `Map::get_mut` under `key`, with the child taken out (`Null` is left).
#[verifier::external_body]
pub(crate) fn json_take_key(value: &mut Value, key: &str) -> (child: Option<Value>)
    ensures
        match model_child(json_contents(*old(value)), PathStep::Key(key@)) {
            Some(c) => child matches Some(taken) && json_contents(taken) == c && json_contents(*final(value)) == model_put(
                json_contents(*old(value)),
                PathStep::Key(key@),
                JsonModel::Null,
            ),
            None => child is None && json_contents(*final(value)) == json_contents(*old(value)),
        },
{
    value.as_object_mut().and_then(|map| map.get_mut(key)).map(std::mem::take)
}

/// `Vec::get_mut` at `index` of an array, with the item taken out (`Null`
/// is left).
#[verifier::external_body]
pub(crate) fn json_take_index(value: &mut Value, index: usize) -> (child: Option<Value>)
    ensures
        match model_child(json_contents(*old(value)), PathStep::Index(index as nat)) {
            Some(c) => child matches Some(taken) && json_contents(taken) == c && json_contents(*final(value)) == model_put(
                json_contents(*old(value)),
                PathStep::Index(index as nat),
                JsonModel::Null,
            ),
            None => child is None && json_contents(*final(value)) == json_contents(*old(value)),
        },
{
    value.as_array_mut().and_then(|items| items.get_mut(index)).map(std::mem::take)
}

/// `Map::get_mut` under `key`, with `child` put in its place.
#[verifier::external_body]
pub(crate) fn json_put_key(value: &mut Value, key: &str, child: Value)
    ensures
        json_contents(*final(value)) == model_put(json_contents(*old(value)), PathStep::Key(key@), json_contents(child)),
{
    if let Some(slot) = value.as_object_mut().and_then(|map| map.get_mut(key)) {
        *slot = child;
    }
}

/// `Vec::get_mut` at `index` of an array, with `child` put in its place.
#[verifier::external_body]
pub(crate) fn json_put_index(value: &mut Value, index: usize, child: Value)
    ensures
        json_contents(*final(value)) == model_put(json_contents(*old(value)), PathStep::Index(index as nat), json_contents(child)),
{
    if let Some(slot) = value.as_array_mut().and_then(|items| items.get_mut(index)) {
        *slot = child;
    }
}

/// `Value::String`.
#[verifier::external_body]
pub(crate) fn json_string(text: String) -> (value: Value)
    ensures
        json_contents(value) == JsonModel::Str(text@),
{
    Value::String(text)
}

/// `serde_json::to_string`: the compact text of a value. Writing a `Value`
/// into a byte vector does not fail (its map keys are strings and a `Vec`
/// writer takes every byte), so the empty text of the error arm is never
/// given.
#[verifier::external_body]
pub(crate) fn json_text(value: &Value) -> (text: String)
    ensures
        text@ == compact_json_text(json_contents(*value)),
{
    serde_json::to_string(value).unwrap_or_default()
}

/// An object with one entry: `key` holding the string `message`.
#[verifier::external_body]
pub(crate) fn json_single_entry_object(key: String, message: String) -> (value: Value)
    ensures
        json_contents(value) == JsonModel::Object(seq![(key@, JsonModel::Str(message@))]),
{
    Value::Object(std::iter::once((key, Value::String(message))).collect())
}

/// `serde_json::to_string_pretty`: the indented text of a value. Writing a
/// `Value` into a byte vector does not fail, so the empty text of the error
/// arm is never given.
#[verifier::external_body]
pub(crate) fn json_pretty_text(value: &Value) -> (text: String)
    ensures
        text@ == pretty_json_text(json_contents(*value)),
{
    serde_json::to_string_pretty(value).unwrap_or_default()
}

/// `Value::as_bool`.
#[verifier::external_body]
pub(crate) fn json_as_bool(value: &Value) -> (flag: Option<bool>)
    ensures
        flag == (match json_contents(*value) {
            JsonModel::Bool(b) => Some(b),
            _ => None,
        }),
{
    value.as_bool()
}

/// `Value::as_u64`: a number that holds a non-negative integer.
#[verifier::external_body]
pub(crate) fn json_as_u64(value: &Value) -> (n: Option<u64>)
    ensures
        match json_contents(*value) {
            JsonModel::Number(text) => match number_u64(text) {
                Some(v) => n == Some(v as u64) && v <= u64::MAX,
                None => n is None,
            },
            _ => n is None,
        },
{
    value.as_u64()
}

/// `Value::as_i64`: a number that holds an integer within `i64`.
#[verifier::external_body]
pub(crate) fn json_as_i64(value: &Value) -> (n: Option<i64>)
    ensures
        match json_contents(*value) {
            JsonModel::Number(text) => match number_i64(text) {
                Some(v) => n == Some(v as i64) && i64::MIN <= v <= i64::MAX,
                None => n is None,
            },
            _ => n is None,
        },
{
    value.as_i64()
}

/// `Value::Null`.
#[verifier::external_body]
pub(crate) fn json_null() -> (value: Value)
    ensures
        json_contents(value) == JsonModel::Null,
{
    Value::Null
}

/// `Value::Bool`.
#[verifier::external_body]
pub(crate) fn json_bool(flag: bool) -> (value: Value)
    ensures
        json_contents(value) == JsonModel::Bool(flag),
{
    Value::Bool(flag)
}

/// `Value::from(u64)`: a number written as its decimal digits.
#[verifier::external_body]
pub(crate) fn json_unsigned(n: u64) -> (value: Value)
    ensures
        json_contents(value) == JsonModel::Number(decimal_chars(n as nat)),
{
    Value::from(n)
}

/// `Value::from(i64)`: a number written as its decimal digits, after a `-`
/// when it is negative.
#[verifier::external_body]
pub(crate) fn json_integer(n: i64) -> (value: Value)
    ensures
        json_contents(value) == JsonModel::Number(integer_chars(n as int)),
{
    Value::from(n)
}

/// `Value::Array` of the items.
#[verifier::external_body]
pub(crate) fn json_array(items: Vec<Value>) -> (value: Value)
    ensures
        json_contents(value) == JsonModel::Array(items@.map_values(|item: Value| json_contents(item))),
{
    Value::Array(items)
}

/// `Value::Object` collected from entries whose keys differ: it holds each
/// entry under its key, and nothing else. (The map orders its keys itself.)
#[verifier::external_body]
pub(crate) fn json_object(entries: Vec<(String, Value)>) -> (value: Value)
    requires
        forall|i: int, j: int| 0 <= i < j < entries@.len() ==> (#[trigger] entries@[i]).0@ != (#[trigger] entries@[j]).0@,
    ensures
        json_contents(value) is Object,
        json_contents(value)->Object_0.len() == entries@.len(),
        forall|i: int|
            0 <= i < entries@.len() ==> model_child(json_contents(value), PathStep::Key((#[trigger] entries@[i]).0@))
                == Some(json_contents(entries@[i].1)),
{
    Value::Object(entries.into_iter().collect())
}

/// The steps of a path.
pub open spec fn path_view(path: Seq<JsonPathSegment>) -> Seq<PathStep> {
    path.map_values(|segment: JsonPathSegment| segment@)
}

/// The value that `path` leads to from `m`.
pub open spec fn model_at(m: JsonModel, path: Seq<PathStep>) -> Option<JsonModel>
    decreases path.len(),
{
    if path.len() == 0 {
        Some(m)
    } else {
        match model_child(m, path[0]) {
            Some(child) => model_at(child, path.skip(1)),
            None => None,
        }
    }
}

/// `m` with the value that `path` leads to replaced by `new`; `m` itself
/// when `path` leads nowhere.
pub open spec fn model_replace(m: JsonModel, path: Seq<PathStep>, new: JsonModel) -> JsonModel
    decreases path.len(),
{
    if path.len() == 0 {
        new
    } else {
        match model_child(m, path[0]) {
            Some(child) => model_put(m, path[0], model_replace(child, path.skip(1), new)),
            None => m,
        }
    }
}

/// The string leaves of `m`, in document order, each with the path to it
/// (after `prefix`) and its text.
pub open spec fn string_leaves(m: JsonModel, prefix: Seq<PathStep>) -> Seq<(Seq<PathStep>, Seq<char>)>
    decreases m, 0nat,
{
    match m {
        JsonModel::Str(text) => seq![(prefix, text)],
        JsonModel::Array(items) => item_leaves(items, 0, prefix),
        JsonModel::Object(entries) => entry_leaves(entries, 0, prefix),
        _ => Seq::empty(),
    }
}

/// The string leaves of the items from `start` on.
pub open spec fn item_leaves(items: Seq<JsonModel>, start: nat, prefix: Seq<PathStep>) -> Seq<(Seq<PathStep>, Seq<char>)>
    decreases items, (items.len() - start) as nat,
{
    if start >= items.len() {
        Seq::empty()
    } else {
        string_leaves(items[start as int], prefix.push(PathStep::Index(start))) + item_leaves(items, start + 1, prefix)
    }
}

/// The string leaves of the entries from `start` on.
pub open spec fn entry_leaves(entries: Seq<(Seq<char>, JsonModel)>, start: nat, prefix: Seq<PathStep>) -> Seq<(Seq<PathStep>, Seq<char>)>
    decreases entries, (entries.len() - start) as nat,
{
    if start >= entries.len() {
        Seq::empty()
    } else {
        string_leaves(entries[start as int].1, prefix.push(PathStep::Key(entries[start as int].0))) + entry_leaves(
            entries,
            start + 1,
            prefix,
        )
    }
}

/// A string leaf: the path to it and its token estimate.
pub struct StringLeaf {
    pub path: Vec<JsonPathSegment>,
    pub tokens: usize,
}

/// The leaves as paths and token estimates.
pub open spec fn leaf_views(leaves: Seq<StringLeaf>) -> Seq<(Seq<PathStep>, nat)> {
    leaves.map_values(|leaf: StringLeaf| (path_view(leaf.path@), leaf.tokens as nat))
}

/// Spec leaves with their texts replaced by token estimates.
pub open spec fn leaf_estimates(leaves: Seq<(Seq<PathStep>, Seq<char>)>) -> Seq<(Seq<PathStep>, nat)> {
    leaves.map_values(|leaf: (Seq<PathStep>, Seq<char>)| (leaf.0, tokens_for_bytes(utf8_len(leaf.1))))
}

impl JsonPathSegment {
    pub fn duplicate(&self) -> (copy: Self)
        ensures
            copy@ == self@,
    {
        match self {
            JsonPathSegment::Key(key) => JsonPathSegment::Key(key.clone()),
            JsonPathSegment::Index(i) => JsonPathSegment::Index(*i),
        }
    }
}

pub fn clone_path(path: &Vec<JsonPathSegment>) -> (copy: Vec<JsonPathSegment>)
    ensures
        path_view(copy@) == path_view(path@),
{
    let mut copy = Vec::new();
    let mut i: usize = 0;
    while i < path.len()
        invariant
            i <= path@.len(),
            path_view(copy@) == path_view(path@.take(i as int)),
        decreases path.len() - i,
    {
        copy.push(path[i].duplicate());
        assert(path_view(path@.take(i + 1)) =~= path_view(path@.take(i as int)).push(path@[i as int]@));
        assert(path_view(copy@) =~= path_view(path@.take(i as int)).push(path@[i as int]@));
        i += 1;
    }
    assert(path@.take(i as int) =~= path@);
    copy
}

/// Appends the string leaves of `value`, found under `path`, to `leaves`;
/// `path` is left as it was.
pub fn collect_string_leaves(value: &Value, path: &mut Vec<JsonPathSegment>, leaves: &mut Vec<StringLeaf>)
    ensures
        path_view(final(path)@) == path_view(old(path)@),
        leaf_views(final(leaves)@) == leaf_views(old(leaves)@) + leaf_estimates(
            string_leaves(json_contents(*value), path_view(old(path)@)),
        ),
    decreases json_contents(*value),
{
    let ghost prefix = path_view(path@);
    let ghost start = leaf_views(leaves@);
    match json_kind(value) {
        JsonKind::Str => {
            let text = json_as_str(value).unwrap();
            let tokens = approx_token_count(text);
            leaves.push(StringLeaf { path: clone_path(path), tokens });
            proof {
                assert(leaf_views(leaves@) =~= start + leaf_estimates(string_leaves(json_contents(*value), prefix)));
            }
        },
        JsonKind::Array => {
            let ghost items = json_contents(*value)->Array_0;
            let len = json_array_len(value);
            let mut i: usize = 0;
            while i < len
                invariant
                    json_contents(*value) == JsonModel::Array(items),
                    len == items.len(),
                    i <= len,
                    path_view(path@) == prefix,
                    leaf_views(leaves@) + leaf_estimates(item_leaves(items, i as nat, prefix)) == start + leaf_estimates(
                        item_leaves(items, 0, prefix),
                    ),
                decreases len - i,
            {
                let ghost before = leaf_views(leaves@);
                let item = json_array_item(value, i);
                path.push(JsonPathSegment::Index(i));
                proof {
                    assert(path_view(path@) =~= prefix.push(PathStep::Index(i as nat)));
                    assert(decreases_to!(json_contents(*value) => items));
                }
                collect_string_leaves(item, path, leaves);
                let ghost pushed = path@;
                path.pop();
                proof {
                    assert(path@ =~= pushed.drop_last());
                    assert(path_view(pushed) == prefix.push(PathStep::Index(i as nat)));
                    assert(path_view(path@) =~= path_view(pushed).drop_last());
                    assert(path_view(path@) =~= prefix);
                    let own = leaf_estimates(string_leaves(items[i as int], prefix.push(PathStep::Index(i as nat))));
                    assert(item_leaves(items, i as nat, prefix) == string_leaves(items[i as int], prefix.push(PathStep::Index(i as nat)))
                        + item_leaves(items, (i + 1) as nat, prefix));
                    assert(leaf_estimates(item_leaves(items, i as nat, prefix)) =~= own + leaf_estimates(item_leaves(items, (i + 1) as nat, prefix)));
                    assert(leaf_views(leaves@) + leaf_estimates(item_leaves(items, (i + 1) as nat, prefix)) =~= before
                        + leaf_estimates(item_leaves(items, i as nat, prefix)));
                }
                i += 1;
            }
            proof {
                assert(item_leaves(items, len as nat, prefix) =~= Seq::empty());
                assert(leaf_views(leaves@) =~= start + leaf_estimates(string_leaves(json_contents(*value), prefix)));
            }
        },
        JsonKind::Object => {
            let ghost entries = json_contents(*value)->Object_0;
            let len = json_object_len(value);
            let mut i: usize = 0;
            while i < len
                invariant
                    json_contents(*value) == JsonModel::Object(entries),
                    len == entries.len(),
                    i <= len,
                    path_view(path@) == prefix,
                    leaf_views(leaves@) + leaf_estimates(entry_leaves(entries, i as nat, prefix)) == start + leaf_estimates(
                        entry_leaves(entries, 0, prefix),
                    ),
                decreases len - i,
            {
                let ghost before = leaf_views(leaves@);
                let (key, child) = json_object_entry(value, i);
                path.push(JsonPathSegment::Key(key.clone()));
                proof {
                    assert(path_view(path@) =~= prefix.push(PathStep::Key(entries[i as int].0)));
                    assert(decreases_to!(json_contents(*value) => entries));
                }
                collect_string_leaves(child, path, leaves);
                let ghost pushed = path@;
                path.pop();
                proof {
                    assert(path@ =~= pushed.drop_last());
                    assert(path_view(pushed) == prefix.push(PathStep::Key(entries[i as int].0)));
                    assert(path_view(path@) =~= path_view(pushed).drop_last());
                    assert(path_view(path@) =~= prefix);
                    let step = PathStep::Key(entries[i as int].0);
                    let own = leaf_estimates(string_leaves(entries[i as int].1, prefix.push(step)));
                    assert(entry_leaves(entries, i as nat, prefix) == string_leaves(entries[i as int].1, prefix.push(step))
                        + entry_leaves(entries, (i + 1) as nat, prefix));
                    assert(leaf_estimates(entry_leaves(entries, i as nat, prefix)) =~= own + leaf_estimates(entry_leaves(entries, (i + 1) as nat, prefix)));
                    assert(leaf_views(leaves@) + leaf_estimates(entry_leaves(entries, (i + 1) as nat, prefix)) =~= before
                        + leaf_estimates(entry_leaves(entries, i as nat, prefix)));
                }
                i += 1;
            }
            proof {
                assert(entry_leaves(entries, len as nat, prefix) =~= Seq::empty());
                assert(leaf_views(leaves@) =~= start + leaf_estimates(string_leaves(json_contents(*value), prefix)));
            }
        },
        _ => {
            proof {
                assert(string_leaves(json_contents(*value), prefix) =~= Seq::empty());
                assert(leaf_views(leaves@) =~= start + leaf_estimates(string_leaves(json_contents(*value), prefix)));
            }
        },
    }
}

/// `Map::get` under `key`.
#[verifier::external_body]
pub(crate) fn json_get_key<'a>(value: &'a Value, key: &str) -> (child: Option<&'a Value>)
    ensures
        match model_child(json_contents(*value), PathStep::Key(key@)) {
            Some(c) => child matches Some(found) && json_contents(*found) == c,
            None => child is None,
        },
{
    value.as_object().and_then(|map| map.get(key))
}

/// The first entry under a key is the entry of that key, where keys are
/// distinct.
proof fn lemma_first_key_index(entries: Seq<(Seq<char>, JsonModel)>, i: int)
    requires
        0 <= i < entries.len(),
        forall|j: int| 0 <= j < entries.len() && j != i ==> #[trigger] entries[j].0 != entries[i].0,
    ensures
        first_key_index(entries, entries[i].0) == i,
    decreases entries.len(),
{
    if i > 0 {
        let rest = entries.drop_first();
        assert(entries[0].0 != entries[i].0);
        assert(rest[i - 1] == entries[i]);
        assert forall|j: int| 0 <= j < rest.len() && j != i - 1 implies #[trigger] rest[j].0 != rest[i - 1].0 by {
            assert(rest[j] == entries[j + 1]);
        }
        lemma_first_key_index(rest, i - 1);
    }
}

/// Where the first entry under a key is.
pub proof fn lemma_first_key_index_bound(entries: Seq<(Seq<char>, JsonModel)>, key: Seq<char>)
    ensures
        -1 <= first_key_index(entries, key) < entries.len(),
        first_key_index(entries, key) >= 0 ==> entries[first_key_index(entries, key)].0 == key,
    decreases entries.len(),
{
    if entries.len() > 0 && entries[0].0 != key {
        lemma_first_key_index_bound(entries.drop_first(), key);
    }
}

/// Replacing an entry's value leaves every key where it was.
proof fn lemma_first_key_index_update(entries: Seq<(Seq<char>, JsonModel)>, i: int, child: JsonModel, key: Seq<char>)
    requires
        0 <= i < entries.len(),
    ensures
        first_key_index(entries.update(i, (entries[i].0, child)), key) == first_key_index(entries, key),
    decreases entries.len(),
{
    let updated = entries.update(i, (entries[i].0, child));
    if entries.len() > 0 && i > 0 {
        assert(updated.drop_first() =~= entries.drop_first().update(i - 1, (entries[i].0, child)));
        lemma_first_key_index_update(entries.drop_first(), i - 1, child, key);
    } else if i == 0 {
        assert(updated.drop_first() =~= entries.drop_first());
    }
}

/// A second put at one step replaces the first.
proof fn lemma_put_twice(m: JsonModel, step: PathStep, first: JsonModel, second: JsonModel)
    requires
        model_child(m, step) is Some,
    ensures
        model_put(model_put(m, step, first), step, second) == model_put(m, step, second),
        model_child(model_put(m, step, first), step) == Some(first),
{
    match (m, step) {
        (JsonModel::Object(entries), PathStep::Key(key)) => {
            let i = first_key_index(entries, key);
            lemma_first_key_index_bound(entries, key);
            lemma_first_key_index_update(entries, i, first, key);
            let once = entries.update(i, (entries[i].0, first));
            assert(once.update(i, (once[i].0, second)) =~= entries.update(i, (entries[i].0, second)));
        },
        (JsonModel::Array(items), PathStep::Index(i)) => {
            assert(items.update(i as int, first).update(i as int, second) =~= items.update(i as int, second));
        },
        _ => {},
    }
}

/// The value `path` (from `start` on) leads to.
pub fn value_at_path<'a>(value: &'a Value, path: &Vec<JsonPathSegment>, start: usize) -> (found: Option<&'a Value>)
    requires
        start <= path@.len(),
    ensures
        match model_at(json_contents(*value), path_view(path@).skip(start as int)) {
            Some(m) => found matches Some(v) && json_contents(*v) == m,
            None => found is None,
        },
    decreases path@.len() - start,
{
    let ghost steps = path_view(path@).skip(start as int);
    if start == path.len() {
        assert(steps.len() == 0);
        return Some(value);
    }
    assert(steps[0] == path@[start as int]@);
    assert(steps.skip(1) =~= path_view(path@).skip(start + 1));
    let child = match &path[start] {
        JsonPathSegment::Key(key) => json_get_key(value, key.as_str()),
        JsonPathSegment::Index(i) => {
            if json_kind(value) == JsonKind::Array && *i < json_array_len(value) {
                Some(json_array_item(value, *i))
            } else {
                None
            }
        },
    };
    match child {
        Some(child) => value_at_path(child, path, start + 1),
        None => None,
    }
}

/// Replaces the value that `path` (from `start` on) leads to by `new`;
/// nothing changes when `path` leads nowhere.
pub fn replace_at_path(value: &mut Value, path: &Vec<JsonPathSegment>, start: usize, new: Value)
    requires
        start <= path@.len(),
    ensures
        json_contents(*final(value)) == model_replace(
            json_contents(*old(value)),
            path_view(path@).skip(start as int),
            json_contents(new),
        ),
    decreases path@.len() - start,
{
    let ghost steps = path_view(path@).skip(start as int);
    let ghost before = json_contents(*value);
    if start == path.len() {
        assert(steps.len() == 0);
        *value = new;
        return;
    }
    assert(steps[0] == path@[start as int]@);
    assert(steps.skip(1) =~= path_view(path@).skip(start + 1));
    match &path[start] {
        JsonPathSegment::Key(key) => {
            match json_take_key(value, key.as_str()) {
                Some(mut child) => {
                    replace_at_path(&mut child, path, start + 1, new);
                    json_put_key(value, key.as_str(), child);
                    proof {
                        lemma_put_twice(before, steps[0], JsonModel::Null, json_contents(child));
                    }
                },
                None => {},
            }
        },
        JsonPathSegment::Index(i) => {
            match json_take_index(value, *i) {
                Some(mut child) => {
                    replace_at_path(&mut child, path, start + 1, new);
                    json_put_index(value, *i, child);
                    proof {
                        lemma_put_twice(before, steps[0], JsonModel::Null, json_contents(child));
                    }
                },
                None => {},
            }
        },
    }
}

/// `m` with every string emptied: its shape without its texts.
pub open spec fn blank_model(m: JsonModel) -> JsonModel
    decreases m, 0nat,
{
    match m {
        JsonModel::Str(_) => JsonModel::Str(Seq::empty()),
        JsonModel::Array(items) => JsonModel::Array(blank_items(items, 0)),
        JsonModel::Object(entries) => JsonModel::Object(blank_entries(entries, 0)),
        _ => m,
    }
}

pub open spec fn blank_items(items: Seq<JsonModel>, start: nat) -> Seq<JsonModel>
    decreases items, (items.len() - start) as nat,
{
    if start >= items.len() {
        Seq::empty()
    } else {
        seq![blank_model(items[start as int])] + blank_items(items, start + 1)
    }
}

pub open spec fn blank_entries(entries: Seq<(Seq<char>, JsonModel)>, start: nat) -> Seq<(Seq<char>, JsonModel)>
    decreases entries, (entries.len() - start) as nat,
{
    if start >= entries.len() {
        Seq::empty()
    } else {
        seq![(entries[start as int].0, blank_model(entries[start as int].1))] + blank_entries(entries, start + 1)
    }
}

proof fn lemma_blank_items(items: Seq<JsonModel>, start: nat)
    requires
        start <= items.len(),
    ensures
        blank_items(items, start).len() == items.len() - start,
        forall|k: int| 0 <= k < items.len() - start ==> #[trigger] blank_items(items, start)[k] == blank_model(items[start + k]),
    decreases items.len() - start,
{
    if start < items.len() {
        lemma_blank_items(items, start + 1);
        assert forall|k: int| 0 <= k < items.len() - start implies #[trigger] blank_items(items, start)[k] == blank_model(
            items[start + k],
        ) by {
            if k > 0 {
                assert(blank_items(items, start)[k] == blank_items(items, start + 1)[k - 1]);
            }
        }
    }
}

proof fn lemma_blank_entries(entries: Seq<(Seq<char>, JsonModel)>, start: nat)
    requires
        start <= entries.len(),
    ensures
        blank_entries(entries, start).len() == entries.len() - start,
        forall|k: int|
            0 <= k < entries.len() - start ==> #[trigger] blank_entries(entries, start)[k] == (
                entries[start + k].0,
                blank_model(entries[start + k].1),
            ),
    decreases entries.len() - start,
{
    if start < entries.len() {
        lemma_blank_entries(entries, start + 1);
        assert forall|k: int| 0 <= k < entries.len() - start implies #[trigger] blank_entries(entries, start)[k] == (
            entries[start + k].0,
            blank_model(entries[start + k].1),
        ) by {
            if k > 0 {
                assert(blank_entries(entries, start)[k] == blank_entries(entries, start + 1)[k - 1]);
            }
        }
    }
}

/// Putting a child of the same shape in place of another keeps the shape.
proof fn lemma_blank_put(m: JsonModel, step: PathStep, c: JsonModel)
    requires
        model_child(m, step) is Some,
        blank_model(c) == blank_model(model_child(m, step)->Some_0),
    ensures
        blank_model(model_put(m, step, c)) == blank_model(m),
{
    match (m, step) {
        (JsonModel::Object(entries), PathStep::Key(key)) => {
            let i = first_key_index(entries, key);
            lemma_first_key_index_bound(entries, key);
            let updated = entries.update(i, (entries[i].0, c));
            lemma_blank_entries(entries, 0);
            lemma_blank_entries(updated, 0);
            assert(blank_entries(updated, 0) =~= blank_entries(entries, 0)) by {
                assert forall|k: int| 0 <= k < entries.len() implies blank_entries(updated, 0)[k] == blank_entries(
                    entries,
                    0,
                )[k] by {
                    if k == i {
                        assert(updated[k] == (entries[i].0, c));
                    } else {
                        assert(updated[k] == entries[k]);
                    }
                }
            }
        },
        (JsonModel::Array(items), PathStep::Index(i)) => {
            let updated = items.update(i as int, c);
            lemma_blank_items(items, 0);
            lemma_blank_items(updated, 0);
            assert(blank_items(updated, 0) =~= blank_items(items, 0)) by {
                assert forall|k: int| 0 <= k < items.len() implies blank_items(updated, 0)[k] == blank_items(items, 0)[k] by {
                    if k != i {
                        assert(updated[k] == items[k]);
                    }
                }
            }
        },
        _ => {},
    }
}

/// Replacing the value at a path by one of the same shape keeps the shape
/// of the whole.
pub proof fn lemma_blank_replace(m: JsonModel, path: Seq<PathStep>, new: JsonModel)
    requires
        model_at(m, path) is Some,
        blank_model(new) == blank_model(model_at(m, path)->Some_0),
    ensures
        blank_model(model_replace(m, path, new)) == blank_model(m),
    decreases path.len(),
{
    if path.len() > 0 {
        let child = model_child(m, path[0])->Some_0;
        lemma_blank_replace(child, path.skip(1), new);
        lemma_blank_put(m, path[0], model_replace(child, path.skip(1), new));
    }
}

/// Empties every string of `value`, leaving its shape.
pub fn blank_strings(value: &mut Value)
    ensures
        json_contents(*final(value)) == blank_model(json_contents(*old(value))),
    decreases json_contents(*old(value)),
{
    let ghost original = json_contents(*value);
    match json_kind(value) {
        JsonKind::Str => {
            *value = json_string(String::new());
        },
        JsonKind::Array => {
            let ghost items = original->Array_0;
            proof {
                lemma_blank_items(items, 0);
            }
            let len = json_array_len(value);
            let mut i: usize = 0;
            while i < len
                invariant
                    original == JsonModel::Array(items),
                    original == json_contents(*old(value)),
                    len == items.len(),
                    i <= len,
                    blank_items(items, 0).len() == items.len(),
                    forall|k: int| 0 <= k < items.len() ==> #[trigger] blank_items(items, 0)[k] == blank_model(items[k]),
                    json_contents(*value) is Array,
                    json_contents(*value)->Array_0.len() == len,
                    forall|k: int| 0 <= k < i ==> #[trigger] json_contents(*value)->Array_0[k] == blank_model(items[k]),
                    forall|k: int| i <= k < len ==> #[trigger] json_contents(*value)->Array_0[k] == items[k],
                decreases len - i,
            {
                let ghost current = json_contents(*value)->Array_0;
                let mut child = json_take_index(value, i).unwrap();
                proof {
                    assert(json_contents(child) == items[i as int]);
                    assert(original->Array_0 == items);
                    assert(decreases_to!(original => original->Array_0));
                    assert(decreases_to!(items => items[i as int]));
                }
                blank_strings(&mut child);
                json_put_index(value, i, child);
                proof {
                    assert(json_contents(*value)->Array_0 =~= current.update(i as int, blank_model(items[i as int])));
                }
                i += 1;
            }
            proof {
                assert(json_contents(*value)->Array_0 =~= blank_items(items, 0));
            }
        },
        JsonKind::Object => {
            let ghost entries = original->Object_0;
            proof {
                lemma_blank_entries(entries, 0);
            }
            let len = json_object_len(value);
            let mut i: usize = 0;
            while i < len
                invariant
                    original == JsonModel::Object(entries),
                    original == json_contents(*old(value)),
                    len == entries.len(),
                    i <= len,
                    blank_entries(entries, 0).len() == entries.len(),
                    forall|k: int|
                        0 <= k < entries.len() ==> #[trigger] blank_entries(entries, 0)[k] == (
                            entries[k].0,
                            blank_model(entries[k].1),
                        ),
                    json_contents(*value) is Object,
                    json_contents(*value)->Object_0.len() == len,
                    forall|k: int| 0 <= k < len ==> #[trigger] json_contents(*value)->Object_0[k].0 == entries[k].0,
                    forall|k: int| 0 <= k < i ==> #[trigger] json_contents(*value)->Object_0[k].1 == blank_model(entries[k].1),
                    forall|k: int| i <= k < len ==> #[trigger] json_contents(*value)->Object_0[k].1 == entries[k].1,
                decreases len - i,
            {
                let ghost current = json_contents(*value)->Object_0;
                let (key_ref, _) = json_object_entry(value, i);
                let key = key_ref.clone();
                proof {
                    assert(current[i as int].0 == key@);
                    lemma_first_key_index(current, i as int);
                }
                let mut child = json_take_key(value, key.as_str()).unwrap();
                proof {
                    assert(json_contents(child) == entries[i as int].1);
                    assert(original->Object_0 == entries);
                    assert(decreases_to!(original => original->Object_0));
                    assert(decreases_to!(entries => entries[i as int]));
                    assert(decreases_to!(entries[i as int] => entries[i as int].1));
                }
                blank_strings(&mut child);
                json_put_key(value, key.as_str(), child);
                proof {
                    let taken = current.update(i as int, (current[i as int].0, JsonModel::Null));
                    lemma_first_key_index_update(current, i as int, JsonModel::Null, key@);
                    assert(json_contents(*value)->Object_0 =~= current.update(
                        i as int,
                        (current[i as int].0, blank_model(entries[i as int].1)),
                    ));
                }
                i += 1;
            }
            proof {
                let done = json_contents(*value)->Object_0;
                assert forall|k: int| 0 <= k < len implies #[trigger] done[k] == blank_entries(entries, 0)[k] by {
                    assert(done[k].0 == entries[k].0);
                    assert(done[k].1 == blank_model(entries[k].1));
                }
                assert(done =~= blank_entries(entries, 0));
            }
        },
        _ => {},
    }
}

} // verus!

//! Reading and writing JSON text with `serde_json`.

use vstd::prelude::*;

use crate::json::{entry_keys, lemma_strictly_apart, place_of, Json, JsonObject, JsonView, NumberView};

verus! {

/// A value of `serde_json`.
#[verifier::external_type_specification]
#[verifier::external_body]
pub struct ExValue(serde_json::Value);

/// What a `serde_json::Value` holds.
pub uninterp spec fn value_view(value: serde_json::Value) -> JsonView;

/// What `serde_json::from_str` makes of a text: the value, or the message of its
/// error.
pub uninterp spec fn json_from_text(text: Seq<char>) -> Result<JsonView, Seq<char>>;

/// What `serde_json::from_slice` makes of bytes: the value, or the message of its
/// error.
pub uninterp spec fn json_from_bytes(bytes: Seq<u8>) -> Result<JsonView, Seq<char>>;

/// The compact text that `serde_json` writes for a value.
pub uninterp spec fn json_text(value: JsonView) -> Seq<char>;

/// The compact bytes that `serde_json` writes for a value.
pub uninterp spec fn json_bytes(value: JsonView) -> Seq<u8>;

/// The bytes read as the value.
pub open spec fn reads_as(bytes: Seq<u8>, value: JsonView) -> bool {
    json_from_bytes(bytes) == Ok::<JsonView, Seq<char>>(value)
}

/// The nesting is at most `depth` and every double, written alone, reads back as
/// itself. `serde_json` reads at most 127 levels, and some doubles come back with
/// another last bit.
pub open spec fn reads_back(value: JsonView, depth: nat) -> bool
    decreases depth,
{
    match value {
        JsonView::Number(NumberView::Float(_)) => reads_as(json_bytes(value), value),
        JsonView::Array(items) => depth > 0 && forall|i: int|
            0 <= i < items.len() ==> reads_back(#[trigger] items[i], (depth - 1) as nat),
        JsonView::Object(entries) => depth > 0 && forall|key: Seq<char>|
            entries.contains_key(key) ==> reads_back(#[trigger] entries[key], (depth - 1) as nat),
        _ => true,
    }
}

/// The top level of a `serde_json::Value`.
enum Node {
    Null,
    Bool(bool),
    Number(serde_json::Number),
    Str(String),
    Array(Vec<serde_json::Value>),
    Object(Vec<(String, serde_json::Value)>),
}

spec fn node_view(node: Node) -> JsonView {
    match node {
        Node::Null => JsonView::Null,
        Node::Bool(b) => JsonView::Bool(b),
        Node::Number(n) => JsonView::Number(crate::json::number_view(n)),
        Node::Str(s) => JsonView::Str(s@),
        Node::Array(items) => JsonView::Array(
            Seq::new(items@.len(), |i: int| value_view(items@[i])),
        ),
        Node::Object(entries) => JsonView::Object(
            Map::new(
                |key: Seq<char>| entry_keys(entries@).contains(key),
                |key: Seq<char>| value_view(entries@[place_of(entry_keys(entries@), key)].1),
            ),
        ),
    }
}

spec fn keys_differ(node: Node) -> bool {
    match node {
        Node::Object(entries) => entry_keys(entries@).no_duplicates(),
        _ => true,
    }
}

/// Takes a `serde_json::Value` apart by its variant. An object gives each of its
/// entries once, so no key comes twice.
#[verifier::external_body]
fn open_value(value: serde_json::Value) -> (node: Node)
    ensures
        node_view(node) == value_view(value),
        keys_differ(node),
{
    match value {
        serde_json::Value::Null => Node::Null,
        serde_json::Value::Bool(b) => Node::Bool(b),
        serde_json::Value::Number(n) => Node::Number(n),
        serde_json::Value::String(s) => Node::Str(s),
        serde_json::Value::Array(items) => Node::Array(items),
        serde_json::Value::Object(entries) => Node::Object(entries.into_iter().collect()),
    }
}

/// Puts a `serde_json::Value` together, variant by variant. The entries of an
/// object are collected into `serde_json::Map`.
#[verifier::external_body]
fn close_value(node: Node) -> (value: serde_json::Value)
    requires
        keys_differ(node),
    ensures
        value_view(value) == node_view(node),
{
    match node {
        Node::Null => serde_json::Value::Null,
        Node::Bool(b) => serde_json::Value::Bool(b),
        Node::Number(n) => serde_json::Value::Number(n),
        Node::Str(s) => serde_json::Value::String(s),
        Node::Array(items) => serde_json::Value::Array(items),
        Node::Object(entries) => serde_json::Value::Object(entries.into_iter().collect()),
    }
}

/// `serde_json::from_str` into a `Value`; an error is given by its message.
#[verifier::external_body]
fn read_text(text: &str) -> (read: Result<serde_json::Value, String>)
    ensures
        match read {
            Ok(value) => json_from_text(text@) == Ok::<JsonView, Seq<char>>(value_view(value)),
            Err(message) => json_from_text(text@) == Err::<JsonView, Seq<char>>(message@),
        },
{
    serde_json::from_str::<serde_json::Value>(text).map_err(|e| e.to_string())
}

/// `serde_json::from_slice` into a `Value`; an error is given by its message.
#[verifier::external_body]
fn read_bytes(bytes: &[u8]) -> (read: Result<serde_json::Value, String>)
    ensures
        match read {
            Ok(value) => json_from_bytes(bytes@) == Ok::<JsonView, Seq<char>>(value_view(value)),
            Err(message) => json_from_bytes(bytes@) == Err::<JsonView, Seq<char>>(message@),
        },
{
    serde_json::from_slice::<serde_json::Value>(bytes).map_err(|e| e.to_string())
}

/// The `Display` form of a `serde_json::Value`, its compact text.
#[verifier::external_body]
fn write_text(value: &serde_json::Value) -> (text: String)
    ensures
        text@ == json_text(value_view(*value)),
{
    value.to_string()
}

/// `serde_json::to_vec` of a `Value`; an error would be given by its message.
/// `to_vec` fails only where the type's own `Serialize` decides to, or on a map key
/// that is no string. A `Value` does neither: it hands each part on to the
/// serializer and its keys are strings, so the bytes always come.
/// `serde_json::from_slice` reads them back as the value they were written from,
/// where the nesting is not too deep for it and each double comes back.
#[verifier::external_body]
fn write_bytes(value: &serde_json::Value) -> (written: Result<Vec<u8>, String>)
    ensures
        written is Ok,
        written matches Ok(bytes) ==> bytes@ == json_bytes(value_view(*value)) && (reads_back(
            value_view(*value),
            127,
        ) ==> reads_as(bytes@, value_view(*value))),
{
    serde_json::to_vec(value).map_err(|e| e.to_string())
}

/// The bytes that `serde_json` writes for an object whose entries come in the given
/// order.
pub uninterp spec fn entries_bytes(entries: Seq<(Seq<char>, JsonView)>) -> Seq<u8>;

/// The keys of entries.
pub open spec fn keys_of(entries: Seq<(Seq<char>, JsonView)>) -> Seq<Seq<char>> {
    Seq::new(entries.len(), |i: int| entries[i].0)
}

/// The object that entries make.
pub open spec fn object_of(entries: Seq<(Seq<char>, JsonView)>) -> Map<Seq<char>, JsonView>
    decreases entries.len(),
{
    if entries.len() == 0 {
        Map::empty()
    } else {
        object_of(entries.drop_last()).insert(entries.last().0, entries.last().1)
    }
}

spec fn value_entries(entries: Seq<(String, serde_json::Value)>) -> Seq<(Seq<char>, JsonView)> {
    Seq::new(entries.len(), |i: int| (entries[i].0@, value_view(entries[i].1)))
}

/// `serde::Serializer::collect_map` with a compact `serde_json::Serializer`: an object
/// with the entries in the given order; an error would be given by its message. The
/// keys are strings, the values are written as they are in `write_bytes`, and the
/// bytes go to a vector, so they always come. `serde_json::from_slice` reads them
/// back as the object of the entries, where each key comes once, the nesting is not
/// too deep for it and each double comes back.
#[verifier::external_body]
fn write_entries(entries: Vec<(String, serde_json::Value)>) -> (written: Result<Vec<u8>, String>)
    requires
        keys_of(value_entries(entries@)).no_duplicates(),
    ensures
        written is Ok,
        written matches Ok(bytes) ==> bytes@ == entries_bytes(value_entries(entries@)) && (
        reads_back(JsonView::Object(object_of(value_entries(entries@))), 127) ==> reads_as(
            bytes@,
            JsonView::Object(object_of(value_entries(entries@))),
        )),
{
    let mut bytes = Vec::new();
    let mut serializer = serde_json::Serializer::new(&mut bytes);
    serde::Serializer::collect_map(&mut serializer, entries).map_err(|e| e.to_string())?;
    Ok(bytes)
}

/// The value that a `serde_json::Value` holds.
pub fn json_from_value(value: serde_json::Value) -> (json: Json)
    ensures
        json@ == value_view(value),
    decreases value_view(value),
{
    match open_value(value) {
        Node::Null => Json::Null,
        Node::Bool(b) => Json::Bool(b),
        Node::Number(n) => Json::Number(n),
        Node::Str(s) => Json::Str(s),
        Node::Array(items) => {
            let ghost all = items@;
            let mut items = items;
            let mut backward: Vec<Json> = Vec::new();
            while items.len() > 0
                invariant
                    value_view(value) == JsonView::Array(
                        Seq::new(all.len(), |i: int| value_view(all[i])),
                    ),
                    items@.len() + backward@.len() == all.len(),
                    items@ =~= all.take(items@.len() as int),
                    forall|j: int|
                        0 <= j < backward@.len() ==> (#[trigger] backward@[j])@ == value_view(
                            all[all.len() - 1 - j],
                        ),
                decreases items@.len(),
            {
                let ghost at = items@.len() - 1;
                assert(decreases_to!(value_view(value) => value_view(value)->Array_0[at]));
                if let Some(item) = items.pop() {
                    backward.push(json_from_value(item));
                }
            }
            let mut read: Vec<Json> = Vec::new();
            while backward.len() > 0
                invariant
                    backward@.len() + read@.len() == all.len(),
                    forall|j: int|
                        0 <= j < backward@.len() ==> (#[trigger] backward@[j])@ == value_view(
                            all[all.len() - 1 - j],
                        ),
                    forall|j: int| 0 <= j < read@.len() ==> (#[trigger] read@[j])@ == value_view(all[j]),
                decreases backward@.len(),
            {
                if let Some(item) = backward.pop() {
                    read.push(item);
                }
            }
            let json = Json::Array(read);
            assert(json@->Array_0 =~= value_view(value)->Array_0);
            json
        },
        Node::Object(entries) => {
            let ghost all = entries@;
            let ghost keys = entry_keys(entries@);
            let mut entries = entries;
            let mut read = JsonObject::new();
            while entries.len() > 0
                invariant
                    keys == entry_keys(all),
                    keys.no_duplicates(),
                    value_view(value) == JsonView::Object(
                        Map::new(
                            |key: Seq<char>| keys.contains(key),
                            |key: Seq<char>| value_view(all[place_of(keys, key)].1),
                        ),
                    ),
                    entries@.len() <= all.len(),
                    entries@ =~= all.take(entries@.len() as int),
                    forall|k: Seq<char>|
                        read@.contains_key(k) <==> exists|j: int|
                            entries@.len() <= j < all.len() && keys[j] == k,
                    forall|j: int|
                        entries@.len() <= j < all.len() ==> read@[#[trigger] keys[j]] == value_view(
                            all[j].1,
                        ),
                decreases entries@.len(),
            {
                let ghost at = entries@.len() - 1;
                assert(keys[at] == all[at].0@);
                assert(keys.contains(keys[at]));
                assert(place_of(keys, keys[at]) == at);
                let ghost before = read@;
                assert(value_view(value)->Object_0.contains_key(keys[at]));
                assert(decreases_to!(value_view(value) => value_view(value)->Object_0[keys[at]]));
                if let Some(entry) = entries.pop() {
                    read = read.with(entry.0.as_str(), json_from_value(entry.1));
                    assert forall|k: Seq<char>|
                        read@.contains_key(k) <==> exists|j: int|
                            at <= j < all.len() && keys[j] == k by {
                        if k == keys[at] {
                            assert(at <= at < all.len() && keys[at] == k);
                        } else if before.contains_key(k) {
                            let j = choose|j: int| at + 1 <= j < all.len() && keys[j] == k;
                            assert(at <= j < all.len() && keys[j] == k);
                        }
                    }
                }
            }
            proof {
                let goal = value_view(value)->Object_0;
                assert forall|k: Seq<char>| read@.contains_key(k) <==> goal.contains_key(k) by {
                    if goal.contains_key(k) {
                        let j = keys.index_of(k);
                        assert(0 <= j < all.len() && keys[j] == k);
                    }
                }
                assert forall|k: Seq<char>| goal.contains_key(k) implies read@[k] == goal[k] by {
                    let j = place_of(keys, k);
                    assert(keys[keys.index_of(k)] == k);
                    assert(keys[j] == k);
                }
                assert(read@ =~= goal);
            }
            Json::Object(read)
        },
    }
}

fn to_value(json: &Json) -> (value: serde_json::Value)
    ensures
        value_view(value) == json@,
    decreases json,
{
    match json {
        Json::Null => close_value(Node::Null),
        Json::Bool(b) => close_value(Node::Bool(*b)),
        Json::Number(n) => close_value(Node::Number(n.clone())),
        Json::Str(s) => close_value(Node::Str(s.clone())),
        Json::Array(items) => {
            let mut values: Vec<serde_json::Value> = Vec::new();
            let size: usize = items.len();
            for i in 0..size
                invariant
                    *json == Json::Array(*items),
                    size == items@.len(),
                    values@.len() == i,
                    forall|j: int| 0 <= j < i ==> value_view(#[trigger] values@[j]) == items@[j]@,
            {
                assert(decreases_to!(json->Array_0 => items[i as int]));
                assert(decreases_to!(*json => json->Array_0));
                values.push(to_value(&items[i]));
            }
            let node = Node::Array(values);
            assert(node_view(node)->Array_0 =~= json@->Array_0);
            close_value(node)
        },
        Json::Object(object) => {
            let mut entries: Vec<(String, serde_json::Value)> = Vec::new();
            let size: usize = object.len();
            let ghost keys = object.keys();
            for i in 0..size
                invariant
                    *json == Json::Object(*object),
                    keys == object.keys(),
                    size == keys.len(),
                    entries@.len() == i,
                    forall|j: int| 0 <= j < i ==> (#[trigger] entries@[j]).0@ == keys[j],
                    forall|j: int|
                        0 <= j < i ==> value_view((#[trigger] entries@[j]).1) == object@[keys[j]],
            {
                let value = object.value_at(i);
                assert(decreases_to!(*json => json->Object_0));
                assert(decreases_to!(json->Object_0 => *value));
                entries.push((object.key_at(i).clone(), to_value(value)));
            }
            let node = Node::Object(entries);
            proof {
                assert(entry_keys(entries@) =~= keys);
                assert(keys.no_duplicates()) by {
                    assert forall|i: int, j: int|
                        0 <= i < keys.len() && 0 <= j < keys.len() && i != j implies keys[i]
                        != keys[j] by {
                        lemma_strictly_apart(keys, i, j);
                    }
                }
                assert forall|k: Seq<char>| keys.contains(k) implies #[trigger] node_view(
                    node,
                )->Object_0[k] == object@[k] by {
                    assert(keys[keys.index_of(k)] == k);
                    assert(keys[place_of(keys, k)] == k);
                }
                assert(node_view(node)->Object_0 =~= object@);
            }
            close_value(node)
        },
    }
}

/// Reads a JSON text.
pub fn json_from_str(text: &str) -> (read: Result<Json, String>)
    ensures
        match read {
            Ok(json) => json_from_text(text@) == Ok::<JsonView, Seq<char>>(json@),
            Err(message) => json_from_text(text@) == Err::<JsonView, Seq<char>>(message@),
        },
{
    match read_text(text) {
        Ok(value) => Ok(json_from_value(value)),
        Err(message) => Err(message),
    }
}

/// Reads JSON bytes.
pub fn json_from_slice(bytes: &[u8]) -> (read: Result<Json, String>)
    ensures
        match read {
            Ok(json) => json_from_bytes(bytes@) == Ok::<JsonView, Seq<char>>(json@),
            Err(message) => json_from_bytes(bytes@) == Err::<JsonView, Seq<char>>(message@),
        },
{
    match read_bytes(bytes) {
        Ok(value) => Ok(json_from_value(value)),
        Err(message) => Err(message),
    }
}

/// The compact text of a value.
pub fn json_to_string(json: &Json) -> (text: String)
    ensures
        text@ == json_text(json@),
{
    write_text(&to_value(json))
}

/// The compact bytes of a value. Every value has them, and they read back as the
/// value, as far as [`reads_back`] goes.
pub fn json_to_vec(json: &Json) -> (written: Result<Vec<u8>, String>)
    ensures
        written is Ok,
        written matches Ok(bytes) ==> bytes@ == json_bytes(json@) && (reads_back(json@, 127)
            ==> reads_as(bytes@, json@)),
{
    write_bytes(&to_value(json))
}

/// The views of entries.
pub open spec fn entries_view(entries: Seq<(String, Json)>) -> Seq<(Seq<char>, JsonView)> {
    Seq::new(entries.len(), |i: int| (entries[i].0@, entries[i].1@))
}

/// The compact bytes of an object whose entries come in the given order. Every object
/// has them, and they read back as the object, as far as [`reads_back`] goes.
pub fn json_entries_to_vec(entries: &Vec<(String, Json)>) -> (written: Result<Vec<u8>, String>)
    requires
        keys_of(entries_view(entries@)).no_duplicates(),
    ensures
        written is Ok,
        written matches Ok(bytes) ==> bytes@ == entries_bytes(entries_view(entries@)) && (
        reads_back(JsonView::Object(object_of(entries_view(entries@))), 127) ==> reads_as(
            bytes@,
            JsonView::Object(object_of(entries_view(entries@))),
        )),
{
    let ghost views = entries_view(entries@);
    let mut values: Vec<(String, serde_json::Value)> = Vec::new();
    let size: usize = entries.len();
    for i in 0..size
        invariant
            size == entries@.len(),
            views == entries_view(entries@),
            values@.len() == i,
            forall|j: int|
                0 <= j < i ==> ((#[trigger] values@[j]).0@, value_view(values@[j].1)) == views[j],
    {
        values.push((entries[i].0.clone(), to_value(&entries[i].1)));
    }
    assert(value_entries(values@) =~= views);
    write_entries(values)
}

} // verus!

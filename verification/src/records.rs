//! Records: JSON values with a fixed set of typed fields.
//!
//! A record is written as an object, or as an array that holds the fields by
//! their place. A field that the record does not have, a field of another type
//! and a missing field are faults, and the first one found is reported. The
//! fields of an object are looked at in key order.

use vstd::prelude::*;

use crate::json::{
    ascending,
    first_key,
    is_listed,
    key_before,
    lemma_first_key_is_unique,
    no_fields,
    values_view,
    Json,
    JsonObject,
    JsonView,
    NumberView,
};
use crate::json_text::{json_text, json_to_string};
use crate::text::{decimal, decimal_text, signed_decimal, signed_text};

verus! {

/// The `Debug` form of a text.
pub uninterp spec fn quoted(text: Seq<char>) -> Seq<char>;

/// The `Debug` form of `str`: the text in quotation marks, with its escapes.
#[verifier::external_body]
fn quote(text: &str) -> (form: String)
    ensures
        form@ == quoted(text@),
{
    format!("{:?}", text)
}

/// What a value is called where another type was expected.
pub open spec fn called(value: JsonView) -> Seq<char> {
    match value {
        JsonView::Null => "null"@,
        JsonView::Bool(b) => if b {
            "boolean `true`"@
        } else {
            "boolean `false`"@
        },
        JsonView::Number(NumberView::PosInt(n)) => "integer `"@ + decimal(n as nat) + "`"@,
        JsonView::Number(NumberView::NegInt(n)) => "integer `"@ + signed_decimal(n as int) + "`"@,
        JsonView::Number(NumberView::Float(_)) => "floating point `"@ + json_text(value) + "`"@,
        JsonView::Str(text) => "string "@ + quoted(text),
        JsonView::Array(_) => "sequence"@,
        JsonView::Object(_) => "map"@,
    }
}

/// The fault of a value that is not of the expected type.
pub open spec fn type_fault(value: JsonView, expected: Seq<char>) -> Seq<char> {
    "invalid type: "@ + called(value) + ", expected "@ + expected
}

fn call(value: &Json) -> (name: String)
    ensures
        name@ == called(value@),
{
    match value {
        Json::Null => "null".to_owned(),
        Json::Bool(b) => if *b {
            "boolean `true`".to_owned()
        } else {
            "boolean `false`".to_owned()
        },
        Json::Number(number) => {
            match number.as_u64() {
                Some(n) => "integer `".to_owned().concat(decimal_text(n).as_str()).concat("`"),
                None => match number.as_i64() {
                    Some(n) => "integer `".to_owned().concat(signed_text(n).as_str()).concat("`"),
                    None => "floating point `".to_owned().concat(
                        json_to_string(value).as_str(),
                    ).concat("`"),
                },
            }
        },
        Json::Str(text) => "string ".to_owned().concat(quote(text.as_str()).as_str()),
        Json::Array(_) => "sequence".to_owned(),
        Json::Object(_) => "map".to_owned(),
    }
}

/// The fault of a value that is not of the expected type.
pub fn wrong_type(value: &Json, expected: &str) -> (fault: String)
    ensures
        fault@ == type_fault(value@, expected@),
{
    "invalid type: ".to_owned().concat(call(value).as_str()).concat(", expected ").concat(expected)
}

/// The fault of a text field.
pub open spec fn text_fault(value: JsonView) -> Option<Seq<char>> {
    match value {
        JsonView::Str(_) => None,
        _ => Some(type_fault(value, "a string"@)),
    }
}

/// The fault of a boolean field.
pub open spec fn bool_fault(value: JsonView) -> Option<Seq<char>> {
    match value {
        JsonView::Bool(_) => None,
        _ => Some(type_fault(value, "a boolean"@)),
    }
}

/// The fault of a list field.
pub open spec fn list_fault(value: JsonView) -> Option<Seq<char>> {
    match value {
        JsonView::Array(_) => None,
        _ => Some(type_fault(value, "a sequence"@)),
    }
}

/// The fault of a field that holds a non-negative integer.
pub open spec fn count_fault(value: JsonView) -> Option<Seq<char>> {
    match value {
        JsonView::Number(NumberView::PosInt(_)) => None,
        JsonView::Number(NumberView::NegInt(n)) => Some(
            "invalid value: integer `"@ + signed_decimal(n as int) + "`, expected u64"@,
        ),
        _ => Some(type_fault(value, "u64"@)),
    }
}

/// The fault of a field that may be `null`.
pub open spec fn unless_null(value: JsonView, fault: Option<Seq<char>>) -> Option<Seq<char>> {
    match value {
        JsonView::Null => None,
        _ => fault,
    }
}

/// The fault of a text field.
pub fn check_text(value: &Json) -> (fault: Option<String>)
    ensures
        fault.deep_view() == text_fault(value@),
{
    match value {
        Json::Str(_) => None,
        _ => Some(wrong_type(value, "a string")),
    }
}

/// The fault of a text field that may be `null`.
pub fn check_optional_text(value: &Json) -> (fault: Option<String>)
    ensures
        fault.deep_view() == unless_null(value@, text_fault(value@)),
{
    match value {
        Json::Null => None,
        _ => check_text(value),
    }
}

/// The fault of a boolean field that may be `null`.
pub fn check_optional_bool(value: &Json) -> (fault: Option<String>)
    ensures
        fault.deep_view() == unless_null(value@, bool_fault(value@)),
{
    match value {
        Json::Null => None,
        Json::Bool(_) => None,
        _ => Some(wrong_type(value, "a boolean")),
    }
}

/// The fault of a field that holds a non-negative integer.
pub fn check_count(value: &Json) -> (fault: Option<String>)
    ensures
        fault.deep_view() == count_fault(value@),
{
    if let Json::Number(number) = value {
        if number.as_u64().is_some() {
            return None;
        }
        if let Some(n) = number.as_i64() {
            return Some(
                "invalid value: integer `".to_owned().concat(signed_text(n).as_str()).concat(
                    "`, expected u64",
                ),
            );
        }
    }
    Some(wrong_type(value, "u64"))
}

/// The fault of a list field.
pub fn check_list(value: &Json) -> (fault: Option<String>)
    ensures
        fault.deep_view() == list_fault(value@),
{
    match value {
        Json::Array(_) => None,
        _ => Some(wrong_type(value, "a sequence")),
    }
}

/// The fault of a list field that may be `null`.
pub fn check_optional_list(value: &Json) -> (fault: Option<String>)
    ensures
        fault.deep_view() == unless_null(value@, list_fault(value@)),
{
    match value {
        Json::Null => None,
        _ => check_list(value),
    }
}

/// The view of a result without a value.
pub open spec fn unit_result(result: Result<(), String>) -> Result<(), Seq<char>> {
    match result {
        Ok(_) => Ok(()),
        Err(message) => Err(message@),
    }
}

/// A kind of record.
pub struct RecordModel {
    /// What the record is called in a fault.
    pub name: Seq<char>,
    /// The fields, in the order in which an array holds them.
    pub fields: Seq<Seq<char>>,
    /// The fields as a fault lists them.
    pub listed: Seq<char>,
    /// The fields that have to be there, in the order of the fields.
    pub required: Seq<Seq<char>>,
    /// Whether a field that the record does not have is a fault.
    pub closed: bool,
    /// The fault of a value under a field of the record.
    pub fault: spec_fn(Seq<char>, JsonView) -> Option<Seq<char>>,
}

/// The fault of an entry of an object.
pub open spec fn entry_fault(model: RecordModel, key: Seq<char>, value: JsonView) -> Option<
    Seq<char>,
> {
    if model.fields.contains(key) {
        (model.fault)(key, value)
    } else if !model.closed {
        None
    } else {
        Some("unknown field `"@ + key + "`, expected "@ + model.listed)
    }
}

/// The keys of an object under which there is a fault.
pub open spec fn faulty_keys(model: RecordModel, object: Map<Seq<char>, JsonView>) -> Set<
    Seq<char>,
> {
    object.dom().filter(|key: Seq<char>| entry_fault(model, key, object[key]) is Some)
}

/// The first of the required fields, from a place on, that is missing.
pub open spec fn first_missing(
    required: Seq<Seq<char>>,
    object: Map<Seq<char>, JsonView>,
) -> Option<Seq<char>>
    decreases required.len(),
{
    if required.len() == 0 {
        None
    } else if !object.contains_key(required[0]) {
        Some(required[0])
    } else {
        first_missing(required.skip(1), object)
    }
}

/// The fields of a record that is written as an object.
pub open spec fn object_fields(model: RecordModel, object: Map<Seq<char>, JsonView>) -> Result<
    Map<Seq<char>, JsonView>,
    Seq<char>,
> {
    if exists|key: Seq<char>| faulty_keys(model, object).contains(key) {
        let key = first_key(faulty_keys(model, object));
        Err(entry_fault(model, key, object[key])->0)
    } else {
        match first_missing(model.required, object) {
            Some(key) => Err("missing field `"@ + key + "`"@),
            None => Ok(object),
        }
    }
}

/// The entries that an array gives to the fields by their place.
pub open spec fn by_place(fields: Seq<Seq<char>>, items: Seq<JsonView>) -> Map<Seq<char>, JsonView>
    decreases items.len(),
{
    if items.len() == 0 {
        no_fields()
    } else {
        by_place(fields, items.drop_last()).insert(fields[items.len() - 1], items.last())
    }
}

/// The first fault of an array from a place on: that of an item, or a required
/// field that the array is too short for.
pub open spec fn place_fault(model: RecordModel, items: Seq<JsonView>, at: nat) -> Option<Seq<char>>
    decreases model.fields.len() - at,
{
    if at >= model.fields.len() {
        None
    } else if at < items.len() {
        match (model.fault)(model.fields[at as int], items[at as int]) {
            Some(fault) => Some(fault),
            None => place_fault(model, items, at + 1),
        }
    } else if model.required.contains(model.fields[at as int]) {
        Some(
            "invalid length "@ + decimal(at) + ", expected struct "@ + model.name + " with "@
                + decimal(model.fields.len()) + " elements"@,
        )
    } else {
        place_fault(model, items, at + 1)
    }
}

/// The fields of a record that is written as an array.
pub open spec fn array_fields(model: RecordModel, items: Seq<JsonView>) -> Result<
    Map<Seq<char>, JsonView>,
    Seq<char>,
> {
    match place_fault(model, items, 0) {
        Some(fault) => Err(fault),
        None => if items.len() > model.fields.len() {
            Err(
                "invalid length "@ + decimal(items.len()) + ", expected fewer elements in array"@,
            )
        } else {
            Ok(by_place(model.fields, items))
        },
    }
}

/// The fields of a record, or the first fault of the value.
pub open spec fn record_fields(model: RecordModel, value: JsonView) -> Result<
    Map<Seq<char>, JsonView>,
    Seq<char>,
> {
    match value {
        JsonView::Object(object) => object_fields(model, object),
        JsonView::Array(items) => array_fields(model, items),
        _ => Err(type_fault(value, "struct "@ + model.name)),
    }
}

/// A kind of record, as code that reads one needs it.
pub trait Record {
    /// The kind.
    spec fn model() -> RecordModel;

    /// What the record is called.
    fn name() -> (name: &'static str)
        ensures
            name@ == Self::model().name,
    ;

    /// The fields, in the order in which an array holds them.
    fn fields() -> (fields: Vec<&'static str>)
        ensures
            fields.deep_view() == Self::model().fields,
    ;

    /// The fields as a fault lists them.
    fn listed() -> (listed: &'static str)
        ensures
            listed@ == Self::model().listed,
    ;

    /// Whether a field that the record does not have is a fault.
    fn closed() -> (closed: bool)
        ensures
            closed == Self::model().closed,
    ;

    /// The required fields.
    fn required() -> (required: Vec<&'static str>)
        ensures
            required.deep_view() == Self::model().required,
    ;

    /// The fault of a value under a field.
    fn fault(key: &str, value: &Json) -> (fault: Option<String>)
        ensures
            Self::model().fields.contains(key@) ==> fault.deep_view() == (Self::model().fault)(
                key@,
                value@,
            ),
    ;
}

/// What a read gave is what the contract speaks of.
pub open spec fn same_fields(
    read: Result<JsonObject, String>,
    expected: Result<Map<Seq<char>, JsonView>, Seq<char>>,
) -> bool {
    match read {
        Ok(object) => expected == Ok::<Map<Seq<char>, JsonView>, Seq<char>>(object@),
        Err(fault) => expected == Err::<Map<Seq<char>, JsonView>, Seq<char>>(fault@),
    }
}

/// In an ascending list that holds a set of keys, the first one that is in the
/// set is the first key of the set.
pub proof fn lemma_first_of_list(keys: Seq<Seq<char>>, set: Set<Seq<char>>, at: int)
    requires
        ascending(keys),
        0 <= at < keys.len(),
        set.contains(keys[at]),
        forall|key: Seq<char>| #[trigger] set.contains(key) ==> keys.contains(key),
        forall|j: int| 0 <= j < at ==> !set.contains(#[trigger] keys[j]),
    ensures
        first_key(set) == keys[at],
{
    assert forall|other: Seq<char>| #[trigger]
        set.contains(other) && other != keys[at] implies key_before(keys[at], other) by {
        let place = keys.index_of(other);
        assert(keys[place] == other);
    }
    lemma_first_key_is_unique(set, keys[at]);
}

fn read_object<R: Record>(object: &JsonObject) -> (read: Result<JsonObject, String>)
    ensures
        same_fields(read, object_fields(R::model(), object@)),
{
    let fields = R::fields();
    let size: usize = object.len();
    let ghost keys = object.keys();
    let ghost model = R::model();
    let ghost faulty = faulty_keys(model, object@);
    for i in 0..size
        invariant
            size == keys.len(),
            keys == object.keys(),
            ascending(keys),
            model == R::model(),
            fields.deep_view() == model.fields,
            faulty == faulty_keys(model, object@),
            forall|key: Seq<char>| object@.contains_key(key) <==> #[trigger] keys.contains(key),
            forall|j: int| 0 <= j < i ==> !faulty.contains(#[trigger] keys[j]),
    {
        let key = object.key_at(i);
        let fault = if is_listed(&fields, key.as_str()) {
            R::fault(key.as_str(), object.value_at(i))
        } else if !R::closed() {
            None
        } else {
            Some(
                "unknown field `".to_owned().concat(key.as_str()).concat("`, expected ").concat(
                    R::listed(),
                ),
            )
        };
        assert(fault.deep_view() == entry_fault(model, key@, object@[key@]));
        if let Some(fault) = fault {
            proof {
                lemma_first_of_list(keys, faulty, i as int);
                assert(faulty_keys(model, object@).contains(key@));
            }
            return Err(fault);
        }
    }
    assert forall|key: Seq<char>| !faulty.contains(key) by {
        if faulty.contains(key) {
            assert(keys.contains(key));
            assert(keys[keys.index_of(key)] == key);
        }
    }
    let required = R::required();
    let ghost needed = required.deep_view();
    let count: usize = required.len();
    assert(needed.skip(0) =~= needed);
    for i in 0..count
        invariant
            count == required@.len(),
            needed == required.deep_view(),
            first_missing(needed, object@) == first_missing(needed.skip(i as int), object@),
            model == R::model(),
            needed == model.required,
            forall|key: Seq<char>| !faulty_keys(model, object@).contains(key),
    {
        assert(needed.skip(i as int)[0] == required@[i as int]@);
        assert(needed.skip(i as int).skip(1) =~= needed.skip(i as int + 1));
        if !object.contains_key(required[i]) {
            return Err("missing field `".to_owned().concat(required[i]).concat("`"));
        }
    }
    Ok(object.clone())
}

fn read_array<R: Record>(items: &Vec<Json>) -> (read: Result<JsonObject, String>)
    ensures
        same_fields(read, array_fields(R::model(), values_view(items@))),
{
    let ghost model = R::model();
    let ghost views = values_view(items@);
    let fields = R::fields();
    let required = R::required();
    let size: usize = fields.len();
    let given: usize = items.len();
    for i in 0..size
        invariant
            size == fields@.len(),
            given == items@.len(),
            model == R::model(),
            fields.deep_view() == model.fields,
            required.deep_view() == model.required,
            views == values_view(items@),
            place_fault(model, views, 0) == place_fault(model, views, i as nat),
    {
        let field = fields[i];
        assert(model.fields[i as int] == field@);
        if i < given {
            assert(model.fields.contains(model.fields[i as int]));
            if let Some(fault) = R::fault(field, &items[i]) {
                return Err(fault);
            }
        } else if is_listed(&required, field) {
            return Err(
                "invalid length ".to_owned().concat(decimal_text(i as u64).as_str()).concat(
                    ", expected struct ",
                ).concat(R::name()).concat(" with ").concat(
                    decimal_text(size as u64).as_str(),
                ).concat(" elements"),
            );
        }
    }
    if given > size {
        return Err(
            "invalid length ".to_owned().concat(decimal_text(given as u64).as_str()).concat(
                ", expected fewer elements in array",
            ),
        );
    }
    Ok(place_entries(&fields, items))
}

fn place_entries(fields: &Vec<&'static str>, items: &Vec<Json>) -> (object: JsonObject)
    requires
        items@.len() <= fields@.len(),
    ensures
        object@ == by_place(fields.deep_view(), values_view(items@)),
{
    let ghost names = fields.deep_view();
    let ghost views = values_view(items@);
    let mut object = JsonObject::new();
    let given: usize = items.len();
    assert(views.take(0) =~= Seq::empty());
    for i in 0..given
        invariant
            given == items@.len(),
            items@.len() <= fields@.len(),
            names == fields.deep_view(),
            views == values_view(items@),
            object@ == by_place(names, views.take(i as int)),
    {
        proof {
            let taken = views.take(i as int + 1);
            assert(taken.drop_last() =~= views.take(i as int));
            assert(taken.last() == items@[i as int]@);
            assert(names[i as int] == fields@[i as int]@);
        }
        object = object.with(fields[i], items[i].clone());
    }
    assert(views.take(given as int) =~= views);
    object
}

/// The fields of a record, or the first fault of the value.
pub fn read_record<R: Record>(value: &Json) -> (read: Result<JsonObject, String>)
    ensures
        same_fields(read, record_fields(R::model(), value@)),
{
    match value {
        Json::Object(object) => read_object::<R>(object),
        Json::Array(items) => {
            proof {
                let list = Json::Array(*items);
                assert(list@->Array_0 =~= values_view(items@));
            }
            read_array::<R>(items)
        },
        _ => Err(wrong_type(value, "struct ".to_owned().concat(R::name()).as_str())),
    }
}

/// The text of a field, where it has one.
pub open spec fn some_text(fields: Map<Seq<char>, JsonView>, key: Seq<char>) -> Option<Seq<char>> {
    if fields.contains_key(key) {
        match fields[key] {
            JsonView::Str(text) => Some(text),
            _ => None,
        }
    } else {
        None
    }
}

/// The text of a required field.
pub open spec fn the_text(fields: Map<Seq<char>, JsonView>, key: Seq<char>) -> Seq<char> {
    match some_text(fields, key) {
        Some(text) => text,
        None => Seq::empty(),
    }
}

/// The truth value of a field, where it has one.
pub open spec fn some_bool(fields: Map<Seq<char>, JsonView>, key: Seq<char>) -> Option<bool> {
    if fields.contains_key(key) {
        match fields[key] {
            JsonView::Bool(b) => Some(b),
            _ => None,
        }
    } else {
        None
    }
}

/// The list of a field, where it has one.
pub open spec fn some_list(fields: Map<Seq<char>, JsonView>, key: Seq<char>) -> Option<
    Seq<JsonView>,
> {
    if fields.contains_key(key) {
        match fields[key] {
            JsonView::Array(items) => Some(items),
            _ => None,
        }
    } else {
        None
    }
}

/// The list of a required field.
pub open spec fn the_list(fields: Map<Seq<char>, JsonView>, key: Seq<char>) -> Seq<JsonView> {
    match some_list(fields, key) {
        Some(items) => items,
        None => Seq::empty(),
    }
}

/// The non-negative integer of a required field.
pub open spec fn the_count(fields: Map<Seq<char>, JsonView>, key: Seq<char>) -> u64 {
    if fields.contains_key(key) {
        match fields[key] {
            JsonView::Number(NumberView::PosInt(n)) => n,
            _ => 0,
        }
    } else {
        0
    }
}

/// The value of a field, where there is one other than `null`.
pub open spec fn some_value(fields: Map<Seq<char>, JsonView>, key: Seq<char>) -> Option<JsonView> {
    if fields.contains_key(key) && !(fields[key] is Null) {
        Some(fields[key])
    } else {
        None
    }
}

/// The text of a field, where it has one.
pub fn optional_text(fields: &JsonObject, key: &str) -> (text: Option<String>)
    ensures
        text.deep_view() == some_text(fields@, key@),
{
    match fields.get(key) {
        Some(Json::Str(text)) => Some(text.clone()),
        _ => None,
    }
}

/// The text of a required field.
pub fn required_text(fields: &JsonObject, key: &str) -> (text: String)
    ensures
        text@ == the_text(fields@, key@),
{
    match optional_text(fields, key) {
        Some(text) => text,
        None => String::new(),
    }
}

/// The truth value of a field, where it has one.
pub fn optional_bool(fields: &JsonObject, key: &str) -> (value: Option<bool>)
    ensures
        value == some_bool(fields@, key@),
{
    match fields.get(key) {
        Some(Json::Bool(b)) => Some(*b),
        _ => None,
    }
}

/// The list of a field, where it has one.
pub fn optional_list(fields: &JsonObject, key: &str) -> (list: Option<Vec<Json>>)
    ensures
        list is Some == some_list(fields@, key@) is Some,
        list matches Some(items) ==> some_list(fields@, key@) == Some(values_view(items@)),
{
    match fields.get(key) {
        Some(Json::Array(items)) => {
            proof {
                let list = Json::Array(*items);
                assert(list@->Array_0 =~= values_view(items@));
            }
            Some(crate::json::clone_values(items))
        },
        _ => None,
    }
}

/// The list of a required field.
pub fn required_list(fields: &JsonObject, key: &str) -> (list: Vec<Json>)
    ensures
        values_view(list@) == the_list(fields@, key@),
{
    match optional_list(fields, key) {
        Some(items) => items,
        None => {
            let items: Vec<Json> = Vec::new();
            assert(values_view(items@) =~= Seq::empty());
            items
        },
    }
}

/// The non-negative integer of a required field.
pub fn required_count(fields: &JsonObject, key: &str) -> (count: u64)
    ensures
        count == the_count(fields@, key@),
{
    match fields.get(key) {
        Some(Json::Number(number)) => match number.as_u64() {
            Some(n) => n,
            None => 0,
        },
        _ => 0,
    }
}

/// The value of a field, where there is one other than `null`.
pub fn optional_value(fields: &JsonObject, key: &str) -> (value: Option<Json>)
    ensures
        value.deep_view() == some_value(fields@, key@),
{
    match fields.get(key) {
        Some(Json::Null) => None,
        Some(value) => Some(value.clone()),
        None => None,
    }
}

proof fn lemma_by_place(fields: Seq<Seq<char>>, items: Seq<JsonView>, key: Seq<char>)
    requires
        items.len() <= fields.len(),
    ensures
        by_place(fields, items).contains_key(key) <==> fields.take(items.len() as int).contains(
            key,
        ),
        by_place(fields, items).contains_key(key) ==> exists|j: int|
            0 <= j < items.len() && fields[j] == key && by_place(fields, items)[key] == items[j],
    decreases items.len(),
{
    let taken = fields.take(items.len() as int);
    if items.len() > 0 {
        let last = items.len() - 1;
        lemma_by_place(fields, items.drop_last(), key);
        let before = fields.take(last);
        assert(taken =~= before.push(fields[last]));
        if key == fields[last] {
            assert(taken[last] == key);
            assert(by_place(fields, items)[key] == items[last]);
        } else {
            if by_place(fields, items.drop_last()).contains_key(key) {
                let j = choose|j: int|
                    0 <= j < items.drop_last().len() && fields[j] == key && by_place(
                        fields,
                        items.drop_last(),
                    )[key] == items.drop_last()[j];
                assert(taken[j] == key);
                assert(by_place(fields, items)[key] == items[j]);
            }
            if taken.contains(key) {
                let j = taken.index_of(key);
                assert(before[j] == key);
            }
        }
    }
}

proof fn lemma_place_fault(model: RecordModel, items: Seq<JsonView>, from: nat, at: int)
    requires
        place_fault(model, items, from) is None,
        from <= at < model.fields.len(),
    ensures
        at < items.len() ==> (model.fault)(model.fields[at], items[at]) is None,
        at >= items.len() ==> !model.required.contains(model.fields[at]),
    decreases at - from,
{
    if from < at {
        lemma_place_fault(model, items, from + 1, at);
    }
}

proof fn lemma_none_missing(required: Seq<Seq<char>>, object: Map<Seq<char>, JsonView>)
    ensures
        first_missing(required, object) is None <==> forall|i: int|
            0 <= i < required.len() ==> object.contains_key(#[trigger] required[i]),
    decreases required.len(),
{
    if required.len() > 0 {
        lemma_none_missing(required.skip(1), object);
        if first_missing(required, object) is None {
            assert forall|i: int| 0 <= i < required.len() implies object.contains_key(
                #[trigger] required[i],
            ) by {
                if i > 0 {
                    assert(required.skip(1)[i - 1] == required[i]);
                }
            }
        }
        if forall|i: int| 0 <= i < required.len() ==> object.contains_key(#[trigger] required[i]) {
            assert(object.contains_key(required[0]));
            assert forall|i: int| 0 <= i < required.skip(1).len() implies object.contains_key(
                #[trigger] required.skip(1)[i],
            ) by {
                assert(object.contains_key(required[i + 1]));
            }
        }
    }
}

/// A record that is read has its fields without a fault and all that are
/// required, and a closed one has only its fields.
pub proof fn lemma_record_is_sound(model: RecordModel, value: JsonView)
    requires
        record_fields(model, value) is Ok,
        forall|i: int|
            0 <= i < model.required.len() ==> model.fields.contains(#[trigger] model.required[i]),
    ensures
        ({
            let fields = record_fields(model, value)->Ok_0;
            &&& forall|i: int|
                0 <= i < model.required.len() ==> fields.contains_key(#[trigger] model.required[i])
            &&& forall|key: Seq<char>|
                fields.contains_key(key) ==> (model.closed ==> model.fields.contains(key)) && (
                model.fields.contains(key) ==> (model.fault)(key, #[trigger] fields[key]) is None)
        }),
{
    let fields = record_fields(model, value)->Ok_0;
    match value {
        JsonView::Object(object) => {
            lemma_none_missing(model.required, object);
            assert forall|key: Seq<char>| fields.contains_key(key) implies (model.closed
                ==> model.fields.contains(key)) && (model.fields.contains(key) ==> (model.fault)(
                key,
                #[trigger] fields[key],
            ) is None) by {
                assert(!faulty_keys(model, object).contains(key));
            }
        },
        JsonView::Array(items) => {
            assert forall|i: int| 0 <= i < model.required.len() implies fields.contains_key(
                #[trigger] model.required[i],
            ) by {
                let key = model.required[i];
                let at = model.fields.index_of(key);
                lemma_place_fault(model, items, 0, at);
                assert(model.required.contains(model.fields[at]));
                assert(model.fields.take(items.len() as int)[at] == key);
                lemma_by_place(model.fields, items, key);
            }
            assert forall|key: Seq<char>| fields.contains_key(key) implies model.fields.contains(
                key,
            ) && (model.fault)(key, #[trigger] fields[key]) is None by {
                lemma_by_place(model.fields, items, key);
                let j = choose|j: int|
                    0 <= j < items.len() && model.fields[j] == key && fields[key] == items[j];
                lemma_place_fault(model, items, 0, j);
            }
        },
        _ => {},
    }
}

/// An object without a fault that has all required fields is read as it is.
pub proof fn lemma_record_of_object(model: RecordModel, object: Map<Seq<char>, JsonView>)
    requires
        forall|i: int|
            0 <= i < model.required.len() ==> object.contains_key(#[trigger] model.required[i]),
        forall|key: Seq<char>|
            object.contains_key(key) ==> model.fields.contains(key) && (model.fault)(
                key,
                #[trigger] object[key],
            ) is None,
    ensures
        record_fields(model, JsonView::Object(object)) == Ok::<Map<Seq<char>, JsonView>, Seq<char>>(
            object,
        ),
{
    lemma_none_missing(model.required, object);
    assert forall|key: Seq<char>| !faulty_keys(model, object).contains(key) by {
        if object.contains_key(key) {
            assert((model.fault)(key, object[key]) is None);
        }
    }
}

/// An object with a field that the record does not have is not read.
pub proof fn lemma_record_refuses(
    model: RecordModel,
    object: Map<Seq<char>, JsonView>,
    key: Seq<char>,
)
    requires
        object.contains_key(key) && model.closed && !model.fields.contains(key)
            || model.required.contains(key)
            && !object.contains_key(key),
    ensures
        record_fields(model, JsonView::Object(object)) is Err,
{
    lemma_none_missing(model.required, object);
    if object.contains_key(key) {
        assert(faulty_keys(model, object).contains(key));
    } else {
        let i = model.required.index_of(key);
        assert(!object.contains_key(model.required[i]));
    }
}

proof fn lemma_each_by_place(fields: Seq<Seq<char>>, items: Seq<JsonView>)
    requires
        items.len() <= fields.len(),
        fields.no_duplicates(),
    ensures
        forall|i: int|
            0 <= i < items.len() ==> by_place(fields, items).contains_key(#[trigger] fields[i])
                && by_place(fields, items)[fields[i]] == items[i],
        forall|i: int|
            items.len() <= i < fields.len() ==> !by_place(fields, items).contains_key(
                #[trigger] fields[i],
            ),
    decreases items.len(),
{
    if items.len() > 0 {
        lemma_each_by_place(fields, items.drop_last());
        let before = by_place(fields, items.drop_last());
        let at = items.len() - 1;
        assert forall|i: int| 0 <= i < items.len() implies by_place(fields, items).contains_key(
            #[trigger] fields[i],
        ) && by_place(fields, items)[fields[i]] == items[i] by {
            if i < at {
                assert(items.drop_last()[i] == items[i]);
                assert(fields[i] != fields[at]);
            }
        }
        assert forall|i: int| items.len() <= i < fields.len() implies !by_place(
            fields,
            items,
        ).contains_key(#[trigger] fields[i]) by {
            assert(fields[i] != fields[at]);
        }
    }
}

/// A record holds what is written: an object gives it exactly its own fields, and an
/// array gives each field, in the order of the fields, the item at its place and no
/// other. Nothing else is read as a record.
pub proof fn law_record_holds_what_is_written(
    model: RecordModel,
    object: Map<Seq<char>, JsonView>,
    items: Seq<JsonView>,
    place: int,
    text: Seq<char>,
)
    requires
        model.fields.no_duplicates(),
        0 <= place < model.fields.len(),
    ensures
        record_fields(model, JsonView::Object(object)) matches Ok(fields) ==> fields == object,
        record_fields(model, JsonView::Array(items)) matches Ok(fields) ==> {
            &&& items.len() <= model.fields.len()
            &&& place < items.len() ==> fields.contains_key(model.fields[place])
                && fields[model.fields[place]] == items[place]
            &&& place >= items.len() ==> !fields.contains_key(model.fields[place])
        },
        record_fields(model, JsonView::Str(text)) is Err,
        record_fields(model, JsonView::Null) is Err,
{
    if record_fields(model, JsonView::Array(items)) is Ok {
        lemma_each_by_place(model.fields, items);
    }
}

/// An object is read as a record exactly where it has every required field, no field
/// holds a fault, and it has no other field where the record is closed.
pub proof fn law_accepted_records(model: RecordModel, object: Map<Seq<char>, JsonView>)
    ensures
        (record_fields(model, JsonView::Object(object)) is Ok) == ({
            &&& forall|i: int|
                0 <= i < model.required.len() ==> object.contains_key(#[trigger] model.required[i])
            &&& forall|key: Seq<char>| #[trigger]
                object.contains_key(key) ==> if model.fields.contains(key) {
                    (model.fault)(key, object[key]) is None
                } else {
                    !model.closed
                }
        }),
{
    lemma_none_missing(model.required, object);
    let faulty = faulty_keys(model, object);
    if exists|key: Seq<char>| faulty.contains(key) {
        let key = choose|key: Seq<char>| faulty.contains(key);
        assert(object.contains_key(key));
        assert(entry_fault(model, key, object[key]) is Some);
    } else {
        assert forall|key: Seq<char>| #[trigger] object.contains_key(key) implies if
        model.fields.contains(key) {
            (model.fault)(key, object[key]) is None
        } else {
            !model.closed
        } by {
            assert(!faulty.contains(key));
        }
    }
}

/// The plain types of fields: a text field takes texts alone, a boolean field truth
/// values, a list field arrays and a count field integers that are not negative. One
/// that may be `null` takes that too.
pub proof fn law_field_types(value: JsonView)
    ensures
        (text_fault(value) is None) == (value is Str),
        (bool_fault(value) is None) == (value is Bool),
        (list_fault(value) is None) == (value is Array),
        (count_fault(value) is None) == (value matches JsonView::Number(NumberView::PosInt(_))),
        (unless_null(value, text_fault(value)) is None) == (value is Str || value is Null),
        (unless_null(value, bool_fault(value)) is None) == (value is Bool || value is Null),
        (unless_null(value, list_fault(value)) is None) == (value is Array || value is Null),
{
}

} // verus!

//! JSON values.
//!
//! [`Json`] holds one JSON value and [`JsonView`] is what it means: an object is
//! a finite map from keys to values. [`JsonObject`] keeps its entries in
//! ascending key order, so a walk over an object has one defined order.

use vstd::prelude::*;

use crate::text::{same_text, texts};

verus! {

/// A JSON number: a non-negative integer, a negative integer, or a double by
/// its IEEE-754 bit pattern.
pub enum NumberView {
    PosInt(u64),
    NegInt(i64),
    Float(u64),
}

/// The meaning of a JSON value.
#[verifier::ext_equal]
pub enum JsonView {
    Null,
    Bool(bool),
    Number(NumberView),
    Str(Seq<char>),
    Array(Seq<JsonView>),
    Object(Map<Seq<char>, JsonView>),
}

/// A number of `serde_json`, carried through unchanged.
#[verifier::external_type_specification]
#[verifier::external_body]
pub struct ExNumber(serde_json::Number);

/// What a `serde_json::Number` holds.
pub uninterp spec fn number_view(number: serde_json::Number) -> NumberView;

/// `serde_json::Number::clone` copies the number.
pub assume_specification[ <serde_json::Number as Clone>::clone ](
    number: &serde_json::Number,
) -> (copy: serde_json::Number)
    ensures
        number_view(copy) == number_view(*number),
;

/// `serde_json::Number::as_u64` gives a non-negative integer and nothing else.
pub assume_specification[ serde_json::Number::as_u64 ](number: &serde_json::Number) -> (value:
    Option<u64>)
    ensures
        value == match number_view(*number) {
            NumberView::PosInt(n) => Some(n),
            _ => None::<u64>,
        },
;

/// `serde_json::Number::as_i64` gives an integer in the range of `i64`. A number
/// that is kept as a negative integer is less than zero.
pub assume_specification[ serde_json::Number::as_i64 ](number: &serde_json::Number) -> (value:
    Option<i64>)
    ensures
        match number_view(*number) {
            NumberView::PosInt(n) => value == if n <= i64::MAX {
                Some(n as i64)
            } else {
                None
            },
            NumberView::NegInt(n) => value == Some(n) && n < 0,
            NumberView::Float(_) => value == None::<i64>,
        },
;

/// `serde_json::Number::from` on a `u64` gives that integer.
#[verifier::external_body]
fn number_from_u64(n: u64) -> (number: serde_json::Number)
    ensures
        number_view(number) == NumberView::PosInt(n),
{
    serde_json::Number::from(n)
}

/// The bit pattern of the double that is a small integer.
pub open spec fn small_pattern(n: u64) -> u64 {
    if n == 0 {
        0
    } else if n == 1 {
        0x3FF0_0000_0000_0000
    } else {
        0x4000_0000_0000_0000
    }
}

/// `serde_json::Number::as_f64`, its bit pattern, and `serde_json::Number::from_f64`
/// of it: the number as a double. A double stays as it is, and the integers up to
/// two become the doubles of that value. Which double another integer becomes is
/// left unsaid.
#[verifier::external_body]
pub(crate) fn as_double(number: &serde_json::Number) -> (double: Option<(u64, serde_json::Number)>)
    ensures
        double is Some,
        double matches Some((bits, float)) ==> number_view(float) == NumberView::Float(bits),
        match number_view(*number) {
            NumberView::Float(bits) => double matches Some((pattern, _)) && pattern == bits,
            NumberView::PosInt(n) => double matches Some((pattern, _)) && (n
                <= 2 ==> pattern == small_pattern(n)),
            NumberView::NegInt(_) => double is Some,
        },
{
    let value = number.as_f64()?;
    Some((value.to_bits(), serde_json::Number::from_f64(value)?))
}

/// One JSON value.
#[derive(Debug, PartialEq)]
pub enum Json {
    Null,
    Bool(bool),
    Number(serde_json::Number),
    Str(String),
    Array(Vec<Json>),
    Object(JsonObject),
}

/// A JSON object, with its entries in ascending key order.
#[derive(Debug, PartialEq)]
pub struct JsonObject {
    entries: Vec<(String, Json)>,
}

/// `left` comes before `right`: at the first place where they differ its
/// character is smaller, or it ends there.
pub open spec fn splits_before(left: Seq<char>, right: Seq<char>, at: int) -> bool {
    &&& 0 <= at <= left.len()
    &&& at < right.len()
    &&& forall|j: int| 0 <= j < at ==> left[j] == right[j]
    &&& at == left.len() || left[at] < right[at]
}

/// The order of object keys.
pub open spec fn key_before(left: Seq<char>, right: Seq<char>) -> bool {
    exists|at: int| splits_before(left, right, at)
}

/// The keys are strictly ascending.
pub open spec fn ascending(keys: Seq<Seq<char>>) -> bool {
    forall|i: int, j: int| 0 <= i < j < keys.len() ==> key_before(#[trigger] keys[i], #[trigger] keys[j])
}

/// `key` is the first key of the set.
pub open spec fn is_first_key(keys: Set<Seq<char>>, key: Seq<char>) -> bool {
    &&& keys.contains(key)
    &&& forall|other: Seq<char>| #[trigger]
        keys.contains(other) && other != key ==> key_before(key, other)
}

/// The first key of a set of keys.
pub open spec fn first_key(keys: Set<Seq<char>>) -> Seq<char> {
    choose|key: Seq<char>| is_first_key(keys, key)
}

/// No key comes before itself or before a key that comes before it.
pub proof fn lemma_key_order_is_strict(left: Seq<char>, right: Seq<char>)
    requires
        key_before(left, right),
    ensures
        left != right,
        !key_before(right, left),
{
    let at = choose|at: int| splits_before(left, right, at);
    if key_before(right, left) {
        let back = choose|at: int| splits_before(right, left, at);
        if back < at {
            assert(left[back] == right[back]);
        } else if at < back {
            assert(right[at] == left[at]);
        }
    }
}

/// The key order is transitive.
pub proof fn lemma_key_order_is_transitive(first: Seq<char>, second: Seq<char>, third: Seq<char>)
    requires
        key_before(first, second),
        key_before(second, third),
    ensures
        key_before(first, third),
{
    let one = choose|at: int| splits_before(first, second, at);
    let two = choose|at: int| splits_before(second, third, at);
    let at = if one < two {
        one
    } else {
        two
    };
    assert(splits_before(first, third, at));
}

/// Two different keys stand in one order or the other.
pub proof fn lemma_key_order_is_total(left: Seq<char>, right: Seq<char>)
    ensures
        left == right || key_before(left, right) || key_before(right, left),
{
    lemma_key_order_is_total_from(left, right, 0);
}

proof fn lemma_key_order_is_total_from(left: Seq<char>, right: Seq<char>, at: int)
    requires
        0 <= at <= left.len(),
        at <= right.len(),
        forall|j: int| 0 <= j < at ==> left[j] == right[j],
    ensures
        left == right || key_before(left, right) || key_before(right, left),
    decreases left.len() - at,
{
    if at == left.len() && at == right.len() {
        assert(left =~= right);
    } else if at == left.len() {
        assert(splits_before(left, right, at));
    } else if at == right.len() {
        assert(splits_before(right, left, at));
    } else if left[at] == right[at] {
        lemma_key_order_is_total_from(left, right, at + 1);
    } else if left[at] < right[at] {
        assert(splits_before(left, right, at));
    } else {
        assert(splits_before(right, left, at));
    }
}

/// A set of keys has at most one first key.
pub proof fn lemma_first_key_is_unique(keys: Set<Seq<char>>, key: Seq<char>)
    requires
        is_first_key(keys, key),
    ensures
        first_key(keys) == key,
{
    let other = first_key(keys);
    if other != key {
        lemma_key_order_is_strict(key, other);
    }
}

/// A finite set of keys that is not empty has a first key.
pub proof fn lemma_some_first_key(keys: Set<Seq<char>>)
    requires
        keys.finite(),
        exists|key: Seq<char>| keys.contains(key),
    ensures
        is_first_key(keys, first_key(keys)),
    decreases keys.len(),
{
    let some = choose|key: Seq<char>| keys.contains(key);
    let rest = keys.remove(some);
    if exists|key: Seq<char>| rest.contains(key) {
        lemma_some_first_key(rest);
        let other = first_key(rest);
        lemma_key_order_is_total(some, other);
        if key_before(some, other) {
            assert forall|key: Seq<char>| #[trigger] keys.contains(key) && key != some implies key_before(
                some,
                key,
            ) by {
                assert(rest.contains(key));
                if key != other {
                    lemma_key_order_is_transitive(some, other, key);
                }
            }
            assert(is_first_key(keys, some));
        } else {
            assert forall|key: Seq<char>| #[trigger] keys.contains(key) && key != other implies key_before(
                other,
                key,
            ) by {
                if key != some {
                    assert(rest.contains(key));
                }
            }
            assert(is_first_key(keys, other));
        }
    } else {
        assert forall|key: Seq<char>| #[trigger] keys.contains(key) implies key == some by {
            assert(!rest.contains(key));
        }
        assert(is_first_key(keys, some));
    }
}

/// How two keys stand to each other.
enum KeyOrder {
    Before,
    Same,
    After,
}

fn order_keys(left: &str, right: &str) -> (order: KeyOrder)
    ensures
        match order {
            KeyOrder::Before => key_before(left@, right@),
            KeyOrder::Same => left@ == right@,
            KeyOrder::After => key_before(right@, left@),
        },
{
    let left_chars = crate::text::characters(left);
    let right_chars = crate::text::characters(right);
    let mut at: usize = 0;
    while at < left_chars.len() && at < right_chars.len()
        invariant
            left_chars@ == left@,
            right_chars@ == right@,
            at <= left@.len(),
            at <= right@.len(),
            forall|j: int| 0 <= j < at ==> left@[j] == right@[j],
        decreases left@.len() - at,
    {
        if left_chars[at] < right_chars[at] {
            assert(splits_before(left@, right@, at as int));
            return KeyOrder::Before;
        }
        if right_chars[at] < left_chars[at] {
            assert(splits_before(right@, left@, at as int));
            return KeyOrder::After;
        }
        at = at + 1;
    }
    if at < right_chars.len() {
        assert(splits_before(left@, right@, at as int));
        KeyOrder::Before
    } else if at < left_chars.len() {
        assert(splits_before(right@, left@, at as int));
        KeyOrder::After
    } else {
        assert(left@ =~= right@);
        KeyOrder::Same
    }
}

/// The keys of an entry list.
pub open spec fn entry_keys<V>(entries: Seq<(String, V)>) -> Seq<Seq<char>> {
    Seq::new(entries.len(), |i: int| entries[i].0@)
}

/// The place of a key in a list of keys.
pub open spec fn place_of(keys: Seq<Seq<char>>, key: Seq<char>) -> int {
    choose|i: int| 0 <= i < keys.len() && keys[i] == key
}

impl Json {
    /// The meaning of the value.
    pub open spec fn view(&self) -> JsonView
        decreases self,
    {
        match self {
            Json::Null => JsonView::Null,
            Json::Bool(b) => JsonView::Bool(*b),
            Json::Number(n) => JsonView::Number(number_view(*n)),
            Json::Str(s) => JsonView::Str(s@),
            Json::Array(items) => JsonView::Array(
                Seq::new(
                    items@.len(),
                    |i: int|
                        if 0 <= i < items@.len() {
                            items@[i].view()
                        } else {
                            JsonView::Null
                        },
                ),
            ),
            Json::Object(object) => JsonView::Object(object.view()),
        }
    }
}

impl DeepView for Json {
    type V = JsonView;

    open spec fn deep_view(&self) -> JsonView {
        self.view()
    }
}

/// The meanings of a list of values.
pub open spec fn values_view(items: Seq<Json>) -> Seq<JsonView> {
    Seq::new(items.len(), |i: int| items[i]@)
}

impl JsonObject {
    /// The entries as a map.
    pub closed spec fn view(&self) -> Map<Seq<char>, JsonView>
        decreases self,
    {
        let entries = self.entries@;
        Map::new(
            |key: Seq<char>| entry_keys(entries).contains(key),
            |key: Seq<char>|
                {
                    let i = place_of(entry_keys(entries), key);
                    if 0 <= i < entries.len() {
                        entries[i].1.view()
                    } else {
                        JsonView::Null
                    }
                },
        )
    }

    /// The keys in the order in which the entries stand.
    pub closed spec fn keys(&self) -> Seq<Seq<char>> {
        entry_keys(self.entries@)
    }

    #[verifier::type_invariant]
    closed spec fn in_order(&self) -> bool {
        ascending(entry_keys(self.entries@))
    }

    /// The object without entries.
    pub fn new() -> (object: JsonObject)
        ensures
            object@ == no_fields(),
    {
        let object = JsonObject { entries: Vec::new() };
        assert(object@ =~= Map::<Seq<char>, JsonView>::empty());
        object
    }
}

/// A key of an ascending list stands at one place only.
proof fn lemma_place_is_unique(keys: Seq<Seq<char>>, at: int)
    requires
        ascending(keys),
        0 <= at < keys.len(),
    ensures
        place_of(keys, keys[at]) == at,
{
    let other = place_of(keys, keys[at]);
    if other < at {
        lemma_key_order_is_strict(keys[other], keys[at]);
    } else if at < other {
        lemma_key_order_is_strict(keys[at], keys[other]);
    }
}

/// The map of an object agrees with its entries.
proof fn lemma_object_entries(object: &JsonObject)
    requires
        ascending(object.keys()),
    ensures
        forall|key: Seq<char>| object@.contains_key(key) <==> object.keys().contains(key),
        forall|i: int|
            0 <= i < object.entries@.len() ==> object@.contains_key(#[trigger] object.keys()[i])
                && object@[object.keys()[i]] == object.entries@[i].1@,
{
    assert forall|i: int| 0 <= i < object.entries@.len() implies object@.contains_key(
        #[trigger] object.keys()[i],
    ) && object@[object.keys()[i]] == object.entries@[i].1@ by {
        lemma_place_is_unique(object.keys(), i);
        assert(object.keys().contains(object.keys()[i]));
    }
}

impl JsonObject {
    /// The number of entries. Every entry has one place in the key order.
    pub fn len(&self) -> (size: usize)
        ensures
            size == self.keys().len(),
            size == self@.len(),
            self@.dom().finite(),
            ascending(self.keys()),
            forall|key: Seq<char>| self@.contains_key(key) <==> #[trigger] self.keys().contains(key),
    {
        proof {
            use_type_invariant(self);
            lemma_object_entries(self);
            let keys = self.keys();
            assert(keys.no_duplicates()) by {
                assert forall|i: int, j: int| 0 <= i < keys.len() && 0 <= j < keys.len() && i
                    != j implies keys[i] != keys[j] by {
                    if i < j {
                        lemma_key_order_is_strict(keys[i], keys[j]);
                    } else {
                        lemma_key_order_is_strict(keys[j], keys[i]);
                    }
                }
            }
            keys.unique_seq_to_set();
            assert(self@.dom() =~= keys.to_set());
        }
        self.entries.len()
    }

    /// The key at a place in the key order.
    pub fn key_at(&self, at: usize) -> (key: &String)
        requires
            at < self.keys().len(),
        ensures
            key@ == self.keys()[at as int],
            self@.contains_key(key@),
    {
        proof {
            use_type_invariant(self);
            lemma_object_entries(self);
            assert(self.keys().contains(self.keys()[at as int]));
        }
        &self.entries[at].0
    }

    /// The value at a place in the key order.
    pub fn value_at(&self, at: usize) -> (value: &Json)
        requires
            at < self.keys().len(),
        ensures
            value@ == self@[self.keys()[at as int]],
            decreases_to!(*self => *value),
    {
        proof {
            use_type_invariant(self);
            lemma_object_entries(self);
            assert(self@.contains_key(self.keys()[at as int]));
            assert(decreases_to!(self.entries => self.entries[at as int]));
        }
        &self.entries[at].1
    }

    /// The first place whose key does not come before `key`, and whether it
    /// holds that key.
    fn locate(&self, key: &str) -> (place: (usize, bool))
        ensures
            place.0 <= self.keys().len(),
            forall|i: int| 0 <= i < place.0 ==> key_before(#[trigger] self.keys()[i], key@),
            forall|i: int|
                place.0 <= i < self.keys().len() && !(place.1 && i == place.0) ==> key_before(
                    key@,
                    #[trigger] self.keys()[i],
                ),
            place.1 ==> place.0 < self.keys().len() && self.keys()[place.0 as int] == key@,
            place.1 == self@.contains_key(key@),
    {
        proof {
            use_type_invariant(self);
            lemma_object_entries(self);
        }
        let ghost keys = self.keys();
        let size: usize = self.entries.len();
        let mut low: usize = 0;
        let mut high: usize = size;
        while low < high
            invariant
                size == keys.len(),
                keys == self.keys(),
                size == self.entries@.len(),
                low <= high <= size,
                ascending(keys),
                forall|key: Seq<char>| self@.contains_key(key) <==> keys.contains(key),
                forall|i: int| 0 <= i < low ==> key_before(#[trigger] keys[i], key@),
                forall|i: int| high <= i < size ==> key_before(key@, #[trigger] keys[i]),
            decreases high - low,
        {
            let middle: usize = low + (high - low) / 2;
            assert(keys[middle as int] == self.entries@[middle as int].0@);
            match order_keys(self.entries[middle].0.as_str(), key) {
                KeyOrder::Before => {
                    assert forall|i: int| 0 <= i < middle + 1 implies key_before(
                        #[trigger] keys[i],
                        key@,
                    ) by {
                        if i < middle {
                            lemma_key_order_is_transitive(keys[i], keys[middle as int], key@);
                        }
                    }
                    low = middle + 1;
                },
                KeyOrder::Same => {
                    assert(keys.contains(keys[middle as int]));
                    return (middle, true);
                },
                KeyOrder::After => {
                    assert forall|i: int| middle <= i < size implies key_before(
                        key@,
                        #[trigger] keys[i],
                    ) by {
                        if middle < i {
                            lemma_key_order_is_transitive(key@, keys[middle as int], keys[i]);
                        }
                    }
                    high = middle;
                },
            }
        }
        proof {
            lemma_absent(keys, key@, low as int);
        }
        (low, false)
    }

    /// The value under a key.
    pub fn get(&self, key: &str) -> (value: Option<&Json>)
        ensures
            match value {
                Some(found) => self@.contains_key(key@) && found@ == self@[key@],
                None => !self@.contains_key(key@),
            },
    {
        let place = self.locate(key);
        if place.1 {
            proof {
                use_type_invariant(self);
                lemma_object_entries(self);
                assert(self@[self.keys()[place.0 as int]] == self.entries@[place.0 as int].1@);
            }
            Some(&self.entries[place.0].1)
        } else {
            None
        }
    }

    /// Whether a key is there.
    pub fn contains_key(&self, key: &str) -> (found: bool)
        ensures
            found == self@.contains_key(key@),
    {
        self.locate(key).1
    }

    /// The object with `value` under `key`, in place of what stood there.
    pub fn with(self, key: &str, value: Json) -> (object: JsonObject)
        ensures
            object@ == self@.insert(key@, value@),
    {
        let ghost whole = self@;
        let base = self.without(key);
        let ghost before = base;
        let place = base.locate(key);
        proof {
            use_type_invariant(&base);
            lemma_object_entries(&base);
        }
        let ghost keys = base.keys();
        let at: usize = place.0;
        let ghost new_value = value@;
        let mut entries = base.entries;
        entries.insert(at, (key.to_owned(), value));
        let ghost after = entry_keys(entries@);
        assert(after =~= keys.insert(at as int, key@));
        proof {
            lemma_insert_keeps_order(keys, at as int, key@);
        }
        let object = JsonObject { entries };
        proof {
            lemma_object_entries(&object);
            assert forall|k: Seq<char>| object@.contains_key(k) <==> before@.insert(
                key@,
                new_value,
            ).contains_key(k) by {
                if object@.contains_key(k) && k != key@ {
                    let i = after.index_of(k);
                    assert(keys.contains(keys[if i > at { i - 1 } else { i }]));
                }
                if before@.contains_key(k) {
                    let i = keys.index_of(k);
                    assert(after.contains(after[if i >= at { i + 1 } else { i }]));
                }
                assert(after.contains(after[at as int]));
            }
            assert forall|k: Seq<char>| object@.contains_key(k) implies object@[k] == before@.insert(
                key@,
                new_value,
            )[k] by {
                let i = after.index_of(k);
                assert(object.keys()[i] == k);
                if i != at {
                    let from = if i > at {
                        i - 1
                    } else {
                        i
                    };
                    lemma_strictly_apart(after, i, at as int);
                    assert(before.keys()[from] == k);
                    assert(before@[before.keys()[from]] == before.entries@[from].1@);
                    assert(object.entries@[i] == before.entries@[from]);
                }
            }
            assert(object@ =~= before@.insert(key@, new_value));
            assert(object@ =~= whole.insert(key@, new_value));
        }
        object
    }

    /// The object without the entry under `key`.
    pub fn without(self, key: &str) -> (object: JsonObject)
        ensures
            object@ == self@.remove(key@),
    {
        let place = self.locate(key);
        proof {
            use_type_invariant(&self);
            lemma_object_entries(&self);
        }
        if !place.1 {
            assert(self@.remove(key@) =~= self@);
            return self;
        }
        let ghost before = self;
        let ghost keys = self.keys();
        let at: usize = place.0;
        let mut entries = self.entries;
        entries.remove(at);
        let ghost after = entry_keys(entries@);
        assert forall|i: int, j: int| 0 <= i < j < after.len() implies key_before(
            #[trigger] after[i],
            #[trigger] after[j],
        ) by {
            let from = if i >= at {
                i + 1
            } else {
                i
            };
            let to = if j >= at {
                j + 1
            } else {
                j
            };
            assert(after[i] == keys[from] && after[j] == keys[to]);
        }
        let object = JsonObject { entries };
        proof {
            lemma_object_entries(&object);
            assert(object.keys() == after);
            assert forall|k: Seq<char>| object@.contains_key(k) <==> before@.remove(
                key@,
            ).contains_key(k) by {
                if object@.contains_key(k) {
                    let i = after.index_of(k);
                    let from = if i >= at {
                        i + 1
                    } else {
                        i
                    };
                    assert(keys[from] == k);
                    assert(keys.contains(k));
                    lemma_strictly_apart(keys, from, at as int);
                }
                if before@.contains_key(k) && k != key@ {
                    let i = keys.index_of(k);
                    let to = if i >= at {
                        i - 1
                    } else {
                        i
                    };
                    assert(after[to] == k);
                    assert(after.contains(k));
                }
            }
            assert forall|k: Seq<char>| object@.contains_key(k) implies object@[k]
                == before@.remove(key@)[k] by {
                let i = after.index_of(k);
                assert(object.keys()[i] == k);
                let from = if i >= at {
                    i + 1
                } else {
                    i
                };
                assert(before.keys()[from] == k);
                assert(before@[before.keys()[from]] == before.entries@[from].1@);
                assert(object.entries@[i] == before.entries@[from]);
            }
            assert(object@ =~= before@.remove(key@));
        }
        object
    }
}

/// An ascending list stays ascending when a key enters at its place.
proof fn lemma_insert_keeps_order(keys: Seq<Seq<char>>, at: int, key: Seq<char>)
    requires
        ascending(keys),
        0 <= at <= keys.len(),
        forall|i: int| 0 <= i < at ==> key_before(#[trigger] keys[i], key),
        forall|i: int| at <= i < keys.len() ==> key_before(key, #[trigger] keys[i]),
    ensures
        ascending(keys.insert(at, key)),
{
    let after = keys.insert(at, key);
    assert forall|i: int, j: int| 0 <= i < j < after.len() implies key_before(
        #[trigger] after[i],
        #[trigger] after[j],
    ) by {
        if i != at {
            assert(after[i] == keys[if i > at { i - 1 } else { i }]);
        }
        if j != at {
            assert(after[j] == keys[if j > at { j - 1 } else { j }]);
        }
    }
}

/// Two places of an ascending list hold different keys.
pub proof fn lemma_strictly_apart(keys: Seq<Seq<char>>, i: int, j: int)
    requires
        ascending(keys),
        0 <= i < keys.len(),
        0 <= j < keys.len(),
        i != j,
    ensures
        keys[i] != keys[j],
{
    if i < j {
        lemma_key_order_is_strict(keys[i], keys[j]);
    } else {
        lemma_key_order_is_strict(keys[j], keys[i]);
    }
}

proof fn lemma_absent(keys: Seq<Seq<char>>, key: Seq<char>, at: int)
    requires
        0 <= at <= keys.len(),
        forall|i: int| 0 <= i < at ==> key_before(#[trigger] keys[i], key),
        forall|i: int| at <= i < keys.len() ==> key_before(key, #[trigger] keys[i]),
    ensures
        !keys.contains(key),
{
    if keys.contains(key) {
        let i = keys.index_of(key);
        lemma_key_order_is_strict(key, key);
    }
}

impl DeepView for JsonObject {
    type V = Map<Seq<char>, JsonView>;

    open spec fn deep_view(&self) -> Map<Seq<char>, JsonView> {
        self.view()
    }
}

impl Clone for Json {
    fn clone(&self) -> (copy: Json)
        ensures
            copy@ == self@,
        decreases self,
    {
        match self {
            Json::Null => Json::Null,
            Json::Bool(b) => Json::Bool(*b),
            Json::Number(n) => Json::Number(n.clone()),
            Json::Str(s) => Json::Str(s.clone()),
            Json::Array(items) => {
                let mut copies: Vec<Json> = Vec::new();
                let size: usize = items.len();
                for i in 0..size
                    invariant
                        *self == Json::Array(*items),
                        size == items@.len(),
                        copies@.len() == i,
                        forall|j: int| 0 <= j < i ==> (#[trigger] copies@[j])@ == items@[j]@,
                {
                    assert(decreases_to!(self->Array_0 => items[i as int]));
                    assert(decreases_to!(*self => self->Array_0));
                    copies.push((&items[i]).clone());
                }
                let copy = Json::Array(copies);
                assert(copy@->Array_0 =~= self@->Array_0);
                copy
            },
            Json::Object(object) => Json::Object((&*object).clone()),
        }
    }
}

impl Clone for JsonObject {
    fn clone(&self) -> (copy: JsonObject)
        ensures
            copy@ == self@,
        decreases self,
    {
        proof {
            use_type_invariant(self);
        }
        let mut entries: Vec<(String, Json)> = Vec::new();
        let size: usize = self.entries.len();
        for i in 0..size
            invariant
                size == self.entries@.len(),
                entries@.len() == i,
                forall|j: int| 0 <= j < i ==> #[trigger] entries@[j].0 == self.entries@[j].0,
                forall|j: int| 0 <= j < i ==> (#[trigger] entries@[j].1)@ == self.entries@[j].1@,
        {
            assert(decreases_to!(*self => self.entries@[i as int].1));
            entries.push((self.entries[i].0.clone(), (&self.entries[i].1).clone()));
        }
        assert(entry_keys(entries@) =~= entry_keys(self.entries@));
        let copy = JsonObject { entries };
        proof {
            lemma_object_entries(self);
            lemma_object_entries(&copy);
            assert forall|k: Seq<char>| copy@.contains_key(k) implies copy@[k] == self@[k] by {
                let i = copy.keys().index_of(k);
                assert(copy.keys()[i] == k && self.keys()[i] == k);
                assert(copy@[copy.keys()[i]] == copy.entries@[i].1@);
                assert(self@[self.keys()[i]] == self.entries@[i].1@);
            }
            assert(copy@ =~= self@);
        }
        copy
    }
}

/// Copies a list of values.
pub fn clone_values(items: &Vec<Json>) -> (copies: Vec<Json>)
    ensures
        values_view(copies@) == values_view(items@),
{
    let mut copies: Vec<Json> = Vec::new();
    let size: usize = items.len();
    for i in 0..size
        invariant
            size == items@.len(),
            copies@.len() == i,
            forall|j: int| 0 <= j < i ==> (#[trigger] copies@[j])@ == items@[j]@,
    {
        copies.push(items[i].clone());
    }
    assert(values_view(copies@) =~= values_view(items@));
    copies
}

/// The value under a key of an object.
pub open spec fn field(value: JsonView, key: Seq<char>) -> Option<JsonView> {
    match value {
        JsonView::Object(object) => if object.contains_key(key) {
            Some(object[key])
        } else {
            None
        },
        _ => None,
    }
}

/// The text of a string value.
pub open spec fn as_text(value: JsonView) -> Option<Seq<char>> {
    match value {
        JsonView::Str(text) => Some(text),
        _ => None,
    }
}

/// The text under a key of an object.
pub open spec fn text_field(value: JsonView, key: Seq<char>) -> Option<Seq<char>> {
    match field(value, key) {
        Some(found) => as_text(found),
        None => None,
    }
}

/// A non-negative integer value.
pub open spec fn unsigned(n: nat) -> JsonView {
    JsonView::Number(NumberView::PosInt(n as u64))
}

/// The object without fields.
pub open spec fn no_fields() -> Map<Seq<char>, JsonView> {
    Map::empty()
}

impl Json {
    /// The text of a string value.
    pub fn as_str(&self) -> (text: Option<&str>)
        ensures
            text.deep_view() == as_text(self@),
    {
        match self {
            Json::Str(text) => Some(text.as_str()),
            _ => None,
        }
    }

    /// The value under a key of an object.
    pub fn get(&self, key: &str) -> (value: Option<&Json>)
        ensures
            value.deep_view() == field(self@, key@),
    {
        match self {
            Json::Object(object) => object.get(key),
            _ => None,
        }
    }

    /// The text under a key of an object.
    pub fn get_str(&self, key: &str) -> (text: Option<&str>)
        ensures
            text.deep_view() == text_field(self@, key@),
    {
        match self.get(key) {
            Some(found) => found.as_str(),
            None => None,
        }
    }

    /// A non-negative integer value.
    pub fn unsigned(n: u64) -> (value: Json)
        ensures
            value@ == JsonView::Number(NumberView::PosInt(n)),
    {
        Json::Number(number_from_u64(n))
    }

    /// A string value.
    pub fn text(text: &str) -> (value: Json)
        ensures
            value@ == JsonView::Str(text@),
    {
        Json::Str(text.to_owned())
    }
}

/// The keys of an object that are not on the list.
pub open spec fn unknown_keys(object: Map<Seq<char>, JsonView>, known: Seq<Seq<char>>) -> Set<
    Seq<char>,
> {
    object.dom().filter(|key: Seq<char>| !known.contains(key))
}

/// The first key of an object that is not on the list.
pub open spec fn first_unknown(
    object: Map<Seq<char>, JsonView>,
    known: Seq<Seq<char>>,
) -> Option<Seq<char>> {
    if exists|key: Seq<char>| unknown_keys(object, known).contains(key) {
        Some(first_key(unknown_keys(object, known)))
    } else {
        None
    }
}

impl JsonObject {
    /// The first key that is not on the list.
    pub fn unknown_key(&self, known: &Vec<&str>) -> (key: Option<&String>)
        ensures
            key.deep_view() == first_unknown(self@, known.deep_view()),
    {
        let ghost list = known.deep_view();
        let size: usize = self.len();
        let ghost keys = self.keys();
        for i in 0..size
            invariant
                size == keys.len(),
                keys == self.keys(),
                ascending(keys),
                list == known.deep_view(),
                forall|key: Seq<char>| self@.contains_key(key) <==> #[trigger] keys.contains(key),
                forall|j: int| 0 <= j < i ==> list.contains(#[trigger] keys[j]),
        {
            let key = self.key_at(i);
            let found = is_listed(known, key.as_str());
            if !found {
                proof {
                    let unknown = unknown_keys(self@, list);
                    assert(unknown.contains(key@));
                    assert forall|other: Seq<char>| #[trigger]
                        unknown.contains(other) && other != key@ implies key_before(
                        key@,
                        other,
                    ) by {
                        let place = keys.index_of(other);
                        assert(keys[place] == other);
                    }
                    lemma_first_key_is_unique(unknown, key@);
                }
                return Some(key);
            }
        }
        proof {
            assert forall|key: Seq<char>| !unknown_keys(self@, list).contains(key) by {
                if self@.contains_key(key) {
                    assert(keys[keys.index_of(key)] == key);
                }
            }
        }
        None
    }
}

impl JsonObject {
    /// The keys that are not on the list, in key order.
    pub fn other_keys(&self, known: &Vec<&str>) -> (others: Vec<String>)
        ensures
            ascending(texts(others@)),
            forall|key: Seq<char>| #[trigger]
                texts(others@).contains(key) <==> unknown_keys(
                    self@,
                    known.deep_view(),
                ).contains(key),
    {
        let ghost list = known.deep_view();
        let mut others: Vec<String> = Vec::new();
        let size: usize = self.len();
        let ghost keys = self.keys();
        for i in 0..size
            invariant
                size == keys.len(),
                keys == self.keys(),
                ascending(keys),
                list == known.deep_view(),
                forall|key: Seq<char>| self@.contains_key(key) <==> #[trigger] keys.contains(key),
                ascending(texts(others@)),
                forall|key: Seq<char>| #[trigger]
                    texts(others@).contains(key) <==> exists|j: int|
                        0 <= j < i && keys[j] == key && !list.contains(key),
        {
            let key = self.key_at(i);
            let ghost before = texts(others@);
            if !is_listed(known, key.as_str()) {
                assert forall|j: int| 0 <= j < before.len() implies key_before(
                    #[trigger] before[j],
                    key@,
                ) by {
                    assert(before.contains(before[j]));
                    let place = choose|place: int|
                        0 <= place < i && keys[place] == before[j] && !list.contains(before[j]);
                    assert(key_before(keys[place], keys[i as int]));
                }
                others.push(key.clone());
                assert(texts(others@) =~= before.push(key@));
            }
            assert forall|k: Seq<char>| #[trigger]
                texts(others@).contains(k) <==> exists|j: int|
                    0 <= j < i + 1 && keys[j] == k && !list.contains(k) by {
                let now = texts(others@);
                if before.contains(k) {
                    assert(now[before.index_of(k)] == k);
                    let j = choose|j: int| 0 <= j < i && keys[j] == k && !list.contains(k);
                    assert(0 <= j < i + 1 && keys[j] == k);
                }
                if now.contains(k) && !before.contains(k) {
                    let at = now.index_of(k);
                    assert(at == before.len());
                    assert(keys[i as int] == k);
                }
                if exists|j: int| 0 <= j < i + 1 && keys[j] == k && !list.contains(k) {
                    let j = choose|j: int| 0 <= j < i + 1 && keys[j] == k && !list.contains(k);
                    if j < i {
                        assert(before.contains(k));
                    } else {
                        assert(now[before.len() as int] == k);
                    }
                }
            }
        }
        assert forall|key: Seq<char>| #[trigger]
            texts(others@).contains(key) <==> unknown_keys(self@, list).contains(key) by {
            if unknown_keys(self@, list).contains(key) {
                let j = keys.index_of(key);
                assert(0 <= j < size && keys[j] == key);
            }
        }
        others
    }
}

/// True when the text is on the list.
pub fn is_listed(list: &Vec<&str>, text: &str) -> (found: bool)
    ensures
        found == list.deep_view().contains(text@),
{
    let ghost views = list.deep_view();
    let size: usize = list.len();
    for i in 0..size
        invariant
            size == list@.len(),
            views == list.deep_view(),
            forall|j: int| 0 <= j < i ==> views[j] != text@,
    {
        if same_text(list[i], text) {
            assert(views[i as int] == text@);
            return true;
        }
    }
    false
}

/// Object keys are ordered like words: behind a common start the smaller character comes
/// first, and a key comes before every longer one that begins with it.
pub proof fn law_keys_are_ordered_like_words(
    start: Seq<char>,
    low: char,
    high: char,
    left: Seq<char>,
    right: Seq<char>,
)
    ensures
        low < high ==> key_before(start + seq![low] + left, start + seq![high] + right),
        key_before(start, start + seq![low] + left),
        !key_before(start + seq![low] + left, start),
{
    let at = start.len() as int;
    if low < high {
        assert(splits_before(start + seq![low] + left, start + seq![high] + right, at));
    }
    assert(splits_before(start, start + seq![low] + left, at));
    lemma_key_order_is_strict(start, start + seq![low] + left);
}

} // verus!

//! JSON values as the key formats read and write them.
//!
//! `JsonValue` is the executable value; `JsonSpec` is its mathematical
//! model, which the contracts speak of. Objects keep their entries in order;
//! a lookup takes the first entry with the key.

use crate::text::str_eq;
use vstd::prelude::*;
use zeroize::Zeroize;

verus! {

/// A JSON value. Numbers are kept as their decimal text.
#[derive(Debug)]
pub enum JsonValue {
    Null,
    Bool(bool),
    Number(String),
    String(String),
    Array(Vec<JsonValue>),
    Object(Vec<(String, JsonValue)>),
}

/// The model of a JSON value.
pub ghost enum JsonSpec {
    Null,
    Bool(bool),
    Number(Seq<char>),
    Str(Seq<char>),
    Array(Seq<JsonSpec>),
    Object(Seq<(Seq<char>, JsonSpec)>),
}

/// The model of a value.
pub open spec fn json_view(v: JsonValue) -> JsonSpec
    decreases v,
{
    match v {
        JsonValue::Null => JsonSpec::Null,
        JsonValue::Bool(b) => JsonSpec::Bool(b),
        JsonValue::Number(n) => JsonSpec::Number(n@),
        JsonValue::String(s) => JsonSpec::Str(s@),
        JsonValue::Array(items) => JsonSpec::Array(json_seq_view(items@)),
        JsonValue::Object(entries) => JsonSpec::Object(json_entries_view(entries@)),
    }
}

/// The models of a sequence of values.
pub open spec fn json_seq_view(items: Seq<JsonValue>) -> Seq<JsonSpec>
    decreases items,
{
    if items.len() == 0 {
        Seq::empty()
    } else {
        seq![json_view(items[0])] + json_seq_view(items.drop_first())
    }
}

/// The models of a sequence of object entries.
pub open spec fn json_entries_view(entries: Seq<(String, JsonValue)>) -> Seq<(Seq<char>, JsonSpec)>
    decreases entries,
{
    if entries.len() == 0 {
        Seq::empty()
    } else {
        seq![(entries[0].0@, json_view(entries[0].1))] + json_entries_view(entries.drop_first())
    }
}

impl View for JsonValue {
    type V = JsonSpec;

    open spec fn view(&self) -> JsonSpec {
        json_view(*self)
    }
}

/// The value of the first entry with `key`.
pub open spec fn entries_get(entries: Seq<(Seq<char>, JsonSpec)>, key: Seq<char>) -> Option<JsonSpec>
    decreases entries.len(),
{
    if entries.len() == 0 {
        None
    } else if entries[0].0 == key {
        Some(entries[0].1)
    } else {
        entries_get(entries.drop_first(), key)
    }
}

/// The first entry with `key` is at index `i`.
pub proof fn lemma_entries_get_at(entries: Seq<(Seq<char>, JsonSpec)>, key: Seq<char>, i: int)
    requires
        0 <= i < entries.len(),
        entries[i].0 == key,
        forall|j: int| 0 <= j < i ==> #[trigger] entries[j].0 != key,
    ensures
        entries_get(entries, key) == Some(entries[i].1),
    decreases i,
{
    if i > 0 {
        let rest = entries.drop_first();
        assert forall|j: int| 0 <= j < i - 1 implies #[trigger] rest[j].0 != key by {
            assert(rest[j] == entries[j + 1]);
        }
        lemma_entries_get_at(rest, key, i - 1);
    }
}

/// The field `key` of an object (`None` for a missing key or a non-object).
pub open spec fn json_get(v: JsonSpec, key: Seq<char>) -> Option<JsonSpec> {
    match v {
        JsonSpec::Object(entries) => entries_get(entries, key),
        _ => None,
    }
}

/// `v[key]`: the field, or `Null` when there is none.
pub open spec fn json_index(v: JsonSpec, key: Seq<char>) -> JsonSpec {
    match json_get(v, key) {
        Some(x) => x,
        None => JsonSpec::Null,
    }
}

/// The text of a string value.
pub open spec fn json_str(v: JsonSpec) -> Option<Seq<char>> {
    match v {
        JsonSpec::Str(s) => Some(s),
        _ => None,
    }
}

/// The items of an array value.
pub open spec fn json_array(v: JsonSpec) -> Option<Seq<JsonSpec>> {
    match v {
        JsonSpec::Array(items) => Some(items),
        _ => None,
    }
}

proof fn lemma_seq_view_index(items: Seq<JsonValue>, i: int)
    requires
        0 <= i < items.len(),
    ensures
        json_seq_view(items).len() == items.len(),
        json_seq_view(items)[i] == json_view(items[i]),
    decreases items.len(),
{
    lemma_seq_view_len(items);
    if i > 0 {
        lemma_seq_view_index(items.drop_first(), i - 1);
    }
}

proof fn lemma_seq_view_len(items: Seq<JsonValue>)
    ensures
        json_seq_view(items).len() == items.len(),
    decreases items.len(),
{
    if items.len() > 0 {
        lemma_seq_view_len(items.drop_first());
    }
}

proof fn lemma_entries_view_index(entries: Seq<(String, JsonValue)>, i: int)
    requires
        0 <= i < entries.len(),
    ensures
        json_entries_view(entries).len() == entries.len(),
        json_entries_view(entries)[i] == (entries[i].0@, json_view(entries[i].1)),
    decreases entries.len(),
{
    lemma_entries_view_len(entries);
    if i > 0 {
        lemma_entries_view_index(entries.drop_first(), i - 1);
    }
}

proof fn lemma_entries_view_len(entries: Seq<(String, JsonValue)>)
    ensures
        json_entries_view(entries).len() == entries.len(),
    decreases entries.len(),
{
    if entries.len() > 0 {
        lemma_entries_view_len(entries.drop_first());
    }
}

/// The models of the items of an array.
pub proof fn lemma_array_view(items: Vec<JsonValue>)
    ensures
        json_view(JsonValue::Array(items)) == JsonSpec::Array(json_seq_view(items@)),
        json_seq_view(items@).len() == items@.len(),
        forall|i: int| 0 <= i < items@.len() ==> #[trigger] json_seq_view(items@)[i] == json_view(items@[i]),
{
    lemma_seq_view_len(items@);
    assert forall|i: int| 0 <= i < items@.len() implies #[trigger] json_seq_view(items@)[i] == json_view(
        items@[i],
    ) by {
        lemma_seq_view_index(items@, i);
    }
}

/// The models of the entries of an object.
pub proof fn lemma_object_view(entries: Vec<(String, JsonValue)>)
    ensures
        json_view(JsonValue::Object(entries)) == JsonSpec::Object(json_entries_view(entries@)),
        json_entries_view(entries@).len() == entries@.len(),
        forall|i: int|
            0 <= i < entries@.len() ==> #[trigger] json_entries_view(entries@)[i] == (
                entries@[i].0@,
                json_view(entries@[i].1),
            ),
{
    lemma_entries_view_len(entries@);
    assert forall|i: int| 0 <= i < entries@.len() implies #[trigger] json_entries_view(entries@)[i] == (
        entries@[i].0@,
        json_view(entries@[i].1),
    ) by {
        lemma_entries_view_index(entries@, i);
    }
}

impl JsonValue {
    /// `value.get(key)`: the first entry of an object with this key.
    pub fn get(&self, key: &str) -> (field: Option<&JsonValue>)
        ensures
            match json_get(self@, key@) {
                Some(x) => field matches Some(f) && f@ == x,
                None => field is None,
            },
    {
        match self {
            JsonValue::Object(entries) => {
                proof {
                    lemma_object_view(*entries);
                }
                let ghost all = json_entries_view(entries@);
                assert(all.skip(0) =~= all);
                assert(self@ == JsonSpec::Object(all));
                let mut i: usize = 0;
                while i < entries.len()
                    invariant
                        self@ == JsonSpec::Object(all),
                        all == json_entries_view(entries@),
                        all.len() == entries@.len(),
                        forall|j: int|
                            0 <= j < entries@.len() ==> #[trigger] all[j] == (
                                entries@[j].0@,
                                json_view(entries@[j].1),
                            ),
                        i <= entries.len(),
                        entries_get(all, key@) == entries_get(all.skip(i as int), key@),
                    decreases entries.len() - i,
                {
                    let ghost rest = all.skip(i as int);
                    assert(rest[0] == all[i as int]);
                    assert(rest.drop_first() =~= all.skip(i + 1));
                    if str_eq(entries[i].0.as_str(), key) {
                        proof {
                            assert(all[i as int].0 == key@);
                            assert(rest.len() > 0);
                            assert(entries_get(rest, key@) == Some(rest[0].1));
                        }
                        return Some(&entries[i].1);
                    }
                    i = i + 1;
                }
                let ghost rest = all.skip(i as int);
                assert(rest.len() == 0);
                None
            },
            _ => None,
        }
    }

    /// The text of a string value.
    pub fn as_str(&self) -> (text: Option<&String>)
        ensures
            match json_str(self@) {
                Some(s) => text matches Some(t) && t@ == s,
                None => text is None,
            },
    {
        match self {
            JsonValue::String(s) => Some(s),
            _ => None,
        }
    }

    /// The items of an array value.
    pub fn as_array(&self) -> (items: Option<&Vec<JsonValue>>)
        ensures
            match json_array(self@) {
                Some(s) => items matches Some(v) && json_seq_view(v@) == s && s.len() == v@.len()
                    && forall|i: int| 0 <= i < v@.len() ==> #[trigger] s[i] == v@[i]@,
                None => items is None,
            },
    {
        match self {
            JsonValue::Array(items) => {
                proof {
                    lemma_array_view(*items);
                }
                Some(items)
            },
            _ => None,
        }
    }

    /// `value == text`: a string value equal to `text`.
    pub fn is_text(&self, text: &str) -> (eq: bool)
        ensures
            eq == (self@ == JsonSpec::Str(text@)),
    {
        match self {
            JsonValue::String(s) => str_eq(s.as_str(), text),
            _ => false,
        }
    }
}

/// `v[key]` as text.
pub open spec fn field_text(v: JsonSpec, key: Seq<char>) -> Option<Seq<char>> {
    json_str(json_index(v, key))
}

/// `v[key]` of an optional value (`None` stands for `Null`).
pub fn field_of<'a>(v: Option<&'a JsonValue>, key: &str) -> (field: Option<&'a JsonValue>)
    ensures
        match v {
            Some(x) => match json_get(x@, key@) {
                Some(f) => field matches Some(r) && r@ == f,
                None => field is None,
            },
            None => field is None,
        },
{
    match v {
        Some(x) => x.get(key),
        None => None,
    }
}

// ----------------------------------------------------------------------
// Zeroization
// ----------------------------------------------------------------------

/// `Zeroize::zeroize` on a `String`: overwrites its bytes with zeros and
/// leaves it empty.
#[verifier::external_body]
pub(crate) fn zeroize_string(s: &mut String)
    ensures
        final(s)@ == Seq::<char>::empty(),
{
    s.zeroize();
}

/// The model of a value once every string in it has been zeroized: the
/// structure, object keys, numbers and booleans stay; strings are empty.
pub open spec fn json_zeroized(v: JsonValue) -> JsonSpec
    decreases v,
{
    match v {
        JsonValue::Null => JsonSpec::Null,
        JsonValue::Bool(b) => JsonSpec::Bool(b),
        JsonValue::Number(n) => JsonSpec::Number(n@),
        JsonValue::String(_) => JsonSpec::Str(Seq::empty()),
        JsonValue::Array(items) => JsonSpec::Array(zeroized_seq(items@)),
        JsonValue::Object(entries) => JsonSpec::Object(zeroized_entries(entries@)),
    }
}

/// The zeroized models of a sequence of values.
pub open spec fn zeroized_seq(items: Seq<JsonValue>) -> Seq<JsonSpec>
    decreases items,
{
    if items.len() == 0 {
        Seq::empty()
    } else {
        seq![json_zeroized(items[0])] + zeroized_seq(items.drop_first())
    }
}

/// The zeroized models of a sequence of object entries.
pub open spec fn zeroized_entries(entries: Seq<(String, JsonValue)>) -> Seq<(Seq<char>, JsonSpec)>
    decreases entries,
{
    if entries.len() == 0 {
        Seq::empty()
    } else {
        seq![(entries[0].0@, json_zeroized(entries[0].1))] + zeroized_entries(entries.drop_first())
    }
}

proof fn lemma_zeroized_seq_index(items: Seq<JsonValue>, i: int)
    requires
        0 <= i < items.len(),
    ensures
        zeroized_seq(items).len() == items.len(),
        zeroized_seq(items)[i] == json_zeroized(items[i]),
    decreases items.len(),
{
    lemma_zeroized_seq_len(items);
    if i > 0 {
        lemma_zeroized_seq_index(items.drop_first(), i - 1);
    }
}

proof fn lemma_zeroized_seq_len(items: Seq<JsonValue>)
    ensures
        zeroized_seq(items).len() == items.len(),
    decreases items.len(),
{
    if items.len() > 0 {
        lemma_zeroized_seq_len(items.drop_first());
    }
}

proof fn lemma_zeroized_entries_index(entries: Seq<(String, JsonValue)>, i: int)
    requires
        0 <= i < entries.len(),
    ensures
        zeroized_entries(entries).len() == entries.len(),
        zeroized_entries(entries)[i] == (entries[i].0@, json_zeroized(entries[i].1)),
    decreases entries.len(),
{
    lemma_zeroized_entries_len(entries);
    if i > 0 {
        lemma_zeroized_entries_index(entries.drop_first(), i - 1);
    }
}

proof fn lemma_zeroized_entries_len(entries: Seq<(String, JsonValue)>)
    ensures
        zeroized_entries(entries).len() == entries.len(),
    decreases entries.len(),
{
    if entries.len() > 0 {
        lemma_zeroized_entries_len(entries.drop_first());
    }
}

/// Zeroize every string held in a value, in place (object keys are kept).
pub fn zeroize_json_value(value: &mut JsonValue)
    ensures
        final(value)@ == json_zeroized(*old(value)),
    decreases *old(value),
{
    match value {
        JsonValue::Null | JsonValue::Bool(_) | JsonValue::Number(_) => {},
        JsonValue::String(s) => {
            zeroize_string(s);
        },
        JsonValue::Array(items) => {
            let ghost orig_vec: Vec<JsonValue> = *items;
            let ghost orig = items@;
            assert(*old(value) == JsonValue::Array(orig_vec));
            let n = items.len();
            let mut i: usize = 0;
            while i < n
                invariant
                    n == orig.len(),
                    orig_vec@ == orig,
                    *old(value) == JsonValue::Array(orig_vec),
                    items@.len() == n,
                    i <= n,
                    forall|j: int| 0 <= j < i ==> json_view(#[trigger] items@[j]) == json_zeroized(orig[j]),
                    forall|j: int| i <= j < n ==> #[trigger] items@[j] == orig[j],
                decreases n - i,
            {
                let mut item = items.remove(i);
                assert(item == orig[i as int]);
                assert(decreases_to!(orig_vec@ => orig_vec@[i as int]));
                assert(decreases_to!(orig_vec => orig_vec@));
                assert(decreases_to!(*old(value) => (*old(value))->Array_0));
                assert(decreases_to!(*old(value) => orig_vec));
                assert(decreases_to!(*old(value) => item));
                zeroize_json_value(&mut item);
                items.insert(i, item);
                i = i + 1;
            }
            proof {
                lemma_array_view(*items);
                lemma_zeroized_seq_len(orig);
                assert forall|j: int| 0 <= j < n implies #[trigger] json_seq_view(items@)[j] == zeroized_seq(orig)[j] by {
                    lemma_zeroized_seq_index(orig, j);
                }
                assert(json_seq_view(items@) =~= zeroized_seq(orig));
            }
        },
        JsonValue::Object(entries) => {
            let ghost orig_vec: Vec<(String, JsonValue)> = *entries;
            let ghost orig = entries@;
            assert(*old(value) == JsonValue::Object(orig_vec));
            let n = entries.len();
            let mut i: usize = 0;
            while i < n
                invariant
                    n == orig.len(),
                    orig_vec@ == orig,
                    *old(value) == JsonValue::Object(orig_vec),
                    entries@.len() == n,
                    i <= n,
                    forall|j: int| 0 <= j < i ==> (#[trigger] entries@[j]).0@ == orig[j].0@ && json_view(
                        entries@[j].1,
                    ) == json_zeroized(orig[j].1),
                    forall|j: int| i <= j < n ==> #[trigger] entries@[j] == orig[j],
                decreases n - i,
            {
                let (key, mut item) = entries.remove(i);
                assert(item == orig[i as int].1);
                assert(decreases_to!(orig_vec@[i as int] => orig_vec@[i as int].1));
                assert(decreases_to!(orig_vec@ => orig_vec@[i as int]));
                assert(decreases_to!(orig_vec => orig_vec@));
                assert(decreases_to!(*old(value) => (*old(value))->Object_0));
                assert(decreases_to!(*old(value) => orig_vec));
                assert(decreases_to!(*old(value) => item));
                zeroize_json_value(&mut item);
                entries.insert(i, (key, item));
                i = i + 1;
            }
            proof {
                lemma_object_view(*entries);
                lemma_zeroized_entries_len(orig);
                assert forall|j: int| 0 <= j < n implies #[trigger] json_entries_view(entries@)[j]
                    == zeroized_entries(orig)[j] by {
                    lemma_zeroized_entries_index(orig, j);
                }
                assert(json_entries_view(entries@) =~= zeroized_entries(orig));
            }
        },
    }
}

} // verus!

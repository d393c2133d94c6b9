//! JSON values.

use vstd::prelude::*;
#[allow(unused_imports)]
use vstd::string::*;
use vstd::utf8::*;

use crate::error;
use crate::error::{IoError, IoErrorKind};
use crate::text::same_text;

verus! {

/// `serde_json::Value`, carried between the functions that read and write JSON
/// text and [`Json`].
#[verifier::external_type_specification]
#[verifier::external_body]
pub struct ExValue(serde_json::Value);

/// `serde_json::Number`, carried through unread.
#[verifier::external_type_specification]
#[verifier::external_body]
pub struct ExNumber(serde_json::Number);

/// `serde_json::Map`, the fields of an object.
#[verifier::external_type_specification]
#[verifier::external_body]
#[verifier::reject_recursive_types(K)]
#[verifier::reject_recursive_types(V)]
pub struct ExFields<K, V>(serde_json::Map<K, V>);

/// A JSON value. Of two fields of an object with the same name the later counts.
#[derive(Debug)]
pub enum Json {
    Null,
    Bool(bool),
    Number(serde_json::Number),
    Text(String),
    Array(Vec<Json>),
    Object(Vec<(String, Json)>),
}

/// What a [`Json`] says.
pub ghost enum JsonView {
    Null,
    Bool(bool),
    Number(serde_json::Number),
    Text(Seq<char>),
    Array(Seq<JsonView>),
    Object(Map<Seq<char>, JsonView>),
}

pub open spec fn json_view(value: Json) -> JsonView
    decreases value,
{
    match value {
        Json::Null => JsonView::Null,
        Json::Bool(b) => JsonView::Bool(b),
        Json::Number(n) => JsonView::Number(n),
        Json::Text(s) => JsonView::Text(s@),
        Json::Array(items) => JsonView::Array(items_view(items@)),
        Json::Object(fields) => JsonView::Object(fields_view(fields@)),
    }
}

/// What each item of an array says.
pub open spec fn items_view(items: Seq<Json>) -> Seq<JsonView>
    decreases items,
{
    if items.len() == 0 {
        seq![]
    } else {
        items_view(items.drop_last()).push(json_view(items.last()))
    }
}

/// What the fields of an object say, where a later field overrules an earlier
/// one of the same name.
pub open spec fn fields_view(fields: Seq<(String, Json)>) -> Map<Seq<char>, JsonView>
    decreases fields,
{
    if fields.len() == 0 {
        Map::empty()
    } else {
        fields_view(fields.drop_last()).insert(fields.last().0@, json_view(fields.last().1))
    }
}

impl View for Json {
    type V = JsonView;

    open spec fn view(&self) -> JsonView {
        json_view(*self)
    }
}

/// The field `name` of a value, where it is an object that has it.
pub open spec fn field(value: JsonView, name: Seq<char>) -> Option<JsonView> {
    match value {
        JsonView::Object(fields) if fields.contains_key(name) => Some(fields[name]),
        _ => None,
    }
}

/// The text of a value, where it is one.
pub open spec fn text_of(value: JsonView) -> Option<Seq<char>> {
    match value {
        JsonView::Text(s) => Some(s),
        _ => None,
    }
}

impl Json {
    /// The field `name`, where the value is an object that has it.
    pub fn get(&self, name: &str) -> (found: Option<&Json>)
        ensures
            match found {
                Some(value) => field(self@, name@) == Some(value@),
                None => field(self@, name@) is None,
            },
    {
        match self {
            Json::Object(fields) => {
                let mut i: usize = fields.len();
                assert(fields@.take(i as int) =~= fields@);
                while i > 0
                    invariant
                        i <= fields@.len(),
                        field(self@, name@) == field(
                            JsonView::Object(fields_view(fields@.take(i as int))),
                            name@,
                        ),
                    decreases i,
                {
                    i -= 1;
                    assert(fields@.take(i + 1).drop_last() =~= fields@.take(i as int));
                    if same_text(fields[i].0.as_str(), name) {
                        return Some(&fields[i].1);
                    }
                }
                None
            },
            _ => None,
        }
    }

    /// The text of the value, where it is one.
    pub fn as_str(&self) -> (text: Option<&str>)
        ensures
            match text {
                Some(s) => text_of(self@) == Some(s@),
                None => text_of(self@) is None,
            },
    {
        match self {
            Json::Text(s) => Some(s.as_str()),
            _ => None,
        }
    }

    /// The value as compact JSON text.
    pub fn to_text(&self) -> (text: String)
        ensures
            text@ == json_rendering(self@),
            read_back(self@) ==> reads_as(encode_utf8(text@), self@),
    {
        value_text(&json_to_value(self))
    }

    /// Whether the value is read back from the JSON text that is written for it.
    pub fn is_read_back(&self) -> (yes: bool)
        ensures
            yes == read_back(self@),
    {
        is_plain(self, MAX_NESTING)
    }

    /// The whole number `n`.
    pub fn integer(n: u64) -> (value: Json)
        ensures
            value@ == JsonView::Number(integer_number(n)),
    {
        Json::Number(number_of(n))
    }

    /// The text `s`.
    pub fn text(s: &str) -> (value: Json)
        ensures
            value@ == JsonView::Text(s@),
    {
        Json::Text(s.to_owned())
    }
}

proof fn lemma_items_view(items: Seq<Json>)
    ensures
        items_view(items).len() == items.len(),
        forall|i: int|
            0 <= i < items.len() ==> #[trigger] items_view(items)[i] == json_view(items[i]),
    decreases items.len(),
{
    if items.len() > 0 {
        lemma_items_view(items.drop_last());
        assert forall|i: int| 0 <= i < items.len() implies #[trigger] items_view(items)[i]
            == json_view(items[i]) by {
            if i < items.len() - 1 {
                assert(items_view(items)[i] == items_view(items.drop_last())[i]);
            }
        }
    }
}

/// Whether no later field has the name of field `i`.
spec fn counts(fields: Seq<(String, Json)>, i: int) -> bool {
    forall|j: int| i < j < fields.len() ==> (#[trigger] fields[j]).0@ != fields[i].0@
}

proof fn lemma_counting_field(fields: Seq<(String, Json)>, i: int)
    requires
        0 <= i < fields.len(),
        counts(fields, i),
    ensures
        fields_view(fields).contains_key(fields[i].0@),
        fields_view(fields)[fields[i].0@] == json_view(fields[i].1),
    decreases fields.len(),
{
    let front = fields.drop_last();
    if i < front.len() {
        assert forall|j: int| i < j < front.len() implies (#[trigger] front[j]).0@
            != front[i].0@ by {
            assert(fields[j].0@ != fields[i].0@);
        }
        lemma_counting_field(front, i);
        assert(fields[fields.len() - 1].0@ != fields[i].0@);
    }
}

proof fn lemma_field_that_counts(fields: Seq<(String, Json)>, name: Seq<char>) -> (i: int)
    requires
        fields_view(fields).contains_key(name),
    ensures
        0 <= i < fields.len(),
        fields[i].0@ == name,
        counts(fields, i),
    decreases fields.len(),
{
    let last = fields.len() - 1;
    if fields[last].0@ == name {
        last
    } else {
        let front = fields.drop_last();
        let i = lemma_field_that_counts(front, name);
        assert forall|j: int| i < j < fields.len() implies (#[trigger] fields[j]).0@
            != fields[i].0@ by {
            if j < front.len() {
                assert(front[j].0@ != front[i].0@);
            }
        }
        i
    }
}

fn field_counts(fields: &Vec<(String, Json)>, i: usize) -> (yes: bool)
    requires
        i < fields@.len(),
    ensures
        yes == counts(fields@, i as int),
{
    let mut j: usize = fields.len();
    while j - 1 > i
        invariant
            i < j <= fields@.len(),
            forall|k: int| j <= k < fields@.len() ==> (#[trigger] fields@[k]).0@
                != fields@[i as int].0@,
        decreases j,
    {
        j -= 1;
        if same_text(fields[j].0.as_str(), fields[i].0.as_str()) {
            return false;
        }
    }
    true
}

fn whole_number(number: &serde_json::Number) -> (yes: bool)
    ensures
        yes == is_whole(*number),
{
    match unsigned_of(number) {
        Some(_) => true,
        None => match signed_of(number) {
            Some(_) => true,
            None => false,
        },
    }
}

proof fn lemma_not_plain(items: Seq<JsonView>, i: int, depth: nat)
    requires
        0 <= i < items.len(),
        depth > 0,
        !plain_within(items[i], (depth - 1) as nat),
    ensures
        !plain_within(JsonView::Array(items), depth),
{
    let value = JsonView::Array(items);
    assert(value->Array_0[i] == items[i]);
}

proof fn lemma_field_not_plain(fields: Map<Seq<char>, JsonView>, name: Seq<char>, depth: nat)
    requires
        fields.contains_key(name),
        depth > 0,
        !plain_within(fields[name], (depth - 1) as nat),
    ensures
        !plain_within(JsonView::Object(fields), depth),
{
    let value = JsonView::Object(fields);
    assert(value->Object_0.contains_key(name));
}

/// Whether a value is nested at most `depth` deep and its numbers are whole.
pub fn is_plain(value: &Json, depth: u8) -> (yes: bool)
    ensures
        yes == plain_within(value@, depth as nat),
    decreases value,
{
    match value {
        Json::Number(number) => whole_number(number),
        Json::Array(items) => {
            if depth == 0 {
                return false;
            }
            let mut i: usize = 0;
            let ghost views = items_view(items@);
            proof {
                lemma_items_view(items@);
            }
            while i < items.len()
                invariant
                    value == Json::Array(*items),
                    depth > 0,
                    views == items_view(items@),
                    views.len() == items@.len(),
                    forall|j: int|
                        0 <= j < items@.len() ==> #[trigger] views[j] == json_view(items@[j]),
                    i <= items@.len(),
                    forall|j: int|
                        0 <= j < i ==> plain_within(#[trigger] views[j], (depth - 1) as nat),
                decreases items@.len() - i,
            {
                assert(decreases_to!(value => value->Array_0));
                assert(decreases_to!(items => items@));
                assert(decreases_to!(items@ => items@[i as int]));
                assert(views[i as int] == items[i as int]@);
                if !is_plain(&items[i], depth - 1) {
                    proof {
                        lemma_not_plain(views, i as int, depth as nat);
                    }
                    return false;
                }
                i += 1;
            }
            true
        },
        Json::Object(fields) => {
            if depth == 0 {
                return false;
            }
            let mut i: usize = 0;
            while i < fields.len()
                invariant
                    value == Json::Object(*fields),
                    depth > 0,
                    i <= fields@.len(),
                    forall|j: int|
                        0 <= j < i && #[trigger] counts(fields@, j) ==> plain_within(
                            json_view(fields@[j].1),
                            (depth - 1) as nat,
                        ),
                decreases fields@.len() - i,
            {
                assert(decreases_to!(value => value->Object_0));
                assert(decreases_to!(fields => fields@));
                assert(decreases_to!(fields@ => fields@[i as int]));
                assert(decreases_to!(fields@[i as int] => fields@[i as int].1));
                if field_counts(fields, i) && !is_plain(&fields[i].1, depth - 1) {
                    proof {
                        lemma_counting_field(fields@, i as int);
                        lemma_field_not_plain(
                            fields_view(fields@),
                            fields@[i as int].0@,
                            depth as nat,
                        );
                    }
                    return false;
                }
                i += 1;
            }
            proof {
                assert forall|name: Seq<char>| #[trigger] fields_view(fields@).contains_key(
                    name,
                ) implies plain_within(fields_view(fields@)[name], (depth - 1) as nat) by {
                    let j = lemma_field_that_counts(fields@, name);
                    assert(counts(fields@, j));
                    lemma_counting_field(fields@, j);
                }
                assert(value@ == JsonView::Object(fields_view(fields@)));
            }
            true
        },
        _ => true,
    }
}

/// Takes the field `name` out of a value, where it is an object that has it.
pub fn take_field(value: Json, name: &str) -> (found: Option<Json>)
    ensures
        match found {
            Some(inner) => field(value@, name@) == Some(inner@),
            None => field(value@, name@) is None,
        },
{
    match value {
        Json::Object(fields) => {
            let mut left: Vec<(String, Json)> = fields;
            while left.len() > 0
                invariant
                    field(value@, name@) == field(
                        JsonView::Object(fields_view(left@)),
                        name@,
                    ),
                decreases left@.len(),
            {
                let ghost before = left@;
                if let Some((key, inner)) = left.pop() {
                    assert(before.drop_last() =~= left@);
                    if same_text(key.as_str(), name) {
                        return Some(inner);
                    }
                }
            }
            None
        },
        _ => None,
    }
}

/// Adds a field to those of an object, in place of any of the same name.
pub fn insert_field(fields: &mut Vec<(String, Json)>, name: &str, value: Json)
    ensures
        fields_view(final(fields)@) == fields_view(old(fields)@).insert(name@, value@),
{
    let ghost before = fields@;
    fields.push((name.to_owned(), value));
    assert(fields@.drop_last() =~= before);
}

proof fn lemma_insert_remove(
    a: Map<Seq<char>, JsonView>,
    b: Map<Seq<char>, JsonView>,
    key: Seq<char>,
    value: JsonView,
    name: Seq<char>,
)
    requires
        a.remove(name) == b.remove(name),
    ensures
        a.insert(key, value).remove(name) == b.insert(key, value).remove(name),
{
    if key == name {
        assert(a.insert(key, value).remove(name) =~= a.remove(name));
        assert(b.insert(key, value).remove(name) =~= b.remove(name));
    } else {
        assert(a.insert(key, value).remove(name) =~= a.remove(name).insert(key, value));
        assert(b.insert(key, value).remove(name) =~= b.remove(name).insert(key, value));
    }
}

/// Takes an entry named `name` out: the other names keep their values.
proof fn lemma_remove_entry(fields: Seq<(String, Json)>, i: int, name: Seq<char>)
    requires
        0 <= i < fields.len(),
        fields[i].0@ == name,
    ensures
        fields_view(fields.remove(i)).remove(name) == fields_view(fields).remove(name),
    decreases fields.len(),
{
    let rest = fields.drop_last();
    if i == fields.len() - 1 {
        assert(fields.remove(i) =~= rest);
        assert(fields_view(rest).remove(name) =~= fields_view(fields).remove(name));
    } else {
        lemma_remove_entry(rest, i, name);
        let cut = fields.remove(i);
        assert(cut.drop_last() =~= rest.remove(i));
        assert(cut.last() == fields.last());
        let last = fields.last();
        lemma_insert_remove(
            fields_view(rest.remove(i)),
            fields_view(rest),
            last.0@,
            json_view(last.1),
            name,
        );
    }
}

proof fn lemma_absent(fields: Seq<(String, Json)>, name: Seq<char>)
    requires
        forall|i: int| 0 <= i < fields.len() ==> (#[trigger] fields[i]).0@ != name,
    ensures
        !fields_view(fields).contains_key(name),
    decreases fields.len(),
{
    if fields.len() > 0 {
        assert(fields[fields.len() - 1].0@ != name);
        lemma_absent(fields.drop_last(), name);
    }
}

/// Takes a field out of those of an object.
pub fn remove_field(fields: &mut Vec<(String, Json)>, name: &str)
    ensures
        fields_view(final(fields)@) == fields_view(old(fields)@).remove(name@),
{
    let ghost all = fields@;
    let mut i: usize = 0;
    while i < fields.len()
        invariant
            i <= fields@.len(),
            fields_view(fields@).remove(name@) == fields_view(all).remove(name@),
            forall|j: int| 0 <= j < i ==> (#[trigger] fields@[j]).0@ != name@,
        decreases fields@.len() - i,
    {
        if same_text(fields[i].0.as_str(), name) {
            proof {
                lemma_remove_entry(fields@, i as int, name@);
            }
            fields.remove(i);
        } else {
            i += 1;
        }
    }
    proof {
        lemma_absent(fields@, name@);
        assert(fields_view(fields@).remove(name@) =~= fields_view(fields@));
    }
}

/// What a `serde_json::Value` holds.
pub uninterp spec fn value_model(value: serde_json::Value) -> JsonView;

/// What the fields of an object hold.
pub uninterp spec fn map_model(
    fields: serde_json::Map<String, serde_json::Value>,
) -> Map<Seq<char>, JsonView>;

/// What `serde_json::from_slice` reads: the value, or the message of its error.
pub uninterp spec fn json_document(bytes: Seq<u8>) -> Result<JsonView, Seq<char>>;

/// The compact JSON text that `serde_json` writes for a value.
pub uninterp spec fn json_rendering(value: JsonView) -> Seq<char>;

/// The number that `serde_json::Number::from` makes of a whole number.
pub uninterp spec fn integer_number(n: u64) -> serde_json::Number;

/// The deepest nesting of arrays and objects that JSON text is read back from.
pub const MAX_NESTING: u8 = 127;

/// What `serde_json::Number::as_i64` gives for a number.
pub uninterp spec fn signed_value(number: serde_json::Number) -> Option<i64>;

/// Whether a number is whole and of at most 64 bits.
pub open spec fn is_whole(number: serde_json::Number) -> bool {
    (exists|n: u64| number == #[trigger] integer_number(n)) || signed_value(number) is Some
}

/// Whether arrays and objects are nested at most `depth` deep in a value and the
/// numbers in it are whole.
pub open spec fn plain_within(value: JsonView, depth: nat) -> bool
    decreases depth,
{
    match value {
        JsonView::Number(number) => is_whole(number),
        JsonView::Array(items) => depth > 0 && forall|i: int|
            0 <= i < items.len() ==> plain_within(#[trigger] items[i], (depth - 1) as nat),
        JsonView::Object(fields) => depth > 0 && forall|name: Seq<char>| #[trigger]
            fields.contains_key(name) ==> plain_within(fields[name], (depth - 1) as nat),
        _ => true,
    }
}

/// Whether a value is read back from the JSON text that is written for it: it is
/// not nested too deep, and its numbers are whole.
pub open spec fn read_back(value: JsonView) -> bool {
    plain_within(value, MAX_NESTING as nat)
}

/// Whether `bytes`, read as JSON, are `value`.
pub open spec fn reads_as(bytes: Seq<u8>, value: JsonView) -> bool {
    json_document(bytes) == Ok::<JsonView, Seq<char>>(value)
}

/// Reads JSON text. Calls `serde_json::from_slice`, of which it claims that the
/// value, or else the message of the error, depends on the bytes alone. Which
/// bytes give which value is stated only of text that [`value_text`] wrote.
#[verifier::external_body]
fn parse_value(bytes: &[u8]) -> (result: Result<serde_json::Value, String>)
    ensures
        match result {
            Ok(value) => json_document(bytes@) == Ok::<JsonView, Seq<char>>(value_model(value)),
            Err(message) => json_document(bytes@) == Err::<JsonView, Seq<char>>(message@),
        },
{
    serde_json::from_slice(bytes).map_err(|e| e.to_string())
}

/// Writes JSON text. Calls the `Display` of `serde_json::Value`, of which it
/// claims that the text depends on what the value holds alone, fields being
/// written in the order of their names, and that `serde_json::from_slice` reads
/// the value back from it. The latter is not claimed where arrays and objects are
/// nested deeper than that function goes, nor of fractions, which it may round.
#[verifier::external_body]
fn value_text(value: &serde_json::Value) -> (text: String)
    ensures
        text@ == json_rendering(value_model(*value)),
        read_back(value_model(*value)) ==> reads_as(encode_utf8(text@), value_model(*value)),
{
    value.to_string()
}

/// The whole number `n`. Calls `serde_json::Number::from`, of which it claims
/// that the number depends on `n` alone.
#[verifier::external_body]
fn number_of(n: u64) -> (number: serde_json::Number)
    ensures
        number == integer_number(n),
{
    serde_json::Number::from(n)
}

/// The number as an unsigned one. Calls `serde_json::Number::as_u64`, of which it
/// claims that it gives back what a number was made of, and nothing for numbers
/// that no unsigned one makes.
#[verifier::external_body]
fn unsigned_of(number: &serde_json::Number) -> (value: Option<u64>)
    ensures
        match value {
            Some(n) => *number == integer_number(n),
            None => forall|n: u64| *number != #[trigger] integer_number(n),
        },
{
    number.as_u64()
}

/// The number as a signed one. Calls `serde_json::Number::as_i64`, of which it
/// claims that what it gives depends on the number alone.
#[verifier::external_body]
fn signed_of(number: &serde_json::Number) -> (value: Option<i64>)
    ensures
        value == signed_value(*number),
{
    number.as_i64()
}

/// A `serde_json::Value` laid open by one level.
enum ValueParts {
    Null,
    Bool(bool),
    Number(serde_json::Number),
    Text(String),
    Array(Vec<serde_json::Value>),
    Object(serde_json::Map<String, serde_json::Value>),
}

/// What each item of an array holds.
spec fn items_model(items: Seq<serde_json::Value>) -> Seq<JsonView>
    decreases items.len(),
{
    if items.len() == 0 {
        seq![]
    } else {
        items_model(items.drop_last()).push(value_model(items.last()))
    }
}

/// What fields in a row hold, where a later field overrules an earlier one of
/// the same name.
spec fn fields_model(fields: Seq<(String, serde_json::Value)>) -> Map<Seq<char>, JsonView>
    decreases fields.len(),
{
    if fields.len() == 0 {
        Map::empty()
    } else {
        fields_model(fields.drop_last()).insert(fields.last().0@, value_model(fields.last().1))
    }
}

/// What a value laid open holds.
spec fn parts_model(parts: ValueParts) -> JsonView {
    match parts {
        ValueParts::Null => JsonView::Null,
        ValueParts::Bool(b) => JsonView::Bool(b),
        ValueParts::Number(n) => JsonView::Number(n),
        ValueParts::Text(s) => JsonView::Text(s@),
        ValueParts::Array(items) => JsonView::Array(items_model(items@)),
        ValueParts::Object(fields) => JsonView::Object(map_model(fields)),
    }
}

spec fn distinct_names(fields: Seq<(String, serde_json::Value)>) -> bool {
    forall|i: int, j: int|
        0 <= i < j < fields.len() ==> (#[trigger] fields[i]).0@ != (#[trigger] fields[j]).0@
}

/// Lays a `serde_json::Value` open, variant for variant, which keeps what it holds.
#[verifier::external_body]
fn value_parts(value: serde_json::Value) -> (parts: ValueParts)
    ensures
        parts_model(parts) == value_model(value),
{
    match value {
        serde_json::Value::Null => ValueParts::Null,
        serde_json::Value::Bool(b) => ValueParts::Bool(b),
        serde_json::Value::Number(n) => ValueParts::Number(n),
        serde_json::Value::String(s) => ValueParts::Text(s),
        serde_json::Value::Array(items) => ValueParts::Array(items),
        serde_json::Value::Object(fields) => ValueParts::Object(fields),
    }
}

/// The `serde_json::Value` with the parts given, variant for variant, which
/// keeps what they hold.
#[verifier::external_body]
fn value_of_parts(parts: ValueParts) -> (value: serde_json::Value)
    ensures
        value_model(value) == parts_model(parts),
{
    match parts {
        ValueParts::Null => serde_json::Value::Null,
        ValueParts::Bool(b) => serde_json::Value::Bool(b),
        ValueParts::Number(n) => serde_json::Value::Number(n),
        ValueParts::Text(s) => serde_json::Value::String(s),
        ValueParts::Array(items) => serde_json::Value::Array(items),
        ValueParts::Object(fields) => serde_json::Value::Object(fields),
    }
}

/// No fields. Calls `serde_json::Map::new`, of which it claims that the map it
/// makes is empty.
#[verifier::external_body]
fn map_new() -> (fields: serde_json::Map<String, serde_json::Value>)
    ensures
        map_model(fields).dom() == Set::<Seq<char>>::empty(),
{
    serde_json::Map::new()
}

/// Adds a field, in place of any of the same name. Calls
/// `serde_json::Map::insert`, of which it claims that the other fields stay.
#[verifier::external_body]
fn map_insert(
    fields: &mut serde_json::Map<String, serde_json::Value>,
    name: String,
    value: serde_json::Value,
)
    ensures
        map_model(*final(fields)) == map_model(*old(fields)).insert(name@, value_model(value)),
{
    fields.insert(name, value);
}

/// The fields one by one. Calls `IntoIterator::into_iter` of `serde_json::Map`,
/// of which it claims that it yields each field once, and no two of one name.
#[verifier::external_body]
fn map_entries(fields: serde_json::Map<String, serde_json::Value>) -> (entries: Vec<
    (String, serde_json::Value),
>)
    ensures
        distinct_names(entries@),
        fields_model(entries@) == map_model(fields),
{
    fields.into_iter().collect()
}

/// A copy of a number. Calls `Clone::clone` of `serde_json::Number`, of which it
/// claims that the copy is the same number.
#[verifier::external_body]
fn number_copy(number: &serde_json::Number) -> (copy: serde_json::Number)
    ensures
        copy == *number,
{
    number.clone()
}

proof fn lemma_items_model(items: Seq<serde_json::Value>)
    ensures
        items_model(items).len() == items.len(),
        forall|i: int|
            0 <= i < items.len() ==> items_model(items)[i] == value_model(#[trigger] items[i]),
    decreases items.len(),
{
    if items.len() > 0 {
        lemma_items_model(items.drop_last());
        assert forall|i: int| 0 <= i < items.len() implies items_model(items)[i] == value_model(
            #[trigger] items[i],
        ) by {
            if i < items.len() - 1 {
                assert(items.drop_last()[i] == items[i]);
            }
        }
    }
}

proof fn lemma_fields_model(fields: Seq<(String, serde_json::Value)>)
    requires
        distinct_names(fields),
    ensures
        fields_model(fields).dom().finite(),
        forall|i: int|
            0 <= i < fields.len() ==> fields_model(fields).contains_key((#[trigger] fields[i]).0@)
                && fields_model(fields)[fields[i].0@] == value_model(fields[i].1),
    decreases fields.len(),
{
    if fields.len() > 0 {
        let front = fields.drop_last();
        assert(distinct_names(front)) by {
            assert forall|i: int, j: int| 0 <= i < j < front.len() implies (
            #[trigger] front[i]).0@ != (#[trigger] front[j]).0@ by {
                assert(fields[i].0@ != fields[j].0@);
            }
        }
        lemma_fields_model(front);
        assert forall|i: int| 0 <= i < fields.len() implies fields_model(fields).contains_key(
            (#[trigger] fields[i]).0@,
        ) && fields_model(fields)[fields[i].0@] == value_model(fields[i].1) by {
            if i < front.len() {
                assert(front[i] == fields[i]);
                assert(fields[i].0@ != fields[fields.len() - 1].0@);
            }
        }
    }
}

/// What a `serde_json::Value` holds.
fn json_from_value(value: serde_json::Value) -> (json: Json)
    ensures
        json@ == value_model(value),
    decreases value_model(value),
{
    match value_parts(value) {
        ValueParts::Null => Json::Null,
        ValueParts::Bool(b) => Json::Bool(b),
        ValueParts::Number(n) => Json::Number(n),
        ValueParts::Text(s) => Json::Text(s),
        ValueParts::Array(items) => {
            let ghost all = items@;
            let mut out: Vec<Json> = Vec::new();
            proof {
                lemma_items_model(all);
            }
            for item in it: items
                invariant
                    it.seq() == all,
                    value_model(value) == JsonView::Array(items_model(all)),
                    items_model(all).len() == all.len(),
                    forall|i: int|
                        0 <= i < all.len() ==> items_model(all)[i] == value_model(
                            #[trigger] all[i],
                        ),
                    items_view(out@) == items_model(all.take(it.index())),
            {
                let ghost i = it.index();
                let ghost before = out@;
                assert(item == all[i]);
                assert(decreases_to!(value_model(value) => value_model(value)->Array_0));
                assert(decreases_to!(items_model(all) => items_model(all)[i]));
                out.push(json_from_value(item));
                assert(out@.drop_last() =~= before);
                assert(all.take(i + 1).drop_last() =~= all.take(i));
            }
            assert(all.take(all.len() as int) =~= all);
            Json::Array(out)
        },
        ValueParts::Object(fields) => {
            let entries = map_entries(fields);
            let ghost all = entries@;
            let mut out: Vec<(String, Json)> = Vec::new();
            proof {
                lemma_fields_model(all);
            }
            for entry in it: entries
                invariant
                    it.seq() == all,
                    value_model(value) == JsonView::Object(fields_model(all)),
                    fields_model(all).dom().finite(),
                    forall|i: int|
                        0 <= i < all.len() ==> fields_model(all).contains_key(
                            (#[trigger] all[i]).0@,
                        ) && fields_model(all)[all[i].0@] == value_model(all[i].1),
                    fields_view(out@) == fields_model(all.take(it.index())),
            {
                let ghost i = it.index();
                let ghost before = out@;
                assert(entry == all[i]);
                assert(decreases_to!(value_model(value) => value_model(value)->Object_0));
                assert(decreases_to!(fields_model(all) => fields_model(all)[all[i].0@]));
                let (name, inner) = entry;
                out.push((name, json_from_value(inner)));
                assert(out@.drop_last() =~= before);
                assert(all.take(i + 1).drop_last() =~= all.take(i));
            }
            assert(all.take(all.len() as int) =~= all);
            Json::Object(out)
        },
    }
}

/// The `serde_json::Value` that holds what `json` says.
fn json_to_value(json: &Json) -> (value: serde_json::Value)
    ensures
        value_model(value) == json@,
    decreases json,
{
    match json {
        Json::Null => value_of_parts(ValueParts::Null),
        Json::Bool(b) => value_of_parts(ValueParts::Bool(*b)),
        Json::Number(n) => value_of_parts(ValueParts::Number(number_copy(n))),
        Json::Text(s) => value_of_parts(ValueParts::Text(s.clone())),
        Json::Array(items) => {
            let mut out: Vec<serde_json::Value> = Vec::new();
            let mut i: usize = 0;
            while i < items.len()
                invariant
                    json == Json::Array(*items),
                    i <= items@.len(),
                    items_model(out@) == items_view(items@.take(i as int)),
                decreases items@.len() - i,
            {
                let ghost before = out@;
                assert(decreases_to!(json => json->Array_0));
                assert(decreases_to!(items => items@));
                assert(decreases_to!(items@ => items@[i as int]));
                out.push(json_to_value(&items[i]));
                assert(out@.drop_last() =~= before);
                assert(items@.take(i + 1).drop_last() =~= items@.take(i as int));
                i += 1;
            }
            assert(items@.take(items@.len() as int) =~= items@);
            value_of_parts(ValueParts::Array(out))
        },
        Json::Object(fields) => {
            let mut out = map_new();
            let mut i: usize = 0;
            assert(fields@.take(0) =~= Seq::<(String, Json)>::empty());
            assert(map_model(out) =~= Map::<Seq<char>, JsonView>::empty());
            while i < fields.len()
                invariant
                    json == Json::Object(*fields),
                    i <= fields@.len(),
                    map_model(out) == fields_view(fields@.take(i as int)),
                decreases fields@.len() - i,
            {
                assert(decreases_to!(json => json->Object_0));
                assert(decreases_to!(fields => fields@));
                assert(decreases_to!(fields@ => fields@[i as int]));
                assert(decreases_to!(fields@[i as int] => fields@[i as int].1));
                map_insert(&mut out, fields[i].0.clone(), json_to_value(&fields[i].1));
                assert(fields@.take(i + 1).drop_last() =~= fields@.take(i as int));
                i += 1;
            }
            assert(fields@.take(fields@.len() as int) =~= fields@);
            value_of_parts(ValueParts::Object(out))
        },
    }
}

/// The error for a body that is not JSON.
pub open spec fn json_error(message: Seq<char>) -> error::IoErrorView {
    error::IoErrorView { kind: IoErrorKind::InvalidData, message }
}

/// Reads a request or response body as JSON.
pub fn parse_json_body(body: &[u8]) -> (result: Result<Json, IoError>)
    ensures
        match result {
            Ok(value) => json_document(body@) == Ok::<JsonView, Seq<char>>(value@),
            Err(error) => json_document(body@) matches Err(message) && error@ == json_error(
                message,
            ),
        },
{
    match parse_value(body) {
        Ok(value) => Ok(json_from_value(value)),
        Err(message) => Err(IoError { kind: IoErrorKind::InvalidData, message }),
    }
}

} // verus!

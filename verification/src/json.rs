//! JSON values as plain data.
//!
//! `serde_json` reads and writes the text; everything else works on [`Json`],
//! which holds what a value says without the outside type.

use vstd::prelude::*;

use crate::text::str_eq;

verus! {

/// A JSON value. Numbers keep only what fits a signed 64-bit integer: a
/// fraction or a larger number is `Number(None)`.
#[derive(Debug)]
pub enum Json {
    Null,
    Bool(bool),
    Number(Option<i64>),
    Text(String),
    Array(Vec<Json>),
    /// Fields in no particular order; of two with one name the later counts.
    Object(Vec<(String, Json)>),
}

/// What a JSON value says.
#[verifier::ext_equal]
pub enum JsonModel {
    Null,
    Bool(bool),
    Number(Option<i64>),
    Text(Seq<char>),
    Array(Seq<JsonModel>),
    Object(Map<Seq<char>, JsonModel>),
}

/// The fields of an object by name, where a later field replaces an earlier
/// one of the same name.
pub open spec fn fields_map(fields: Seq<(Seq<char>, JsonModel)>) -> Map<Seq<char>, JsonModel>
    decreases fields.len(),
{
    if fields.len() == 0 {
        Map::empty()
    } else {
        fields_map(fields.drop_last()).insert(fields.last().0, fields.last().1)
    }
}

impl Json {
    /// What the value says.
    pub open spec fn model(self) -> JsonModel
        decreases self,
    {
        match self {
            Json::Null => JsonModel::Null,
            Json::Bool(b) => JsonModel::Bool(b),
            Json::Number(n) => JsonModel::Number(n),
            Json::Text(s) => JsonModel::Text(s@),
            Json::Array(items) => JsonModel::Array(item_models(items@)),
            Json::Object(fields) => JsonModel::Object(fields_map(field_models(fields@))),
        }
    }
}

/// What the items of an array say.
pub open spec fn item_models(items: Seq<Json>) -> Seq<JsonModel>
    decreases items,
{
    Seq::new(
        items.len(),
        |i: int|
            if 0 <= i < items.len() {
                items[i].model()
            } else {
                JsonModel::Null
            },
    )
}

/// What the fields of an object say, in the order they are listed.
pub open spec fn field_models(fields: Seq<(String, Json)>) -> Seq<(Seq<char>, JsonModel)>
    decreases fields,
{
    Seq::new(
        fields.len(),
        |i: int|
            (
                fields[i].0@,
                if 0 <= i < fields.len() {
                    fields[i].1.model()
                } else {
                    JsonModel::Null
                },
            ),
    )
}

impl View for Json {
    type V = JsonModel;

    open spec fn view(&self) -> JsonModel {
        self.model()
    }
}

impl JsonModel {
    /// Whether the value is an object with a field of this name.
    pub open spec fn has(self, name: Seq<char>) -> bool {
        self matches JsonModel::Object(fields) && fields.contains_key(name)
    }

    /// The field of this name; `Null` when there is none.
    pub open spec fn field(self, name: Seq<char>) -> JsonModel {
        match self {
            JsonModel::Object(fields) => if fields.contains_key(name) {
                fields[name]
            } else {
                JsonModel::Null
            },
            _ => JsonModel::Null,
        }
    }

    /// The text of a string value.
    pub open spec fn text(self) -> Option<Seq<char>> {
        match self {
            JsonModel::Text(s) => Some(s),
            _ => None,
        }
    }

    /// The text of a string value, and the empty text for any other.
    pub open spec fn text_or_empty(self) -> Seq<char> {
        match self {
            JsonModel::Text(s) => s,
            _ => Seq::empty(),
        }
    }

    /// The integer of a number value that fits 64 bits.
    pub open spec fn integer(self) -> Option<i64> {
        match self {
            JsonModel::Number(n) => n,
            _ => None,
        }
    }

    /// The items of an array value.
    pub open spec fn items(self) -> Option<Seq<JsonModel>> {
        match self {
            JsonModel::Array(items) => Some(items),
            _ => None,
        }
    }

    /// Whether the value can be written: its numbers are integers, and it
    /// nests no deeper than `depth` arrays and objects.
    pub open spec fn writable(self, depth: nat) -> bool
        decreases depth,
    {
        match self {
            JsonModel::Number(n) => n is Some,
            JsonModel::Array(items) => depth > 0 && forall|i: int|
                0 <= i < items.len() ==> (#[trigger] items[i]).writable((depth - 1) as nat),
            JsonModel::Object(fields) => depth > 0 && forall|name: Seq<char>|
                fields.contains_key(name) ==> (#[trigger] fields[name]).writable(
                    (depth - 1) as nat,
                ),
            _ => true,
        }
    }
}

/// The arrays and objects that a text may nest to be read back.
pub const MAX_DEPTH: u32 = 127;

/// Entries under other names do not bear on a field.
proof fn lemma_field_untouched(s: Seq<(Seq<char>, JsonModel)>, from: int, name: Seq<char>)
    requires
        0 <= from <= s.len(),
        forall|i: int| from <= i < s.len() ==> (#[trigger] s[i]).0 != name,
    ensures
        fields_map(s).contains_key(name) == fields_map(s.take(from)).contains_key(name),
        fields_map(s).contains_key(name) ==> fields_map(s)[name] == fields_map(s.take(from))[name],
    decreases s.len(),
{
    if from == s.len() {
        assert(s.take(from) =~= s);
    } else {
        assert(s[s.len() - 1].0 != name);
        assert(s.drop_last().take(from) =~= s.take(from));
        lemma_field_untouched(s.drop_last(), from, name);
    }
}

impl Json {
    /// The field of this name, if the value is an object that has one.
    pub fn get(&self, name: &str) -> (out: Option<&Json>)
        ensures
            match out {
                Some(v) => self@.has(name@) && v@ == self@.field(name@),
                None => !self@.has(name@),
            },
    {
        match self {
            Json::Object(fields) => {
                let ghost entries = field_models(fields@);
                let mut i: usize = fields.len();
                while i > 0
                    invariant
                        i <= fields@.len(),
                        entries == field_models(fields@),
                        entries.len() == fields@.len(),
                        self@ == JsonModel::Object(fields_map(entries)),
                        forall|j: int| i <= j < entries.len() ==> (#[trigger] entries[j]).0 != name@,
                    decreases i,
                {
                    i -= 1;
                    assert(entries[i as int] == (fields@[i as int].0@, fields@[i as int].1@));
                    if str_eq(fields[i].0.as_str(), name) {
                        proof {
                            lemma_field_untouched(entries, i + 1, name@);
                            assert(entries.take(i + 1).last() == entries[i as int]);
                        }
                        return Some(&fields[i].1);
                    }
                }
                proof {
                    lemma_field_untouched(entries, 0, name@);
                    assert(entries.take(0).len() == 0);
                }
                None
            },
            _ => None,
        }
    }

    /// The field of this name; `Null` when there is none.
    pub fn field(&self, name: &str) -> (out: &Json)
        ensures
            out@ == self@.field(name@),
    {
        match self.get(name) {
            Some(v) => v,
            None => &Json::Null,
        }
    }

    /// The text of a string value.
    pub fn as_str(&self) -> (out: Option<&str>)
        ensures
            match out {
                Some(s) => self@.text() == Some(s@),
                None => self@.text() is None,
            },
    {
        match self {
            Json::Text(s) => Some(s.as_str()),
            _ => None,
        }
    }

    /// The text of a string value, and the empty text for any other.
    pub fn text_or_empty(&self) -> (out: &str)
        ensures
            out@ == self@.text_or_empty(),
    {
        match self {
            Json::Text(s) => s.as_str(),
            _ => {
                proof {
                    reveal_strlit("");
                    assert(""@ =~= Seq::<char>::empty());
                }
                ""
            },
        }
    }

    /// Whether the value is exactly this string.
    pub fn is_text(&self, text: &str) -> (out: bool)
        ensures
            out == (self@.text() == Some(text@)),
    {
        match self {
            Json::Text(s) => str_eq(s.as_str(), text),
            _ => false,
        }
    }

    /// The integer of a number value that fits 64 bits.
    pub fn as_i64(&self) -> (out: Option<i64>)
        ensures
            out == self@.integer(),
    {
        match self {
            Json::Number(n) => *n,
            _ => None,
        }
    }

    /// The items of an array value.
    pub fn as_array(&self) -> (out: Option<&Vec<Json>>)
        ensures
            match out {
                Some(items) => self@.items() == Some(item_models(items@)),
                None => self@.items() is None,
            },
    {
        match self {
            Json::Array(items) => Some(items),
            _ => None,
        }
    }
}

// ---- the outside value ----

/// The value type of `serde_json`.
#[verifier::external_type_specification]
#[verifier::external_body]
pub struct ExValue(serde_json::Value);

/// The error type of `serde_json`.
#[verifier::external_type_specification]
#[verifier::external_body]
pub struct ExJsonError(serde_json::Error);

/// What a `serde_json::Value` holds.
pub uninterp spec fn value_model(v: serde_json::Value) -> JsonModel;

/// What `serde_json::from_str` reads from a text; `None` when the text is not
/// JSON.
pub uninterp spec fn json_value(text: Seq<char>) -> Option<JsonModel>;

/// The text that `serde_json` writes for a value.
pub uninterp spec fn json_text(v: JsonModel) -> Seq<char>;

/// One level of a `serde_json::Value`.
enum Shape<'a> {
    Null,
    Bool(bool),
    Number(Option<i64>),
    Text(&'a String),
    Array(&'a Vec<serde_json::Value>),
    Object(Vec<(&'a String, &'a serde_json::Value)>),
}

/// What a value of this shape holds.
spec fn shape_model(shape: Shape) -> JsonModel {
    match shape {
        Shape::Null => JsonModel::Null,
        Shape::Bool(b) => JsonModel::Bool(b),
        Shape::Number(n) => JsonModel::Number(n),
        Shape::Text(s) => JsonModel::Text(s@),
        Shape::Array(items) => JsonModel::Array(
            items@.map_values(|v: serde_json::Value| value_model(v)),
        ),
        Shape::Object(fields) => JsonModel::Object(
            fields_map(
                fields@.map_values(
                    |f: (&String, &serde_json::Value)| (f.0@, value_model(*f.1)),
                ),
            ),
        ),
    }
}

/// Tells the variants of `serde_json::Value` apart. A number gives
/// `Number::as_i64`; the fields of a map come one by one, each name once.
#[verifier::external_body]
fn value_shape(v: &serde_json::Value) -> (shape: Shape)
    ensures
        shape_model(shape) == value_model(*v),
        shape matches Shape::Object(fields) ==> forall|i: int, j: int|
            0 <= i < j < fields@.len() ==> (#[trigger] fields@[i]).0@ != (#[trigger] fields@[j]).0@,
{
    match v {
        serde_json::Value::Null => Shape::Null,
        serde_json::Value::Bool(b) => Shape::Bool(*b),
        serde_json::Value::Number(n) => Shape::Number(n.as_i64()),
        serde_json::Value::String(s) => Shape::Text(s),
        serde_json::Value::Array(items) => Shape::Array(items),
        serde_json::Value::Object(fields) => Shape::Object(fields.iter().collect()),
    }
}

/// `serde_json::from_str` into its `Value`: the value that the text stands
/// for, or an error. The outcome depends on the text alone.
#[verifier::external_body]
fn value_from_text(text: &str) -> (r: Result<serde_json::Value, serde_json::Error>)
    ensures
        match r {
            Ok(v) => json_value(text@) == Some(value_model(v)),
            Err(_) => json_value(text@) is None,
        },
{
    serde_json::from_str(text)
}

proof fn lemma_distinct_fields(s: Seq<(Seq<char>, JsonModel)>, i: int)
    requires
        0 <= i < s.len(),
        forall|a: int, b: int|
            0 <= a < b < s.len() ==> (#[trigger] s[a]).0 != (#[trigger] s[b]).0,
    ensures
        fields_map(s).contains_key(s[i].0),
        fields_map(s)[s[i].0] == s[i].1,
    decreases s.len(),
{
    if i < s.len() - 1 {
        assert(s.drop_last()[i] == s[i]);
        lemma_distinct_fields(s.drop_last(), i);
        assert(s[i].0 != s[s.len() - 1].0);
    }
}

proof fn lemma_fields_finite(s: Seq<(Seq<char>, JsonModel)>)
    ensures
        fields_map(s).dom().finite(),
    decreases s.len(),
{
    if s.len() > 0 {
        lemma_fields_finite(s.drop_last());
    }
}

/// Copy a `serde_json::Value` into plain data.
fn json_from_value(v: &serde_json::Value) -> (out: Json)
    ensures
        out@ == value_model(*v),
    decreases value_model(*v),
{
    let ghost model = value_model(*v);
    match value_shape(v) {
        Shape::Null => Json::Null,
        Shape::Bool(b) => Json::Bool(b),
        Shape::Number(n) => Json::Number(n),
        Shape::Text(s) => Json::Text(s.clone()),
        Shape::Array(items) => {
            let mut out: Vec<Json> = Vec::new();
            for i in 0..items.len()
                invariant
                    model == value_model(*v),
                    model == JsonModel::Array(
                        items@.map_values(|v: serde_json::Value| value_model(v)),
                    ),
                    out@.len() == i,
                    forall|j: int| 0 <= j < i ==> (#[trigger] out@[j])@ == value_model(items@[j]),
            {
                proof {
                    assert(model->Array_0[i as int] == value_model(items@[i as int]));
                    assert(decreases_to!(model => model->Array_0[i as int]));
                }
                let item = json_from_value(&items[i]);
                out.push(item);
            }
            let result = Json::Array(out);
            assert(item_models(out@) =~= model->Array_0);
            result
        },
        Shape::Object(fields) => {
            let mut out: Vec<(String, Json)> = Vec::new();
            let ghost pairs = fields@.map_values(
                |f: (&String, &serde_json::Value)| (f.0@, value_model(*f.1)),
            );
            proof {
                lemma_fields_finite(pairs);
                assert forall|a: int, b: int| 0 <= a < b < pairs.len() implies (
                #[trigger] pairs[a]).0 != (#[trigger] pairs[b]).0 by {
                    assert(fields@[a].0@ != fields@[b].0@);
                }
            }
            for i in 0..fields.len()
                invariant
                    model == value_model(*v),
                    model == JsonModel::Object(fields_map(pairs)),
                    fields_map(pairs).dom().finite(),
                    pairs == fields@.map_values(
                        |f: (&String, &serde_json::Value)| (f.0@, value_model(*f.1)),
                    ),
                    forall|a: int, b: int|
                        0 <= a < b < pairs.len() ==> (#[trigger] pairs[a]).0 != (
                        #[trigger] pairs[b]).0,
                    out@.len() == i,
                    forall|j: int|
                        0 <= j < i ==> ((#[trigger] out@[j]).0@, out@[j].1@) == pairs[j],
            {
                proof {
                    lemma_distinct_fields(pairs, i as int);
                    assert(decreases_to!(model => model->Object_0[pairs[i as int].0]));
                }
                let item = json_from_value(fields[i].1);
                out.push((fields[i].0.clone(), item));
                assert(pairs[i as int] == (fields@[i as int].0@, value_model(*fields@[i as int].1)));
            }
            let result = Json::Object(out);
            assert(field_models(out@) =~= pairs);
            result
        },
    }
}

/// Read a JSON text; `None` when it is not JSON.
pub fn parse_json(text: &str) -> (out: Option<Json>)
    ensures
        match out {
            Some(v) => json_value(text@) == Some(v@),
            None => json_value(text@) is None,
        },
{
    match value_from_text(text) {
        Ok(v) => Some(json_from_value(&v)),
        Err(_) => None,
    }
}

/// The map type of `serde_json`.
#[verifier::external_type_specification]
#[verifier::external_body]
#[verifier::reject_recursive_types(K)]
#[verifier::reject_recursive_types(V)]
pub struct ExFieldMap<K, V>(serde_json::Map<K, V>);

/// The fields that a `serde_json::Map` holds.
pub uninterp spec fn map_model(map: serde_json::Map<String, serde_json::Value>) -> Map<
    Seq<char>,
    JsonModel,
>;

/// `serde_json::Map::new`: a map without fields.
#[verifier::external_body]
fn map_new() -> (map: serde_json::Map<String, serde_json::Value>)
    ensures
        map_model(map) == fields_map(Seq::empty()),
{
    serde_json::Map::new()
}

/// `serde_json::Map::insert`: the field of that name now has the given value,
/// whether there was one before or not.
#[verifier::external_body]
fn map_insert(
    map: &mut serde_json::Map<String, serde_json::Value>,
    name: String,
    value: serde_json::Value,
)
    ensures
        map_model(*final(map)) == map_model(*old(map)).insert(name@, value_model(value)),
{
    map.insert(name, value);
}

/// The parts that one level of a `serde_json::Value` is made of.
enum Parts {
    Null,
    Bool(bool),
    Number(i64),
    Text(String),
    Array(Vec<serde_json::Value>),
    Object(serde_json::Map<String, serde_json::Value>),
}

/// What a value made of these parts holds.
spec fn parts_model(parts: Parts) -> JsonModel {
    match parts {
        Parts::Null => JsonModel::Null,
        Parts::Bool(b) => JsonModel::Bool(b),
        Parts::Number(n) => JsonModel::Number(Some(n)),
        Parts::Text(s) => JsonModel::Text(s@),
        Parts::Array(items) => JsonModel::Array(
            items@.map_values(|v: serde_json::Value| value_model(v)),
        ),
        Parts::Object(map) => JsonModel::Object(map_model(map)),
    }
}

/// Builds a `serde_json::Value` of the given variant; an integer by
/// `Value::from`.
#[verifier::external_body]
fn value_of(parts: Parts) -> (v: serde_json::Value)
    ensures
        value_model(v) == parts_model(parts),
{
    match parts {
        Parts::Null => serde_json::Value::Null,
        Parts::Bool(b) => serde_json::Value::Bool(b),
        Parts::Number(n) => serde_json::Value::from(n),
        Parts::Text(s) => serde_json::Value::String(s),
        Parts::Array(items) => serde_json::Value::Array(items),
        Parts::Object(map) => serde_json::Value::Object(map),
    }
}

/// `Value::to_string`: the compact text of a value. The text depends on what
/// the value holds alone, and `serde_json::from_str` reads the same value back
/// from it: integers are written in full, strings are escaped, and the nesting
/// is within the depth that the reader allows.
#[verifier::external_body]
fn value_text(v: &serde_json::Value) -> (text: String)
    requires
        value_model(*v).writable(MAX_DEPTH as nat),
    ensures
        text@ == json_text(value_model(*v)),
        json_value(text@) == Some(value_model(*v)),
{
    v.to_string()
}

/// Every field of an object is some entry of the list it was made from.
proof fn lemma_field_origin(s: Seq<(Seq<char>, JsonModel)>, name: Seq<char>)
    requires
        fields_map(s).contains_key(name),
    ensures
        exists|i: int| 0 <= i < s.len() && #[trigger] s[i] == (name, fields_map(s)[name]),
    decreases s.len(),
{
    if s.last().0 == name {
        assert(s[s.len() - 1] == (name, fields_map(s)[name]));
    } else {
        lemma_field_origin(s.drop_last(), name);
        let i = choose|i: int|
            0 <= i < s.len() - 1 && #[trigger] s.drop_last()[i] == (
                name,
                fields_map(s.drop_last())[name],
            );
        assert(s[i] == (name, fields_map(s)[name]));
    }
}

impl Json {
    /// Whether the value can be written, replaced fields too.
    pub open spec fn writable(self, depth: nat) -> bool
        decreases depth,
    {
        match self {
            Json::Number(n) => n is Some,
            Json::Array(items) => depth > 0 && forall|i: int|
                0 <= i < items@.len() ==> (#[trigger] items@[i]).writable((depth - 1) as nat),
            Json::Object(fields) => depth > 0 && forall|i: int|
                0 <= i < fields@.len() ==> (#[trigger] fields@[i]).1.writable((depth - 1) as nat),
            _ => true,
        }
    }
}

proof fn lemma_writable(v: Json, depth: nat)
    requires
        v.writable(depth),
    ensures
        v@.writable(depth),
    decreases depth,
{
    match v {
        Json::Array(items) => {
            let models = item_models(items@);
            assert forall|i: int| 0 <= i < models.len() implies (#[trigger] models[i]).writable(
                (depth - 1) as nat,
            ) by {
                lemma_writable(items@[i], (depth - 1) as nat);
            }
        },
        Json::Object(fields) => {
            let entries = field_models(fields@);
            let map = fields_map(entries);
            assert forall|name: Seq<char>| map.contains_key(name) implies (
            #[trigger] map[name]).writable((depth - 1) as nat) by {
                lemma_field_origin(entries, name);
                let i = choose|i: int|
                    0 <= i < entries.len() && #[trigger] entries[i] == (name, map[name]);
                lemma_writable(fields@[i].1, (depth - 1) as nat);
            }
        },
        _ => {},
    }
}

/// Copy plain data into a `serde_json::Value`.
fn value_from_json(v: &Json, Ghost(depth): Ghost<nat>) -> (out: serde_json::Value)
    requires
        v.writable(depth),
    ensures
        value_model(out) == v@,
    decreases depth,
{
    match v {
        Json::Null => value_of(Parts::Null),
        Json::Bool(b) => value_of(Parts::Bool(*b)),
        Json::Number(n) => match n {
            Some(n) => value_of(Parts::Number(*n)),
            None => value_of(Parts::Null),
        },
        Json::Text(s) => value_of(Parts::Text(s.clone())),
        Json::Array(items) => {
            let mut out: Vec<serde_json::Value> = Vec::new();
            for i in 0..items.len()
                invariant
                    v is Array,
                    v->Array_0 == *items,
                    v.writable(depth),
                    out@.len() == i,
                    forall|j: int| 0 <= j < i ==> value_model(#[trigger] out@[j]) == items@[j]@,
            {
                out.push(value_from_json(&items[i], Ghost((depth - 1) as nat)));
            }
            let parts = Parts::Array(out);
            assert(parts_model(parts)->Array_0 =~= item_models(items@));
            value_of(parts)
        },
        Json::Object(fields) => {
            let mut map = map_new();
            let ghost entries = field_models(fields@);
            assert(entries.take(0) =~= Seq::<(Seq<char>, JsonModel)>::empty());
            for i in 0..fields.len()
                invariant
                    v is Object,
                    v->Object_0 == *fields,
                    v.writable(depth),
                    entries == field_models(fields@),
                    map_model(map) == fields_map(entries.take(i as int)),
            {
                let item = value_from_json(&fields[i].1, Ghost((depth - 1) as nat));
                map_insert(&mut map, fields[i].0.clone(), item);
                proof {
                    assert(entries.take(i + 1).drop_last() =~= entries.take(i as int));
                    assert(entries.take(i + 1).last() == (fields@[i as int].0@, fields@[i as int].1@));
                }
            }
            assert(entries.take(entries.len() as int) =~= entries);
            value_of(Parts::Object(map))
        },
    }
}

/// Write a value as JSON text. Reading the text gives the value back.
pub fn write_json(v: &Json) -> (text: String)
    requires
        v.writable(MAX_DEPTH as nat),
    ensures
        text@ == json_text(v@),
        json_value(text@) == Some(v@),
{
    proof {
        lemma_writable(*v, MAX_DEPTH as nat);
    }
    value_text(&value_from_json(v, Ghost(MAX_DEPTH as nat)))
}

} // verus!

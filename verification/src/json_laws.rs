//! Laws of JSON values: what each kind of value says, and what its fields are.

use vstd::prelude::*;

use crate::json::{field_models, fields_map, item_models, Json, JsonModel};

verus! {

/// A field of an object is what the object holds under that name, and `Null`
/// where it holds nothing; a value that is no object has no fields.
pub proof fn law_field_is_what_the_object_holds(
    fields: Map<Seq<char>, JsonModel>,
    name: Seq<char>,
    other: JsonModel,
)
    requires
        !(other is Object),
    ensures
        JsonModel::Object(fields).has(name) == fields.contains_key(name),
        fields.contains_key(name) ==> JsonModel::Object(fields).field(name) == fields[name],
        !fields.contains_key(name) ==> JsonModel::Object(fields).field(name) == JsonModel::Null,
        !other.has(name),
        other.field(name) == JsonModel::Null,
{
}

/// A string says its text whole, whatever its length, and nothing else has a
/// text.
pub proof fn law_only_strings_have_a_text(text: Seq<char>, other: JsonModel)
    requires
        !(other is Text),
    ensures
        JsonModel::Text(text).text() == Some(text),
        JsonModel::Text(text).text_or_empty() == text,
        other.text() is None,
        other.text_or_empty().len() == 0,
{
}

/// A number gives its integer whole, whatever its size, and nothing else has
/// one.
pub proof fn law_only_numbers_have_an_integer(n: Option<i64>, other: JsonModel)
    requires
        !(other is Number),
    ensures
        JsonModel::Number(n).integer() == n,
        other.integer() is None,
{
}

/// An array has its items, all of them and in order, and nothing else has
/// items.
pub proof fn law_only_arrays_have_items(items: Seq<JsonModel>, other: JsonModel)
    requires
        !(other is Array),
    ensures
        JsonModel::Array(items).items() == Some(items),
        other.items() is None,
{
}

/// Setting a field of an object changes that field and no other.
pub proof fn law_fields_are_apart(
    fields: Map<Seq<char>, JsonModel>,
    name: Seq<char>,
    value: JsonModel,
    other: Seq<char>,
)
    requires
        other != name,
    ensures
        JsonModel::Object(fields.insert(name, value)).field(name) == value,
        JsonModel::Object(fields.insert(name, value)).field(other) == JsonModel::Object(
            fields,
        ).field(other),
{
}

/// A value says what it is made of: the same kind, the same truth, number or
/// text.
pub proof fn law_plain_values_say_what_they_hold(b: bool, n: Option<i64>, text: String)
    ensures
        Json::Null@ == JsonModel::Null,
        Json::Bool(b)@ == JsonModel::Bool(b),
        Json::Number(n)@ == JsonModel::Number(n),
        Json::Text(text)@ == JsonModel::Text(text@),
{
}

proof fn lemma_item_models(items: Seq<Json>, i: int)
    requires
        0 <= i < items.len(),
    ensures
        item_models(items).len() == items.len(),
        item_models(items)[i] == items[i]@,
{
}

/// An array says what its items say, each at its place.
pub proof fn law_array_says_its_items(items: Vec<Json>, i: int)
    requires
        0 <= i < items@.len(),
    ensures
        Json::Array(items)@ matches JsonModel::Array(models) && models.len() == items@.len()
            && models[i] == items@[i]@,
{
    lemma_item_models(items@, i);
}

/// An array without items says so.
pub proof fn law_empty_array_says_nothing(items: Vec<Json>)
    requires
        items@.len() == 0,
    ensures
        Json::Array(items)@ matches JsonModel::Array(models) && models.len() == 0,
{
}

/// An object has a field for each name that its entries have, and of two
/// entries with one name the later counts: the last entry decides on its own
/// name and on no other.
pub proof fn law_last_entry_counts(
    fields: Vec<(String, Json)>,
    fewer: Vec<(String, Json)>,
    name: Seq<char>,
)
    requires
        fields@.len() > 0,
        fewer@ == fields@.drop_last(),
    ensures
        Json::Object(fields)@.field(fields@.last().0@) == fields@.last().1@,
        Json::Object(fields)@.has(fields@.last().0@),
        name != fields@.last().0@ ==> Json::Object(fields)@.field(name) == Json::Object(
            fewer,
        )@.field(name) && Json::Object(fields)@.has(name) == Json::Object(fewer)@.has(name),
{
    let all = field_models(fields@);
    assert(all.drop_last() =~= field_models(fewer@));
    assert(all.last() == (fields@.last().0@, fields@.last().1@));
    assert(fields_map(all) == fields_map(all.drop_last()).insert(all.last().0, all.last().1));
}

/// An object without entries has no fields.
pub proof fn law_empty_object_has_no_fields(fields: Vec<(String, Json)>, name: Seq<char>)
    requires
        fields@.len() == 0,
    ensures
        Json::Object(fields)@ is Object,
        !Json::Object(fields)@.has(name),
{
}

} // verus!

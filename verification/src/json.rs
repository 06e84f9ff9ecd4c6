//! JSON documents.

use crate::text::same;
use vstd::prelude::*;

verus! {

/// A JSON value.  The fields of an object stand in the order in which they were written.
#[derive(Debug)]
pub enum Json {
    /// Nothing.
    Null,
    /// A truth value.
    Bool(bool),
    /// A natural number.
    Number(u64),
    /// An integer.
    Integer(i64),
    /// A text.
    Text(String),
    /// A value that is in JSON form already.
    Raw(String),
    /// A list.
    List(Vec<Json>),
    /// An object.
    Object(Vec<(String, Json)>),
}

/// The contents of a [`Json`].
#[verifier::ext_equal]
pub enum JsonView {
    /// Nothing.
    Null,
    /// A truth value.
    Bool(bool),
    /// A natural number.
    Number(u64),
    /// An integer.
    Integer(i64),
    /// A text.
    Text(Seq<char>),
    /// A value that is in JSON form already.
    Raw(Seq<char>),
    /// A list.
    List(Seq<JsonView>),
    /// An object: names and values.
    Object(Seq<(Seq<char>, JsonView)>),
}

/// The contents of a JSON value.
pub open spec fn json_view(json: Json) -> JsonView
    decreases json,
{
    match json {
        Json::Null => JsonView::Null,
        Json::Bool(value) => JsonView::Bool(value),
        Json::Number(value) => JsonView::Number(value),
        Json::Integer(value) => JsonView::Integer(value),
        Json::Text(value) => JsonView::Text(value@),
        Json::Raw(value) => JsonView::Raw(value@),
        Json::List(items) => JsonView::List(
            Seq::new(
                items@.len(),
                |i: int|
                    if 0 <= i < items@.len() {
                        json_view(items@[i])
                    } else {
                        JsonView::Null
                    },
            ),
        ),
        Json::Object(fields) => JsonView::Object(
            Seq::new(
                fields@.len(),
                |i: int|
                    if 0 <= i < fields@.len() {
                        (fields@[i].0@, json_view(fields@[i].1))
                    } else {
                        (Seq::empty(), JsonView::Null)
                    },
            ),
        ),
    }
}

impl View for Json {
    type V = JsonView;

    open spec fn view(&self) -> JsonView {
        json_view(*self)
    }
}

/// The contents of a list of values.
pub open spec fn list_view(items: Seq<Json>) -> Seq<JsonView> {
    items.map_values(|item: Json| item@)
}

/// The contents of the fields of an object.
pub open spec fn fields_view(fields: Seq<(String, Json)>) -> Seq<(Seq<char>, JsonView)> {
    fields.map_values(|field: (String, Json)| (field.0@, field.1@))
}

/// A list of values.
pub fn list(items: Vec<Json>) -> (res: Json)
    ensures
        res@ == JsonView::List(list_view(items@)),
{
    let res = Json::List(items);
    proof {
        assert(res@->List_0 =~= list_view(items@));
    }
    res
}

/// An object of fields.
pub fn object(fields: Vec<(String, Json)>) -> (res: Json)
    ensures
        res@ == JsonView::Object(fields_view(fields@)),
{
    let res = Json::Object(fields);
    proof {
        assert(res@->Object_0 =~= fields_view(fields@));
    }
    res
}

/// Appends a value to a list.
pub fn push_item(items: &mut Vec<Json>, item: Json)
    ensures
        list_view(final(items)@) == list_view(old(items)@).push(item@),
{
    let ghost before = list_view(items@);
    items.push(item);
    assert(list_view(items@) =~= before.push(item@));
}

/// Appends a field to an object.
pub fn push_field(fields: &mut Vec<(String, Json)>, name: &str, value: Json)
    ensures
        fields_view(final(fields)@) == fields_view(old(fields)@).push((name@, value@)),
{
    let ghost before = fields_view(fields@);
    fields.push((name.to_owned(), value));
    assert(fields_view(fields@) =~= before.push((name@, value@)));
}

/// The fields of an object without any.
pub fn no_fields() -> (res: Vec<(String, Json)>)
    ensures
        fields_view(res@) == Seq::<(Seq<char>, JsonView)>::empty(),
{
    let res: Vec<(String, Json)> = Vec::new();
    assert(fields_view(res@) =~= Seq::empty());
    res
}

/// A text, or nothing.
pub open spec fn optional(value: Option<Seq<char>>) -> JsonView {
    match value {
        Some(value) => JsonView::Text(value),
        None => JsonView::Null,
    }
}

/// A text.
pub fn string(value: &str) -> (res: Json)
    ensures
        res@ == JsonView::Text(value@),
{
    Json::Text(value.to_owned())
}

/// A text, or nothing.
pub fn optional_string(value: &Option<String>) -> (res: Json)
    ensures
        res@ == optional(crate::error::shown(*value)),
{
    match value {
        Some(value) => string(value),
        None => Json::Null,
    }
}

/// The first field with a name.
pub open spec fn found(fields: Seq<(Seq<char>, JsonView)>, name: Seq<char>, from: int) -> Option<
    JsonView,
>
    decreases fields.len() - from,
{
    if from < 0 || from >= fields.len() {
        None
    } else if fields[from].0 == name {
        Some(fields[from].1)
    } else {
        found(fields, name, from + 1)
    }
}

impl Json {
    /// The field of an object with a name.
    pub fn get(&self, name: &str) -> (res: Option<&Json>)
        ensures
            match self@ {
                JsonView::Object(fields) => match (res, found(fields, name@, 0)) {
                    (Some(value), Some(wanted)) => value@ == wanted,
                    (None, None) => true,
                    _ => false,
                },
                _ => res is None,
            },
    {
        if let Json::Object(fields) = self {
            let ghost shown = self@->Object_0;
            let mut i: usize = 0;
            while i < fields.len()
                invariant
                    i <= fields@.len(),
                    self@ == JsonView::Object(shown),
                    *self == Json::Object(*fields),
                    found(shown, name@, i as int) == found(shown, name@, 0),
                decreases fields@.len() - i,
            {
                assert(shown[i as int] == (fields@[i as int].0@, fields@[i as int].1@));
                if same(&fields[i].0, name) {
                    return Some(&fields[i].1);
                }
                i += 1;
            }
        }
        None
    }

    /// The text, if the value is one.
    pub fn as_str(&self) -> (res: Option<&str>)
        ensures
            match self@ {
                JsonView::Text(value) => res is Some && res->Some_0@ == value,
                _ => res is None,
            },
    {
        match self {
            Json::Text(value) => Some(value.as_str()),
            _ => None,
        }
    }
}

// ---- reading ----

/// Whether a text is a JSON document.
pub uninterp spec fn is_json(document: Seq<char>) -> bool;

/// Whether a JSON document is an object with a field of a name.
pub uninterp spec fn json_has_field(document: Seq<char>, name: Seq<char>) -> bool;

/// The natural number that a field of an object in a field of a JSON document holds.
pub uninterp spec fn json_number(document: Seq<char>, outer: Seq<char>, name: Seq<char>) -> Option<u64>;

/// The truth value that a field of a JSON document holds.
pub uninterp spec fn json_bool_field(document: Seq<char>, name: Seq<char>) -> Option<bool>;

/// Whether `serde_json::from_str` reads a text as a `serde_json::Value`.  The contract claims only
/// that this depends on nothing but the text.
#[verifier::external_body]
pub(crate) fn reads_as_json(document: &str) -> (res: bool)
    ensures
        res == is_json(document@),
{
    serde_json::from_str::<serde_json::Value>(document).is_ok()
}

/// Whether `serde_json::Value::get` finds a field in what `serde_json::from_str` reads.  The contract
/// claims that this depends on nothing but the text and the name, and that only a document has
/// fields.
#[verifier::external_body]
pub(crate) fn has_field(document: &str, name: &str) -> (res: bool)
    ensures
        res == json_has_field(document@, name@),
        res ==> is_json(document@),
{
    serde_json::from_str::<serde_json::Value>(document).is_ok_and(|value| value.get(name).is_some())
}

/// The number that `serde_json::Value::get`, twice, and `Value::as_u64` find in what
/// `serde_json::from_str` reads.  The contract claims that it depends on nothing but the text and the
/// names, and that there is one only where there is the outer field.
#[verifier::external_body]
pub(crate) fn number_field(document: &str, outer: &str, name: &str) -> (res: Option<u64>)
    ensures
        res == json_number(document@, outer@, name@),
        res is Some ==> json_has_field(document@, outer@),
{
    let value: serde_json::Value = serde_json::from_str(document).ok()?;
    value.get(outer)?.get(name)?.as_u64()
}

/// The truth value that `serde_json::Value::get` and `Value::as_bool` find in what
/// `serde_json::from_str` reads.  The contract claims that it depends on nothing but the text and the
/// name, and that there is one only where there is the field.
#[verifier::external_body]
pub(crate) fn bool_field(document: &str, name: &str) -> (res: Option<bool>)
    ensures
        res == json_bool_field(document@, name@),
        res is Some ==> json_has_field(document@, name@),
{
    let value: serde_json::Value = serde_json::from_str(document).ok()?;
    value.get(name)?.as_bool()
}

/// A field is found by its name, the first of that name, and in objects alone; a text is read from a
/// text alone.
pub proof fn law_the_first_field_of_a_name_is_found(
    json: &Json,
    name: &str,
    res: Option<&Json>,
    text: Option<&str>,
    i: int,
)
    requires
        call_ensures(Json::get, (json, name), res),
        call_ensures(Json::as_str, (json,), text),
        0 <= i,
        json@ matches JsonView::Object(fields) ==> i <= fields.len() && forall|j: int|
            0 <= j < i ==> (#[trigger] fields[j]).0 != name@,
    ensures
        !(json@ is Object) ==> res is None,
        json@ matches JsonView::Object(fields) ==> {
            &&& i == fields.len() ==> res is None
            &&& i < fields.len() && fields[i].0 == name@ ==> res is Some && res->Some_0@
                == fields[i].1
        },
        text is Some <==> json@ is Text,
        text is Some ==> json@ == JsonView::Text(text->Some_0@),
{
    if let JsonView::Object(fields) = json@ {
        lemma_passed_over(fields, name@, 0, i);
    }
}

proof fn lemma_passed_over(
    fields: Seq<(Seq<char>, JsonView)>,
    name: Seq<char>,
    from: int,
    to: int,
)
    requires
        0 <= from <= to <= fields.len(),
        forall|j: int| from <= j < to ==> (#[trigger] fields[j]).0 != name,
    ensures
        found(fields, name, from) == found(fields, name, to),
    decreases to - from,
{
    if from < to {
        assert(fields[from].0 != name);
        lemma_passed_over(fields, name, from + 1, to);
    }
}

/// A list holds its items and an object its fields, each as it was given and in order; a text that is
/// missing is no value.
pub proof fn law_values_hold_what_they_were_made_of(
    items: Vec<Json>,
    of_items: Json,
    fields: Vec<(String, Json)>,
    of_fields: Json,
    value: &Option<String>,
    of_value: Json,
    i: int,
)
    requires
        call_ensures(list, (items,), of_items),
        call_ensures(object, (fields,), of_fields),
        call_ensures(optional_string, (value,), of_value),
    ensures
        of_items@ is List && of_items@->List_0.len() == items@.len(),
        0 <= i < items@.len() ==> of_items@->List_0[i] == items@[i]@,
        of_fields@ is Object && of_fields@->Object_0.len() == fields@.len(),
        0 <= i < fields@.len() ==> of_fields@->Object_0[i] == (fields@[i].0@, fields@[i].1@),
        value matches Some(text) ==> of_value@ == JsonView::Text(text@),
        *value is None ==> of_value@ == JsonView::Null,
{
}

} // verus!

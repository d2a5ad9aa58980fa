//! JSON objects of plain values, as runs and studies keep their settings.

use crate::scalar::Scalar;
use crate::text::{copy_of, views};
use vstd::prelude::*;

verus! {

/// A plain value of a JSON object.
#[derive(Debug)]
pub enum JsonValue {
    Null,
    Flag(bool),
    Integer(u64),
    Double(Scalar),
    /// A double that has been written out.
    Number(String),
    Text(String),
}

/// A plain value, with its text as a sequence of characters.
pub enum JsonView {
    Null,
    Flag(bool),
    Integer(u64),
    Double(Scalar),
    Number(Seq<char>),
    Text(Seq<char>),
}

impl View for JsonValue {
    type V = JsonView;

    open spec fn view(&self) -> JsonView {
        match self {
            JsonValue::Null => JsonView::Null,
            JsonValue::Flag(flag) => JsonView::Flag(*flag),
            JsonValue::Integer(n) => JsonView::Integer(*n),
            JsonValue::Double(value) => JsonView::Double(*value),
            JsonValue::Number(text) => JsonView::Number(text@),
            JsonValue::Text(text) => JsonView::Text(text@),
        }
    }
}

/// A key with its value.
#[derive(Debug)]
pub struct JsonField {
    pub key: String,
    pub value: JsonValue,
}

impl View for JsonField {
    type V = (Seq<char>, JsonView);

    open spec fn view(&self) -> (Seq<char>, JsonView) {
        (self.key@, self.value@)
    }
}

/// The views of a list of fields.
pub open spec fn field_views(fields: Seq<JsonField>) -> Seq<(Seq<char>, JsonView)> {
    fields.map_values(|field: JsonField| field@)
}

/// JSON has no infinities and no NaN: in their place stands null.
pub open spec fn double_view(value: Scalar) -> JsonView {
    if value.finite() {
        JsonView::Double(value)
    } else {
        JsonView::Null
    }
}

/// A number that may be missing.
pub open spec fn optional_double_view(value: Option<Scalar>) -> JsonView {
    match value {
        Some(value) => double_view(value),
        None => JsonView::Null,
    }
}

/// A count that may be missing.
pub open spec fn optional_integer_view(value: Option<u64>) -> JsonView {
    match value {
        Some(n) => JsonView::Integer(n),
        None => JsonView::Null,
    }
}

/// A flag that may be missing.
pub open spec fn optional_flag_view(value: Option<bool>) -> JsonView {
    match value {
        Some(flag) => JsonView::Flag(flag),
        None => JsonView::Null,
    }
}

impl JsonValue {
    /// The value of a number.
    pub fn double(value: Scalar) -> (result: JsonValue)
        ensures
            result@ == double_view(value),
    {
        if value.is_finite() {
            JsonValue::Double(value)
        } else {
            JsonValue::Null
        }
    }

    /// The value of a number that may be missing.
    pub fn optional_double(value: Option<Scalar>) -> (result: JsonValue)
        ensures
            result@ == optional_double_view(value),
    {
        match value {
            Some(value) => JsonValue::double(value),
            None => JsonValue::Null,
        }
    }

    /// The value of a count that may be missing.
    pub fn optional_integer(value: Option<u64>) -> (result: JsonValue)
        ensures
            result@ == optional_integer_view(value),
    {
        match value {
            Some(n) => JsonValue::Integer(n),
            None => JsonValue::Null,
        }
    }

    /// The value of a flag that may be missing.
    pub fn optional_flag(value: Option<bool>) -> (result: JsonValue)
        ensures
            result@ == optional_flag_view(value),
    {
        match value {
            Some(flag) => JsonValue::Flag(flag),
            None => JsonValue::Null,
        }
    }
}

/// A field of that key.
pub fn json_field(key: &str, value: JsonValue) -> (result: JsonField)
    ensures
        result@ == (key@, value@),
{
    JsonField { key: copy_of(key), value }
}

/// No key occurs twice.
pub open spec fn distinct_keys(fields: Seq<(Seq<char>, JsonView)>) -> bool {
    forall|i: int, j: int|
        0 <= i < j < fields.len() ==> (#[trigger] fields[i]).0 != (#[trigger] fields[j]).0
}

/// The double that a value holds.
pub open spec fn double_in(value: JsonView) -> Option<Scalar> {
    match value {
        JsonView::Double(value) => Some(value),
        _ => None,
    }
}

/// The doubles of fields, each in the place of its field.
pub open spec fn doubles_in(fields: Seq<(Seq<char>, JsonView)>) -> Seq<Option<Scalar>> {
    fields.map_values(|field: (Seq<char>, JsonView)| double_in(field.1))
}

/// The doubles of fields, each in the place of its field.
pub fn doubles_of(fields: &Vec<JsonField>) -> (result: Vec<Option<Scalar>>)
    ensures
        result@ == doubles_in(field_views(fields@)),
{
    let mut result: Vec<Option<Scalar>> = Vec::new();
    let mut i: usize = 0;
    while i < fields.len()
        invariant
            i <= fields@.len(),
            result@ == doubles_in(field_views(fields@)).take(i as int),
        decreases fields@.len() - i,
    {
        let double = match &fields[i].value {
            JsonValue::Double(value) => Some(*value),
            _ => None,
        };
        result.push(double);
        proof {
            assert(field_views(fields@)[i as int] == fields@[i as int]@);
            assert(doubles_in(field_views(fields@)).take(i + 1) =~= doubles_in(
                field_views(fields@),
            ).take(i as int).push(double));
        }
        i += 1;
    }
    proof {
        assert(doubles_in(field_views(fields@)).take(i as int) =~= doubles_in(
            field_views(fields@),
        ));
    }
    result
}

/// A field, with its double written out as `text`.
pub open spec fn written_field(field: (Seq<char>, JsonView), text: Seq<char>) -> (
    Seq<char>,
    JsonView,
) {
    match field.1 {
        JsonView::Double(_) => (field.0, JsonView::Number(text)),
        _ => field,
    }
}

/// The fields, with the double of each written out as the text in its place.
pub open spec fn written_fields(
    fields: Seq<(Seq<char>, JsonView)>,
    texts: Seq<Seq<char>>,
) -> Seq<(Seq<char>, JsonView)> {
    Seq::new(fields.len(), |i: int| written_field(fields[i], texts[i]))
}

/// The fields, with the double of each written out as the text in its place. The
/// other texts are passed over.
pub fn write_doubles(fields: Vec<JsonField>, texts: &Vec<String>) -> (result: Vec<JsonField>)
    requires
        texts@.len() == fields@.len(),
    ensures
        field_views(result@) == written_fields(field_views(fields@), views(texts@)),
{
    let ghost wanted = written_fields(field_views(fields@), views(texts@));
    let mut rest = fields;
    let mut result: Vec<JsonField> = Vec::new();
    let mut i: usize = 0;
    while i < texts.len()
        invariant
            i <= texts@.len(),
            texts@.len() == fields@.len(),
            rest@ == fields@.skip(i as int),
            wanted == written_fields(field_views(fields@), views(texts@)),
            field_views(result@) == wanted.take(i as int),
        decreases texts@.len() - i,
    {
        let field = rest.remove(0);
        let JsonField { key, value } = field;
        let value = match value {
            JsonValue::Double(_) => JsonValue::Number(copy_of(texts[i].as_str())),
            other => other,
        };
        let ghost before = field_views(result@);
        result.push(JsonField { key, value });
        proof {
            assert(views(texts@)[i as int] == texts@[i as int]@);
            assert(field_views(fields@)[i as int] == fields@[i as int]@);
            assert(result@.last()@ == wanted[i as int]);
            assert(field_views(result@) =~= before.push(result@.last()@));
            assert(wanted.take(i + 1) =~= wanted.take(i as int).push(wanted[i as int]));
            assert(rest@ =~= fields@.skip(i + 1));
        }
        i += 1;
    }
    proof {
        assert(wanted.take(i as int) =~= wanted);
    }
    result
}

/// No double is left to be written out.
pub open spec fn all_written(fields: Seq<(Seq<char>, JsonView)>) -> bool {
    forall|i: int| 0 <= i < fields.len() ==> !((#[trigger] fields[i]).1 is Double)
}

/// No value is a double, written out or not.
pub open spec fn without_doubles(fields: Seq<(Seq<char>, JsonView)>) -> bool {
    forall|i: int|
        0 <= i < fields.len() ==> !((#[trigger] fields[i]).1 is Double) && !(fields[i].1 is Number)
}

/// What `to_string` of the crate `serde_json` makes of an object with these fields, or
/// what its parser has against a double that was written out.
pub uninterp spec fn json_object_text(fields: Seq<(Seq<char>, JsonView)>) -> Result<
    Seq<char>,
    Seq<char>,
>;

/// What the crate `serde_json` reads as an unsigned integer under a key of an
/// object given as text: `from_str`, then `Value::get`, then `Value::as_u64`.
/// `None` where the text is no JSON, or the key or the integer is missing.
pub uninterp spec fn json_u64_field(text: Seq<char>, key: Seq<char>) -> Option<u64>;

/// Every count of the fields is read back under its key.
pub open spec fn counts_read_back(text: Seq<char>, fields: Seq<(Seq<char>, JsonView)>) -> bool {
    forall|i: int|
        0 <= i < fields.len() && (#[trigger] fields[i]).1 is Integer ==> json_u64_field(
            text,
            fields[i].0,
        ) == Some(fields[i].1->Integer_0)
}

/// Writing doubles out touches neither keys nor counts.
pub proof fn counts_outlast_writing(
    text: Seq<char>,
    fields: Seq<(Seq<char>, JsonView)>,
    texts: Seq<Seq<char>>,
)
    ensures
        all_written(written_fields(fields, texts)),
        distinct_keys(fields) ==> distinct_keys(written_fields(fields, texts)),
        counts_read_back(text, written_fields(fields, texts)) ==> counts_read_back(text, fields),
{
    let written = written_fields(fields, texts);
    assert forall|i: int| 0 <= i < fields.len() implies (#[trigger] written[i]).0 == fields[i].0 && (
    fields[i].1 is Integer ==> written[i] == fields[i]) by {
        assert(written[i] == written_field(fields[i], texts[i]));
    }
    if counts_read_back(text, written) {
        assert forall|i: int|
            0 <= i < fields.len() && (#[trigger] fields[i]).1 is Integer implies json_u64_field(
            text,
            fields[i].0,
        ) == Some(fields[i].1->Integer_0) by {
            assert(written[i].1 is Integer);
        }
    }
}

/// A text that was written, or the message of the error in its place.
pub open spec fn text_view(result: Result<String, String>) -> Result<Seq<char>, Seq<char>> {
    match result {
        Ok(text) => Ok(text@),
        Err(message) => Err(message@),
    }
}

/// `serde_json::to_string` of an object, where a double that was written out is first
/// read as a number by `serde_json::from_str`. With the feature `float_roundtrip` that is
/// the double nearest to what was written. The outcome depends on the fields alone.
/// Without doubles it is a text; an unsigned integer is read back from the text under
/// its key where no key occurs twice. Which texts are numbers is not said.
#[verifier::external_body]
fn write_json_object(fields: &Vec<JsonField>) -> (result: Result<String, String>)
    requires
        all_written(field_views(fields@)),
    ensures
        text_view(result) == json_object_text(field_views(fields@)),
        without_doubles(field_views(fields@)) ==> result is Ok,
        distinct_keys(field_views(fields@)) ==> (result matches Ok(text) ==> counts_read_back(
            text@,
            field_views(fields@),
        )),
{
    let mut object = serde_json::Map::new();
    for field in fields.iter() {
        let value = match &field.value {
            JsonValue::Flag(flag) => serde_json::Value::from(*flag),
            JsonValue::Integer(n) => serde_json::Value::from(*n),
            JsonValue::Number(text) => {
                serde_json::Value::Number(serde_json::from_str(text).map_err(|e| e.to_string())?)
            },
            JsonValue::Text(text) => serde_json::Value::from(text.as_str()),
            JsonValue::Null | JsonValue::Double(_) => serde_json::Value::Null,
        };
        object.insert(field.key.clone(), value);
    }
    serde_json::to_string(&serde_json::Value::Object(object)).map_err(|e| e.to_string())
}

/// `serde_json::from_str`, `Value::get` and `Value::as_u64`. The result depends on
/// the text and the key alone.
#[verifier::external_body]
fn read_json_u64(text: &str, key: &str) -> (result: Option<u64>)
    ensures
        result == json_u64_field(text@, key@),
{
    let value: serde_json::Value = serde_json::from_str(text).ok()?;
    value.get(key)?.as_u64()
}

/// The text of an object whose doubles have been written out.
pub fn object_text(fields: &Vec<JsonField>) -> (result: Result<String, String>)
    requires
        all_written(field_views(fields@)),
    ensures
        text_view(result) == json_object_text(field_views(fields@)),
        without_doubles(field_views(fields@)) ==> result is Ok,
        distinct_keys(field_views(fields@)) ==> (result matches Ok(text) ==> counts_read_back(
            text@,
            field_views(fields@),
        )),
{
    write_json_object(fields)
}

/// The unsigned integer under a key.
pub fn unsigned_field(text: &str, key: &str) -> (result: Option<u64>)
    ensures
        result == json_u64_field(text@, key@),
{
    read_json_u64(text, key)
}

/// A finite double is a number, any other has no value, and so has a setting that is not
/// there; counts and flags that are there keep their value.
pub proof fn values_are_kept_or_null(value: Scalar, n: u64, flag: bool)
    ensures
        value.finite() ==> double_view(value) == JsonView::Double(value),
        !value.finite() ==> double_view(value) is Null,
        optional_double_view(Some(value)) == double_view(value),
        optional_double_view(None) is Null,
        optional_integer_view(Some(n)) == JsonView::Integer(n),
        optional_integer_view(None) is Null,
        optional_flag_view(Some(flag)) == JsonView::Flag(flag),
        optional_flag_view(None) is Null,
{
}

/// Writing doubles out replaces each double by the text in its place, and touches neither
/// keys nor other values.
pub proof fn only_doubles_are_written_out(
    fields: Seq<(Seq<char>, JsonView)>,
    texts: Seq<Seq<char>>,
    i: int,
)
    requires
        0 <= i < fields.len(),
    ensures
        written_fields(fields, texts).len() == fields.len(),
        written_fields(fields, texts)[i].0 == fields[i].0,
        fields[i].1 is Double ==> written_fields(fields, texts)[i].1 == JsonView::Number(texts[i]),
        !(fields[i].1 is Double) ==> written_fields(fields, texts)[i].1 == fields[i].1,
        doubles_in(fields).len() == fields.len(),
        fields[i].1 matches JsonView::Double(value) ==> doubles_in(fields)[i] == Some(value),
        !(fields[i].1 is Double) ==> doubles_in(fields)[i] is None,
{
}

} // verus!

//! The JSON documents that are exchanged with the scoring service: arrays of
//! flat objects. Reading and writing JSON text is left to `serde_json`.

use vstd::prelude::*;

verus! {

/// The value of one member of an object.
#[derive(Debug, PartialEq, Eq)]
pub enum JsonField {
    Null,
    Bool(bool),
    /// A number; its value where it is a whole number from 0 to 2^64 - 1.
    Number(Option<u64>),
    Text(String),
    /// An array or an object.
    Nested,
}

/// A member's value as contracts speak of it.
pub enum FieldModel {
    Null,
    Bool(bool),
    Number(Option<u64>),
    Text(Seq<char>),
    Nested,
}

impl DeepView for JsonField {
    type V = FieldModel;

    open spec fn deep_view(&self) -> FieldModel {
        match *self {
            JsonField::Null => FieldModel::Null,
            JsonField::Bool(b) => FieldModel::Bool(b),
            JsonField::Number(n) => FieldModel::Number(n),
            JsonField::Text(s) => FieldModel::Text(s@),
            JsonField::Nested => FieldModel::Nested,
        }
    }
}

impl View for JsonField {
    type V = FieldModel;

    open spec fn view(&self) -> FieldModel {
        self.deep_view()
    }
}

/// One member of an object: a key and its value.
#[derive(Debug, PartialEq, Eq)]
pub struct JsonMember {
    pub key: String,
    pub value: JsonField,
}

/// A member as contracts speak of it.
pub struct MemberModel {
    pub key: Seq<char>,
    pub value: FieldModel,
}

impl DeepView for JsonMember {
    type V = MemberModel;

    open spec fn deep_view(&self) -> MemberModel {
        MemberModel { key: self.key@, value: self.value@ }
    }
}

impl View for JsonMember {
    type V = MemberModel;

    open spec fn view(&self) -> MemberModel {
        self.deep_view()
    }
}

#[verifier::external_type_specification]
#[verifier::external_body]
pub struct ExJsonError(serde_json::Error);

/// The array of objects that `text` is read as, object by object and member
/// by member, where `serde_json` reads it as one.
pub uninterp spec fn json_rows(text: Seq<char>) -> Option<Seq<Seq<MemberModel>>>;

/// The JSON text that `serde_json` writes for an array of objects.
pub uninterp spec fn json_text(rows: Seq<Seq<MemberModel>>) -> Seq<char>;

/// `serde_json::from_str` at the type of a list of `serde_json::Map`: reads
/// `text` as a JSON array of objects. The contract claims that the outcome
/// is a function of the text alone, and gives it the name `json_rows`: the
/// members of each object where the text reads as such an array, nothing
/// where `serde_json` reports an error. A number is taken over with the
/// value that `Number::as_u64` gives; an array or an object as a member's
/// value is taken over as `Nested`.
#[verifier::external_body]
pub(crate) fn read_rows(text: &str) -> (rows: Result<Vec<Vec<JsonMember>>, serde_json::Error>)
    ensures
        match rows {
            Ok(read) => json_rows(text@) == Some(read.deep_view()),
            Err(_) => json_rows(text@) is None,
        },
{
    let parsed: Vec<serde_json::Map<String, serde_json::Value>> = serde_json::from_str(text)?;
    Ok(parsed.into_iter().map(|object| object.into_iter().map(|(key, value)| JsonMember {
        key,
        value: match value {
            serde_json::Value::Null => JsonField::Null,
            serde_json::Value::Bool(b) => JsonField::Bool(b),
            serde_json::Value::Number(n) => JsonField::Number(n.as_u64()),
            serde_json::Value::String(s) => JsonField::Text(s),
            serde_json::Value::Array(_) => JsonField::Nested,
            serde_json::Value::Object(_) => JsonField::Nested,
        },
    }).collect()).collect())
}

/// `serde_json::to_string` on a list of `serde_json::Map`: writes an array
/// of objects as JSON text. The contract claims that the text is a function
/// of the members alone, and gives it the name `json_text`. A number
/// without a value and a nested value are handed to `serde_json` as `null`.
#[verifier::external_body]
pub(crate) fn write_rows(rows: &Vec<Vec<JsonMember>>) -> (text: String)
    ensures
        text@ == json_text(rows.deep_view()),
{
    let objects: Vec<serde_json::Map<String, serde_json::Value>> = rows.iter().map(
        |row| row.iter().map(|member| (
            member.key.clone(),
            match &member.value {
                JsonField::Bool(b) => serde_json::Value::Bool(*b),
                JsonField::Number(Some(n)) => serde_json::Value::from(*n),
                JsonField::Text(s) => serde_json::Value::String(s.clone()),
                _ => serde_json::Value::Null,
            },
        )).collect(),
    ).collect();
    serde_json::to_string(&objects).unwrap_or_default()
}

} // verus!

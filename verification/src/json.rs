//! JSON documents as the data sources hold them, and how a JSON value
//! becomes a typed value.
use vstd::prelude::*;
use vstd::string::*;
use crate::abi::{coerce, read_value};
use crate::errors::{DeployerError, ErrorView};
use crate::text::same_text;
use crate::types::{SolType, TypedValue, ValueModel};
use crate::variables::result_model;

verus! {

/// A JSON value. A number holds its text. An array and an object hold,
/// beside their parts, their own compact JSON text.
#[derive(Debug, PartialEq, Eq)]
pub enum JsonValue {
    Null,
    Bool(bool),
    Number(String),
    String(String),
    Array(Vec<JsonValue>, String),
    Object(Vec<(String, JsonValue)>, String),
}

/// The mathematical value of a `JsonValue`.
pub enum JsonModel {
    Null,
    Bool(bool),
    Number(Seq<char>),
    String(Seq<char>),
    Array(Seq<JsonModel>, Seq<char>),
    Object(Seq<(Seq<char>, JsonModel)>, Seq<char>),
}

impl JsonValue {
    /// The mathematical value that this value stands for.
    pub open spec fn model(self) -> JsonModel
        decreases self,
    {
        match self {
            JsonValue::Null => JsonModel::Null,
            JsonValue::Bool(b) => JsonModel::Bool(b),
            JsonValue::Number(text) => JsonModel::Number(text@),
            JsonValue::String(text) => JsonModel::String(text@),
            JsonValue::Array(items, text) => JsonModel::Array(
                Seq::new(
                    items@.len(),
                    |i: int|
                        if 0 <= i < items@.len() {
                            items@[i].model()
                        } else {
                            JsonModel::Null
                        },
                ),
                text@,
            ),
            JsonValue::Object(fields, text) => JsonModel::Object(
                Seq::new(
                    fields@.len(),
                    |i: int|
                        if 0 <= i < fields@.len() {
                            (fields@[i].0@, fields@[i].1.model())
                        } else {
                            (Seq::empty(), JsonModel::Null)
                        },
                ),
                text@,
            ),
        }
    }

    /// The model of an array holds the models of its items, and the model
    /// of an object the keys and the models of its fields.
    pub proof fn lemma_parts(self)
        ensures
            self matches JsonValue::Array(items, text) ==> self@ == JsonModel::Array(
                Seq::new(items@.len(), |i: int| items@[i]@),
                text@,
            ),
            self matches JsonValue::Object(fields, text) ==> self@ == JsonModel::Object(
                Seq::new(fields@.len(), |i: int| (fields@[i].0@, fields@[i].1@)),
                text@,
            ),
    {
        match self {
            JsonValue::Array(items, text) => {
                assert(self@->Array_0 =~= Seq::new(items@.len(), |i: int| items@[i]@));
            },
            JsonValue::Object(fields, text) => {
                assert(self@->Object_0 =~= Seq::new(
                    fields@.len(),
                    |i: int| (fields@[i].0@, fields@[i].1@),
                ));
            },
            _ => {},
        }
    }
}

impl View for JsonValue {
    type V = JsonModel;

    open spec fn view(&self) -> JsonModel {
        self.model()
    }
}

/// The position of the first field with the given key.
pub open spec fn is_first_field(fields: Seq<(Seq<char>, JsonModel)>, key: Seq<char>, i: int) -> bool {
    &&& 0 <= i < fields.len()
    &&& fields[i].0 == key
    &&& forall|j: int| 0 <= j < i ==> (#[trigger] fields[j]).0 != key
}

impl JsonModel {
    /// The field `key` of an object: the first one of that name. `None` for
    /// an object without such a field and for any other value.
    pub open spec fn field(self, key: Seq<char>) -> Option<JsonModel> {
        match self {
            JsonModel::Object(fields, _) => if exists|i: int| is_first_field(fields, key, i) {
                Some(fields[choose|i: int| is_first_field(fields, key, i)].1)
            } else {
                None
            },
            _ => None,
        }
    }

    /// The element `index` of an array. `None` past its end and for any
    /// other value.
    pub open spec fn element(self, index: nat) -> Option<JsonModel> {
        match self {
            JsonModel::Array(items, _) => if index < items.len() {
                Some(items[index as int])
            } else {
                None
            },
            _ => None,
        }
    }
}

impl JsonValue {
    /// The field `key` of an object.
    pub fn get_field(&self, key: &str) -> (found: Option<&JsonValue>)
        ensures
            match self@.field(key@) {
                Some(model) => found matches Some(value) && value@ == model,
                None => found is None,
            },
    {
        proof {
            self.lemma_parts();
        }
        match self {
            JsonValue::Object(fields, _) => {
                let ghost models = self@->Object_0;
                let mut i: usize = 0;
                while i < fields.len()
                    invariant
                        i <= fields@.len(),
                        self@ is Object,
                        self@->Object_0 == models,
                        models == Seq::new(fields@.len(), |k: int| (fields@[k].0@, fields@[k].1@)),
                        forall|j: int| 0 <= j < i ==> (#[trigger] models[j]).0 != key@,
                    decreases fields@.len() - i,
                {
                    if same_text(fields[i].0.as_str(), key) {
                        proof {
                            assert(is_first_field(models, key@, i as int));
                            let chosen = choose|k: int| is_first_field(models, key@, k);
                            assert(chosen == i) by {
                                if chosen < i {
                                    assert(models[chosen].0 != key@);
                                }
                                if i < chosen {
                                    assert(models[i as int].0 != key@);
                                }
                            }
                        }
                        return Some(&fields[i].1);
                    }
                    i += 1;
                }
                proof {
                    if exists|k: int| is_first_field(models, key@, k) {
                        let k = choose|k: int| is_first_field(models, key@, k);
                        assert(models[k].0 != key@);
                    }
                }
                None
            },
            _ => None,
        }
    }

    /// The element `index` of an array.
    pub fn get_element(&self, index: usize) -> (found: Option<&JsonValue>)
        ensures
            match self@.element(index as nat) {
                Some(model) => found matches Some(value) && value@ == model,
                None => found is None,
            },
    {
        proof {
            self.lemma_parts();
        }
        match self {
            JsonValue::Array(items, _) => {
                if index < items.len() {
                    Some(&items[index])
                } else {
                    None
                }
            },
            _ => None,
        }
    }
}

impl JsonValue {
    /// A copy of this value.
    pub fn duplicate(&self) -> (copy: JsonValue)
        ensures
            copy@ == self@,
        decreases self,
    {
        proof {
            self.lemma_parts();
        }
        match self {
            JsonValue::Null => JsonValue::Null,
            JsonValue::Bool(b) => JsonValue::Bool(*b),
            JsonValue::Number(text) => JsonValue::Number(text.clone()),
            JsonValue::String(text) => JsonValue::String(text.clone()),
            JsonValue::Array(items, text) => {
                let copy = JsonValue::Array(JsonValue::duplicate_items(items), text.clone());
                proof {
                    copy.lemma_parts();
                    assert(copy@->Array_0 =~= self@->Array_0);
                }
                copy
            },
            JsonValue::Object(fields, text) => {
                let copy = JsonValue::Object(JsonValue::duplicate_fields(fields), text.clone());
                proof {
                    copy.lemma_parts();
                    assert(copy@->Object_0 =~= self@->Object_0);
                }
                copy
            },
        }
    }

    /// Copies of the values of a list.
    pub fn duplicate_items(items: &Vec<JsonValue>) -> (copies: Vec<JsonValue>)
        ensures
            copies@.len() == items@.len(),
            forall|j: int| 0 <= j < items@.len() ==> copies@[j]@ == items@[j]@,
        decreases items,
    {
        let mut copies: Vec<JsonValue> = Vec::new();
        let mut i: usize = 0;
        while i < items.len()
            invariant
                i <= items@.len(),
                copies@.len() == i,
                forall|j: int| 0 <= j < i ==> copies@[j]@ == items@[j]@,
            decreases items@.len() - i,
        {
            let item = items[i].duplicate();
            copies.push(item);
            i += 1;
        }
        copies
    }

    /// Copies of the fields of an object.
    pub fn duplicate_fields(fields: &Vec<(String, JsonValue)>) -> (copies: Vec<(String, JsonValue)>)
        ensures
            copies@.len() == fields@.len(),
            forall|j: int|
                0 <= j < fields@.len() ==> copies@[j].0@ == fields@[j].0@ && copies@[j].1@
                    == fields@[j].1@,
        decreases fields,
    {
        let mut copies: Vec<(String, JsonValue)> = Vec::new();
        let mut i: usize = 0;
        while i < fields.len()
            invariant
                i <= fields@.len(),
                copies@.len() == i,
                forall|j: int|
                    0 <= j < i ==> copies@[j].0@ == fields@[j].0@ && copies@[j].1@
                        == fields@[j].1@,
            decreases fields@.len() - i,
        {
            assert(decreases_to!(fields => fields[i as int]));
            assert(decreases_to!(fields[i as int] => fields[i as int].1));
            let value = fields[i].1.duplicate();
            copies.push((fields[i].0.clone(), value));
            i += 1;
        }
        copies
    }
}

/// The text of the error for a string that cannot be taken over.
pub open spec fn string_conversion_message() -> Seq<char> {
    "Failed to convert string value"@
}

/// The text of the error for a number that is no unsigned integer.
pub open spec fn number_conversion_message(text: Seq<char>) -> Seq<char> {
    "Failed to convert number: "@ + text
}

/// The text of the error for an array whose text cannot be taken over.
pub open spec fn array_conversion_message() -> Seq<char> {
    "Failed to convert array to string"@
}

/// The text of the error for an object whose text cannot be taken over.
pub open spec fn object_conversion_message() -> Seq<char> {
    "Failed to convert object to string"@
}

/// The text of the error for a bytecode object that holds no hexadecimal text.
pub open spec fn bytecode_conversion_message() -> Seq<char> {
    "Failed to convert bytecode object"@
}

/// The text of the error for `null`.
pub open spec fn null_conversion_message() -> Seq<char> {
    "Cannot convert null value"@
}

/// The text starts with `0x`.
pub open spec fn has_hex_prefix(text: Seq<char>) -> bool {
    text.len() >= 2 && text[0] == '0' && text[1] == 'x'
}

/// The text read as a value of the type `ty`, or the failure
/// `Config(message)`.
pub open spec fn coerced_or(ty: Seq<char>, text: Seq<char>, message: Seq<char>) -> Result<
    ValueModel,
    ErrorView,
> {
    match read_value(ty, text) {
        Some(value) => Ok(value),
        None => Err(ErrorView::Config(message)),
    }
}

/// The typed value of a JSON string: an address where `0x` is followed by
/// 40 characters that read as one; else bytes where the text starts with
/// `0x` and reads as bytes; else a string.
pub open spec fn typed_string(text: Seq<char>) -> Result<ValueModel, ErrorView> {
    if has_hex_prefix(text) && text.len() == 42 && read_value("address"@, text) is Some {
        Ok(read_value("address"@, text)->0)
    } else if has_hex_prefix(text) && read_value("bytes"@, text) is Some {
        Ok(read_value("bytes"@, text)->0)
    } else {
        coerced_or("string"@, text, string_conversion_message())
    }
}

/// The typed value of a JSON value: a string as `typed_string` says, a
/// number as `uint256`, a boolean as it is; an object with a string under
/// `object` as the bytes of that string; any other object, and an array, as
/// the string of its JSON text. `null` has none.
pub open spec fn typed_json(value: JsonModel) -> Result<ValueModel, ErrorView> {
    match value {
        JsonModel::String(text) => typed_string(text),
        JsonModel::Number(text) => coerced_or("uint256"@, text, number_conversion_message(text)),
        JsonModel::Bool(b) => Ok(ValueModel::Bool(b)),
        JsonModel::Array(_, text) => coerced_or("string"@, text, array_conversion_message()),
        JsonModel::Object(_, text) => match value.field("object"@) {
            Some(JsonModel::String(bytecode)) => coerced_or(
                "bytes"@,
                bytecode,
                bytecode_conversion_message(),
            ),
            _ => coerced_or("string"@, text, object_conversion_message()),
        },
        JsonModel::Null => Err(ErrorView::Config(null_conversion_message())),
    }
}

fn coerce_or(ty: SolType, text: &str, message: String) -> (result: Result<TypedValue, DeployerError>)
    ensures
        result_model(result) == coerced_or(ty@, text@, message@),
{
    match coerce(&ty, text) {
        Ok(value) => Ok(value),
        Err(_) => Err(DeployerError::Config(message)),
    }
}

fn starts_with_hex_prefix(text: &str) -> (found: bool)
    ensures
        found == has_hex_prefix(text@),
{
    text.unicode_len() >= 2 && text.get_char(0) == '0' && text.get_char(1) == 'x'
}

/// Converts a JSON value to a typed value.
pub fn json_to_typed_value(value: &JsonValue) -> (result: Result<TypedValue, DeployerError>)
    ensures
        result_model(result) == typed_json(value@),
{
    match value {
        JsonValue::String(text) => {
            if starts_with_hex_prefix(text.as_str()) {
                if text.as_str().unicode_len() == 42 {
                    match coerce(&SolType::address(), text.as_str()) {
                        Ok(found) => {
                            return Ok(found);
                        },
                        Err(_) => {},
                    }
                }
                match coerce(&SolType::bytes(), text.as_str()) {
                    Ok(found) => {
                        return Ok(found);
                    },
                    Err(_) => {},
                }
            }
            coerce_or(
                SolType::string(),
                text.as_str(),
                String::from_str("Failed to convert string value"),
            )
        },
        JsonValue::Number(text) => coerce_or(
            SolType::uint256(),
            text.as_str(),
            String::from_str("Failed to convert number: ").concat(text.as_str()),
        ),
        JsonValue::Bool(b) => Ok(TypedValue::Bool(*b)),
        JsonValue::Array(_, text) => coerce_or(
            SolType::string(),
            text.as_str(),
            String::from_str("Failed to convert array to string"),
        ),
        JsonValue::Object(_, text) => {
            match value.get_field("object") {
                Some(JsonValue::String(bytecode)) => coerce_or(
                    SolType::bytes(),
                    bytecode.as_str(),
                    String::from_str("Failed to convert bytecode object"),
                ),
                _ => coerce_or(
                    SolType::string(),
                    text.as_str(),
                    String::from_str("Failed to convert object to string"),
                ),
            }
        },
        JsonValue::Null => Err(DeployerError::Config(String::from_str("Cannot convert null value"))),
    }
}

} // verus!

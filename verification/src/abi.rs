//! The bridge to `alloy`: reading texts as values, parsing signatures,
//! encoding calls, decoding returns and hashing.
//!
//! What `alloy` computes is not proved here. Each of its functions is called
//! in one small function whose contract gives the result a name, or states
//! it where a few lines can; the rest of the library is proved against those
//! contracts. Values cross the bridge node by node: the private functions at
//! the top of this file each build or take apart one node of an `alloy`
//! value, and which of them is called, and the recursion over the nodes, is
//! proved.
use vstd::prelude::*;
use vstd::string::*;
use alloy::dyn_abi::{DynSolType, DynSolValue, FunctionExt, JsonAbiExt};
use alloy::json_abi::{Constructor, Function};
use alloy::primitives::{Address, B256, I256, U256};
use crate::errors::{fails_with, DeployerError, ErrorView};
use crate::indexer::{param_models, AbiParam, ParamModel};
use crate::types::{
    all_well_formed, type_name_of_shape, value_models, SolType, TypedValue, ValueModel,
};

verus! {

/// `alloy::dyn_abi::DynSolValue`, a dynamic value of the ABI.
#[verifier::external_type_specification]
#[verifier::external_body]
pub struct ExDynSolValue(DynSolValue);

/// `alloy::json_abi::Param`, a parameter of a signature.
#[verifier::external_type_specification]
#[verifier::external_body]
pub struct ExParam(alloy::json_abi::Param);

/// What a `DynSolValue` holds: its variant and its fields, with an address
/// as its 20 bytes, an integer and fixed bytes as their 32-byte big-endian
/// word, and a function pointer as its 24 bytes.
pub uninterp spec fn abi_value(value: DynSolValue) -> ValueModel;

/// What an `alloy::json_abi::Param` holds: its name, its type and its
/// components.
pub uninterp spec fn abi_param(param: alloy::json_abi::Param) -> ParamModel;

/// What a list of dynamic values holds.
pub open spec fn abi_values(values: Seq<DynSolValue>) -> Seq<ValueModel> {
    Seq::new(values.len(), |i: int| abi_value(values[i]))
}

/// What a list of parameters holds.
pub open spec fn abi_params(params: Seq<alloy::json_abi::Param>) -> Seq<ParamModel> {
    Seq::new(params.len(), |i: int| abi_param(params[i]))
}

/// Tells whether `DynSolType::parse` accepts the text as the name of a type.
pub uninterp spec fn valid_sol_type(name: Seq<char>) -> bool;

/// The value that `DynSolType::coerce_str` reads from `text` for the type
/// that `DynSolType::parse` reads from `ty`; `None` where either fails.
pub uninterp spec fn coerced(ty: Seq<char>, text: Seq<char>) -> Option<ValueModel>;

/// A parsed function signature.
pub struct FunctionModel {
    pub name: Seq<char>,
    pub inputs: Seq<ParamModel>,
    pub outputs: Seq<ParamModel>,
}

/// What `Function::parse` reads from a function's signature.
pub uninterp spec fn parsed_function(signature: Seq<char>) -> Option<FunctionModel>;

/// The inputs that `Constructor::parse` reads from a constructor's
/// signature.
pub uninterp spec fn parsed_constructor(signature: Seq<char>) -> Option<Seq<ParamModel>>;

/// What `abi_encode_input` gives for the function and the arguments: the
/// selector, then the encoded arguments. `None` where the signature does
/// not parse or the arguments do not match its inputs.
pub uninterp spec fn encoded_call(signature: Seq<char>, args: Seq<ValueModel>) -> Option<Seq<u8>>;

/// What `abi_encode_input` gives for the constructor and the arguments:
/// the encoded arguments. `None` where the signature does not parse or the
/// arguments do not match its inputs.
pub uninterp spec fn encoded_constructor_args(signature: Seq<char>, args: Seq<ValueModel>) -> Option<
    Seq<u8>,
>;

/// What `abi_decode_output` reads from the returned bytes, by the outputs
/// of the function. `None` where the signature does not parse or the bytes
/// do not hold such values.
pub uninterp spec fn decoded_output(signature: Seq<char>, data: Seq<u8>) -> Option<Seq<ValueModel>>;

/// The Keccak-256 digest of the bytes, as `alloy::primitives::keccak256`
/// computes it.
pub uninterp spec fn keccak256_digest(data: Seq<u8>) -> Seq<u8>;

/// Builds `DynSolValue::Address` from the 20 bytes of an address, by
/// `Address::from_slice`, which takes exactly 20 bytes.
#[verifier::external_body]
fn address_to_alloy(bytes: &Vec<u8>) -> (out: DynSolValue)
    requires
        bytes@.len() == 20,
    ensures
        abi_value(out) == ValueModel::Address(bytes@),
{
    DynSolValue::Address(Address::from_slice(bytes))
}

/// Builds `DynSolValue::Bool`.
#[verifier::external_body]
fn bool_to_alloy(value: bool) -> (out: DynSolValue)
    ensures
        abi_value(out) == ValueModel::Bool(value),
{
    DynSolValue::Bool(value)
}

/// Builds `DynSolValue::Uint` from the 32 big-endian bytes of its word, by
/// `U256::from_be_slice`, which reads up to 32 bytes as one number.
#[verifier::external_body]
fn uint_to_alloy(word: &Vec<u8>, bits: usize) -> (out: DynSolValue)
    requires
        word@.len() == 32,
    ensures
        abi_value(out) == ValueModel::Uint(word@, bits),
{
    DynSolValue::Uint(U256::from_be_slice(word), bits)
}

/// Builds `DynSolValue::Int` from the 32 big-endian bytes of its word, by
/// `U256::from_be_slice` and `I256::from_raw`, which keeps the bits.
#[verifier::external_body]
fn int_to_alloy(word: &Vec<u8>, bits: usize) -> (out: DynSolValue)
    requires
        word@.len() == 32,
    ensures
        abi_value(out) == ValueModel::Int(word@, bits),
{
    DynSolValue::Int(I256::from_raw(U256::from_be_slice(word)), bits)
}

/// Builds `DynSolValue::FixedBytes` from the 32 bytes of its word, by
/// `B256::from_slice`, which takes exactly 32 bytes.
#[verifier::external_body]
fn fixed_bytes_to_alloy(word: &Vec<u8>, size: usize) -> (out: DynSolValue)
    requires
        word@.len() == 32,
    ensures
        abi_value(out) == ValueModel::FixedBytes(word@, size),
{
    DynSolValue::FixedBytes(B256::from_slice(word), size)
}

/// Builds `DynSolValue::Function` from the 24 bytes of a function pointer,
/// by `Function::from_slice`, which takes exactly 24 bytes.
#[verifier::external_body]
fn function_to_alloy(bytes: &Vec<u8>) -> (out: DynSolValue)
    requires
        bytes@.len() == 24,
    ensures
        abi_value(out) == ValueModel::Function(bytes@),
{
    DynSolValue::Function(alloy::primitives::Function::from_slice(bytes))
}

/// Builds `DynSolValue::Bytes` from a copy of the bytes.
#[verifier::external_body]
fn bytes_to_alloy(bytes: &Vec<u8>) -> (out: DynSolValue)
    ensures
        abi_value(out) == ValueModel::Bytes(bytes@),
{
    DynSolValue::Bytes(bytes.clone())
}

/// Builds `DynSolValue::String` from a copy of the text.
#[verifier::external_body]
fn string_to_alloy(text: &String) -> (out: DynSolValue)
    ensures
        abi_value(out) == ValueModel::String(text@),
{
    DynSolValue::String(text.clone())
}

/// Builds `DynSolValue::Array` from its elements.
#[verifier::external_body]
fn alloy_array(items: Vec<DynSolValue>) -> (out: DynSolValue)
    ensures
        abi_value(out) == ValueModel::Array(abi_values(items@)),
{
    DynSolValue::Array(items)
}

/// Builds `DynSolValue::FixedArray` from its elements.
#[verifier::external_body]
fn alloy_fixed_array(items: Vec<DynSolValue>) -> (out: DynSolValue)
    ensures
        abi_value(out) == ValueModel::FixedArray(abi_values(items@)),
{
    DynSolValue::FixedArray(items)
}

/// Builds `DynSolValue::Tuple` from its fields.
#[verifier::external_body]
fn alloy_tuple(items: Vec<DynSolValue>) -> (out: DynSolValue)
    ensures
        abi_value(out) == ValueModel::Tuple(abi_values(items@)),
{
    DynSolValue::Tuple(items)
}

/// Takes an address, a boolean, an integer, fixed bytes or a function
/// pointer out of a `DynSolValue`, byte for byte; `None` for any other
/// value. `to_vec` gives the 20 bytes of an `Address`, the 32 of a word and
/// the 24 of a function pointer; `to_be_bytes_vec` gives the 32 bytes of a
/// `U256`, and `into_raw` keeps the bits of an `I256`.
#[verifier::external_body]
fn word_from_alloy(value: &DynSolValue) -> (out: Option<TypedValue>)
    ensures
        match out {
            Some(v) => v@ == abi_value(*value) && v@.well_formed(),
            None => abi_value(*value) is Bytes || abi_value(*value) is String || abi_value(
                *value,
            ) is Array || abi_value(*value) is FixedArray || abi_value(*value) is Tuple,
        },
{
    match value {
        DynSolValue::Address(a) => Some(TypedValue::Address(a.to_vec())),
        DynSolValue::Bool(b) => Some(TypedValue::Bool(*b)),
        DynSolValue::Uint(u, n) => Some(TypedValue::Uint(u.to_be_bytes_vec(), *n)),
        DynSolValue::Int(i, n) => Some(TypedValue::Int(i.into_raw().to_be_bytes_vec(), *n)),
        DynSolValue::FixedBytes(w, n) => Some(TypedValue::FixedBytes(w.to_vec(), *n)),
        DynSolValue::Function(f) => Some(TypedValue::Function(f.to_vec())),
        _ => None,
    }
}

/// Takes the bytes out of `DynSolValue::Bytes` and the text out of
/// `DynSolValue::String`; `None` for any other value.
#[verifier::external_body]
fn text_from_alloy(value: &DynSolValue) -> (out: Option<TypedValue>)
    ensures
        match out {
            Some(v) => v@ == abi_value(*value) && (v is Bytes || v is String),
            None => !(abi_value(*value) is Bytes) && !(abi_value(*value) is String),
        },
{
    match value {
        DynSolValue::Bytes(b) => Some(TypedValue::Bytes(b.clone())),
        DynSolValue::String(s) => Some(TypedValue::String(s.clone())),
        _ => None,
    }
}

/// The elements of a `DynSolValue::Array`, by `DynSolValue::as_array`;
/// `None` for any other value.
#[verifier::external_body]
fn alloy_array_items(value: &DynSolValue) -> (items: Option<Vec<DynSolValue>>)
    ensures
        match items {
            Some(list) => abi_value(*value) == ValueModel::Array(abi_values(list@)),
            None => !(abi_value(*value) is Array),
        },
{
    value.as_array().map(|items| items.to_vec())
}

/// The elements of a `DynSolValue::FixedArray`, by
/// `DynSolValue::as_fixed_array`; `None` for any other value.
#[verifier::external_body]
fn alloy_fixed_array_items(value: &DynSolValue) -> (items: Option<Vec<DynSolValue>>)
    ensures
        match items {
            Some(list) => abi_value(*value) == ValueModel::FixedArray(abi_values(list@)),
            None => !(abi_value(*value) is FixedArray),
        },
{
    value.as_fixed_array().map(|items| items.to_vec())
}

/// The fields of a `DynSolValue::Tuple`, by `DynSolValue::as_tuple`; `None`
/// for any other value.
#[verifier::external_body]
fn alloy_tuple_items(value: &DynSolValue) -> (items: Option<Vec<DynSolValue>>)
    ensures
        match items {
            Some(list) => abi_value(*value) == ValueModel::Tuple(abi_values(list@)),
            None => !(abi_value(*value) is Tuple),
        },
{
    value.as_tuple().map(|items| items.to_vec())
}

/// The fields `name`, `ty` and `components` of an `alloy::json_abi::Param`.
#[verifier::external_body]
fn alloy_param_parts(param: &alloy::json_abi::Param) -> (parts: (
    String,
    String,
    Vec<alloy::json_abi::Param>,
))
    ensures
        abi_param(*param) == (ParamModel {
            name: parts.0@,
            ty: parts.1@,
            components: abi_params(parts.2@),
        }),
{
    (param.name.clone(), param.ty.clone(), param.components.clone())
}

/// Asks `DynSolType::parse` whether the text names a type.
#[verifier::external_body]
fn alloy_type_is_valid(name: &str) -> (ok: bool)
    ensures
        ok == valid_sol_type(name@),
{
    DynSolType::parse(name).is_ok()
}

/// Reads `text` as a value of the type named `ty`, by `DynSolType::parse`
/// and `DynSolType::coerce_str`: `None` where the name is no type, and
/// where the text is no value of that type.
///
/// `coerce_str` adds the exponent of an integer to the exponent of its unit
/// without a check, which overflows for an exponent close to the largest
/// machine integer. It reads an exponent only for an integer type, whose
/// name holds `int`, and only from the decimal digits that follow an `e`
/// or `E` and a sign; an exponent that large has ten digits or more. Such
/// texts are kept from the call.
#[verifier::external_body]
fn alloy_coerce(ty: &str, text: &str) -> (out: Option<DynSolValue>)
    requires
        !exponent_refused(ty@, text@),
    ensures
        match coerced(ty@, text@) {
            Some(model) => out matches Some(v) && abi_value(v) == model,
            None => out is None,
        },
{
    DynSolType::parse(ty).ok()?.coerce_str(text).ok()
}

/// Parses a function's signature by `Function::parse`, and hands out the
/// fields `name`, `inputs` and `outputs` of what it gives; `None` where it
/// fails.
#[verifier::external_body]
fn alloy_parse_function(signature: &str) -> (out: Option<
    (String, Vec<alloy::json_abi::Param>, Vec<alloy::json_abi::Param>),
>)
    ensures
        match parsed_function(signature@) {
            Some(model) => out matches Some(parts) && parts.0@ == model.name && abi_params(
                parts.1@,
            ) == model.inputs && abi_params(parts.2@) == model.outputs,
            None => out is None,
        },
{
    Function::parse(signature).ok().map(|f| (f.name, f.inputs, f.outputs))
}

/// Parses a constructor's signature by `Constructor::parse`, and hands out
/// the field `inputs` of what it gives; `None` where it fails.
#[verifier::external_body]
fn alloy_parse_constructor(signature: &str) -> (out: Option<Vec<alloy::json_abi::Param>>)
    ensures
        match parsed_constructor(signature@) {
            Some(model) => out matches Some(inputs) && abi_params(inputs@) == model,
            None => out is None,
        },
{
    Constructor::parse(signature).ok().map(|c| c.inputs)
}

/// Encodes a call by `Function::parse` and `JsonAbiExt::abi_encode_input`;
/// `None` where either fails.
#[verifier::external_body]
fn alloy_encode_call(signature: &str, args: &Vec<DynSolValue>) -> (out: Option<Vec<u8>>)
    ensures
        match encoded_call(signature@, abi_values(args@)) {
            Some(bytes) => out matches Some(data) && data@ == bytes,
            None => out is None,
        },
{
    Function::parse(signature).ok()?.abi_encode_input(args).ok()
}

/// Encodes the arguments of a constructor by `Constructor::parse` and
/// `JsonAbiExt::abi_encode_input`; `None` where either fails.
#[verifier::external_body]
fn alloy_encode_constructor(signature: &str, args: &Vec<DynSolValue>) -> (out: Option<Vec<u8>>)
    ensures
        match encoded_constructor_args(signature@, abi_values(args@)) {
            Some(bytes) => out matches Some(data) && data@ == bytes,
            None => out is None,
        },
{
    Constructor::parse(signature).ok()?.abi_encode_input(args).ok()
}

/// Decodes what a call returned by `Function::parse` and
/// `FunctionExt::abi_decode_output`; `None` where either fails.
#[verifier::external_body]
fn alloy_decode_output(signature: &str, data: &Vec<u8>) -> (out: Option<Vec<DynSolValue>>)
    ensures
        match decoded_output(signature@, data@) {
            Some(values) => out matches Some(list) && abi_values(list@) == values,
            None => out is None,
        },
{
    Function::parse(signature).ok()?.abi_decode_output(data).ok()
}

/// The Keccak-256 digest of the bytes, by `alloy::primitives::keccak256`,
/// whose result has 32 bytes.
#[verifier::external_body]
fn alloy_keccak256(data: &Vec<u8>) -> (digest: Vec<u8>)
    ensures
        digest@ == keccak256_digest(data@),
        digest@.len() == 32,
{
    alloy::primitives::keccak256(data).to_vec()
}

/// The name of the Solidity type of a value, by
/// `DynSolValue::sol_type_name`. It writes `address`, `bool`, `bytes`,
/// `string` and `function` for the variants of those names; `uint`, `int`
/// and `bytes` with the size in decimal behind them; the name of the first
/// item and `[]`, with the number of items between the brackets for a fixed
/// array; the names of the parts of a tuple in round brackets, with commas
/// between them and a comma behind the only part of a tuple of one. It
/// gives no name to an array without items, nor to a value that holds, as
/// the first item of a list or as a part of a tuple, a value without name.
#[verifier::external_body]
fn alloy_type_name(value: &DynSolValue) -> (name: Option<String>)
    ensures
        match type_name_of_shape(abi_value(*value)) {
            Some(written) => name matches Some(text) && text@ == written,
            None => name is None,
        },
{
    match value.sol_type_name() {
        Some(name) => Some(name.into_owned()),
        None => None,
    }
}

/// The name of the Solidity type of a well-formed value.
pub(crate) fn value_type_name(value: &TypedValue) -> (name: Option<String>)
    requires
        value@.well_formed(),
    ensures
        match type_name_of_shape(value@) {
            Some(written) => name matches Some(text) && text@ == written,
            None => name is None,
        },
{
    alloy_type_name(&to_alloy(value))
}

/// Hands a value to the ABI library.
fn to_alloy(value: &TypedValue) -> (out: DynSolValue)
    requires
        value@.well_formed(),
    ensures
        abi_value(out) == value@,
    decreases value, 1nat,
{
    proof {
        value.lemma_parts();
    }
    match value {
        TypedValue::Address(bytes) => address_to_alloy(bytes),
        TypedValue::Bool(b) => bool_to_alloy(*b),
        TypedValue::Uint(word, bits) => uint_to_alloy(word, *bits),
        TypedValue::Int(word, bits) => int_to_alloy(word, *bits),
        TypedValue::FixedBytes(word, size) => fixed_bytes_to_alloy(word, *size),
        TypedValue::Bytes(bytes) => bytes_to_alloy(bytes),
        TypedValue::String(text) => string_to_alloy(text),
        TypedValue::Function(bytes) => function_to_alloy(bytes),
        TypedValue::Array(items) => alloy_array(all_to_alloy(items)),
        TypedValue::FixedArray(items) => alloy_fixed_array(all_to_alloy(items)),
        TypedValue::Tuple(items) => alloy_tuple(all_to_alloy(items)),
    }
}

/// Hands a list of values to the ABI library.
fn all_to_alloy(values: &Vec<TypedValue>) -> (out: Vec<DynSolValue>)
    requires
        forall|i: int| 0 <= i < values@.len() ==> (#[trigger] value_models(values@)[i]).well_formed(),
    ensures
        abi_values(out@) == value_models(values@),
    decreases values, 0nat,
{
    let mut out: Vec<DynSolValue> = Vec::new();
    let mut i: usize = 0;
    while i < values.len()
        invariant
            i <= values@.len(),
            out@.len() == i,
            forall|j: int|
                0 <= j < values@.len() ==> (#[trigger] value_models(values@)[j]).well_formed(),
            forall|j: int| 0 <= j < i ==> abi_value(out@[j]) == values@[j]@,
        decreases values@.len() - i,
    {
        assert(value_models(values@)[i as int].well_formed());
        let converted = to_alloy(&values[i]);
        out.push(converted);
        i += 1;
    }
    assert(abi_values(out@) =~= value_models(values@));
    out
}

/// Takes a value over from the ABI library.
fn from_alloy(value: &DynSolValue) -> (out: TypedValue)
    ensures
        out@ == abi_value(*value),
        out@.well_formed(),
    decreases abi_value(*value), 1nat,
{
    match alloy_array_items(value) {
        Some(items) => {
            proof {
                let whole = abi_value(*value);
                assert(whole == ValueModel::Array(abi_values(items@)));
                assert(decreases_to!(whole => whole->Array_0));
            }
            let out = TypedValue::Array(all_from_alloy(&items));
            proof {
                out.lemma_parts();
                assert(out@ =~~= abi_value(*value));
            }
            return out;
        },
        None => {},
    }
    match alloy_fixed_array_items(value) {
        Some(items) => {
            proof {
                let whole = abi_value(*value);
                assert(whole == ValueModel::FixedArray(abi_values(items@)));
                assert(decreases_to!(whole => whole->FixedArray_0));
            }
            let out = TypedValue::FixedArray(all_from_alloy(&items));
            proof {
                out.lemma_parts();
                assert(out@ =~~= abi_value(*value));
            }
            return out;
        },
        None => {},
    }
    match alloy_tuple_items(value) {
        Some(items) => {
            proof {
                let whole = abi_value(*value);
                assert(whole == ValueModel::Tuple(abi_values(items@)));
                assert(decreases_to!(whole => whole->Tuple_0));
            }
            let out = TypedValue::Tuple(all_from_alloy(&items));
            proof {
                out.lemma_parts();
                assert(out@ =~~= abi_value(*value));
            }
            return out;
        },
        None => {},
    }
    match word_from_alloy(value) {
        Some(out) => out,
        None => match text_from_alloy(value) {
            Some(out) => out,
            None => {
                assert(false);
                TypedValue::Bool(false)
            },
        },
    }
}

/// Takes a list of values over from the ABI library.
fn all_from_alloy(values: &Vec<DynSolValue>) -> (out: Vec<TypedValue>)
    ensures
        value_models(out@) == abi_values(values@),
        forall|i: int| 0 <= i < out@.len() ==> (#[trigger] value_models(out@)[i]).well_formed(),
    decreases abi_values(values@), 0nat,
{
    let mut out: Vec<TypedValue> = Vec::new();
    let mut i: usize = 0;
    while i < values.len()
        invariant
            i <= values@.len(),
            out@.len() == i,
            forall|j: int| 0 <= j < i ==> out@[j]@ == abi_value(values@[j]),
            forall|j: int| 0 <= j < i ==> (#[trigger] out@[j])@.well_formed(),
        decreases values@.len() - i,
    {
        assert(abi_values(values@)[i as int] == abi_value(values@[i as int]));
        let converted = from_alloy(&values[i]);
        out.push(converted);
        i += 1;
    }
    assert(value_models(out@) =~= abi_values(values@));
    assert forall|i: int| 0 <= i < out@.len() implies (#[trigger] value_models(out@)[i]).well_formed() by {
        assert(out@[i]@.well_formed());
    }
    out
}

/// Takes a parameter over from the ABI library.
fn param_from_alloy(param: &alloy::json_abi::Param) -> (out: AbiParam)
    ensures
        out@ == abi_param(*param),
    decreases abi_param(*param), 1nat,
{
    let (name, ty, components) = alloy_param_parts(param);
    proof {
        let whole = abi_param(*param);
        assert(whole.components == abi_params(components@));
        assert(decreases_to!(whole => whole.components));
    }
    let out = AbiParam { name, ty, components: params_from_alloy(&components) };
    proof {
        out.lemma_components();
        assert(out@ =~~= abi_param(*param));
    }
    out
}

/// Takes a list of parameters over from the ABI library.
fn params_from_alloy(params: &Vec<alloy::json_abi::Param>) -> (out: Vec<AbiParam>)
    ensures
        param_models(out@) == abi_params(params@),
    decreases abi_params(params@), 0nat,
{
    let mut out: Vec<AbiParam> = Vec::new();
    let mut i: usize = 0;
    while i < params.len()
        invariant
            i <= params@.len(),
            out@.len() == i,
            forall|j: int| 0 <= j < i ==> out@[j]@ == abi_param(params@[j]),
        decreases params@.len() - i,
    {
        assert(abi_params(params@)[i as int] == abi_param(params@[i as int]));
        let converted = param_from_alloy(&params[i]);
        out.push(converted);
        i += 1;
    }
    assert(param_models(out@) =~= abi_params(params@));
    out
}

/// The name of the type holds `int`: the type is, or holds, an integer.
pub open spec fn names_integers(ty: Seq<char>) -> bool {
    exists|i: int| #[trigger] holds_int_at(ty, i)
}

/// The letters `int` stand in the name at `i`.
pub open spec fn holds_int_at(ty: Seq<char>, i: int) -> bool {
    0 <= i && i + 3 <= ty.len() && ty[i] == 'i' && ty[i + 1] == 'n' && ty[i + 2] == 't'
}

/// The number of digits from which an exponent is refused.
pub open spec fn exponent_limit() -> int {
    10
}

/// Where the digits of an exponent start whose `e` stands at `i`: behind
/// the `e`, and behind a sign where one follows it.
pub open spec fn exponent_digits_start(text: Seq<char>, i: int) -> int {
    if i + 1 < text.len() && (text[i + 1] == '+' || text[i + 1] == '-') {
        i + 2
    } else {
        i + 1
    }
}

/// An exponent of ten digits or more stands in the text at `i`: an `e` or
/// `E`, a sign or none, and ten decimal digits.
pub open spec fn long_exponent_at(text: Seq<char>, i: int) -> bool {
    &&& 0 <= i < text.len()
    &&& (text[i] == 'e' || text[i] == 'E')
    &&& exponent_digits_start(text, i) + exponent_limit() <= text.len()
    &&& forall|k: int|
        exponent_digits_start(text, i) <= k < exponent_digits_start(text, i) + exponent_limit()
            ==> '0' <= #[trigger] text[k] <= '9'
}

/// The text holds an exponent of ten digits or more.
pub open spec fn has_long_exponent(text: Seq<char>) -> bool {
    exists|i: int| #[trigger] long_exponent_at(text, i)
}

/// The text is refused as a value of the type before it is read: the type
/// holds an integer, and the text an exponent of ten digits or more. No
/// decimal number of 256 bits has such an exponent. What is refused beside
/// is a text that holds an `e` with ten decimal digits behind it elsewhere:
/// in a hexadecimal number, or in a string or in bytes that stand beside an
/// integer in a tuple or a list.
pub open spec fn exponent_refused(ty: Seq<char>, text: Seq<char>) -> bool {
    names_integers(ty) && has_long_exponent(text)
}

/// The value that `text` is read as for the type named `ty`: none for a
/// refused text, else what `coerce_str` reads.
pub open spec fn read_value(ty: Seq<char>, text: Seq<char>) -> Option<ValueModel> {
    if exponent_refused(ty, text) {
        None
    } else {
        coerced(ty, text)
    }
}

/// Tells whether the name of a type holds `int`.
pub fn names_integers_text(ty: &str) -> (found: bool)
    ensures
        found == names_integers(ty@),
{
    let n = ty.unicode_len();
    let mut i: usize = 0;
    while n - i >= 3
        invariant
            i <= n,
            n == ty@.len(),
            forall|j: int| 0 <= j < i ==> !holds_int_at(ty@, j),
        decreases n - i,
    {
        if ty.get_char(i) == 'i' && ty.get_char(i + 1) == 'n' && ty.get_char(i + 2) == 't' {
            assert(holds_int_at(ty@, i as int));
            return true;
        }
        i += 1;
    }
    false
}

/// Tells whether an exponent of ten digits or more stands in the text at
/// `i`.
fn long_exponent_starts(text: &str, i: usize) -> (found: bool)
    requires
        i < text@.len(),
    ensures
        found == long_exponent_at(text@, i as int),
{
    let n = text.unicode_len();
    let c = text.get_char(i);
    if c != 'e' && c != 'E' {
        return false;
    }
    let mut start: usize = i + 1;
    if start < n {
        let sign = text.get_char(start);
        if sign == '+' || sign == '-' {
            start = start + 1;
        }
    }
    assert(start == exponent_digits_start(text@, i as int));
    if n - start < 10 {
        return false;
    }
    let mut k: usize = start;
    while k < start + 10
        invariant
            start <= k <= start + 10 <= n,
            n == text@.len(),
            i < n,
            start == exponent_digits_start(text@, i as int),
            forall|j: int| start <= j < k ==> '0' <= #[trigger] text@[j] <= '9',
        decreases start + 10 - k,
    {
        let d = text.get_char(k);
        if d < '0' || d > '9' {
            assert(!('0' <= text@[k as int] <= '9'));
            return false;
        }
        k += 1;
    }
    true
}

/// Tells whether the text holds an exponent of ten digits or more.
pub fn has_long_exponent_text(text: &str) -> (found: bool)
    ensures
        found == has_long_exponent(text@),
{
    let n = text.unicode_len();
    let mut i: usize = 0;
    while i < n
        invariant
            i <= n,
            n == text@.len(),
            forall|j: int| 0 <= j < i ==> !long_exponent_at(text@, j),
        decreases n - i,
    {
        if long_exponent_starts(text, i) {
            return true;
        }
        i += 1;
    }
    false
}

/// The result is a well-formed value with the given model.
pub open spec fn gives_value(result: Result<TypedValue, DeployerError>, model: ValueModel) -> bool {
    match result {
        Ok(value) => value@ == model && value@.well_formed(),
        Err(_) => false,
    }
}

/// The result is a list of well-formed values with the given models.
pub open spec fn gives_values(result: Result<Vec<TypedValue>, DeployerError>, models: Seq<ValueModel>) -> bool {
    match result {
        Ok(values) => value_models(values@) == models && all_well_formed(value_models(values@)),
        Err(_) => false,
    }
}

/// The result is the given bytes.
pub open spec fn gives_bytes(result: Result<Vec<u8>, DeployerError>, bytes: Seq<u8>) -> bool {
    match result {
        Ok(data) => data@ == bytes,
        Err(_) => false,
    }
}

/// What stands for the value in the error for a type that does not parse.
pub open spec fn parse_error_text() -> Seq<char> {
    "parse error"@
}

/// The text of the error for an argument that is not well formed.
pub open spec fn malformed_argument_message() -> Seq<char> {
    "malformed argument"@
}

/// The text of the error for arguments that the signature does not accept.
pub open spec fn argument_mismatch_message() -> Seq<char> {
    "arguments do not match the signature"@
}

/// The text of the error for returned data that the outputs do not accept.
pub open spec fn undecodable_output_message() -> Seq<char> {
    "cannot decode the returned data"@
}

/// Tells whether the text names a Solidity type.
pub fn is_sol_type(name: &str) -> (ok: bool)
    ensures
        ok == valid_sol_type(name@),
{
    alloy_type_is_valid(name)
}

/// The type with the given name. Fails with `TypeConversion`, naming the
/// text and `parse error`, where the text names no type.
pub fn parse_sol_type(name: &str) -> (result: Result<SolType, DeployerError>)
    ensures
        match result {
            Ok(ty) => valid_sol_type(name@) && ty@ == name@,
            Err(e) => !valid_sol_type(name@) && e@ == (ErrorView::TypeConversion {
                expected: name@,
                actual: parse_error_text(),
            }),
        },
{
    if alloy_type_is_valid(name) {
        Ok(SolType::new(name))
    } else {
        Err(
            DeployerError::TypeConversion {
                expected: String::from_str(name),
                actual: String::from_str("parse error"),
            },
        )
    }
}

/// Reads `text` as a value of the type `ty`. Fails with `TypeConversion`,
/// naming the type and the text, where the text is no value of that type,
/// and where the type holds an integer and the text an exponent of ten
/// digits or more.
pub fn coerce(ty: &SolType, text: &str) -> (result: Result<TypedValue, DeployerError>)
    ensures
        match read_value(ty@, text@) {
            Some(model) => gives_value(result, model),
            None => fails_with(
                result,
                ErrorView::TypeConversion { expected: ty@, actual: text@ },
            ),
        },
{
    if names_integers_text(ty.name.as_str()) && has_long_exponent_text(text) {
        return Err(
            DeployerError::TypeConversion {
                expected: ty.name.clone(),
                actual: String::from_str(text),
            },
        );
    }
    match alloy_coerce(ty.name.as_str(), text) {
        Some(value) => Ok(from_alloy(&value)),
        None => Err(
            DeployerError::TypeConversion {
                expected: ty.name.clone(),
                actual: String::from_str(text),
            },
        ),
    }
}

/// Reads the text of a declared variable as a value of its declared type.
/// Fails with `TypeConversion`: for a type that does not parse with
/// `parse error` in place of the value, else naming the text.
pub fn coerce_declared(ty: &str, text: &str) -> (result: Result<TypedValue, DeployerError>)
    ensures
        !valid_sol_type(ty@) ==> fails_with(
            result,
            ErrorView::TypeConversion { expected: ty@, actual: parse_error_text() },
        ),
        valid_sol_type(ty@) ==> match read_value(ty@, text@) {
            Some(model) => gives_value(result, model),
            None => fails_with(
                result,
                ErrorView::TypeConversion { expected: ty@, actual: text@ },
            ),
        },
{
    match parse_sol_type(ty) {
        Ok(sol_type) => coerce(&sol_type, text),
        Err(e) => Err(e),
    }
}

/// A function of a contract, parsed from its signature.
#[derive(Debug, PartialEq, Eq)]
pub struct AbiFunction {
    pub signature: String,
    pub name: String,
    pub inputs: Vec<AbiParam>,
    pub outputs: Vec<AbiParam>,
}

/// A constructor of a contract, parsed from its signature.
#[derive(Debug, PartialEq, Eq)]
pub struct AbiConstructor {
    pub signature: String,
    pub inputs: Vec<AbiParam>,
}

impl AbiFunction {
    /// What was parsed from the signature of this function: its name, its
    /// inputs and its outputs. The signature itself stands beside them, in
    /// the field `signature`.
    pub open spec fn model(&self) -> FunctionModel {
        FunctionModel {
            name: self.name@,
            inputs: param_models(self.inputs@),
            outputs: param_models(self.outputs@),
        }
    }

    /// Parses a function's signature, such as
    /// `function balanceOf(address owner) view returns (uint256)`.
    /// Fails with `AbiParsing`, carrying the signature, where it does not parse.
    pub fn parse(signature: &str) -> (result: Result<AbiFunction, DeployerError>)
        ensures
            match parsed_function(signature@) {
                Some(model) => match result {
                    Ok(function) => function.signature@ == signature@ && function.model() == model,
                    Err(_) => false,
                },
                None => fails_with(result, ErrorView::AbiParsing(signature@)),
            },
    {
        match alloy_parse_function(signature) {
            Some(parts) => {
                let (name, inputs, outputs) = parts;
                Ok(
                    AbiFunction {
                        signature: String::from_str(signature),
                        name,
                        inputs: params_from_alloy(&inputs),
                        outputs: params_from_alloy(&outputs),
                    },
                )
            },
            None => Err(DeployerError::AbiParsing(String::from_str(signature))),
        }
    }

    /// Encodes a call of this function: the selector, then the arguments.
    /// Fails with `Execution` where an argument is not well formed, and
    /// where the arguments do not match the inputs of the signature.
    pub fn encode_input(&self, args: &Vec<TypedValue>) -> (result: Result<Vec<u8>, DeployerError>)
        ensures
            !all_well_formed(value_models(args@)) ==> fails_with(
                result,
                ErrorView::Execution(malformed_argument_message()),
            ),
            all_well_formed(value_models(args@)) ==> match encoded_call(
                self.signature@,
                value_models(args@),
            ) {
                Some(bytes) => gives_bytes(result, bytes),
                None => fails_with(result, ErrorView::Execution(argument_mismatch_message())),
            },
    {
        if !TypedValue::all_well_formed(args) {
            return Err(DeployerError::Execution(String::from_str("malformed argument")));
        }
        let converted = all_to_alloy(args);
        match alloy_encode_call(self.signature.as_str(), &converted) {
            Some(data) => Ok(data),
            None => Err(
                DeployerError::Execution(String::from_str("arguments do not match the signature")),
            ),
        }
    }

    /// Decodes what a call of this function returned, by its outputs. Fails
    /// with `Execution` where the data does not hold such values.
    pub fn decode_output(&self, data: &Vec<u8>) -> (result: Result<Vec<TypedValue>, DeployerError>)
        ensures
            match decoded_output(self.signature@, data@) {
                Some(values) => gives_values(result, values),
                None => fails_with(result, ErrorView::Execution(undecodable_output_message())),
            },
    {
        match alloy_decode_output(self.signature.as_str(), data) {
            Some(values) => Ok(all_from_alloy(&values)),
            None => Err(
                DeployerError::Execution(String::from_str("cannot decode the returned data")),
            ),
        }
    }
}

impl AbiConstructor {
    /// Parses a constructor's signature, such as `constructor(address owner)`.
    /// Fails with `AbiParsing`, carrying the signature, where it does not parse.
    pub fn parse(signature: &str) -> (result: Result<AbiConstructor, DeployerError>)
        ensures
            match parsed_constructor(signature@) {
                Some(inputs) => match result {
                    Ok(constructor) => constructor.signature@ == signature@ && param_models(
                        constructor.inputs@,
                    ) == inputs,
                    Err(_) => false,
                },
                None => fails_with(result, ErrorView::AbiParsing(signature@)),
            },
    {
        match alloy_parse_constructor(signature) {
            Some(inputs) => Ok(
                AbiConstructor {
                    signature: String::from_str(signature),
                    inputs: params_from_alloy(&inputs),
                },
            ),
            None => Err(DeployerError::AbiParsing(String::from_str(signature))),
        }
    }

    /// Encodes the arguments of this constructor, without a selector. Fails
    /// with `Execution` where an argument is not well formed, and where the
    /// arguments do not match the inputs of the signature.
    pub fn encode_input(&self, args: &Vec<TypedValue>) -> (result: Result<Vec<u8>, DeployerError>)
        ensures
            !all_well_formed(value_models(args@)) ==> fails_with(
                result,
                ErrorView::Execution(malformed_argument_message()),
            ),
            all_well_formed(value_models(args@)) ==> match encoded_constructor_args(
                self.signature@,
                value_models(args@),
            ) {
                Some(bytes) => gives_bytes(result, bytes),
                None => fails_with(result, ErrorView::Execution(argument_mismatch_message())),
            },
    {
        if !TypedValue::all_well_formed(args) {
            return Err(DeployerError::Execution(String::from_str("malformed argument")));
        }
        let converted = all_to_alloy(args);
        match alloy_encode_constructor(self.signature.as_str(), &converted) {
            Some(data) => Ok(data),
            None => Err(
                DeployerError::Execution(String::from_str("arguments do not match the signature")),
            ),
        }
    }
}

/// The Keccak-256 digest of the bytes: 32 bytes.
pub fn keccak256(data: &Vec<u8>) -> (digest: Vec<u8>)
    ensures
        digest@ == keccak256_digest(data@),
        digest@.len() == 32,
{
    alloy_keccak256(data)
}

} // verus!

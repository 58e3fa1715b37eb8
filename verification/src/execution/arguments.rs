//! Resolving the slots of an action into values.
use vstd::prelude::*;
use vstd::string::*;
use crate::abi::{is_sol_type, parse_error_text, valid_sol_type};
use crate::errors::{DeployerError, ErrorView};
use crate::hexcode::{decode_hex, hex_bytes, is_hex_text, without_hex_prefix};
use crate::indexer::{param_models, AbiParam, ParamModel};
use crate::types::{sol_type_name, value_models, SolType, TypedValue, ValueModel};
use crate::variables::{resolved, result_model, ReferenceView, VariableResolver, VariableValue};

verus! {

/// The views of a list of references.
pub open spec fn reference_views(references: Seq<VariableValue>) -> Seq<ReferenceView> {
    Seq::new(references.len(), |i: int| references[i]@)
}

/// What a list of values gives as a mathematical value.
pub open spec fn values_model(result: Result<Vec<TypedValue>, DeployerError>) -> Result<
    Seq<ValueModel>,
    ErrorView,
> {
    match result {
        Ok(values) => Ok(value_models(values@)),
        Err(e) => Err(e@),
    }
}

/// What bytes give as a mathematical value.
pub open spec fn bytes_model(result: Result<Vec<u8>, DeployerError>) -> Result<Seq<u8>, ErrorView> {
    match result {
        Ok(bytes) => Ok(bytes@),
        Err(e) => Err(e@),
    }
}

/// The name of the type of a value, or `unknown` where it has none.
pub open spec fn type_label(value: ValueModel) -> Seq<char> {
    match sol_type_name(value) {
        Some(name) => name,
        None => "unknown"@,
    }
}

/// The text of the error for arguments that do not match the inputs of the
/// signature in number.
pub open spec fn argument_count_message() -> Seq<char> {
    "arguments do not match the inputs in number"@
}

/// The first `k` arguments, each resolved for the type of the input at its
/// position; the failure of the first that fails. An input whose type does
/// not parse fails with `TypeConversion`.
pub open spec fn resolved_arguments<R: VariableResolver>(
    args: Seq<ReferenceView>,
    inputs: Seq<ParamModel>,
    resolver: &R,
    k: nat,
) -> Result<Seq<ValueModel>, ErrorView>
    decreases k,
{
    if k == 0 || k > args.len() || k > inputs.len() {
        Ok(Seq::empty())
    } else {
        match resolved_arguments(args, inputs, resolver, (k - 1) as nat) {
            Err(e) => Err(e),
            Ok(before) => {
                let ty = inputs[k - 1].ty;
                if !valid_sol_type(ty) {
                    Err(ErrorView::TypeConversion { expected: ty, actual: parse_error_text() })
                } else {
                    match resolved(args[k - 1], ty, resolver) {
                        Ok(value) => Ok(before.push(value)),
                        Err(e) => Err(e),
                    }
                }
            },
        }
    }
}

/// All the arguments of a call, resolved. Arguments that do not match the
/// inputs in number fail with `Execution`, before any of them is resolved.
pub open spec fn all_resolved_arguments<R: VariableResolver>(
    args: Seq<ReferenceView>,
    inputs: Seq<ParamModel>,
    resolver: &R,
) -> Result<Seq<ValueModel>, ErrorView> {
    if args.len() != inputs.len() {
        Err(ErrorView::Execution(argument_count_message()))
    } else {
        resolved_arguments(args, inputs, resolver, args.len())
    }
}

proof fn lemma_arguments_stay_failed<R: VariableResolver>(
    args: Seq<ReferenceView>,
    inputs: Seq<ParamModel>,
    resolver: &R,
    k: nat,
    later: nat,
)
    requires
        k <= later <= args.len(),
        later <= inputs.len(),
        resolved_arguments(args, inputs, resolver, k) is Err,
    ensures
        resolved_arguments(args, inputs, resolver, later) == resolved_arguments(
            args,
            inputs,
            resolver,
            k,
        ),
    decreases later - k,
{
    if later > k {
        lemma_arguments_stay_failed(args, inputs, resolver, k, (later - 1) as nat);
    }
}

/// Resolves the arguments of a call, each for the type of the input at its
/// position. Fails with `Execution` where the arguments do not match the
/// inputs in number, with `TypeConversion` where the type of an input does
/// not parse, and with the failure of the first argument that does not
/// resolve.
pub fn resolve_arguments<R: VariableResolver>(
    args: &Vec<VariableValue>,
    inputs: &Vec<AbiParam>,
    resolver: &R,
) -> (result: Result<Vec<TypedValue>, DeployerError>)
    ensures
        values_model(result) == all_resolved_arguments(
            reference_views(args@),
            param_models(inputs@),
            resolver,
        ),
{
    if args.len() != inputs.len() {
        return Err(
            DeployerError::Execution(
                String::from_str("arguments do not match the inputs in number"),
            ),
        );
    }
    let ghost views = reference_views(args@);
    let ghost params = param_models(inputs@);
    let mut values: Vec<TypedValue> = Vec::new();
    let mut k: usize = 0;
    assert(value_models(values@) =~= Seq::<ValueModel>::empty());
    while k < args.len()
        invariant
            k <= args@.len(),
            args@.len() == inputs@.len(),
            views == reference_views(args@),
            params == param_models(inputs@),
            resolved_arguments(views, params, resolver, k as nat) == Ok::<
                Seq<ValueModel>,
                ErrorView,
            >(value_models(values@)),
        decreases args@.len() - k,
    {
        let input = &inputs[k];
        proof {
            input.lemma_components();
            assert(params[k as int] == input@);
            assert(views[k as int] == args@[k as int]@);
        }
        if !is_sol_type(input.ty.as_str()) {
            proof {
                lemma_arguments_stay_failed(views, params, resolver, (k + 1) as nat, args@.len());
            }
            return Err(
                DeployerError::TypeConversion {
                    expected: input.ty.clone(),
                    actual: String::from_str("parse error"),
                },
            );
        }
        match args[k].resolve(SolType::new(input.ty.as_str()), resolver) {
            Ok(value) => {
                let ghost before = value_models(values@);
                values.push(value);
                assert(value_models(values@) =~= before.push(value@));
            },
            Err(e) => {
                proof {
                    lemma_arguments_stay_failed(
                        views,
                        params,
                        resolver,
                        (k + 1) as nat,
                        args@.len(),
                    );
                }
                return Err(e);
            },
        }
        k += 1;
    }
    Ok(values)
}

/// Writes the name of the type of a value, or `unknown`.
pub fn type_label_text(value: &TypedValue) -> (label: String)
    ensures
        label@ == type_label(value@),
{
    match value.sol_type() {
        Some(ty) => ty.name,
        None => String::from_str("unknown"),
    }
}

/// The address that a resolved slot holds; `TypeConversion` for any value
/// that is no address, and the failure of a failed resolution.
pub open spec fn expected_address(found: Result<ValueModel, ErrorView>) -> Result<
    Seq<u8>,
    ErrorView,
> {
    match found {
        Ok(ValueModel::Address(bytes)) => Ok(bytes),
        Ok(other) => Err(
            ErrorView::TypeConversion { expected: "address"@, actual: type_label(other) },
        ),
        Err(e) => Err(e),
    }
}

/// Takes the address out of a resolved slot.
pub fn expect_address(found: Result<TypedValue, DeployerError>) -> (result: Result<
    Vec<u8>,
    DeployerError,
>)
    ensures
        bytes_model(result) == expected_address(result_model(found)),
{
    match found {
        Ok(TypedValue::Address(bytes)) => Ok(bytes),
        Ok(other) => Err(
            DeployerError::TypeConversion {
                expected: String::from_str("address"),
                actual: type_label_text(&other),
            },
        ),
        Err(e) => Err(e),
    }
}

/// The word of an unsigned integer that a resolved slot holds;
/// `TypeConversion` for any other value.
pub open spec fn expected_uint(found: Result<ValueModel, ErrorView>) -> Result<Seq<u8>, ErrorView> {
    match found {
        Ok(ValueModel::Uint(word, _)) => Ok(word),
        Ok(other) => Err(
            ErrorView::TypeConversion { expected: "uint256"@, actual: type_label(other) },
        ),
        Err(e) => Err(e),
    }
}

/// Takes the word of an unsigned integer out of a resolved slot.
pub fn expect_uint(found: Result<TypedValue, DeployerError>) -> (result: Result<
    Vec<u8>,
    DeployerError,
>)
    ensures
        bytes_model(result) == expected_uint(result_model(found)),
{
    match found {
        Ok(TypedValue::Uint(word, _)) => Ok(word),
        Ok(other) => Err(
            DeployerError::TypeConversion {
                expected: String::from_str("uint256"),
                actual: type_label_text(&other),
            },
        ),
        Err(e) => Err(e),
    }
}

/// The 32-byte word of the fixed bytes that a resolved slot holds;
/// `TypeConversion` for any other value.
pub open spec fn expected_word(found: Result<ValueModel, ErrorView>) -> Result<Seq<u8>, ErrorView> {
    match found {
        Ok(ValueModel::FixedBytes(word, size)) => if word.len() == 32 {
            Ok(word)
        } else {
            Err(
                ErrorView::TypeConversion {
                    expected: "bytes32"@,
                    actual: type_label(ValueModel::FixedBytes(word, size)),
                },
            )
        },
        Ok(other) => Err(
            ErrorView::TypeConversion { expected: "bytes32"@, actual: type_label(other) },
        ),
        Err(e) => Err(e),
    }
}

/// Takes the 32-byte word of fixed bytes out of a resolved slot.
pub fn expect_word(found: Result<TypedValue, DeployerError>) -> (result: Result<
    Vec<u8>,
    DeployerError,
>)
    ensures
        bytes_model(result) == expected_word(result_model(found)),
{
    match found {
        Ok(value) => {
            let label = type_label_text(&value);
            match value {
                TypedValue::FixedBytes(word, size) => {
                    if word.len() == 32 {
                        Ok(word)
                    } else {
                        Err(
                            DeployerError::TypeConversion {
                                expected: String::from_str("bytes32"),
                                actual: label,
                            },
                        )
                    }
                },
                _ => Err(
                    DeployerError::TypeConversion {
                        expected: String::from_str("bytes32"),
                        actual: label,
                    },
                ),
            }
        },
        Err(e) => Err(e),
    }
}

/// The bytes that a hexadecimal text stands for, with or without `0x`.
pub open spec fn decoded_hex(text: Seq<char>) -> Result<Seq<u8>, ErrorView> {
    if is_hex_text(without_hex_prefix(text)) {
        Ok(hex_bytes(without_hex_prefix(text)))
    } else {
        Err(ErrorView::TypeConversion { expected: "bytes"@, actual: text })
    }
}

/// The bytecode that a slot gives: a literal is hexadecimal text; a looked
/// up value is taken as it is where it holds bytes, and decoded where it
/// holds a hexadecimal string. Any other value fails with `TypeConversion`.
pub open spec fn resolved_bytecode<R: VariableResolver>(reference: ReferenceView, resolver: &R) -> Result<
    Seq<u8>,
    ErrorView,
> {
    match reference {
        ReferenceView::Value(text) => decoded_hex(text),
        _ => match resolved(reference, "bytes"@, resolver) {
            Ok(ValueModel::Bytes(bytes)) => Ok(bytes),
            Ok(ValueModel::String(text)) => decoded_hex(text),
            Ok(other) => Err(
                ErrorView::TypeConversion { expected: "bytes"@, actual: type_label(other) },
            ),
            Err(e) => Err(e),
        },
    }
}

/// Resolves the bytecode of a deployment.
pub fn resolve_bytecode<R: VariableResolver>(reference: &VariableValue, resolver: &R) -> (result:
    Result<Vec<u8>, DeployerError>)
    ensures
        bytes_model(result) == resolved_bytecode(reference@, resolver),
{
    match reference {
        VariableValue::Value(text) => decode_hex(text.as_str()),
        _ => match reference.resolve(SolType::bytes(), resolver) {
            Ok(TypedValue::Bytes(bytes)) => Ok(bytes),
            Ok(TypedValue::String(text)) => decode_hex(text.as_str()),
            Ok(other) => Err(
                DeployerError::TypeConversion {
                    expected: String::from_str("bytes"),
                    actual: type_label_text(&other),
                },
            ),
            Err(e) => Err(e),
        },
    }
}

} // verus!

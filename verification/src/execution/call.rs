//! What reads, writes and conditions share: a call of a function at an
//! address, resolved and encoded.
use vstd::prelude::*;
use vstd::string::*;
use crate::abi::{
    argument_mismatch_message, encoded_call, malformed_argument_message, parsed_function,
    AbiFunction, FunctionModel,
};
use crate::errors::{DeployerError, ErrorView};
use crate::execution::arguments::{
    all_resolved_arguments, expect_address, expected_address, reference_views, resolve_arguments,
};
use crate::types::{all_well_formed, SolType};
use crate::variables::{resolved, ReferenceView, VariableResolver, VariableValue};

verus! {

/// A call that has been resolved and encoded.
#[derive(Debug, PartialEq, Eq)]
pub struct CallPlan {
    /// The 20 bytes of the address called.
    pub to: Vec<u8>,
    /// The calldata: selector and encoded arguments.
    pub input: Vec<u8>,
    /// The function called.
    pub function: AbiFunction,
}

/// The mathematical value of a `CallPlan`.
pub struct CallModel {
    pub to: Seq<u8>,
    pub input: Seq<u8>,
    pub signature: Seq<char>,
    pub function: FunctionModel,
}

impl View for CallPlan {
    type V = CallModel;

    open spec fn view(&self) -> CallModel {
        CallModel {
            to: self.to@,
            input: self.input@,
            signature: self.function.signature@,
            function: self.function.model(),
        }
    }
}

/// What a planned call gives as a mathematical value.
pub open spec fn call_model(result: Result<CallPlan, DeployerError>) -> Result<
    CallModel,
    ErrorView,
> {
    match result {
        Ok(plan) => Ok(plan@),
        Err(e) => Err(e@),
    }
}

/// The call of the function `signature` at `address` with `args`: the
/// address is resolved, then the signature is parsed, then the arguments
/// are resolved, then the call is encoded; the first failure is the result.
pub open spec fn planned_call<R: VariableResolver>(
    address: ReferenceView,
    signature: Seq<char>,
    args: Seq<ReferenceView>,
    resolver: &R,
) -> Result<CallModel, ErrorView> {
    match expected_address(resolved(address, "address"@, resolver)) {
        Err(e) => Err(e),
        Ok(to) => match parsed_function(signature) {
            None => Err(ErrorView::AbiParsing(signature)),
            Some(function) => match all_resolved_arguments(args, function.inputs, resolver) {
                Err(e) => Err(e),
                Ok(values) => if !all_well_formed(values) {
                    Err(ErrorView::Execution(malformed_argument_message()))
                } else {
                    match encoded_call(signature, values) {
                        None => Err(ErrorView::Execution(argument_mismatch_message())),
                        Some(input) => Ok(CallModel { to, input, signature, function }),
                    }
                },
            },
        },
    }
}

/// Resolves and encodes a call.
pub fn plan_call<R: VariableResolver>(
    address: &VariableValue,
    signature: &str,
    args: &Vec<VariableValue>,
    resolver: &R,
) -> (result: Result<CallPlan, DeployerError>)
    ensures
        call_model(result) == planned_call(address@, signature@, reference_views(args@), resolver),
{
    let to = match expect_address(address.resolve(SolType::address(), resolver)) {
        Ok(bytes) => bytes,
        Err(e) => {
            return Err(e);
        },
    };
    let function = match AbiFunction::parse(signature) {
        Ok(function) => function,
        Err(e) => {
            return Err(e);
        },
    };
    let values = match resolve_arguments(args, &function.inputs, resolver) {
        Ok(values) => values,
        Err(e) => {
            return Err(e);
        },
    };
    let input = match function.encode_input(&values) {
        Ok(bytes) => bytes,
        Err(e) => {
            return Err(e);
        },
    };
    Ok(CallPlan { to, input, function })
}

} // verus!

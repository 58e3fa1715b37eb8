//! Reads: calls of view functions.
use vstd::prelude::*;
use vstd::string::*;
use crate::abi::{decoded_output, gives_values, undecodable_output_message};
use crate::actions::ReadData;
use crate::errors::{fails_with, DeployerError, ErrorView};
use crate::execution::arguments::reference_views;
use crate::execution::call::{call_model, plan_call, planned_call, CallPlan};
use crate::execution::deploy::{RequestModel, TransactionRequest};
use crate::hexcode::{encode_hex, prefixed_hex_text};
use crate::types::{copy_bytes, TypedValue};
use crate::variables::VariableResolver;

verus! {

/// The text of the error for a read of an address without code.
pub open spec fn no_contract_message(address: Seq<u8>) -> Seq<char> {
    "no contract at "@ + prefixed_hex_text(address)
}

/// Reads from contracts.
#[derive(Debug, PartialEq, Eq)]
pub struct ReadExecutor {}

impl ReadExecutor {
    pub fn new() -> (executor: ReadExecutor) {
        ReadExecutor {  }
    }

    /// Plans a read: parses the signature, resolves the address and the
    /// arguments, and encodes the call. The caller then asks the chain for
    /// the code at the address and goes on with `on_code`.
    pub fn read<R: VariableResolver>(&self, data: &ReadData, resolver: &R) -> (result: Result<
        CallPlan,
        DeployerError,
    >)
        ensures
            call_model(result) == planned_call(
                data.address@,
                data.abi_item@,
                reference_views(data.args@),
                resolver,
            ),
    {
        plan_call(&data.address, data.abi_item.as_str(), &data.args, resolver)
    }

    /// Decides what follows once the code at the address is known: the call
    /// to make, or `Execution("no contract at …")` where there is no code.
    pub fn on_code(&self, plan: &CallPlan, code: &Vec<u8>) -> (result: Result<
        TransactionRequest,
        DeployerError,
    >)
        ensures
            code@.len() == 0 ==> fails_with(
                result,
                ErrorView::Execution(no_contract_message(plan.to@)),
            ),
            code@.len() > 0 ==> (match result {
                Ok(request) => request@ == (RequestModel {
                    to: plan.to@,
                    input: plan.input@,
                    value: None,
                }),
                Err(_) => false,
            }),
    {
        if code.len() == 0 {
            let message = String::from_str("no contract at ").concat(encode_hex(&plan.to).as_str());
            return Err(DeployerError::Execution(message));
        }
        Ok(TransactionRequest { to: copy_bytes(&plan.to), input: copy_bytes(&plan.input), value: None })
    }

    /// Decodes what the call returned, by the outputs of the function. Fails
    /// with `Execution` where the data does not hold such values.
    pub fn on_return(&self, plan: &CallPlan, returned: &Vec<u8>) -> (result: Result<
        Vec<TypedValue>,
        DeployerError,
    >)
        ensures
            match decoded_output(plan.function.signature@, returned@) {
                Some(values) => gives_values(result, values),
                None => fails_with(result, ErrorView::Execution(undecodable_output_message())),
            },
    {
        plan.function.decode_output(returned)
    }
}

} // verus!

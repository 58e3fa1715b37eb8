//! Writes: state-changing calls.
use vstd::prelude::*;
use vstd::string::*;
use crate::abi::{
    argument_mismatch_message, encoded_call, malformed_argument_message, parsed_function,
    AbiFunction,
};
use crate::actions::WriteData;
use crate::conditions::{ConditionStep, ConditionStepModel};
use crate::errors::{DeployerError, ErrorView};
use crate::execution::arguments::{
    all_resolved_arguments, expect_address, expect_uint, expected_address,
    expected_uint, reference_views, resolve_arguments,
};
use crate::execution::call::{CallModel, CallPlan};
use crate::execution::deploy::{RequestModel, TransactionRequest};
use crate::types::{all_well_formed, SolType};
use crate::variables::{resolved, VariableResolver};

verus! {

/// The text of the error for a write whose transaction reverted.
pub open spec fn write_reverted_message() -> Seq<char> {
    "reverted"@
}

/// What a write asks for next.
#[derive(Debug, PartialEq, Eq)]
pub enum WriteStep {
    /// The condition does not hold: the write is left out, with success.
    Skip,
    /// The call whose return decides the condition.
    Evaluate(CallPlan),
    /// The transaction to send.
    Submit(TransactionRequest),
}

/// The mathematical value of a `WriteStep`.
pub enum WriteStepModel {
    Skip,
    Evaluate(CallModel),
    Submit(RequestModel),
}

/// What a step gives as a mathematical value.
pub open spec fn write_step_model(result: Result<WriteStep, DeployerError>) -> Result<
    WriteStepModel,
    ErrorView,
> {
    match result {
        Ok(WriteStep::Skip) => Ok(WriteStepModel::Skip),
        Ok(WriteStep::Evaluate(plan)) => Ok(WriteStepModel::Evaluate(plan@)),
        Ok(WriteStep::Submit(request)) => Ok(WriteStepModel::Submit(request@)),
        Err(e) => Err(e@),
    }
}

/// What a transaction gives as a mathematical value.
pub open spec fn request_model(result: Result<TransactionRequest, DeployerError>) -> Result<
    RequestModel,
    ErrorView,
> {
    match result {
        Ok(request) => Ok(request@),
        Err(e) => Err(e@),
    }
}

/// The transaction of a write: the address is resolved, then the signature
/// is parsed, then the value and the arguments are resolved, then the call
/// is encoded; the first failure is the result.
pub open spec fn planned_write<R: VariableResolver>(data: &WriteData, resolver: &R) -> Result<
    RequestModel,
    ErrorView,
> {
    match expected_address(resolved(data.address@, "address"@, resolver)) {
        Err(e) => Err(e),
        Ok(to) => match parsed_function(data.abi_item@) {
            None => Err(ErrorView::AbiParsing(data.abi_item@)),
            Some(function) => match expected_uint(resolved(data.value@, "uint256"@, resolver)) {
                Err(e) => Err(e),
                Ok(value) => match all_resolved_arguments(
                    reference_views(data.args@),
                    function.inputs,
                    resolver,
                ) {
                    Err(e) => Err(e),
                    Ok(values) => if !all_well_formed(values) {
                        Err(ErrorView::Execution(malformed_argument_message()))
                    } else {
                        match encoded_call(data.abi_item@, values) {
                            None => Err(ErrorView::Execution(argument_mismatch_message())),
                            Some(input) => Ok(RequestModel { to, input, value: Some(value) }),
                        }
                    },
                },
            },
        },
    }
}

/// The first step of a write: without a condition, the transaction; with
/// one, what the condition's first step says, and the transaction only
/// where the condition holds.
pub open spec fn first_write_step<R: VariableResolver>(data: &WriteData, resolver: &R) -> Result<
    WriteStepModel,
    ErrorView,
> {
    match data.condition {
        None => match planned_write(data, resolver) {
            Ok(request) => Ok(WriteStepModel::Submit(request)),
            Err(e) => Err(e),
        },
        Some(condition) => match condition.first_step(resolver) {
            Err(e) => Err(e),
            Ok(ConditionStepModel::Call(call)) => Ok(WriteStepModel::Evaluate(call)),
            Ok(ConditionStepModel::Decided(holds)) => after_condition(data, holds, resolver),
        },
    }
}

/// What follows a decided condition: the transaction where it holds, and
/// nothing where it does not.
pub open spec fn after_condition<R: VariableResolver>(
    data: &WriteData,
    holds: bool,
    resolver: &R,
) -> Result<WriteStepModel, ErrorView> {
    if holds {
        match planned_write(data, resolver) {
            Ok(request) => Ok(WriteStepModel::Submit(request)),
            Err(e) => Err(e),
        }
    } else {
        Ok(WriteStepModel::Skip)
    }
}

/// What follows the return of the condition's call.
pub open spec fn write_step_after_return<R: VariableResolver>(
    data: &WriteData,
    signature: Seq<char>,
    returned: Seq<u8>,
    resolver: &R,
) -> Result<WriteStepModel, ErrorView> {
    match data.condition {
        None => after_condition(data, true, resolver),
        Some(condition) => match condition.decided_by(signature, returned, resolver) {
            Err(e) => Err(e),
            Ok(holds) => after_condition(data, holds, resolver),
        },
    }
}

/// Writes to contracts.
#[derive(Debug, PartialEq, Eq)]
pub struct WriteExecutor {}

impl WriteExecutor {
    pub fn new() -> (executor: WriteExecutor) {
        WriteExecutor {  }
    }

    /// Resolves and encodes the transaction of a write.
    pub fn build_transaction<R: VariableResolver>(&self, data: &WriteData, resolver: &R) -> (result:
        Result<TransactionRequest, DeployerError>)
        ensures
            request_model(result) == planned_write(data, resolver),
    {
        let to = match expect_address(data.address.resolve(SolType::address(), resolver)) {
            Ok(bytes) => bytes,
            Err(e) => {
                return Err(e);
            },
        };
        let function = match AbiFunction::parse(data.abi_item.as_str()) {
            Ok(function) => function,
            Err(e) => {
                return Err(e);
            },
        };
        let value = match expect_uint(data.value.resolve(SolType::uint256(), resolver)) {
            Ok(word) => word,
            Err(e) => {
                return Err(e);
            },
        };
        let values = match resolve_arguments(&data.args, &function.inputs, resolver) {
            Ok(values) => values,
            Err(e) => {
                return Err(e);
            },
        };
        let input = match function.encode_input(&values) {
            Ok(bytes) => bytes,
            Err(e) => {
                return Err(e);
            },
        };
        Ok(TransactionRequest { to, input, value: Some(value) })
    }

    fn proceed<R: VariableResolver>(&self, data: &WriteData, holds: bool, resolver: &R) -> (result:
        Result<WriteStep, DeployerError>)
        ensures
            write_step_model(result) == after_condition(data, holds, resolver),
    {
        if holds {
            match self.build_transaction(data, resolver) {
                Ok(request) => Ok(WriteStep::Submit(request)),
                Err(e) => Err(e),
            }
        } else {
            Ok(WriteStep::Skip)
        }
    }

    /// Starts a write. A condition, where there is one, is evaluated first:
    /// the write is skipped, with success, where it does not hold. The
    /// result is the transaction to send, the call that decides the
    /// condition, or the skip.
    pub fn write<R: VariableResolver>(&self, data: &WriteData, resolver: &R) -> (result: Result<
        WriteStep,
        DeployerError,
    >)
        ensures
            write_step_model(result) == first_write_step(data, resolver),
    {
        match &data.condition {
            None => {
                match self.build_transaction(data, resolver) {
                    Ok(request) => Ok(WriteStep::Submit(request)),
                    Err(e) => Err(e),
                }
            },
            Some(condition) => match condition.evaluate(resolver) {
                Err(e) => Err(e),
                Ok(ConditionStep::Call(plan)) => Ok(WriteStep::Evaluate(plan)),
                Ok(ConditionStep::Decided(holds)) => self.proceed(data, holds, resolver),
            },
        }
    }

    /// Goes on with a write once the call of its condition has returned.
    pub fn on_condition_return<R: VariableResolver>(
        &self,
        data: &WriteData,
        plan: &CallPlan,
        returned: &Vec<u8>,
        resolver: &R,
    ) -> (result: Result<WriteStep, DeployerError>)
        ensures
            write_step_model(result) == write_step_after_return(
                data,
                plan.function.signature@,
                returned@,
                resolver,
            ),
    {
        match &data.condition {
            None => self.proceed(data, true, resolver),
            Some(condition) => match condition.on_return(plan, returned, resolver) {
                Err(e) => Err(e),
                Ok(holds) => self.proceed(data, holds, resolver),
            },
        }
    }

    /// Judges the receipt of the transaction: a receipt without success
    /// fails with `TransactionFailed("reverted")`.
    pub fn on_receipt(&self, status: bool) -> (result: Result<(), DeployerError>)
        ensures
            match result {
                Ok(_) => status,
                Err(e) => !status && e@ == ErrorView::TransactionFailed(write_reverted_message()),
            },
    {
        if status {
            Ok(())
        } else {
            Err(DeployerError::TransactionFailed(String::from_str("reverted")))
        }
    }
}

} // verus!

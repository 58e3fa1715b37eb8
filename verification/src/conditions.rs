//! Evaluating the condition of a write.
use vstd::prelude::*;
use vstd::string::*;
use crate::abi::{decoded_output, undecodable_output_message};
use crate::actions::{Comparison, Condition};
use crate::comparison::{compare_values, compared};
use crate::errors::{DeployerError, ErrorView};
use crate::execution::arguments::reference_views;
use crate::execution::call::{plan_call, planned_call, CallModel, CallPlan};
use crate::types::{sol_type_name, value_models, TypedValue, ValueModel};
use crate::variables::{resolved, VariableResolver, VariableValue};

verus! {

/// What a decision gives as a mathematical value.
pub open spec fn decision_model(result: Result<bool, DeployerError>) -> Result<bool, ErrorView> {
    match result {
        Ok(holds) => Ok(holds),
        Err(e) => Err(e@),
    }
}

/// The text of the error for a current value without a type.
pub open spec fn unknown_type_message() -> Seq<char> {
    "Cannot determine value type"@
}

/// The text of the error for values that cannot be compared.
pub open spec fn incomparable_message() -> Seq<char> {
    "Cannot compare values of different types"@
}

/// The text of the error for a call that returned no value.
pub open spec fn no_return_value_message() -> Seq<char> {
    "No return value"@
}

impl Comparison {
    /// The target that the current value is compared with.
    pub open spec fn target(self) -> VariableValue {
        match self {
            Comparison::Lt(target) => target,
            Comparison::Lte(target) => target,
            Comparison::Gt(target) => target,
            Comparison::Gte(target) => target,
            Comparison::Eq(target) => target,
            Comparison::Ne(target) => target,
        }
    }

    /// Tells whether the comparison holds for a current value that stands
    /// to the target as `sign` says: below for minus one, equal for zero,
    /// above for one.
    pub open spec fn holds_for(self, sign: i32) -> bool {
        match self {
            Comparison::Lt(_) => sign < 0,
            Comparison::Lte(_) => sign <= 0,
            Comparison::Gt(_) => sign > 0,
            Comparison::Gte(_) => sign >= 0,
            Comparison::Eq(_) => sign == 0,
            Comparison::Ne(_) => sign != 0,
        }
    }

    /// Whether the comparison holds of `current`: the target is resolved as
    /// a value of the type of `current`, and the two are compared.
    pub open spec fn evaluated<R: VariableResolver>(self, current: ValueModel, resolver: &R) -> Result<
        bool,
        ErrorView,
    > {
        match sol_type_name(current) {
            None => Err(ErrorView::Config(unknown_type_message())),
            Some(ty) => match resolved(self.target()@, ty, resolver) {
                Err(e) => Err(e),
                Ok(target) => match compared(current, target) {
                    None => Err(ErrorView::Config(incomparable_message())),
                    Some(sign) => Ok(self.holds_for(sign)),
                },
            },
        }
    }

    /// Evaluates the comparison between `current_value` and the target.
    ///
    /// Fails with `Config` where `current_value` has no type, and where the
    /// two values cannot be compared; with the failure of the resolution
    /// where the target does not resolve.
    pub fn evaluate<R: VariableResolver>(&self, current_value: &TypedValue, resolver: &R) -> (result:
        Result<bool, DeployerError>)
        ensures
            decision_model(result) == self.evaluated(current_value@, resolver),
    {
        let target_type = match current_value.sol_type() {
            Some(ty) => ty,
            None => {
                return Err(DeployerError::Config(String::from_str("Cannot determine value type")));
            },
        };
        let target = match self {
            Comparison::Lt(target) => target,
            Comparison::Lte(target) => target,
            Comparison::Gt(target) => target,
            Comparison::Gte(target) => target,
            Comparison::Eq(target) => target,
            Comparison::Ne(target) => target,
        };
        let target_value = match target.resolve(target_type, resolver) {
            Ok(value) => value,
            Err(e) => {
                return Err(e);
            },
        };
        match compare_values(current_value, &target_value) {
            None => Err(
                DeployerError::Config(
                    String::from_str("Cannot compare values of different types"),
                ),
            ),
            Some(sign) => Ok(
                match self {
                    Comparison::Lt(_) => sign < 0,
                    Comparison::Lte(_) => sign <= 0,
                    Comparison::Gt(_) => sign > 0,
                    Comparison::Gte(_) => sign >= 0,
                    Comparison::Eq(_) => sign == 0,
                    Comparison::Ne(_) => sign != 0,
                },
            ),
        }
    }
}

/// How far the evaluation of a condition has come.
#[derive(Debug, PartialEq, Eq)]
pub enum ConditionStep {
    /// The condition is decided.
    Decided(bool),
    /// The call whose return decides the condition.
    Call(CallPlan),
}

/// The mathematical value of a `ConditionStep`.
pub enum ConditionStepModel {
    Decided(bool),
    Call(CallModel),
}

/// What a step gives as a mathematical value.
pub open spec fn step_model(result: Result<ConditionStep, DeployerError>) -> Result<
    ConditionStepModel,
    ErrorView,
> {
    match result {
        Ok(ConditionStep::Decided(holds)) => Ok(ConditionStepModel::Decided(holds)),
        Ok(ConditionStep::Call(plan)) => Ok(ConditionStepModel::Call(plan@)),
        Err(e) => Err(e@),
    }
}

impl Condition {
    /// The comparison that the condition makes.
    pub open spec fn comparison(self) -> Comparison {
        match self {
            Condition::ContractCall { comparison, .. } => comparison,
            Condition::OutputComparison { comparison, .. } => comparison,
        }
    }

    /// The first step of the evaluation: an output is looked up and
    /// compared at once; a contract call is resolved and encoded, to be made.
    pub open spec fn first_step<R: VariableResolver>(self, resolver: &R) -> Result<
        ConditionStepModel,
        ErrorView,
    > {
        match self {
            Condition::ContractCall { address, abi_item, args, comparison } => match planned_call(
                address@,
                abi_item@,
                reference_views(args@),
                resolver,
            ) {
                Ok(call) => Ok(ConditionStepModel::Call(call)),
                Err(e) => Err(e),
            },
            Condition::OutputComparison { output_ref, comparison } => match resolver.output(
                output_ref@,
            ) {
                Err(e) => Err(e),
                Ok(current) => match comparison.evaluated(current, resolver) {
                    Ok(holds) => Ok(ConditionStepModel::Decided(holds)),
                    Err(e) => Err(e),
                },
            },
        }
    }

    /// Whether the condition holds, given what the call returned: the first
    /// of the decoded values is compared.
    pub open spec fn decided_by<R: VariableResolver>(
        self,
        signature: Seq<char>,
        returned: Seq<u8>,
        resolver: &R,
    ) -> Result<bool, ErrorView> {
        match decoded_output(signature, returned) {
            None => Err(ErrorView::Execution(undecodable_output_message())),
            Some(values) => if values.len() == 0 {
                Err(ErrorView::Config(no_return_value_message()))
            } else {
                self.comparison().evaluated(values[0], resolver)
            },
        }
    }

    /// Starts the evaluation of the condition.
    ///
    /// A comparison of an output is decided at once. A comparison of what a
    /// contract call returns gives the call to make; `on_return` then decides
    /// from what it returned.
    pub fn evaluate<R: VariableResolver>(&self, resolver: &R) -> (result: Result<
        ConditionStep,
        DeployerError,
    >)
        ensures
            step_model(result) == self.first_step(resolver),
    {
        match self {
            Condition::ContractCall { address, abi_item, args, comparison } => {
                match plan_call(address, abi_item.as_str(), args, resolver) {
                    Ok(plan) => Ok(ConditionStep::Call(plan)),
                    Err(e) => Err(e),
                }
            },
            Condition::OutputComparison { output_ref, comparison } => {
                let current = match resolver.get_output(output_ref.as_str()) {
                    Ok(value) => value,
                    Err(e) => {
                        return Err(e);
                    },
                };
                match comparison.evaluate(&current, resolver) {
                    Ok(holds) => Ok(ConditionStep::Decided(holds)),
                    Err(e) => Err(e),
                }
            },
        }
    }

    /// Decides the condition from what the planned call returned.
    ///
    /// Fails with `Execution` where the returned data cannot be decoded, and
    /// with `Config` where it holds no value.
    pub fn on_return<R: VariableResolver>(&self, plan: &CallPlan, returned: &Vec<u8>, resolver: &R) -> (result:
        Result<bool, DeployerError>)
        ensures
            decision_model(result) == self.decided_by(plan.function.signature@, returned@, resolver),
    {
        let values = match plan.function.decode_output(returned) {
            Ok(values) => values,
            Err(e) => {
                return Err(e);
            },
        };
        if values.len() == 0 {
            return Err(DeployerError::Config(String::from_str("No return value")));
        }
        let comparison = match self {
            Condition::ContractCall { comparison, .. } => comparison,
            Condition::OutputComparison { comparison, .. } => comparison,
        };
        assert(value_models(values@)[0] == values@[0]@);
        comparison.evaluate(&values[0], resolver)
    }
}

} // verus!

//! The actions of a pipeline: deployments, writes and reads.
use vstd::prelude::*;
use crate::variables::VariableValue;

verus! {

/// A CREATE2 deployment.
#[derive(Debug, PartialEq, Eq)]
pub struct DeploymentData {
    /// The address at which the contract must land.
    pub address: VariableValue,
    pub constructor_args: Vec<VariableValue>,
    pub salt: VariableValue,
    /// The constructor's signature, such as `constructor(address owner)`.
    pub constructor_abi_item: String,
    pub bytecode: VariableValue,
}

/// A state-changing call.
#[derive(Debug, PartialEq, Eq)]
pub struct WriteData {
    pub address: VariableValue,
    /// The function's signature.
    pub abi_item: String,
    pub args: Vec<VariableValue>,
    /// The wei sent with the call.
    pub value: VariableValue,
    /// Where present, the write happens only if the condition holds.
    pub condition: Option<Condition>,
}

/// A call of a view function.
#[derive(Debug, PartialEq, Eq)]
pub struct ReadData {
    pub address: VariableValue,
    pub args: Vec<VariableValue>,
    /// The function's signature.
    pub abi_item: String,
}

#[derive(Debug, PartialEq, Eq)]
pub enum ActionData {
    Deploy(DeploymentData),
    Write(WriteData),
    Read(ReadData),
}

/// One step of a pipeline.
#[derive(Debug, PartialEq, Eq)]
pub struct Action {
    /// The identifiers of the actions that must run before this one.
    pub depends_on: Option<Vec<String>>,
    pub id: String,
    pub action_data: ActionData,
}

/// What a write may depend on.
#[derive(Debug, PartialEq, Eq)]
pub enum Condition {
    /// Compare what a contract call returns.
    ContractCall {
        address: VariableValue,
        abi_item: String,
        args: Vec<VariableValue>,
        comparison: Comparison,
    },
    /// Compare an output of an earlier action.
    OutputComparison { output_ref: String, comparison: Comparison },
}

/// A comparison of the current value with a target.
#[derive(Debug, PartialEq, Eq)]
pub enum Comparison {
    Lt(VariableValue),
    Lte(VariableValue),
    Gt(VariableValue),
    Gte(VariableValue),
    Eq(VariableValue),
    Ne(VariableValue),
}

impl Action {
    /// The identifiers this action depends on, in their declared order.
    pub open spec fn dependencies(self) -> Seq<Seq<char>> {
        match self.depends_on {
            Some(deps) => Seq::new(deps@.len(), |i: int| deps@[i]@),
            None => Seq::empty(),
        }
    }
}

} // verus!

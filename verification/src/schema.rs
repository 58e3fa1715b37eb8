//! The schema of what actions hand out, and the older form of a write's
//! condition.
use vstd::prelude::*;
use crate::actions::Action;

verus! {

/// The types of the EVM that a schema can name.
#[derive(Debug, PartialEq, Eq)]
pub enum EvmDataType {
    Address,
    Bool,
    Bytes,
    String,
    UInt8,
    UInt16,
    UInt32,
    UInt64,
    UInt128,
    UInt256,
    Int8,
    Int16,
    Int32,
    Int64,
    Int128,
    Int256,
}

/// The type of an output in a schema.
#[derive(Debug, PartialEq, Eq)]
pub enum OutputSchemaType {
    Address,
    Bool,
    Bytes,
    String,
    UInt8,
    UInt16,
    UInt32,
    UInt64,
    UInt128,
    UInt256,
    Int8,
    Int16,
    Int32,
    Int64,
    Int128,
    Int256,
}

/// The schema of an output: its type, and the schemas of its properties.
#[derive(Debug, PartialEq, Eq)]
pub struct OutputSchema {
    pub output_type: OutputSchemaType,
    pub properties: Option<Vec<(String, OutputSchema)>>,
}

/// How the output of an action is compared.
#[derive(Debug, PartialEq, Eq)]
pub enum CpmOption {
    Neq,
    Eq,
    Gt,
    Gte,
    Lt,
    Lte,
}

/// A condition on the output of an earlier action.
#[derive(Debug, PartialEq, Eq)]
pub struct WriteCondition {
    pub action_id: String,
    pub cmp: CpmOption,
}

/// The steps of a deployment, in the order in which they run.
#[derive(Debug, PartialEq, Eq)]
pub struct Deployer {
    pub execution_steps: Vec<Action>,
}

impl Deployer {
    /// A deployer without steps.
    pub fn new() -> (deployer: Deployer)
        ensures
            deployer.execution_steps@.len() == 0,
    {
        Deployer { execution_steps: Vec::new() }
    }
}

} // verus!

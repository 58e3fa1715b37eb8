//! The configuration of a run.
use vstd::prelude::*;
use crate::actions::Action;
use crate::data::DataReference;
use crate::variables::Variable;

verus! {

/// What a run is given: its variables and its data references, each in the
/// order in which they are declared, and its actions.
#[derive(Debug, PartialEq, Eq)]
pub struct Config {
    pub variables: Vec<(String, Variable)>,
    pub data: Vec<(String, DataReference)>,
    pub actions: Vec<Action>,
}

impl Config {
    /// A configuration without variables, data references or actions.
    pub fn new() -> (config: Config)
        ensures
            config.variables@.len() == 0,
            config.data@.len() == 0,
            config.actions@.len() == 0,
    {
        Config { variables: Vec::new(), data: Vec::new(), actions: Vec::new() }
    }
}

} // verus!

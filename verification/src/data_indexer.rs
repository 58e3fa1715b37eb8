//! The index of a run together with the data sources of its configuration:
//! what every reference of the run is resolved against.
use vstd::prelude::*;
use vstd::string::*;
use crate::data::{DataReference, FileDataResolver};
use crate::errors::{fails_with, DeployerError, ErrorView};
use crate::indexer::{
    declared_value, extends, well_typed, index_outputs, length_mismatch_message, param_models, record_all,
    tuple_expected_message, AbiParam, Indexed, IndexedValue, Indexer,
};
use crate::resolver::{resolved_data, resolved_variable, HierarchicalVariableResolver};
use crate::types::{value_models, TypedValue, ValueModel};
use crate::variables::{Variable, VariableResolver};

verus! {

/// An index that resolves data references beside variables and outputs.
#[derive(Debug)]
pub struct DataIndexer {
    pub base_indexer: Indexer,
    pub data_refs: Vec<(String, DataReference)>,
    pub local_variables: Vec<(String, Variable)>,
    pub data_resolver: FileDataResolver,
}

impl DataIndexer {
    /// An index without entries, over the data references and local
    /// variables of a configuration and the files of its data directory.
    pub fn new(
        data_refs: Vec<(String, DataReference)>,
        local_variables: Vec<(String, Variable)>,
        data_resolver: FileDataResolver,
    ) -> (indexer: DataIndexer)
        ensures
            indexer.base_indexer.outputs() == Map::<Seq<char>, Indexed>::empty(),
            indexer.base_indexer.declared() == Map::<Seq<char>, Indexed>::empty(),
            indexer.data_refs == data_refs,
            indexer.local_variables == local_variables,
            indexer.data_resolver == data_resolver,
    {
        DataIndexer { base_indexer: Indexer::new(), data_refs, local_variables, data_resolver }
    }

    /// The index of variables and outputs.
    pub fn base_indexer(&self) -> (base: &Indexer)
        ensures
            *base == self.base_indexer,
    {
        &self.base_indexer
    }

    /// The index of variables and outputs, to be changed in place.
    pub fn base_indexer_mut(&mut self) -> (base: &mut Indexer)
        ensures
            *base == old(self).base_indexer,
            final(self).base_indexer == *final(base),
            final(self).data_refs == old(self).data_refs,
            final(self).local_variables == old(self).local_variables,
            final(self).data_resolver == old(self).data_resolver,
    {
        &mut self.base_indexer
    }

    /// Declares a variable in the index.
    pub fn save_variable(&mut self, key: &str, ty: &str, value: &str) -> (result: Result<
        (),
        DeployerError,
    >)
        ensures
            final(self).data_refs == old(self).data_refs,
            final(self).local_variables == old(self).local_variables,
            final(self).data_resolver == old(self).data_resolver,
            final(self).base_indexer.outputs() == old(self).base_indexer.outputs(),
            result is Err ==> *final(self) == *old(self),
            match declared_value(ty@, value@) {
                Ok(model) => result is Ok && final(self).base_indexer.declared() == record_all(
                    old(self).base_indexer.declared(),
                    seq![IndexedValue { path: key@, ty: ty@, value: model }],
                ),
                Err(e) => {
                    &&& fails_with(result, e)
                    &&& final(self).base_indexer.declared() == old(self).base_indexer.declared()
                },
            },
    {
        self.base_indexer.save_variable(key, ty, value)
    }

    /// Records the outputs of an action in the index.
    pub fn save_output_data(
        &mut self,
        id: String,
        output_definitions: Vec<AbiParam>,
        outputs: Vec<TypedValue>,
    ) -> (result: Result<(), DeployerError>)
        ensures
            final(self).data_refs == old(self).data_refs,
            final(self).local_variables == old(self).local_variables,
            final(self).data_resolver == old(self).data_resolver,
            final(self).base_indexer.declared() == old(self).base_indexer.declared(),
            extends(final(self).base_indexer.outputs(), old(self).base_indexer.outputs()),
            well_typed(final(self).base_indexer.outputs()),
            result is Err ==> *final(self) == *old(self),
            output_definitions@.len() != outputs@.len() ==> final(self).base_indexer.outputs()
                == old(self).base_indexer.outputs() && fails_with(
                result,
                ErrorView::Execution(length_mismatch_message()),
            ),
            output_definitions@.len() == outputs@.len() ==> match index_outputs(
                id@,
                param_models(output_definitions@),
                value_models(outputs@),
                outputs@.len(),
            ) {
                Some(entries) => result is Ok && final(self).base_indexer.outputs() == record_all(
                    old(self).base_indexer.outputs(),
                    entries,
                ),
                None => final(self).base_indexer.outputs() == old(self).base_indexer.outputs()
                    && fails_with(result, ErrorView::Execution(tuple_expected_message())),
            },
    {
        self.base_indexer.save_output_data(id, output_definitions, outputs)
    }
}

impl VariableResolver for DataIndexer {
    /// A variable of the configuration or of a shared variable file; where
    /// that lookup fails, a variable declared in the index.
    open spec fn variable(&self, key: Seq<char>) -> Result<ValueModel, ErrorView> {
        match resolved_variable(self.local_variables@, self.data_refs@, &self.data_resolver, key) {
            Ok(value) => Ok(value),
            Err(_) => if self.base_indexer.declared().contains_key(key) {
                Ok(self.base_indexer.declared()[key].value)
            } else {
                Err(ErrorView::VariableNotFound(key))
            },
        }
    }

    /// The output recorded at the path.
    open spec fn output(&self, id: Seq<char>) -> Result<ValueModel, ErrorView> {
        if self.base_indexer.outputs().contains_key(id) {
            Ok(self.base_indexer.outputs()[id].value)
        } else {
            Err(ErrorView::OutputNotFound(id))
        }
    }

    open spec fn data(&self, path: Seq<char>) -> Result<ValueModel, ErrorView> {
        resolved_data(self.data_refs@, &self.data_resolver, path)
    }

    fn get_variable(&self, key: &str) -> (result: Result<TypedValue, DeployerError>) {
        let hierarchical_resolver = HierarchicalVariableResolver::new(
            &self.local_variables,
            &self.data_refs,
            &self.data_resolver,
        );
        match hierarchical_resolver.get_variable(key) {
            Ok(value) => Ok(value),
            Err(_) => self.base_indexer.get_variable_value(key),
        }
    }

    fn get_output(&self, id: &str) -> (result: Result<TypedValue, DeployerError>) {
        self.base_indexer.get_output_value(id)
    }

    fn get_data(&self, path: &str) -> (result: Result<TypedValue, DeployerError>) {
        let hierarchical_resolver = HierarchicalVariableResolver::new(
            &self.local_variables,
            &self.data_refs,
            &self.data_resolver,
        );
        hierarchical_resolver.get_data(path)
    }
}

} // verus!

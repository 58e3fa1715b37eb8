//! Resolving variables and data paths: local variables first, then the
//! shared variable files in the order in which they are declared.
use vstd::prelude::*;
use vstd::string::*;
use crate::abi::coerce_declared;
use crate::data::{
    declared_names, declared_variables, DataReference, DataResolver, DataSource, };
use crate::errors::{DeployerError, ErrorView};
use crate::indexer::declared_value;
use crate::json::{json_to_typed_value, typed_json};
use crate::jsonpath::{find_char, first_index_of, navigate_json_path, navigated};
use crate::lookup::{entry_keys, find_named, first_key};
use crate::types::{TypedValue, ValueModel};
use crate::variables::{result_model, Variable, VariableResolver};

verus! {

/// The text of the error for a data path without a dot.
pub open spec fn invalid_data_path_message(path: Seq<char>) -> Seq<char> {
    "Invalid data path format: "@ + path
}

/// The text of the error for a data key that nothing declares.
pub open spec fn reference_missing_message(key: Seq<char>) -> Seq<char> {
    "Data reference not found: "@ + key
}

/// The value of the variable `key` in the first variable file, from the
/// position `from` on, that declares it. A data source that is no variable
/// file, or whose file cannot be read, is passed over. `VariableNotFound`
/// where none declares it.
pub open spec fn shared_variable<R: DataResolver>(
    references: Seq<(String, DataReference)>,
    resolver: &R,
    key: Seq<char>,
    from: nat,
) -> Result<ValueModel, ErrorView>
    decreases references.len() - from,
{
    if from >= references.len() {
        Err(ErrorView::VariableNotFound(key))
    } else {
        let next = shared_variable(references, resolver, key, from + 1);
        match references[from as int].1@ {
            DataSource::Variables(path) => match resolver.variable_data(path) {
                Ok(variables) => match first_key(declared_names(variables), key) {
                    Some(i) => declared_value(variables[i].ty, variables[i].value),
                    None => next,
                },
                Err(_) => next,
            },
            _ => next,
        }
    }
}

/// The value of the variable `key`: a local variable of that name counts
/// before any shared one.
pub open spec fn resolved_variable<R: DataResolver>(
    locals: Seq<(String, Variable)>,
    references: Seq<(String, DataReference)>,
    resolver: &R,
    key: Seq<char>,
) -> Result<ValueModel, ErrorView> {
    match first_key(entry_keys(locals), key) {
        Some(i) => declared_value(locals[i].1.ty@, locals[i].1.value@),
        None => shared_variable(references, resolver, key, 0),
    }
}

/// A local variable counts before a shared variable of the same name:
/// whatever the data references hold, the variable resolves to the value of
/// the first local variable of its name.
pub proof fn lemma_local_variable_wins<R: DataResolver>(
    locals: Seq<(String, Variable)>,
    references: Seq<(String, DataReference)>,
    resolver: &R,
    key: Seq<char>,
    i: int,
)
    requires
        crate::lookup::is_first_key(entry_keys(locals), key, i),
    ensures
        resolved_variable(locals, references, resolver, key) == declared_value(
            locals[i].1.ty@,
            locals[i].1.value@,
        ),
{
    crate::lookup::lemma_first_key_is_unique(entry_keys(locals), key, i);
}

/// The typed value at a path of a document.
pub open spec fn document_value(document: Result<crate::json::JsonModel, ErrorView>, path: Seq<char>) -> Result<
    ValueModel,
    ErrorView,
> {
    match document {
        Err(e) => Err(e),
        Ok(root) => match navigated(root, path) {
            Err(e) => Err(e),
            Ok(found) => typed_json(found),
        },
    }
}

/// The value at a data path: the data key stands before the first dot; what
/// follows is a path into the document of a contract or raw source, and the
/// name of a variable of a variable file.
pub open spec fn resolved_data<R: DataResolver>(
    references: Seq<(String, DataReference)>,
    resolver: &R,
    path: Seq<char>,
) -> Result<ValueModel, ErrorView> {
    match first_index_of(path, '.') {
        None => Err(ErrorView::Config(invalid_data_path_message(path))),
        Some(dot) => {
            let key = path.subrange(0, dot);
            let field_path = path.subrange(dot + 1, path.len() as int);
            match first_key(entry_keys(references), key) {
                None => Err(ErrorView::Config(reference_missing_message(key))),
                Some(i) => match references[i].1@ {
                    DataSource::Contract(file) => document_value(
                        resolver.raw_contract_data(file),
                        field_path,
                    ),
                    DataSource::Raw(file) => document_value(resolver.raw_data(file), field_path),
                    DataSource::Variables(file) => match resolver.variable_data(file) {
                        Err(e) => Err(e),
                        Ok(variables) => match first_key(declared_names(variables), field_path) {
                            Some(j) => declared_value(variables[j].ty, variables[j].value),
                            None => Err(ErrorView::VariableNotFound(field_path)),
                        },
                    },
                },
            }
        },
    }
}

/// Resolves variables and data paths for one pipeline: over its local
/// variables, its data references, and what answers for the data files.
pub struct HierarchicalVariableResolver<'a, R: DataResolver> {
    pub local_variables: &'a Vec<(String, Variable)>,
    pub data_refs: &'a Vec<(String, DataReference)>,
    pub data_resolver: &'a R,
}

proof fn lemma_names_of_declared(entries: Seq<(String, Variable)>)
    ensures
        declared_names(declared_variables(entries)) == entry_keys(entries),
{
    assert(declared_names(declared_variables(entries)) =~= entry_keys(entries));
}

fn value_of_typed_json(document: &crate::json::JsonValue, path: &str) -> (result: Result<
    TypedValue,
    DeployerError,
>)
    ensures
        result_model(result) == document_value(Ok(document@), path@),
{
    match navigate_json_path(document, path) {
        Ok(found) => json_to_typed_value(found),
        Err(e) => Err(e),
    }
}

impl<'a, R: DataResolver> HierarchicalVariableResolver<'a, R> {
    pub fn new(
        local_variables: &'a Vec<(String, Variable)>,
        data_refs: &'a Vec<(String, DataReference)>,
        data_resolver: &'a R,
    ) -> (resolver: Self)
        ensures
            resolver.local_variables == local_variables,
            resolver.data_refs == data_refs,
            resolver.data_resolver == data_resolver,
    {
        HierarchicalVariableResolver { local_variables, data_refs, data_resolver }
    }

    /// Looks the variable up in the shared variable files, from the
    /// position `from` on.
    fn get_shared_variable(&self, key: &str, from: usize) -> (result: Result<
        TypedValue,
        DeployerError,
    >)
        ensures
            result_model(result) == shared_variable(
                self.data_refs@,
                self.data_resolver,
                key@,
                from as nat,
            ),
        decreases self.data_refs@.len() - from,
    {
        if from >= self.data_refs.len() {
            return Err(DeployerError::VariableNotFound(String::from_str(key)));
        }
        match &self.data_refs[from].1 {
            DataReference::Variables { path } => {
                match self.data_resolver.get_variable_data(path.as_str()) {
                    Ok(shared) => {
                        proof {
                            lemma_names_of_declared(shared.variables@);
                        }
                        match find_named(&shared.variables, key) {
                            Some(i) => {
                                let variable = &shared.variables[i].1;
                                return coerce_declared(
                                    variable.ty.as_str(),
                                    variable.value.as_str(),
                                );
                            },
                            None => {},
                        }
                    },
                    Err(_) => {},
                }
            },
            _ => {},
        }
        self.get_shared_variable(key, from + 1)
    }
}

impl<'a, R: DataResolver> VariableResolver for HierarchicalVariableResolver<'a, R> {
    open spec fn variable(&self, key: Seq<char>) -> Result<ValueModel, ErrorView> {
        resolved_variable(self.local_variables@, self.data_refs@, self.data_resolver, key)
    }

    open spec fn output(&self, id: Seq<char>) -> Result<ValueModel, ErrorView> {
        Err(ErrorView::OutputNotFound(id))
    }

    open spec fn data(&self, path: Seq<char>) -> Result<ValueModel, ErrorView> {
        resolved_data(self.data_refs@, self.data_resolver, path)
    }

    /// The value of the variable `key`: a local variable counts before a
    /// shared one, and of the shared variable files the first that declares
    /// it. Fails with `VariableNotFound` where nothing declares it, and with
    /// `TypeConversion` where its text is no value of its type.
    fn get_variable(&self, key: &str) -> (result: Result<TypedValue, DeployerError>) {
        match find_named(self.local_variables, key) {
            Some(i) => {
                let variable = &self.local_variables[i].1;
                coerce_declared(variable.ty.as_str(), variable.value.as_str())
            },
            None => self.get_shared_variable(key, 0),
        }
    }

    /// Outputs are not held here: always `OutputNotFound`.
    fn get_output(&self, id: &str) -> (result: Result<TypedValue, DeployerError>) {
        Err(DeployerError::OutputNotFound(String::from_str(id)))
    }

    /// The value at a data path, such as `token.bytecode` or
    /// `token.abi[0].name`. Fails with `Config` for a path without a dot and
    /// for a data key that nothing declares.
    fn get_data(&self, path: &str) -> (result: Result<TypedValue, DeployerError>) {
        let n = path.unicode_len();
        assert(path@.subrange(0, n as int) =~= path@);
        let dot = match find_char(path, 0, n, '.') {
            Some(dot) => dot,
            None => {
                return Err(
                    DeployerError::Config(
                        String::from_str("Invalid data path format: ").concat(path),
                    ),
                );
            },
        };
        let key = path.substring_char(0, dot);
        let field_path = path.substring_char(dot + 1, n);
        let reference = match find_named(self.data_refs, key) {
            Some(i) => &self.data_refs[i].1,
            None => {
                return Err(
                    DeployerError::Config(String::from_str("Data reference not found: ").concat(key)),
                );
            },
        };
        match reference {
            DataReference::Contract { path: file } => {
                match self.data_resolver.get_raw_contract_data(file.as_str()) {
                    Ok(document) => value_of_typed_json(&document, field_path),
                    Err(e) => Err(e),
                }
            },
            DataReference::Raw { path: file } => {
                match self.data_resolver.get_raw_data(file.as_str()) {
                    Ok(document) => value_of_typed_json(&document, field_path),
                    Err(e) => Err(e),
                }
            },
            DataReference::Variables { path: file } => {
                match self.data_resolver.get_variable_data(file.as_str()) {
                    Err(e) => Err(e),
                    Ok(shared) => {
                        proof {
                            lemma_names_of_declared(shared.variables@);
                        }
                        match find_named(&shared.variables, field_path) {
                            Some(j) => {
                                let variable = &shared.variables[j].1;
                                coerce_declared(variable.ty.as_str(), variable.value.as_str())
                            },
                            None => Err(
                                DeployerError::VariableNotFound(String::from_str(field_path)),
                            ),
                        }
                    },
                }
            },
        }
    }
}

} // verus!

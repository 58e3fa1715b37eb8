//! The data sources of a pipeline: contract artifacts, shared variable
//! files and raw JSON, held by a resolver over the files of a data directory.
use vstd::prelude::*;
use vstd::string::*;
use crate::actions::Action;
use crate::errors::{DeployerError, ErrorView};
use crate::json::{JsonModel, JsonValue};
use crate::lookup::first_key;
use crate::text::same_text;
use crate::variables::Variable;

verus! {

/// A contract artifact.
#[derive(Debug, PartialEq, Eq)]
pub struct ContractData {
    pub name: String,
    pub bytecode: String,
    pub abi: JsonValue,
    pub constructor: Option<String>,
    pub metadata: Vec<(String, JsonValue)>,
}

/// The variables of a shared variable file, in the order of the file.
#[derive(Debug, PartialEq, Eq)]
pub struct VariableData {
    pub variables: Vec<(String, Variable)>,
}

/// A reference to an external data file.
#[derive(Debug, PartialEq, Eq)]
pub enum DataReference {
    /// A contract artifact, such as `contracts/MyContract.json`.
    Contract { path: String },
    /// Shared variables, such as `variables/mainnet.yml`.
    Variables { path: String },
    /// Raw data, such as `data/config.json`.
    Raw { path: String },
}

/// A pipeline with its data references and local variables.
#[derive(Debug, PartialEq, Eq)]
pub struct PipelineConfig {
    pub variables: Vec<(String, Variable)>,
    pub data: Vec<(String, DataReference)>,
    pub actions: Vec<Action>,
    pub metadata: Vec<(String, JsonValue)>,
}

/// The mathematical value of a `DataReference`.
pub enum DataSource {
    Contract(Seq<char>),
    Variables(Seq<char>),
    Raw(Seq<char>),
}

impl View for DataReference {
    type V = DataSource;

    open spec fn view(&self) -> DataSource {
        match self {
            DataReference::Contract { path } => DataSource::Contract(path@),
            DataReference::Variables { path } => DataSource::Variables(path@),
            DataReference::Raw { path } => DataSource::Raw(path@),
        }
    }
}

/// A declared variable as a mathematical value.
pub struct DeclaredVariable {
    pub name: Seq<char>,
    pub ty: Seq<char>,
    pub value: Seq<char>,
}

/// The declared variables of a list of named variables.
pub open spec fn declared_variables(entries: Seq<(String, Variable)>) -> Seq<DeclaredVariable> {
    Seq::new(
        entries.len(),
        |i: int| DeclaredVariable { name: entries[i].0@, ty: entries[i].1.ty@, value: entries[i].1.value@ },
    )
}

/// The names of declared variables.
pub open spec fn declared_names(variables: Seq<DeclaredVariable>) -> Seq<Seq<char>> {
    Seq::new(variables.len(), |i: int| variables[i].name)
}

/// The mathematical value of a `ContractData`.
pub struct ContractModel {
    pub name: Seq<char>,
    pub bytecode: Seq<char>,
    pub abi: JsonModel,
    pub constructor: Option<Seq<char>>,
    pub metadata: Seq<(Seq<char>, JsonModel)>,
}

/// What a contract artifact gives as a mathematical value.
pub open spec fn contract_result(result: Result<ContractData, DeployerError>) -> Result<
    ContractModel,
    ErrorView,
> {
    match result {
        Ok(contract) => Ok(
            ContractModel {
                name: contract.name@,
                bytecode: contract.bytecode@,
                abi: contract.abi@,
                constructor: match contract.constructor {
                    Some(signature) => Some(signature@),
                    None => None,
                },
                metadata: Seq::new(
                    contract.metadata@.len(),
                    |i: int| (contract.metadata@[i].0@, contract.metadata@[i].1@),
                ),
            },
        ),
        Err(e) => Err(e@),
    }
}

/// What a variable file gives as a mathematical value.
pub open spec fn variables_result(result: Result<VariableData, DeployerError>) -> Result<
    Seq<DeclaredVariable>,
    ErrorView,
> {
    match result {
        Ok(data) => Ok(declared_variables(data.variables@)),
        Err(e) => Err(e@),
    }
}

/// What a document gives as a mathematical value.
pub open spec fn json_result(result: Result<JsonValue, DeployerError>) -> Result<
    JsonModel,
    ErrorView,
> {
    match result {
        Ok(value) => Ok(value@),
        Err(e) => Err(e@),
    }
}

/// What a path gives as a mathematical value.
pub open spec fn path_result(result: Result<String, DeployerError>) -> Result<
    Seq<char>,
    ErrorView,
> {
    match result {
        Ok(path) => Ok(path@),
        Err(e) => Err(e@),
    }
}

/// The capability that answers for the data files: what each question gives
/// is a function of the resolver and the path alone.
pub trait DataResolver {
    /// The contract artifact at the path.
    spec fn contract_data(&self, path: Seq<char>) -> Result<ContractModel, ErrorView>;

    /// The variables of the variable file at the path.
    spec fn variable_data(&self, path: Seq<char>) -> Result<Seq<DeclaredVariable>, ErrorView>;

    /// The document at the path.
    spec fn raw_data(&self, path: Seq<char>) -> Result<JsonModel, ErrorView>;

    /// The document of the contract artifact at the path.
    spec fn raw_contract_data(&self, path: Seq<char>) -> Result<JsonModel, ErrorView>;

    fn get_contract_data(&self, path: &str) -> (result: Result<ContractData, DeployerError>)
        ensures
            contract_result(result) == self.contract_data(path@),
    ;

    fn get_variable_data(&self, path: &str) -> (result: Result<VariableData, DeployerError>)
        ensures
            variables_result(result) == self.variable_data(path@),
    ;

    fn get_raw_data(&self, path: &str) -> (result: Result<JsonValue, DeployerError>)
        ensures
            json_result(result) == self.raw_data(path@),
    ;

    fn get_raw_contract_data(&self, path: &str) -> (result: Result<JsonValue, DeployerError>)
        ensures
            json_result(result) == self.raw_contract_data(path@),
    ;
}

/// The text ends with the suffix.
pub open spec fn ends_with(text: Seq<char>, suffix: Seq<char>) -> bool {
    text.len() >= suffix.len() && text.subrange(text.len() - suffix.len(), text.len() as int)
        == suffix
}

/// The path names its format: it ends with `.json`, `.yml` or `.yaml`.
pub open spec fn has_known_extension(path: Seq<char>) -> bool {
    ends_with(path, ".json"@) || ends_with(path, ".yml"@) || ends_with(path, ".yaml"@)
}

/// The character `c` stands in `text` at `i`, and nowhere after.
pub open spec fn is_last_index(text: Seq<char>, c: char, i: int) -> bool {
    &&& 0 <= i < text.len()
    &&& text[i] == c
    &&& forall|j: int| i < j < text.len() ==> text[j] != c
}

/// Where the character `c` last stands in `text`.
pub open spec fn last_index_of(text: Seq<char>, c: char) -> Option<int> {
    if exists|i: int| is_last_index(text, c, i) {
        Some(choose|i: int| is_last_index(text, c, i))
    } else {
        None
    }
}

/// The last component of a path: what follows its last slash.
pub open spec fn file_name(path: Seq<char>) -> Seq<char> {
    match last_index_of(path, '/') {
        Some(i) => path.subrange(i + 1, path.len() as int),
        None => path,
    }
}

/// The name of a file without its extension: what stands before the last
/// dot of the last component, unless that dot is its first character.
/// `Unknown` for a path without a last component.
pub open spec fn file_stem(path: Seq<char>) -> Seq<char> {
    let name = file_name(path);
    if name.len() == 0 {
        "Unknown"@
    } else {
        match last_index_of(name, '.') {
            Some(i) => if i > 0 {
                name.subrange(0, i)
            } else {
                name
            },
            None => name,
        }
    }
}

/// The text of the error for a data file that is not there.
pub open spec fn file_missing_message(path: Seq<char>) -> Seq<char> {
    "Data file not found: "@ + path
}

/// The text of the error for a file that was found and cannot be read.
pub open spec fn file_unreadable_message(path: Seq<char>) -> Seq<char> {
    "Failed to read file "@ + path
}

/// The text of the error for a variable file of another shape.
pub open spec fn variable_format_message(path: Seq<char>) -> Seq<char> {
    "Invalid variable data format in "@ + path
}

/// The text of the error for an artifact without bytecode.
pub open spec fn bytecode_missing_message() -> Seq<char> {
    "No bytecode field in contract JSON"@
}

/// The text of the error for an artifact whose `bytecode.object` is no string.
pub open spec fn bytecode_object_message() -> Seq<char> {
    "bytecode.object must be a string"@
}

/// The text of the error for an artifact whose bytecode has another shape.
pub open spec fn bytecode_format_message() -> Seq<char> {
    "Invalid bytecode format in contract JSON"@
}

/// The text of the error for an artifact without an ABI.
pub open spec fn abi_missing_message() -> Seq<char> {
    "No abi field in contract JSON"@
}

/// The value is an object with strings under `ty` and `value`.
pub open spec fn is_variable_object(value: JsonModel) -> bool {
    value.field("ty"@) is Some && value.field("ty"@)->0 is String && value.field("value"@) is Some
        && value.field("value"@)->0 is String
}

/// The variable that a field of a variable file declares.
pub open spec fn declared_by(name: Seq<char>, value: JsonModel) -> DeclaredVariable {
    DeclaredVariable {
        name,
        ty: value.field("ty"@)->0->String_0,
        value: value.field("value"@)->0->String_0,
    }
}

/// The variables that a document declares: it must be an object whose
/// fields are each an object with strings under `ty` and `value`.
pub open spec fn variables_of(document: JsonModel) -> Option<Seq<DeclaredVariable>> {
    match document {
        JsonModel::Object(fields, _) => if forall|i: int|
            0 <= i < fields.len() ==> is_variable_object((#[trigger] fields[i]).1) {
            Some(Seq::new(fields.len(), |i: int| declared_by(fields[i].0, fields[i].1)))
        } else {
            None
        },
        _ => None,
    }
}

/// The bytecode of an artifact: the string under `bytecode.object`, or the
/// string under `bytecode`.
pub open spec fn artifact_bytecode(document: JsonModel) -> Result<Seq<char>, ErrorView> {
    match document.field("bytecode"@) {
        None => Err(ErrorView::Config(bytecode_missing_message())),
        Some(code) => match code.field("object"@) {
            Some(JsonModel::String(text)) => Ok(text),
            Some(_) => Err(ErrorView::Config(bytecode_object_message())),
            None => match code {
                JsonModel::String(text) => Ok(text),
                _ => Err(ErrorView::Config(bytecode_format_message())),
            },
        },
    }
}

/// The artifact that a document at a path holds: its bytecode, its ABI as
/// it stands, and the name of the file as its name; it names no constructor
/// and carries no metadata.
pub open spec fn artifact_of(document: JsonModel, path: Seq<char>) -> Result<
    ContractModel,
    ErrorView,
> {
    match artifact_bytecode(document) {
        Err(e) => Err(e),
        Ok(bytecode) => match document.field("abi"@) {
            None => Err(ErrorView::Config(abi_missing_message())),
            Some(abi) => Ok(
                ContractModel {
                    name: file_stem(path),
                    bytecode,
                    abi,
                    constructor: None,
                    metadata: Seq::empty(),
                },
            ),
        },
    }
}

/// A file of the data directory: its path below the directory, and its
/// document, or why it could not be read.
#[derive(Debug)]
pub struct DataFile {
    pub path: String,
    pub content: Result<JsonValue, String>,
}

/// A path below a directory, joined to the directory: the directory, a
/// slash, and the path.
pub open spec fn joined_path(dir: Seq<char>, path: Seq<char>) -> Seq<char> {
    dir + "/"@ + path
}

/// The paths of a list of files, each joined to the directory.
pub open spec fn joined_file_paths(dir: Seq<char>, files: Seq<DataFile>) -> Seq<Seq<char>> {
    Seq::new(files.len(), |i: int| joined_path(dir, files[i].path@))
}

/// Joined to one directory, two paths are equal only where they are equal
/// themselves.
pub proof fn lemma_joined_paths_differ(dir: Seq<char>, first: Seq<char>, second: Seq<char>)
    requires
        joined_path(dir, first) == joined_path(dir, second),
    ensures
        first == second,
{
    let head = dir + "/"@;
    let a = joined_path(dir, first);
    let b = joined_path(dir, second);
    assert(a.len() == head.len() + first.len());
    assert(b.len() == head.len() + second.len());
    assert forall|i: int| 0 <= i < first.len() implies first[i] == second[i] by {
        assert(a[head.len() + i] == first[i]);
        assert(b[head.len() + i] == second[i]);
    }
    assert(first =~= second);
}

/// A file is found by its joined path where it is found by its path below
/// the directory, and it is the same file.
pub proof fn lemma_joined_lookup(dir: Seq<char>, files: Seq<DataFile>, path: Seq<char>)
    ensures
        first_key(joined_file_paths(dir, files), joined_path(dir, path)) == first_key(
            file_paths(files),
            path,
        ),
{
    let joined = joined_file_paths(dir, files);
    let plain = file_paths(files);
    let full = joined_path(dir, path);
    assert forall|i: int| 0 <= i < files.len() implies (joined[i] == full <==> plain[i] == path) by {
        if joined[i] == full {
            lemma_joined_paths_differ(dir, files[i].path@, path);
        }
    }
    match first_key(plain, path) {
        Some(i) => {
            assert(crate::lookup::is_first_key(plain, path, i));
            assert(crate::lookup::is_first_key(joined, full, i)) by {
                assert forall|j: int| 0 <= j < i implies #[trigger] joined[j] != full by {
                    assert(plain[j] != path);
                }
            }
            crate::lookup::lemma_first_key_is_unique(joined, full, i);
        },
        None => {
            assert forall|j: int| 0 <= j < joined.len() implies #[trigger] joined[j] != full by {
                if plain[j] == path {
                    lemma_some_key_is_first(plain, path, j);
                }
            }
            crate::lookup::lemma_no_key(joined, full);
        },
    }
}

/// Where a name stands in a list, it stands there first somewhere.
proof fn lemma_some_key_is_first(keys: Seq<Seq<char>>, key: Seq<char>, at: int)
    requires
        0 <= at < keys.len(),
        keys[at] == key,
    ensures
        first_key(keys, key) is Some,
    decreases at,
{
    if exists|j: int| 0 <= j < at && keys[j] == key {
        let j = choose|j: int| 0 <= j < at && keys[j] == key;
        lemma_some_key_is_first(keys, key, j);
    } else {
        assert(crate::lookup::is_first_key(keys, key, at));
    }
}

/// The paths of a list of files.
pub open spec fn file_paths(files: Seq<DataFile>) -> Seq<Seq<char>> {
    Seq::new(files.len(), |i: int| files[i].path@)
}

/// Answers for the data files from the files of a data directory.
#[derive(Debug)]
pub struct FileDataResolver {
    pub data_dir: String,
    pub files: Vec<DataFile>,
}

fn text_ends_with(text: &str, suffix: &str) -> (found: bool)
    ensures
        found == ends_with(text@, suffix@),
{
    let n = text.unicode_len();
    let m = suffix.unicode_len();
    if n < m {
        return false;
    }
    same_text(text.substring_char(n - m, n), suffix)
}

fn find_last(text: &str, c: char) -> (found: Option<usize>)
    ensures
        match last_index_of(text@, c) {
            Some(i) => found matches Some(at) && at == i && 0 <= i < text@.len(),
            None => found is None,
        },
{
    let n = text.unicode_len();
    let mut i: usize = n;
    while i > 0
        invariant
            i <= n,
            n == text@.len(),
            forall|j: int| i <= j < n ==> text@[j] != c,
        decreases i,
    {
        if text.get_char(i - 1) == c {
            proof {
                let at = (i - 1) as int;
                assert(is_last_index(text@, c, at));
                let chosen = choose|k: int| is_last_index(text@, c, k);
                if chosen < at {
                    assert(text@[at] != c);
                }
                if at < chosen {
                    assert(text@[chosen] != c);
                }
            }
            return Some(i - 1);
        }
        i -= 1;
    }
    proof {
        if exists|k: int| is_last_index(text@, c, k) {
            let k = choose|k: int| is_last_index(text@, c, k);
            assert(text@[k] != c);
        }
    }
    None
}

/// The name of a file without its extension.
pub fn file_stem_text(path: &str) -> (stem: String)
    ensures
        stem@ == file_stem(path@),
{
    let n = path.unicode_len();
    let name = match find_last(path, '/') {
        Some(i) => path.substring_char(i + 1, n),
        None => {
            assert(path@.subrange(0, n as int) =~= path@);
            path.substring_char(0, n)
        },
    };
    let m = name.unicode_len();
    if m == 0 {
        return String::from_str("Unknown");
    }
    match find_last(name, '.') {
        Some(i) => {
            if i > 0 {
                String::from_str(name.substring_char(0, i))
            } else {
                String::from_str(name)
            }
        },
        None => String::from_str(name),
    }
}

/// The string under `key` in an object.
fn text_field<'a>(value: &'a JsonValue, key: &str) -> (found: Option<&'a String>)
    ensures
        match found {
            Some(text) => value@.field(key@) == Some(JsonModel::String(text@)),
            None => !(value@.field(key@) is Some && value@.field(key@)->0 is String),
        },
{
    match value.get_field(key) {
        Some(JsonValue::String(text)) => Some(text),
        _ => None,
    }
}

/// Reads the variables that a document declares.
pub fn variables_from_json(document: &JsonValue) -> (found: Option<Vec<(String, Variable)>>)
    ensures
        match variables_of(document@) {
            Some(variables) => found matches Some(list) && declared_variables(list@) == variables,
            None => found is None,
        },
{
    proof {
        document.lemma_parts();
    }
    match document {
        JsonValue::Object(fields, _) => {
            let ghost models = document@->Object_0;
            let mut list: Vec<(String, Variable)> = Vec::new();
            let mut i: usize = 0;
            while i < fields.len()
                invariant
                    i <= fields@.len(),
                    document@ is Object,
                    document@->Object_0 == models,
                    models == Seq::new(fields@.len(), |k: int| (fields@[k].0@, fields@[k].1@)),
                    list@.len() == i,
                    forall|j: int| 0 <= j < i ==> is_variable_object((#[trigger] models[j]).1),
                    forall|j: int|
                        0 <= j < i ==> #[trigger] declared_variables(list@)[j] == declared_by(
                            models[j].0,
                            models[j].1,
                        ),
                decreases fields@.len() - i,
            {
                let field = &fields[i];
                assert(models[i as int].1 == field.1@);
                let ty = match text_field(&field.1, "ty") {
                    Some(text) => text.clone(),
                    None => {
                        assert(!is_variable_object(models[i as int].1));
                        return None;
                    },
                };
                let value = match text_field(&field.1, "value") {
                    Some(text) => text.clone(),
                    None => {
                        assert(!is_variable_object(models[i as int].1));
                        return None;
                    },
                };
                let ghost before = list@;
                list.push((field.0.clone(), Variable { ty, value }));
                proof {
                    assert forall|j: int| 0 <= j < i + 1 implies #[trigger] declared_variables(
                        list@,
                    )[j] == declared_by(models[j].0, models[j].1) by {
                        if j < i {
                            assert(declared_variables(before)[j] == declared_by(
                                models[j].0,
                                models[j].1,
                            ));
                            assert(list@[j] == before[j]);
                        }
                    }
                }
                i += 1;
            }
            assert(declared_variables(list@) =~= variables_of(document@)->0);
            Some(list)
        },
        _ => None,
    }
}

/// Reads the artifact that a document holds.
pub fn contract_from_json(document: &JsonValue, path: &str) -> (result: Result<
    ContractData,
    DeployerError,
>)
    ensures
        contract_result(result) == artifact_of(document@, path@),
{
    let code = match document.get_field("bytecode") {
        Some(code) => code,
        None => {
            return Err(
                DeployerError::Config(String::from_str("No bytecode field in contract JSON")),
            );
        },
    };
    let bytecode = match code.get_field("object") {
        Some(JsonValue::String(text)) => text.clone(),
        Some(_) => {
            return Err(DeployerError::Config(String::from_str("bytecode.object must be a string")));
        },
        None => match code {
            JsonValue::String(text) => text.clone(),
            _ => {
                return Err(
                    DeployerError::Config(
                        String::from_str("Invalid bytecode format in contract JSON"),
                    ),
                );
            },
        },
    };
    let abi = match document.get_field("abi") {
        Some(abi) => abi.duplicate(),
        None => {
            return Err(DeployerError::Config(String::from_str("No abi field in contract JSON")));
        },
    };
    let contract = ContractData {
        name: file_stem_text(path),
        bytecode,
        abi,
        constructor: None,
        metadata: Vec::new(),
    };
    assert(contract_result(Ok(contract))->Ok_0.metadata =~= Seq::<(Seq<char>, JsonModel)>::empty());
    Ok(contract)
}

impl FileDataResolver {
    /// A resolver for the directory `data_dir`, without any file yet.
    pub fn new(data_dir: &str) -> (resolver: FileDataResolver)
        ensures
            resolver.data_dir@ == data_dir@,
            resolver.files@.len() == 0,
    {
        FileDataResolver { data_dir: String::from_str(data_dir), files: Vec::new() }
    }

    /// Adds a file of the data directory: its path below the directory, and
    /// its document, or why it could not be read.
    pub fn add_file(&mut self, path: String, content: Result<JsonValue, String>)
        ensures
            final(self).data_dir == old(self).data_dir,
            final(self).files@ == old(self).files@.push(DataFile { path, content }),
    {
        self.files.push(DataFile { path, content });
    }

    /// The resolver holds a file at the path.
    pub open spec fn holds(&self, path: Seq<char>) -> bool {
        first_key(file_paths(self.files@), path) is Some
    }

    /// The path of the file that `path` names, joined to the data
    /// directory: `path` itself where it names its format, else the first
    /// of `path.json`, `path.yml` and `path.yaml` that is there.
    pub open spec fn resolved_path(&self, path: Seq<char>) -> Result<Seq<char>, ErrorView> {
        if has_known_extension(path) {
            if self.holds(path) {
                Ok(joined_path(self.data_dir@, path))
            } else {
                Err(ErrorView::Config(file_missing_message(joined_path(self.data_dir@, path))))
            }
        } else if self.holds(path + ".json"@) {
            Ok(joined_path(self.data_dir@, path + ".json"@))
        } else if self.holds(path + ".yml"@) {
            Ok(joined_path(self.data_dir@, path + ".yml"@))
        } else if self.holds(path + ".yaml"@) {
            Ok(joined_path(self.data_dir@, path + ".yaml"@))
        } else {
            Err(ErrorView::Config(file_missing_message(path)))
        }
    }

    /// The document of the file at the path, which is the data directory
    /// joined with the path of a file below it.
    pub open spec fn loaded(&self, path: Seq<char>) -> Result<JsonModel, ErrorView> {
        match first_key(joined_file_paths(self.data_dir@, self.files@), path) {
            None => Err(ErrorView::Config(file_unreadable_message(path))),
            Some(i) => match self.files@[i].content {
                Ok(document) => Ok(document@),
                Err(reason) => Err(ErrorView::Config(reason@)),
            },
        }
    }

    /// The document that `path` names.
    pub open spec fn document(&self, path: Seq<char>) -> Result<JsonModel, ErrorView> {
        match self.resolved_path(path) {
            Ok(resolved) => self.loaded(resolved),
            Err(e) => Err(e),
        }
    }

    fn find_file(&self, path: &str) -> (found: Option<usize>)
        ensures
            match first_key(file_paths(self.files@), path@) {
                Some(i) => found matches Some(at) && at == i && 0 <= i < self.files@.len(),
                None => found is None,
            },
    {
        let ghost keys = file_paths(self.files@);
        let mut i: usize = 0;
        while i < self.files.len()
            invariant
                i <= self.files@.len(),
                keys == file_paths(self.files@),
                forall|j: int| 0 <= j < i ==> #[trigger] keys[j] != path@,
            decreases self.files@.len() - i,
        {
            if same_text(self.files[i].path.as_str(), path) {
                proof {
                    assert(keys[i as int] == path@);
                    crate::lookup::lemma_first_key_is_unique(keys, path@, i as int);
                }
                return Some(i);
            }
            assert(keys[i as int] != path@);
            i += 1;
        }
        proof {
            crate::lookup::lemma_no_key(keys, path@);
        }
        None
    }

    /// The path joined to the data directory.
    fn join(&self, path: &str) -> (full: String)
        ensures
            full@ == joined_path(self.data_dir@, path@),
    {
        self.data_dir.clone().concat("/").concat(path)
    }

    /// Finds the file whose path, joined to the data directory, is `full`.
    fn find_joined_file(&self, full: &str) -> (found: Option<usize>)
        ensures
            match first_key(joined_file_paths(self.data_dir@, self.files@), full@) {
                Some(i) => found matches Some(at) && at == i && 0 <= i < self.files@.len(),
                None => found is None,
            },
    {
        let ghost keys = joined_file_paths(self.data_dir@, self.files@);
        let mut i: usize = 0;
        while i < self.files.len()
            invariant
                i <= self.files@.len(),
                keys == joined_file_paths(self.data_dir@, self.files@),
                forall|j: int| 0 <= j < i ==> #[trigger] keys[j] != full@,
            decreases self.files@.len() - i,
        {
            let joined = self.join(self.files[i].path.as_str());
            assert(keys[i as int] == joined@);
            if same_text(joined.as_str(), full) {
                proof {
                    crate::lookup::lemma_first_key_is_unique(keys, full@, i as int);
                }
                return Some(i);
            }
            i += 1;
        }
        proof {
            crate::lookup::lemma_no_key(keys, full@);
        }
        None
    }

    /// Finds the file that `path` names, and gives its path joined to the
    /// data directory. A path that ends with `.json`, `.yml` or `.yaml`
    /// names that file; any other path names the first of `path.json`,
    /// `path.yml` and `path.yaml` that is there. Fails with `Config` where
    /// no such file is there.
    pub fn resolve_path(&self, path: &str) -> (result: Result<String, DeployerError>)
        ensures
            path_result(result) == self.resolved_path(path@),
    {
        if text_ends_with(path, ".json") || text_ends_with(path, ".yml") || text_ends_with(
            path,
            ".yaml",
        ) {
            let full = self.join(path);
            if self.find_file(path).is_some() {
                Ok(full)
            } else {
                Err(DeployerError::Config(String::from_str("Data file not found: ").concat(full.as_str())))
            }
        } else {
            let json_path = String::from_str(path).concat(".json");
            if self.find_file(json_path.as_str()).is_some() {
                return Ok(self.join(json_path.as_str()));
            }
            let yml_path = String::from_str(path).concat(".yml");
            if self.find_file(yml_path.as_str()).is_some() {
                return Ok(self.join(yml_path.as_str()));
            }
            let yaml_path = String::from_str(path).concat(".yaml");
            if self.find_file(yaml_path.as_str()).is_some() {
                return Ok(self.join(yaml_path.as_str()));
            }
            Err(DeployerError::Config(String::from_str("Data file not found: ").concat(path)))
        }
    }

    /// The document of the file at the path, which is the data directory
    /// joined with the path of a file below it, as `resolve_path` gives it.
    /// Fails with `Config`, carrying the reason, where the file could not be
    /// read.
    pub fn load_file(&self, path: &str) -> (result: Result<JsonValue, DeployerError>)
        ensures
            json_result(result) == self.loaded(path@),
    {
        match self.find_joined_file(path) {
            None => Err(
                DeployerError::Config(String::from_str("Failed to read file ").concat(path)),
            ),
            Some(i) => {
                let file = &self.files[i];
                match &file.content {
                    Ok(document) => {
                        Ok(document.duplicate())
                    },
                    Err(reason) => {
                        Err(DeployerError::Config(reason.clone()))
                    },
                }
            },
        }
    }
}

impl DataResolver for FileDataResolver {
    open spec fn contract_data(&self, path: Seq<char>) -> Result<ContractModel, ErrorView> {
        match self.resolved_path(path) {
            Err(e) => Err(e),
            Ok(resolved) => match self.loaded(resolved) {
                Err(e) => Err(e),
                Ok(document) => artifact_of(document, resolved),
            },
        }
    }

    open spec fn variable_data(&self, path: Seq<char>) -> Result<Seq<DeclaredVariable>, ErrorView> {
        match self.document(path) {
            Err(e) => Err(e),
            Ok(document) => match variables_of(document) {
                Some(variables) => Ok(variables),
                None => Err(ErrorView::Config(variable_format_message(path))),
            },
        }
    }

    open spec fn raw_data(&self, path: Seq<char>) -> Result<JsonModel, ErrorView> {
        self.document(path)
    }

    open spec fn raw_contract_data(&self, path: Seq<char>) -> Result<JsonModel, ErrorView> {
        self.document(path)
    }

    /// The contract artifact at the path: the bytecode from `bytecode.object`
    /// or from a string under `bytecode`, the ABI as it stands, and the name
    /// of the file, without extension, as the name.
    fn get_contract_data(&self, path: &str) -> (result: Result<ContractData, DeployerError>) {
        let file_path = match self.resolve_path(path) {
            Ok(resolved) => resolved,
            Err(e) => {
                return Err(e);
            },
        };
        let document = match self.load_file(file_path.as_str()) {
            Ok(document) => document,
            Err(e) => {
                return Err(e);
            },
        };
        contract_from_json(&document, file_path.as_str())
    }

    /// The variables of the variable file at the path.
    fn get_variable_data(&self, path: &str) -> (result: Result<VariableData, DeployerError>) {
        let document = match self.get_raw_data(path) {
            Ok(document) => document,
            Err(e) => {
                return Err(e);
            },
        };
        match variables_from_json(&document) {
            Some(variables) => Ok(VariableData { variables }),
            None => Err(
                DeployerError::Config(
                    String::from_str("Invalid variable data format in ").concat(path),
                ),
            ),
        }
    }

    /// The document at the path.
    fn get_raw_data(&self, path: &str) -> (result: Result<JsonValue, DeployerError>) {
        let file_path = match self.resolve_path(path) {
            Ok(resolved) => resolved,
            Err(e) => {
                return Err(e);
            },
        };
        self.load_file(file_path.as_str())
    }

    /// The document of the contract artifact at the path.
    fn get_raw_contract_data(&self, path: &str) -> (result: Result<JsonValue, DeployerError>) {
        self.get_raw_data(path)
    }
}

} // verus!

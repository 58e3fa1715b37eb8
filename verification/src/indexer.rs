//! The output index: what the actions of a run have returned, and the
//! variables that the configuration declares, each under a flat path.
use vstd::prelude::*;
use vstd::string::*;
use crate::abi::{coerce_declared, parse_error_text, read_value, valid_sol_type};
use crate::errors::{fails_with, DeployerError, ErrorView};
use crate::text::{decimal, decimal_text, same_text};
use crate::types::{sol_type_name, value_models, SolType, TypedValue, ValueModel};

verus! {

/// A parameter of a function's signature. A tuple holds its fields as
/// components.
#[derive(Debug, PartialEq, Eq)]
pub struct AbiParam {
    pub name: String,
    pub ty: String,
    pub components: Vec<AbiParam>,
}

/// The mathematical value of a `AbiParam`.
pub struct ParamModel {
    pub name: Seq<char>,
    pub ty: Seq<char>,
    pub components: Seq<ParamModel>,
}

/// The models of a list of parameters.
pub open spec fn param_models(params: Seq<AbiParam>) -> Seq<ParamModel> {
    Seq::new(params.len(), |i: int| params[i]@)
}

impl AbiParam {
    /// The mathematical value that this parameter stands for.
    pub open spec fn model(self) -> ParamModel
        decreases self,
    {
        ParamModel {
            name: self.name@,
            ty: self.ty@,
            components: Seq::new(
                self.components@.len(),
                |i: int|
                    if 0 <= i < self.components@.len() {
                        self.components@[i].model()
                    } else {
                        ParamModel { name: Seq::empty(), ty: Seq::empty(), components: Seq::empty() }
                    },
            ),
        }
    }

    /// The model of a parameter holds the models of its components.
    pub proof fn lemma_components(self)
        ensures
            self@.components == param_models(self.components@),
            self@.name == self.name@,
            self@.ty == self.ty@,
    {
        assert(self@.components =~= param_models(self.components@));
    }
}

impl View for AbiParam {
    type V = ParamModel;

    open spec fn view(&self) -> ParamModel {
        self.model()
    }
}

/// One entry of the index.
#[derive(Debug, PartialEq, Eq)]
pub struct IndexEntry {
    pub path: String,
    pub ty: SolType,
    pub value: TypedValue,
}

/// The mathematical value of an `IndexEntry`.
pub struct IndexedValue {
    pub path: Seq<char>,
    pub ty: Seq<char>,
    pub value: ValueModel,
}

impl View for IndexEntry {
    type V = IndexedValue;

    open spec fn view(&self) -> IndexedValue {
        IndexedValue { path: self.path@, ty: self.ty@, value: self.value@ }
    }
}

/// The models of a list of entries.
pub open spec fn entry_models(entries: Seq<IndexEntry>) -> Seq<IndexedValue> {
    Seq::new(entries.len(), |i: int| entries[i]@)
}

/// The path of a parameter below a prefix: the prefix alone for a parameter
/// without a name, else prefix, dot and name, or the name alone below an
/// empty prefix.
pub open spec fn output_key(prefix: Seq<char>, name: Seq<char>) -> Seq<char> {
    if name.len() == 0 {
        prefix
    } else if prefix.len() == 0 {
        name
    } else {
        prefix + seq!['.'] + name
    }
}

/// The path of the element `i` of the array at `key`.
pub open spec fn element_key(key: Seq<char>, i: nat) -> Seq<char> {
    key + seq!['['] + decimal(i) + seq![']']
}

/// What the first `k` components of a tuple add to the index, each matched
/// with the tuple's field of the same position.
pub open spec fn index_components(
    key: Seq<char>,
    components: Seq<ParamModel>,
    values: Seq<ValueModel>,
    k: nat,
) -> Option<Seq<IndexedValue>>
    decreases values, k,
{
    if k == 0 || k > values.len() || k > components.len() {
        Some(Seq::empty())
    } else {
        match (
            index_components(key, components, values, (k - 1) as nat),
            index_value(key, components[k - 1].name, components[k - 1].components, values[k - 1]),
        ) {
            (Some(before), Some(entries)) => Some(before + entries),
            _ => None,
        }
    }
}

/// What the first `k` elements of an array add to the index.
pub open spec fn index_elements(key: Seq<char>, values: Seq<ValueModel>, k: nat) -> Option<
    Seq<IndexedValue>,
>
    decreases values, k,
{
    if k == 0 || k > values.len() {
        Some(Seq::empty())
    } else {
        match (
            index_elements(key, values, (k - 1) as nat),
            index_value(element_key(key, (k - 1) as nat), Seq::empty(), Seq::empty(), values[k - 1]),
        ) {
            (Some(before), Some(entries)) => Some(before + entries),
            _ => None,
        }
    }
}

/// What a value adds to the index below `prefix`, for a parameter with the
/// given name and components.
///
/// A parameter with components asks for a tuple and takes it apart field by
/// field. Otherwise an array is taken apart element by element, each at the
/// array's path with its position in brackets, and any other value is one
/// entry, with its type, unless it has none. `None` where a parameter with
/// components meets a value that is no tuple.
pub open spec fn index_value(
    prefix: Seq<char>,
    name: Seq<char>,
    components: Seq<ParamModel>,
    value: ValueModel,
) -> Option<Seq<IndexedValue>>
    decreases value, 0nat,
{
    let key = output_key(prefix, name);
    if components.len() > 0 {
        match value {
            ValueModel::Tuple(fields) => index_components(
                key,
                components,
                fields,
                if components.len() <= fields.len() {
                    components.len()
                } else {
                    fields.len()
                },
            ),
            _ => None,
        }
    } else {
        match value {
            ValueModel::Array(elements) => index_elements(key, elements, elements.len()),
            ValueModel::FixedArray(elements) => index_elements(key, elements, elements.len()),
            _ => match sol_type_name(value) {
                Some(ty) => Some(seq![IndexedValue { path: key, ty, value }]),
                None => Some(Seq::empty()),
            },
        }
    }
}

/// What the first `k` outputs of an action add to the index.
pub open spec fn index_outputs(
    id: Seq<char>,
    params: Seq<ParamModel>,
    values: Seq<ValueModel>,
    k: nat,
) -> Option<Seq<IndexedValue>>
    decreases k,
{
    if k == 0 || k > values.len() || k > params.len() {
        Some(Seq::empty())
    } else {
        match (
            index_outputs(id, params, values, (k - 1) as nat),
            index_value(id, params[k - 1].name, params[k - 1].components, values[k - 1]),
        ) {
            (Some(before), Some(entries)) => Some(before + entries),
            _ => None,
        }
    }
}

/// The entry carries the type of its value.
pub open spec fn carries_type(entry: IndexedValue) -> bool {
    sol_type_name(entry.value) == Some(entry.ty)
}

/// Every entry of the list carries the type of its value.
pub open spec fn all_carry_types(entries: Seq<IndexedValue>) -> bool {
    forall|i: int| 0 <= i < entries.len() ==> carries_type(#[trigger] entries[i])
}

/// Whatever a value adds to the index carries the type of its value.
pub proof fn lemma_indexed_value_carries_types(
    prefix: Seq<char>,
    name: Seq<char>,
    components: Seq<ParamModel>,
    value: ValueModel,
)
    ensures
        index_value(prefix, name, components, value) matches Some(entries) ==> all_carry_types(
            entries,
        ),
    decreases value, 0nat,
{
    let key = output_key(prefix, name);
    if components.len() > 0 {
        match value {
            ValueModel::Tuple(fields) => {
                let count: nat = if components.len() <= fields.len() {
                    components.len()
                } else {
                    fields.len()
                };
                lemma_indexed_components_carry_types(key, components, fields, count);
            },
            _ => {},
        }
    } else {
        match value {
            ValueModel::Array(elements) => {
                lemma_indexed_elements_carry_types(key, elements, elements.len());
            },
            ValueModel::FixedArray(elements) => {
                lemma_indexed_elements_carry_types(key, elements, elements.len());
            },
            _ => {},
        }
    }
}

/// Whatever the components of a tuple add to the index carries the type of
/// its value.
pub proof fn lemma_indexed_components_carry_types(
    key: Seq<char>,
    components: Seq<ParamModel>,
    values: Seq<ValueModel>,
    k: nat,
)
    ensures
        index_components(key, components, values, k) matches Some(entries) ==> all_carry_types(
            entries,
        ),
    decreases values, k,
{
    if !(k == 0 || k > values.len() || k > components.len()) {
        lemma_indexed_components_carry_types(key, components, values, (k - 1) as nat);
        lemma_indexed_value_carries_types(
            key,
            components[k - 1].name,
            components[k - 1].components,
            values[k - 1],
        );
    }
}

/// Whatever the elements of an array add to the index carries the type of
/// its value.
pub proof fn lemma_indexed_elements_carry_types(key: Seq<char>, values: Seq<ValueModel>, k: nat)
    ensures
        index_elements(key, values, k) matches Some(entries) ==> all_carry_types(entries),
    decreases values, k,
{
    if !(k == 0 || k > values.len()) {
        lemma_indexed_elements_carry_types(key, values, (k - 1) as nat);
        lemma_indexed_value_carries_types(
            element_key(key, (k - 1) as nat),
            Seq::empty(),
            Seq::empty(),
            values[k - 1],
        );
    }
}

/// Whatever the outputs of an action add to the index carries the type of
/// its value.
pub proof fn lemma_indexed_outputs_carry_types(
    id: Seq<char>,
    params: Seq<ParamModel>,
    values: Seq<ValueModel>,
    k: nat,
)
    ensures
        index_outputs(id, params, values, k) matches Some(entries) ==> all_carry_types(entries),
    decreases k,
{
    if !(k == 0 || k > values.len() || k > params.len()) {
        lemma_indexed_outputs_carry_types(id, params, values, (k - 1) as nat);
        lemma_indexed_value_carries_types(
            id,
            params[k - 1].name,
            params[k - 1].components,
            values[k - 1],
        );
    }
}

/// What the index holds at a path.
pub struct Indexed {
    pub ty: Seq<char>,
    pub value: ValueModel,
}

/// The index after the entries are recorded one by one: an entry whose path
/// is taken changes nothing.
pub open spec fn record_all(index: Map<Seq<char>, Indexed>, entries: Seq<IndexedValue>) -> Map<
    Seq<char>,
    Indexed,
>
    decreases entries.len(),
{
    if entries.len() == 0 {
        index
    } else {
        let before = record_all(index, entries.drop_last());
        let entry = entries.last();
        if before.contains_key(entry.path) {
            before
        } else {
            before.insert(entry.path, Indexed { ty: entry.ty, value: entry.value })
        }
    }
}

/// Every value of the index stands with its type.
pub open spec fn well_typed(index: Map<Seq<char>, Indexed>) -> bool {
    forall|path: Seq<char>|
        index.contains_key(path) ==> sol_type_name((#[trigger] index[path]).value) == Some(
            index[path].ty,
        )
}

/// Recording entries that carry the types of their values keeps every
/// value of the index with its type.
pub proof fn lemma_recording_keeps_types(index: Map<Seq<char>, Indexed>, entries: Seq<IndexedValue>)
    requires
        well_typed(index),
        all_carry_types(entries),
    ensures
        well_typed(record_all(index, entries)),
    decreases entries.len(),
{
    if entries.len() > 0 {
        assert(all_carry_types(entries.drop_last())) by {
            assert forall|i: int| 0 <= i < entries.drop_last().len() implies carries_type(
                #[trigger] entries.drop_last()[i],
            ) by {
                assert(entries.drop_last()[i] == entries[i]);
            }
        }
        lemma_recording_keeps_types(index, entries.drop_last());
        assert(carries_type(entries[entries.len() - 1]));
    }
}

/// The later index holds everything that the earlier one holds, unchanged.
pub open spec fn extends(later: Map<Seq<char>, Indexed>, earlier: Map<Seq<char>, Indexed>) -> bool {
    forall|path: Seq<char>| #[trigger]
        earlier.contains_key(path) ==> later.contains_key(path) && later[path] == earlier[path]
}

/// An index with more recorded holds everything that it held before.
pub proof fn lemma_recording_extends(index: Map<Seq<char>, Indexed>, entries: Seq<IndexedValue>)
    ensures
        extends(record_all(index, entries), index),
{
    let later = record_all(index, entries);
    assert forall|path: Seq<char>| #[trigger] index.contains_key(path) implies later.contains_key(
        path,
    ) && later[path] == index[path] by {
        lemma_recorded_paths_persist(index, entries, path);
    }
}

/// Recording two lists one after the other is recording them joined.
pub proof fn lemma_record_all_joined(
    index: Map<Seq<char>, Indexed>,
    first: Seq<IndexedValue>,
    second: Seq<IndexedValue>,
)
    ensures
        record_all(index, first + second) == record_all(record_all(index, first), second),
    decreases second.len(),
{
    if second.len() == 0 {
        assert(first + second =~= first);
    } else {
        lemma_record_all_joined(index, first, second.drop_last());
        assert((first + second).drop_last() =~= first + second.drop_last());
        assert((first + second).last() == second.last());
    }
}

/// What the index holds stays as it is, whatever is recorded later.
pub proof fn lemma_recorded_paths_persist(
    index: Map<Seq<char>, Indexed>,
    entries: Seq<IndexedValue>,
    path: Seq<char>,
)
    requires
        index.contains_key(path),
    ensures
        record_all(index, entries).contains_key(path),
        record_all(index, entries)[path] == index[path],
    decreases entries.len(),
{
    if entries.len() > 0 {
        lemma_recorded_paths_persist(index, entries.drop_last(), path);
    }
}

/// A path that no entry names is as before.
pub proof fn lemma_unnamed_paths_unchanged(
    index: Map<Seq<char>, Indexed>,
    entries: Seq<IndexedValue>,
    path: Seq<char>,
)
    requires
        forall|i: int| 0 <= i < entries.len() ==> (#[trigger] entries[i]).path != path,
    ensures
        record_all(index, entries).contains_key(path) == index.contains_key(path),
        index.contains_key(path) ==> record_all(index, entries)[path] == index[path],
    decreases entries.len(),
{
    if entries.len() > 0 {
        assert(entries.last() == entries[entries.len() - 1]);
        assert forall|i: int| 0 <= i < entries.drop_last().len() implies (
        #[trigger] entries.drop_last()[i]).path != path by {
            assert(entries.drop_last()[i] == entries[i]);
        }
        lemma_unnamed_paths_unchanged(index, entries.drop_last(), path);
    }
}

/// In an empty index, a path holds what the first entry that names it gives.
pub proof fn lemma_first_entry_wins(entries: Seq<IndexedValue>, path: Seq<char>, first: int)
    requires
        0 <= first < entries.len(),
        entries[first].path == path,
        forall|i: int| 0 <= i < first ==> (#[trigger] entries[i]).path != path,
    ensures
        record_all(Map::empty(), entries).contains_key(path),
        record_all(Map::empty(), entries)[path] == (Indexed {
            ty: entries[first].ty,
            value: entries[first].value,
        }),
{
    let head = entries.subrange(0, first);
    let tail = entries.subrange(first + 1, entries.len() as int);
    let one = seq![entries[first]];
    assert(entries =~= head + one + tail);
    lemma_unnamed_paths_unchanged(Map::empty(), head, path);
    let before = record_all(Map::empty(), head);
    assert(!before.contains_key(path));
    assert(one.drop_last() =~= Seq::<IndexedValue>::empty());
    assert(record_all(before, one.drop_last()) == before);
    let with_one = record_all(before, one);
    assert(with_one == before.insert(path, Indexed { ty: entries[first].ty, value: entries[first].value }));
    lemma_record_all_joined(Map::empty(), head, one);
    lemma_record_all_joined(Map::empty(), head + one, tail);
    lemma_recorded_paths_persist(with_one, tail, path);
}

/// The value of a declared variable: its text read as a value of its
/// type. `TypeConversion` for a type that does not parse, with `parse error`
/// in place of the text, and for a text that is no value of the type.
pub open spec fn declared_value(ty: Seq<char>, text: Seq<char>) -> Result<ValueModel, ErrorView> {
    if !valid_sol_type(ty) {
        Err(ErrorView::TypeConversion { expected: ty, actual: parse_error_text() })
    } else {
        match read_value(ty, text) {
            Some(model) => Ok(model),
            None => Err(ErrorView::TypeConversion { expected: ty, actual: text }),
        }
    }
}

/// The text of the error for outputs that do not match their parameters in
/// number.
pub open spec fn length_mismatch_message() -> Seq<char> {
    "length mismatch"@
}

/// The text of the error for a parameter with components that meets a value
/// that is no tuple.
pub open spec fn tuple_expected_message() -> Seq<char> {
    "Expected tuple for components"@
}

pub proof fn lemma_entry_models_joined(first: Seq<IndexEntry>, second: Seq<IndexEntry>)
    ensures
        entry_models(first + second) == entry_models(first) + entry_models(second),
{
    assert(entry_models(first + second) =~= entry_models(first) + entry_models(second));
}

fn make_key(prefix: &str, name: &str) -> (key: String)
    ensures
        key@ == output_key(prefix@, name@),
{
    if name.is_empty() {
        String::from_str(prefix)
    } else if prefix.is_empty() {
        String::from_str(name)
    } else {
        proof {
            reveal_strlit(".");
        }
        let key = String::from_str(prefix).concat(".").concat(name);
        assert(key@ =~= prefix@ + seq!['.'] + name@);
        key
    }
}

fn make_element_key(key: &str, i: usize) -> (path: String)
    ensures
        path@ == element_key(key@, i as nat),
{
    proof {
        reveal_strlit("[");
        reveal_strlit("]");
    }
    let path = String::from_str(key).concat("[").concat(decimal_text(i).as_str()).concat("]");
    assert(path@ =~= key@ + seq!['['] + decimal(i as nat) + seq![']']);
    path
}

/// Gathers what a value adds to the index below `prefix`.
fn collect_value(prefix: &str, name: &str, components: &Vec<AbiParam>, value: &TypedValue) -> (found:
    Option<Vec<IndexEntry>>)
    ensures
        match index_value(prefix@, name@, param_models(components@), value@) {
            Some(entries) => found matches Some(list) && entry_models(list@) == entries,
            None => found is None,
        },
    decreases value, 1nat,
{
    let key = make_key(prefix, name);
    proof {
        value.lemma_parts();
    }
    if components.len() > 0 {
        match value {
            TypedValue::Tuple(fields) => {
                let count = if components.len() <= fields.len() {
                    components.len()
                } else {
                    fields.len()
                };
                collect_components(key.as_str(), components, fields, count)
            },
            _ => None,
        }
    } else {
        match value {
            TypedValue::Array(elements) => collect_elements(key.as_str(), elements),
            TypedValue::FixedArray(elements) => collect_elements(key.as_str(), elements),
            _ => {
                let mut list: Vec<IndexEntry> = Vec::new();
                match value.sol_type() {
                    Some(ty) => {
                        list.push(IndexEntry { path: key, ty, value: value.duplicate() });
                        assert(entry_models(list@) =~= seq![
                            IndexedValue { path: key@, ty: ty@, value: value@ },
                        ]);
                    },
                    None => {
                        assert(entry_models(list@) =~= Seq::<IndexedValue>::empty());
                    },
                }
                Some(list)
            },
        }
    }
}

/// Gathers what the first `count` fields of a tuple add to the index.
fn collect_components(key: &str, components: &Vec<AbiParam>, fields: &Vec<TypedValue>, count: usize) -> (found:
    Option<Vec<IndexEntry>>)
    requires
        count <= components@.len(),
        count <= fields@.len(),
    ensures
        match index_components(
            key@,
            param_models(components@),
            value_models(fields@),
            count as nat,
        ) {
            Some(entries) => found matches Some(list) && entry_models(list@) == entries,
            None => found is None,
        },
    decreases fields, 0nat,
{
    let mut all: Vec<IndexEntry> = Vec::new();
    let mut k: usize = 0;
    assert(entry_models(all@) =~= Seq::<IndexedValue>::empty());
    while k < count
        invariant
            k <= count <= components@.len(),
            count <= fields@.len(),
            index_components(key@, param_models(components@), value_models(fields@), k as nat)
                == Some(entry_models(all@)),
        decreases count - k,
    {
        let component = &components[k];
        proof {
            component.lemma_components();
            assert(param_models(components@)[k as int] == component@);
            assert(value_models(fields@)[k as int] == fields@[k as int]@);
        }
        match collect_value(key, component.name.as_str(), &component.components, &fields[k]) {
            Some(mut list) => {
                let ghost before = all@;
                let ghost added = list@;
                all.append(&mut list);
                proof {
                    lemma_entry_models_joined(before, added);
                }
            },
            None => {
                proof {
                    lemma_components_stay_none(
                        key@,
                        param_models(components@),
                        value_models(fields@),
                        (k + 1) as nat,
                        count as nat,
                    );
                }
                return None;
            },
        }
        k += 1;
    }
    Some(all)
}

/// Gathers what the elements of an array add to the index.
fn collect_elements(key: &str, elements: &Vec<TypedValue>) -> (found: Option<Vec<IndexEntry>>)
    ensures
        match index_elements(key@, value_models(elements@), elements@.len()) {
            Some(entries) => found matches Some(list) && entry_models(list@) == entries,
            None => found is None,
        },
    decreases elements, 0nat,
{
    let mut all: Vec<IndexEntry> = Vec::new();
    let no_name = String::new();
    let no_components: Vec<AbiParam> = Vec::new();
    let mut k: usize = 0;
    assert(entry_models(all@) =~= Seq::<IndexedValue>::empty());
    assert(param_models(no_components@) =~= Seq::<ParamModel>::empty());
    while k < elements.len()
        invariant
            k <= elements@.len(),
            no_name@ == Seq::<char>::empty(),
            param_models(no_components@) == Seq::<ParamModel>::empty(),
            index_elements(key@, value_models(elements@), k as nat) == Some(entry_models(all@)),
        decreases elements@.len() - k,
    {
        let path = make_element_key(key, k);
        proof {
            assert(value_models(elements@)[k as int] == elements@[k as int]@);
        }
        match collect_value(path.as_str(), no_name.as_str(), &no_components, &elements[k]) {
            Some(mut list) => {
                let ghost before = all@;
                let ghost added = list@;
                all.append(&mut list);
                proof {
                    lemma_entry_models_joined(before, added);
                }
            },
            None => {
                proof {
                    lemma_elements_stay_none(
                        key@,
                        value_models(elements@),
                        (k + 1) as nat,
                        elements@.len(),
                    );
                }
                return None;
            },
        }
        k += 1;
    }
    Some(all)
}

proof fn lemma_components_stay_none(
    key: Seq<char>,
    components: Seq<ParamModel>,
    values: Seq<ValueModel>,
    k: nat,
    later: nat,
)
    requires
        1 <= k <= later,
        later <= values.len(),
        later <= components.len(),
        index_value(key, components[k - 1].name, components[k - 1].components, values[k - 1])
            is None,
    ensures
        index_components(key, components, values, later) is None,
    decreases later - k,
{
    if later > k {
        lemma_components_stay_none(key, components, values, k, (later - 1) as nat);
    }
}

proof fn lemma_elements_stay_none(key: Seq<char>, values: Seq<ValueModel>, k: nat, later: nat)
    requires
        1 <= k <= later <= values.len(),
        index_value(element_key(key, (k - 1) as nat), Seq::empty(), Seq::empty(), values[k - 1])
            is None,
    ensures
        index_elements(key, values, later) is None,
    decreases later - k,
{
    if later > k {
        lemma_elements_stay_none(key, values, k, (later - 1) as nat);
    }
}

proof fn lemma_outputs_stay_none(
    id: Seq<char>,
    params: Seq<ParamModel>,
    values: Seq<ValueModel>,
    k: nat,
    later: nat,
)
    requires
        1 <= k <= later,
        later <= values.len(),
        later <= params.len(),
        index_value(id, params[k - 1].name, params[k - 1].components, values[k - 1]) is None,
    ensures
        index_outputs(id, params, values, later) is None,
    decreases later - k,
{
    if later > k {
        lemma_outputs_stay_none(id, params, values, k, (later - 1) as nat);
    }
}

/// Gathers what the outputs of an action add to the index; `None` where
/// they do not match the parameters in number, and where a parameter with
/// components meets a value that is no tuple.
pub fn collect_outputs(id: &str, params: &Vec<AbiParam>, values: &Vec<TypedValue>) -> (found: Option<
    Vec<IndexEntry>,
>)
    ensures
        params@.len() != values@.len() ==> found is None,
        params@.len() == values@.len() ==> match index_outputs(
            id@,
            param_models(params@),
            value_models(values@),
            values@.len(),
        ) {
            Some(entries) => found matches Some(list) && entry_models(list@) == entries,
            None => found is None,
        },
{
    if params.len() != values.len() {
        return None;
    }
    let mut all: Vec<IndexEntry> = Vec::new();
    let mut k: usize = 0;
    assert(entry_models(all@) =~= Seq::<IndexedValue>::empty());
    while k < values.len()
        invariant
            k <= values@.len(),
            params@.len() == values@.len(),
            index_outputs(id@, param_models(params@), value_models(values@), k as nat) == Some(
                entry_models(all@),
            ),
        decreases values@.len() - k,
    {
        let param = &params[k];
        proof {
            param.lemma_components();
            assert(param_models(params@)[k as int] == param@);
            assert(value_models(values@)[k as int] == values@[k as int]@);
        }
        match collect_value(id, param.name.as_str(), &param.components, &values[k]) {
            Some(mut list) => {
                let ghost before = all@;
                let ghost added = list@;
                all.append(&mut list);
                proof {
                    lemma_entry_models_joined(before, added);
                }
            },
            None => {
                proof {
                    lemma_outputs_stay_none(
                        id@,
                        param_models(params@),
                        value_models(values@),
                        (k + 1) as nat,
                        values@.len(),
                    );
                }
                return None;
            },
        }
        k += 1;
    }
    Some(all)
}

/// Finds the first entry with the given path.
fn find_entry(entries: &Vec<IndexEntry>, path: &str) -> (found: Option<usize>)
    ensures
        match found {
            Some(i) => i < entries@.len() && entries@[i as int].path@ == path@ && forall|j: int|
                0 <= j < i ==> (#[trigger] entry_models(entries@)[j]).path != path@,
            None => forall|j: int|
                0 <= j < entries@.len() ==> (#[trigger] entry_models(entries@)[j]).path != path@,
        },
{
    let mut i: usize = 0;
    while i < entries.len()
        invariant
            i <= entries@.len(),
            forall|j: int| 0 <= j < i ==> (#[trigger] entry_models(entries@)[j]).path != path@,
        decreases entries@.len() - i,
    {
        if same_text(entries[i].path.as_str(), path) {
            return Some(i);
        }
        i += 1;
    }
    None
}

/// Looks a path up among the entries: the first entry that names it counts.
pub fn lookup_entry(entries: &Vec<IndexEntry>, path: &str) -> (found: Option<TypedValue>)
    ensures
        ({
            let index = record_all(Map::empty(), entry_models(entries@));
            match found {
                Some(value) => index.contains_key(path@) && value@ == index[path@].value,
                None => !index.contains_key(path@),
            }
        }),
{
    match find_entry(entries, path) {
        Some(i) => {
            proof {
                lemma_first_entry_wins(entry_models(entries@), path@, i as int);
            }
            Some(entries[i].value.duplicate())
        },
        None => {
            proof {
                lemma_unnamed_paths_unchanged(Map::empty(), entry_models(entries@), path@);
            }
            None
        },
    }
}

/// The index of a run. It only grows: what stands at a path stays there.
#[derive(Debug, PartialEq, Eq)]
pub struct Indexer {
    output_data: Vec<IndexEntry>,
    variables: Vec<IndexEntry>,
}

impl Indexer {
    /// The recorded outputs, by path.
    pub closed spec fn outputs(&self) -> Map<Seq<char>, Indexed> {
        record_all(Map::empty(), entry_models(self.output_data@))
    }

    /// The declared variables, by name.
    pub closed spec fn declared(&self) -> Map<Seq<char>, Indexed> {
        record_all(Map::empty(), entry_models(self.variables@))
    }

    /// Every recorded output stands with the type of its value.
    #[verifier::type_invariant]
    spec fn typed(self) -> bool {
        all_carry_types(entry_models(self.output_data@))
    }

    /// An empty index.
    pub fn new() -> (index: Indexer)
        ensures
            index.outputs() == Map::<Seq<char>, Indexed>::empty(),
            index.declared() == Map::<Seq<char>, Indexed>::empty(),
    {
        let output_data: Vec<IndexEntry> = Vec::new();
        let variables: Vec<IndexEntry> = Vec::new();
        assert(entry_models(output_data@) =~= Seq::<IndexedValue>::empty());
        assert(entry_models(variables@) =~= Seq::<IndexedValue>::empty());
        Indexer { output_data, variables }
    }

    /// The value of the variable `key`; `VariableNotFound` where there is none.
    pub fn get_variable_value(&self, key: &str) -> (result: Result<TypedValue, DeployerError>)
        ensures
            match result {
                Ok(value) => self.declared().contains_key(key@) && value@
                    == self.declared()[key@].value,
                Err(e) => !self.declared().contains_key(key@) && e@ == ErrorView::VariableNotFound(
                    key@,
                ),
            },
    {
        match lookup_entry(&self.variables, key) {
            Some(value) => Ok(value),
            None => Err(DeployerError::VariableNotFound(String::from_str(key))),
        }
    }

    /// The output recorded at the path `input_str`; `OutputNotFound` where
    /// there is none.
    pub fn get_output_value(&self, input_str: &str) -> (result: Result<TypedValue, DeployerError>)
        ensures
            well_typed(self.outputs()),
            match result {
                Ok(value) => self.outputs().contains_key(input_str@) && value@
                    == self.outputs()[input_str@].value,
                Err(e) => !self.outputs().contains_key(input_str@) && e@
                    == ErrorView::OutputNotFound(input_str@),
            },
    {
        proof {
            use_type_invariant(self);
            lemma_recording_keeps_types(Map::empty(), entry_models(self.output_data@));
        }
        match lookup_entry(&self.output_data, input_str) {
            Some(value) => Ok(value),
            None => Err(DeployerError::OutputNotFound(String::from_str(input_str))),
        }
    }

    /// Declares the variable `key`: the text `value` is read as a value of
    /// the type `ty`.
    ///
    /// Fails with `TypeConversion`, and declares nothing, where the type does
    /// not parse or the text is no value of it. A name that is already
    /// declared keeps what it holds.
    pub fn save_variable(&mut self, key: &str, ty: &str, value: &str) -> (result: Result<
        (),
        DeployerError,
    >)
        ensures
            final(self).outputs() == old(self).outputs(),
            result is Err ==> *final(self) == *old(self),
            match declared_value(ty@, value@) {
                Ok(model) => result is Ok && final(self).declared() == record_all(
                    old(self).declared(),
                    seq![IndexedValue { path: key@, ty: ty@, value: model }],
                ),
                Err(e) => fails_with(result, e) && final(self).declared() == old(self).declared(),
            },
    {
        proof {
            use_type_invariant(&*self);
        }
        match coerce_declared(ty, value) {
            Ok(found) => {
                let ghost before = self.variables@;
                let entry = IndexEntry {
                    path: String::from_str(key),
                    ty: SolType::new(ty),
                    value: found,
                };
                let mut variables: Vec<IndexEntry> = Vec::new();
                core::mem::swap(&mut self.variables, &mut variables);
                variables.push(entry);
                proof {
                    let added = seq![IndexedValue { path: key@, ty: ty@, value: found@ }];
                    assert(entry_models(variables@) =~= entry_models(before) + added);
                    lemma_record_all_joined(Map::empty(), entry_models(before), added);
                }
                self.variables = variables;
                Ok(())
            },
            Err(e) => Err(e),
        }
    }

    /// Records the outputs of the action `id`, each taken apart by its
    /// parameter into entries below the action's identifier.
    ///
    /// Fails with `Execution`, and records nothing, where the outputs do not
    /// match the parameters in number, and where a parameter with components
    /// meets a value that is no tuple. A path that is already taken keeps
    /// what it holds.
    pub fn save_output_data(
        &mut self,
        id: String,
        output_definitions: Vec<AbiParam>,
        outputs: Vec<TypedValue>,
    ) -> (result: Result<(), DeployerError>)
        ensures
            final(self).declared() == old(self).declared(),
            extends(final(self).outputs(), old(self).outputs()),
            well_typed(final(self).outputs()),
            result is Err ==> *final(self) == *old(self),
            output_definitions@.len() != outputs@.len() ==> ({
                &&& final(self).outputs() == old(self).outputs()
                &&& fails_with(result, ErrorView::Execution(length_mismatch_message()))
            }),
            output_definitions@.len() == outputs@.len() ==> match index_outputs(
                id@,
                param_models(output_definitions@),
                value_models(outputs@),
                outputs@.len(),
            ) {
                Some(entries) => result is Ok && final(self).outputs() == record_all(
                    old(self).outputs(),
                    entries,
                ),
                None => final(self).outputs() == old(self).outputs() && fails_with(
                    result,
                    ErrorView::Execution(tuple_expected_message()),
                ),
            },
    {
        proof {
            use_type_invariant(&*self);
            lemma_recording_keeps_types(Map::empty(), entry_models(self.output_data@));
        }
        if output_definitions.len() != outputs.len() {
            return Err(DeployerError::Execution(String::from_str("length mismatch")));
        }
        match collect_outputs(id.as_str(), &output_definitions, &outputs) {
            Some(mut list) => {
                let ghost before = self.output_data@;
                let ghost added = list@;
                proof {
                    lemma_indexed_outputs_carry_types(
                        id@,
                        param_models(output_definitions@),
                        value_models(outputs@),
                        outputs@.len(),
                    );
                    lemma_entry_models_joined(before, added);
                    lemma_record_all_joined(
                        Map::empty(),
                        entry_models(before),
                        entry_models(added),
                    );
                    lemma_recording_extends(
                        record_all(Map::empty(), entry_models(before)),
                        entry_models(added),
                    );
                    lemma_recording_keeps_types(
                        record_all(Map::empty(), entry_models(before)),
                        entry_models(added),
                    );
                    assert(all_carry_types(entry_models(before) + entry_models(added)));
                    assert(entry_models(Seq::<IndexEntry>::empty()) =~= Seq::<IndexedValue>::empty());
                }
                let mut output_data: Vec<IndexEntry> = Vec::new();
                core::mem::swap(&mut self.output_data, &mut output_data);
                output_data.append(&mut list);
                self.output_data = output_data;
                Ok(())
            },
            None => Err(DeployerError::Execution(String::from_str("Expected tuple for components"))),
        }
    }
}

} // verus!

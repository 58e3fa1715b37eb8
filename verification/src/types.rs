//! The typed value model: the values that the ABI encoder accepts, each with
//! the Solidity type that it belongs to.
use vstd::prelude::*;
use vstd::string::*;
use crate::abi::value_type_name;
use crate::text::decimal;

verus! {

/// A Solidity type, held by its canonical name, such as `uint256`,
/// `address[]` or `(address,uint256)`.
#[derive(Debug, PartialEq, Eq)]
pub struct SolType {
    pub name: String,
}

impl View for SolType {
    type V = Seq<char>;

    open spec fn view(&self) -> Seq<char> {
        self.name@
    }
}

/// A value of the ABI.
///
/// An address holds 20 bytes and a function pointer 24. An integer holds its
/// 32-byte big-endian word, two's complement where signed, and its width in
/// bits. Fixed bytes hold their 32-byte word, filled up with zeros on the
/// right, and their length in bytes.
#[derive(Debug, PartialEq, Eq)]
pub enum TypedValue {
    Address(Vec<u8>),
    Bool(bool),
    Uint(Vec<u8>, usize),
    Int(Vec<u8>, usize),
    FixedBytes(Vec<u8>, usize),
    Bytes(Vec<u8>),
    String(String),
    Function(Vec<u8>),
    Array(Vec<TypedValue>),
    FixedArray(Vec<TypedValue>),
    Tuple(Vec<TypedValue>),
}

/// The mathematical value of a `TypedValue`.
pub enum ValueModel {
    Address(Seq<u8>),
    Bool(bool),
    Uint(Seq<u8>, usize),
    Int(Seq<u8>, usize),
    FixedBytes(Seq<u8>, usize),
    Bytes(Seq<u8>),
    String(Seq<char>),
    Function(Seq<u8>),
    Array(Seq<ValueModel>),
    FixedArray(Seq<ValueModel>),
    Tuple(Seq<ValueModel>),
}

/// The models of a list of values.
pub open spec fn value_models(values: Seq<TypedValue>) -> Seq<ValueModel> {
    Seq::new(values.len(), |i: int| values[i]@)
}

impl TypedValue {
    /// The mathematical value that this value stands for.
    pub open spec fn model(self) -> ValueModel
        decreases self,
    {
        match self {
            TypedValue::Address(b) => ValueModel::Address(b@),
            TypedValue::Bool(b) => ValueModel::Bool(b),
            TypedValue::Uint(b, bits) => ValueModel::Uint(b@, bits),
            TypedValue::Int(b, bits) => ValueModel::Int(b@, bits),
            TypedValue::FixedBytes(b, size) => ValueModel::FixedBytes(b@, size),
            TypedValue::Bytes(b) => ValueModel::Bytes(b@),
            TypedValue::String(s) => ValueModel::String(s@),
            TypedValue::Function(b) => ValueModel::Function(b@),
            TypedValue::Array(items) => ValueModel::Array(
                Seq::new(
                    items@.len(),
                    |i: int|
                        if 0 <= i < items@.len() {
                            items@[i].model()
                        } else {
                            ValueModel::Bool(false)
                        },
                ),
            ),
            TypedValue::FixedArray(items) => ValueModel::FixedArray(
                Seq::new(
                    items@.len(),
                    |i: int|
                        if 0 <= i < items@.len() {
                            items@[i].model()
                        } else {
                            ValueModel::Bool(false)
                        },
                ),
            ),
            TypedValue::Tuple(items) => ValueModel::Tuple(
                Seq::new(
                    items@.len(),
                    |i: int|
                        if 0 <= i < items@.len() {
                            items@[i].model()
                        } else {
                            ValueModel::Bool(false)
                        },
                ),
            ),
        }
    }
}

impl View for TypedValue {
    type V = ValueModel;

    open spec fn view(&self) -> ValueModel {
        self.model()
    }
}

impl ValueModel {
    /// The value has the shape that its variant asks for: 20 bytes in an
    /// address, 24 in a function pointer, 32 in a word, and so in every part.
    pub open spec fn well_formed(self) -> bool
        decreases self,
    {
        match self {
            ValueModel::Address(b) => b.len() == 20,
            ValueModel::Bool(_) => true,
            ValueModel::Uint(b, _) => b.len() == 32,
            ValueModel::Int(b, _) => b.len() == 32,
            ValueModel::FixedBytes(b, _) => b.len() == 32,
            ValueModel::Bytes(_) => true,
            ValueModel::String(_) => true,
            ValueModel::Function(b) => b.len() == 24,
            ValueModel::Array(items) => forall|i: int|
                0 <= i < items.len() ==> (#[trigger] items[i]).well_formed(),
            ValueModel::FixedArray(items) => forall|i: int|
                0 <= i < items.len() ==> (#[trigger] items[i]).well_formed(),
            ValueModel::Tuple(items) => forall|i: int|
                0 <= i < items.len() ==> (#[trigger] items[i]).well_formed(),
        }
    }

    /// The parts of an array, a fixed array or a tuple; of another value, none.
    pub open spec fn parts(self) -> Seq<ValueModel> {
        match self {
            ValueModel::Array(items) => items,
            ValueModel::FixedArray(items) => items,
            ValueModel::Tuple(items) => items,
            _ => Seq::empty(),
        }
    }
}

/// The names of the first `k` of `items`, with commas between them; `None`
/// where one of them has no name.
pub open spec fn joined_type_names(items: Seq<ValueModel>, k: nat) -> Option<Seq<char>>
    decreases items, k,
{
    if k == 0 || k > items.len() {
        Some(Seq::empty())
    } else {
        match (joined_type_names(items, (k - 1) as nat), type_name_of_shape(items[k - 1])) {
            (Some(before), Some(name)) => Some(
                if k == 1 {
                    name
                } else {
                    before + seq![','] + name
                },
            ),
            _ => None,
        }
    }
}

/// The canonical name of the Solidity type that the shape of a value gives
/// it. An integer and fixed bytes carry their size behind the name. An array
/// takes the type of its first item, so an array without items has no name,
/// nor has one whose first item has none. A tuple lists the types of its
/// parts, with a comma behind the only part of a tuple of one, and has no
/// name where one of its parts has none.
pub open spec fn type_name_of_shape(value: ValueModel) -> Option<Seq<char>>
    decreases value, 0nat,
{
    match value {
        ValueModel::Address(_) => Some("address"@),
        ValueModel::Bool(_) => Some("bool"@),
        ValueModel::Uint(_, bits) => Some("uint"@ + decimal(bits as nat)),
        ValueModel::Int(_, bits) => Some("int"@ + decimal(bits as nat)),
        ValueModel::FixedBytes(_, size) => Some("bytes"@ + decimal(size as nat)),
        ValueModel::Bytes(_) => Some("bytes"@),
        ValueModel::String(_) => Some("string"@),
        ValueModel::Function(_) => Some("function"@),
        ValueModel::Array(items) => if items.len() == 0 {
            None
        } else {
            match type_name_of_shape(items[0]) {
                Some(name) => Some(name + "[]"@),
                None => None,
            }
        },
        ValueModel::FixedArray(items) => if items.len() == 0 {
            None
        } else {
            match type_name_of_shape(items[0]) {
                Some(name) => Some(name + seq!['['] + decimal(items.len()) + seq![']']),
                None => None,
            }
        },
        ValueModel::Tuple(items) => match joined_type_names(items, items.len()) {
            Some(inner) => Some(
                seq!['('] + inner + (if items.len() == 1 {
                    seq![',']
                } else {
                    Seq::empty()
                }) + seq![')'],
            ),
            None => None,
        },
    }
}

/// The canonical name of the Solidity type of a value: that of its shape,
/// and none for a value that is not well formed.
pub open spec fn sol_type_name(value: ValueModel) -> Option<Seq<char>> {
    if value.well_formed() {
        type_name_of_shape(value)
    } else {
        None
    }
}

/// Every value of the list is well formed.
pub open spec fn all_well_formed(values: Seq<ValueModel>) -> bool {
    forall|i: int| 0 <= i < values.len() ==> (#[trigger] values[i]).well_formed()
}

/// Copies a list of bytes.
pub fn copy_bytes(bytes: &Vec<u8>) -> (copy: Vec<u8>)
    ensures
        copy@ == bytes@,
{
    let mut copy: Vec<u8> = Vec::new();
    let mut i: usize = 0;
    while i < bytes.len()
        invariant
            i <= bytes@.len(),
            copy@ == bytes@.subrange(0, i as int),
        decreases bytes@.len() - i,
    {
        copy.push(bytes[i]);
        assert(copy@ =~= bytes@.subrange(0, i + 1));
        i += 1;
    }
    assert(copy@ =~= bytes@);
    copy
}

impl SolType {
    /// The type with the given name.
    pub fn new(name: &str) -> (ty: SolType)
        ensures
            ty@ == name@,
    {
        SolType { name: String::from_str(name) }
    }

    /// The type `address`.
    pub fn address() -> (ty: SolType)
        ensures
            ty@ == "address"@,
    {
        SolType { name: String::from_str("address") }
    }

    /// The type `bytes32`.
    pub fn bytes32() -> (ty: SolType)
        ensures
            ty@ == "bytes32"@,
    {
        SolType { name: String::from_str("bytes32") }
    }

    /// The type `uint256`.
    pub fn uint256() -> (ty: SolType)
        ensures
            ty@ == "uint256"@,
    {
        SolType { name: String::from_str("uint256") }
    }

    /// The type `bytes`.
    pub fn bytes() -> (ty: SolType)
        ensures
            ty@ == "bytes"@,
    {
        SolType { name: String::from_str("bytes") }
    }

    /// The type `string`.
    pub fn string() -> (ty: SolType)
        ensures
            ty@ == "string"@,
    {
        SolType { name: String::from_str("string") }
    }

    /// A copy of this type.
    pub fn duplicate(&self) -> (copy: SolType)
        ensures
            copy@ == self@,
    {
        SolType { name: self.name.clone() }
    }
}

impl TypedValue {
    /// The parts of an array, a fixed array or a tuple.
    pub open spec fn items(self) -> Seq<TypedValue> {
        match self {
            TypedValue::Array(items) => items@,
            TypedValue::FixedArray(items) => items@,
            TypedValue::Tuple(items) => items@,
            _ => Seq::empty(),
        }
    }

    /// The model of a value with parts holds the models of the parts.
    pub proof fn lemma_parts(self)
        ensures
            self@.parts() == value_models(self.items()),
            (self is Array) == (self@ is Array),
            (self is FixedArray) == (self@ is FixedArray),
            (self is Tuple) == (self@ is Tuple),
    {
        match self {
            TypedValue::Array(items) => {
                assert(self@.parts() =~= value_models(items@));
            },
            TypedValue::FixedArray(items) => {
                assert(self@.parts() =~= value_models(items@));
            },
            TypedValue::Tuple(items) => {
                assert(self@.parts() =~= value_models(items@));
            },
            _ => {
                assert(self@.parts() =~= value_models(self.items()));
            },
        }
    }

    /// The Solidity type of this value, where it has one: an array takes the
    /// type of its first element, so an empty array has none, and a value
    /// that is not well formed has none either.
    pub fn sol_type(&self) -> (ty: Option<SolType>)
        ensures
            match sol_type_name(self@) {
                Some(name) => ty matches Some(t) && t@ == name,
                None => ty is None,
            },
    {
        if self.is_well_formed() {
            match value_type_name(self) {
                Some(name) => Some(SolType { name }),
                None => None,
            }
        } else {
            None
        }
    }

    /// Tells whether every part of this value has the length that its
    /// variant asks for.
    pub fn is_well_formed(&self) -> (ok: bool)
        ensures
            ok == self@.well_formed(),
        decreases self,
    {
        proof {
            self.lemma_parts();
        }
        match self {
            TypedValue::Address(b) => b.len() == 20,
            TypedValue::Bool(_) => true,
            TypedValue::Uint(b, _) => b.len() == 32,
            TypedValue::Int(b, _) => b.len() == 32,
            TypedValue::FixedBytes(b, _) => b.len() == 32,
            TypedValue::Bytes(_) => true,
            TypedValue::String(_) => true,
            TypedValue::Function(b) => b.len() == 24,
            TypedValue::Array(items) => TypedValue::all_well_formed(items),
            TypedValue::FixedArray(items) => TypedValue::all_well_formed(items),
            TypedValue::Tuple(items) => TypedValue::all_well_formed(items),
        }
    }

    /// Tells whether every value of a list is well formed.
    pub fn all_well_formed(items: &Vec<TypedValue>) -> (ok: bool)
        ensures
            ok == all_well_formed(value_models(items@)),
        decreases items,
    {
        let mut i: usize = 0;
        while i < items.len()
            invariant
                i <= items@.len(),
                forall|j: int| 0 <= j < i ==> (#[trigger] value_models(items@)[j]).well_formed(),
            decreases items@.len() - i,
        {
            if !items[i].is_well_formed() {
                assert(!value_models(items@)[i as int].well_formed());
                return false;
            }
            assert(value_models(items@)[i as int].well_formed());
            i += 1;
        }
        true
    }

    /// A copy of this value.
    pub fn duplicate(&self) -> (copy: TypedValue)
        ensures
            copy@ == self@,
        decreases self,
    {
        match self {
            TypedValue::Address(b) => TypedValue::Address(copy_bytes(b)),
            TypedValue::Bool(b) => TypedValue::Bool(*b),
            TypedValue::Uint(b, bits) => TypedValue::Uint(copy_bytes(b), *bits),
            TypedValue::Int(b, bits) => TypedValue::Int(copy_bytes(b), *bits),
            TypedValue::FixedBytes(b, size) => TypedValue::FixedBytes(copy_bytes(b), *size),
            TypedValue::Bytes(b) => TypedValue::Bytes(copy_bytes(b)),
            TypedValue::String(s) => TypedValue::String(s.clone()),
            TypedValue::Function(b) => TypedValue::Function(copy_bytes(b)),
            TypedValue::Array(items) => {
                let copies = TypedValue::duplicate_all(items);
                let copy = TypedValue::Array(copies);
                proof {
                    copy.lemma_parts();
                    self.lemma_parts();
                }
                copy
            },
            TypedValue::FixedArray(items) => {
                let copies = TypedValue::duplicate_all(items);
                let copy = TypedValue::FixedArray(copies);
                proof {
                    copy.lemma_parts();
                    self.lemma_parts();
                }
                copy
            },
            TypedValue::Tuple(items) => {
                let copies = TypedValue::duplicate_all(items);
                let copy = TypedValue::Tuple(copies);
                proof {
                    copy.lemma_parts();
                    self.lemma_parts();
                }
                copy
            },
        }
    }

    /// Copies of all the values of a list.
    pub fn duplicate_all(items: &Vec<TypedValue>) -> (copies: Vec<TypedValue>)
        ensures
            value_models(copies@) == value_models(items@),
            copies@.len() == items@.len(),
        decreases items,
    {
        let mut copies: Vec<TypedValue> = Vec::new();
        let mut i: usize = 0;
        while i < items.len()
            invariant
                i <= items@.len(),
                copies@.len() == i,
                forall|j: int| 0 <= j < i ==> copies@[j]@ == items@[j]@,
            decreases items@.len() - i,
        {
            let item = items[i].duplicate();
            copies.push(item);
            i += 1;
        }
        assert(value_models(copies@) =~= value_models(items@));
        copies
    }
}

} // verus!

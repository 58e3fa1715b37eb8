//! Variables as a configuration declares them, and the four ways in which a
//! slot of an action can be filled.
use vstd::prelude::*;
use crate::abi::{coerce, read_value};
use crate::errors::{fails_with, DeployerError, ErrorView};
use crate::text::same_text;
use crate::types::{SolType, TypedValue, ValueModel};

verus! {

/// A declared variable: the textual Solidity type and the text of the value.
#[derive(Debug, PartialEq, Eq)]
pub struct Variable {
    pub ty: String,
    pub value: String,
}

/// What fills a slot of an action.
#[derive(Debug, PartialEq, Eq)]
pub enum VariableValue {
    /// The name of a variable.
    Var(String),
    /// The path of an output that an earlier action recorded.
    Output(String),
    /// A literal, read as the type that the slot expects.
    Value(String),
    /// A data key, a dot, and a path inside that data source.
    Data(String),
}

/// The mathematical value of a `VariableValue`.
pub enum ReferenceView {
    Var(Seq<char>),
    Output(Seq<char>),
    Value(Seq<char>),
    Data(Seq<char>),
}

impl View for VariableValue {
    type V = ReferenceView;

    open spec fn view(&self) -> ReferenceView {
        match self {
            VariableValue::Var(s) => ReferenceView::Var(s@),
            VariableValue::Output(s) => ReferenceView::Output(s@),
            VariableValue::Value(s) => ReferenceView::Value(s@),
            VariableValue::Data(s) => ReferenceView::Data(s@),
        }
    }
}

/// The text of the error for a tag that names no kind of reference.
pub open spec fn unknown_tag_message(tag: Seq<char>) -> Seq<char> {
    "Unknown tag: "@ + tag
}

/// The reference that a tagged text stands for: `!var`, `!output` and
/// `!data` name their kind, and a text without a tag is a literal. `None`
/// for any other tag.
pub open spec fn tagged_reference(tag: Seq<char>, text: Seq<char>) -> Option<ReferenceView> {
    if tag.len() == 0 {
        Some(ReferenceView::Value(text))
    } else if tag == "!var"@ {
        Some(ReferenceView::Var(text))
    } else if tag == "!output"@ {
        Some(ReferenceView::Output(text))
    } else if tag == "!data"@ {
        Some(ReferenceView::Data(text))
    } else {
        None
    }
}

impl ReferenceView {
    /// The tag under which a reference of this kind is written; none for a
    /// literal.
    pub open spec fn tag(self) -> Seq<char> {
        match self {
            ReferenceView::Var(_) => "!var"@,
            ReferenceView::Output(_) => "!output"@,
            ReferenceView::Value(_) => Seq::empty(),
            ReferenceView::Data(_) => "!data"@,
        }
    }

    /// The text that the reference carries.
    pub open spec fn text(self) -> Seq<char> {
        match self {
            ReferenceView::Var(text) => text,
            ReferenceView::Output(text) => text,
            ReferenceView::Value(text) => text,
            ReferenceView::Data(text) => text,
        }
    }
}

/// A reference written as tag and text reads back as itself.
pub proof fn lemma_tag_round_trip(reference: ReferenceView)
    ensures
        tagged_reference(reference.tag(), reference.text()) == Some(reference),
{
    reveal_strlit("!var");
    reveal_strlit("!output");
    reveal_strlit("!data");
    match reference {
        ReferenceView::Var(_) => {},
        ReferenceView::Output(_) => {
            assert("!output"@ != "!var"@) by {
                assert("!output"@.len() != "!var"@.len());
            }
        },
        ReferenceView::Value(_) => {},
        ReferenceView::Data(_) => {
            assert("!data"@ != "!var"@) by {
                assert("!data"@.len() != "!var"@.len());
            }
            assert("!data"@ != "!output"@) by {
                assert("!data"@.len() != "!output"@.len());
            }
        },
    }
}

/// The reference that a text under an explicit kind stands for: the kinds
/// are `Value`, `Var`, `Output` and `Data`. `None` for any other kind.
pub open spec fn discriminated_reference(kind: Seq<char>, text: Seq<char>) -> Option<
    ReferenceView,
> {
    if kind == "Value"@ {
        Some(ReferenceView::Value(text))
    } else if kind == "Var"@ {
        Some(ReferenceView::Var(text))
    } else if kind == "Output"@ {
        Some(ReferenceView::Output(text))
    } else if kind == "Data"@ {
        Some(ReferenceView::Data(text))
    } else {
        None
    }
}

impl ReferenceView {
    /// The kind under which a reference is written where kinds are
    /// explicit.
    pub open spec fn discriminator(self) -> Seq<char> {
        match self {
            ReferenceView::Var(_) => "Var"@,
            ReferenceView::Output(_) => "Output"@,
            ReferenceView::Value(_) => "Value"@,
            ReferenceView::Data(_) => "Data"@,
        }
    }
}

/// A reference reads back as itself from either way of writing it: from its
/// tag and its text, and from its explicit kind and its text.
pub proof fn lemma_both_forms_round_trip(reference: ReferenceView)
    ensures
        tagged_reference(reference.tag(), reference.text()) == Some(reference),
        discriminated_reference(reference.discriminator(), reference.text()) == Some(reference),
{
    lemma_tag_round_trip(reference);
    reveal_strlit("Value");
    reveal_strlit("Var");
    reveal_strlit("Output");
    reveal_strlit("Data");
    assert("Var"@.len() == 3 && "Value"@.len() == 5 && "Output"@.len() == 6 && "Data"@.len() == 4);
}

impl VariableValue {
    /// Reads a reference from its explicit kind and its text. Fails with
    /// `Config` for a kind other than `Value`, `Var`, `Output` and `Data`.
    pub fn from_discriminated(kind: &str, text: &str) -> (result: Result<
        VariableValue,
        DeployerError,
    >)
        ensures
            match discriminated_reference(kind@, text@) {
                Some(reference) => result matches Ok(found) && found@ == reference,
                None => fails_with(result, ErrorView::Config(unknown_tag_message(kind@))),
            },
    {
        if same_text(kind, "Value") {
            Ok(VariableValue::Value(String::from_str(text)))
        } else if same_text(kind, "Var") {
            Ok(VariableValue::Var(String::from_str(text)))
        } else if same_text(kind, "Output") {
            Ok(VariableValue::Output(String::from_str(text)))
        } else if same_text(kind, "Data") {
            Ok(VariableValue::Data(String::from_str(text)))
        } else {
            Err(DeployerError::Config(String::from_str("Unknown tag: ").concat(kind)))
        }
    }

    /// The kind under which this reference is written where kinds are
    /// explicit.
    pub fn discriminator(&self) -> (kind: &'static str)
        ensures
            kind@ == self@.discriminator(),
    {
        match self {
            VariableValue::Var(_) => "Var",
            VariableValue::Output(_) => "Output",
            VariableValue::Value(_) => "Value",
            VariableValue::Data(_) => "Data",
        }
    }
}

impl VariableValue {
    /// Reads a reference from its tag and its text. A text without a tag
    /// is a literal. Fails with `Config` for a tag other than `!var`,
    /// `!output` and `!data`.
    pub fn from_tagged(tag: &str, text: &str) -> (result: Result<VariableValue, DeployerError>)
        ensures
            match tagged_reference(tag@, text@) {
                Some(reference) => result matches Ok(found) && found@ == reference,
                None => fails_with(result, ErrorView::Config(unknown_tag_message(tag@))),
            },
    {
        if tag.is_empty() {
            Ok(VariableValue::Value(String::from_str(text)))
        } else if same_text(tag, "!var") {
            Ok(VariableValue::Var(String::from_str(text)))
        } else if same_text(tag, "!output") {
            Ok(VariableValue::Output(String::from_str(text)))
        } else if same_text(tag, "!data") {
            Ok(VariableValue::Data(String::from_str(text)))
        } else {
            Err(DeployerError::Config(String::from_str("Unknown tag: ").concat(tag)))
        }
    }

    /// The tag under which this reference is written; empty for a literal.
    pub fn tag(&self) -> (tag: &'static str)
        ensures
            tag@ == self@.tag(),
    {
        match self {
            VariableValue::Var(_) => "!var",
            VariableValue::Output(_) => "!output",
            VariableValue::Value(_) => {
                proof {
                    reveal_strlit("");
                }
                assert(""@ =~= Seq::<char>::empty());
                ""
            },
            VariableValue::Data(_) => "!data",
        }
    }

    /// The text that this reference carries.
    pub fn text(&self) -> (text: &String)
        ensures
            text@ == self@.text(),
    {
        match self {
            VariableValue::Var(text) => text,
            VariableValue::Output(text) => text,
            VariableValue::Value(text) => text,
            VariableValue::Data(text) => text,
        }
    }
}

/// What a lookup gives, as a mathematical value: the value found, or the
/// failure.
pub open spec fn result_model(result: Result<TypedValue, DeployerError>) -> Result<
    ValueModel,
    ErrorView,
> {
    match result {
        Ok(value) => Ok(value@),
        Err(e) => Err(e@),
    }
}

/// The capability that references are resolved against: variables, recorded
/// outputs and data sources.
///
/// What each lookup gives is a function of the resolver and the key alone:
/// as long as the resolver is not changed, the same key gives the same value.
pub trait VariableResolver {
    /// What the variable `key` resolves to.
    spec fn variable(&self, key: Seq<char>) -> Result<ValueModel, ErrorView>;

    /// What the output at the path `id` resolves to.
    spec fn output(&self, id: Seq<char>) -> Result<ValueModel, ErrorView>;

    /// What the data path `path` resolves to.
    spec fn data(&self, path: Seq<char>) -> Result<ValueModel, ErrorView>;

    fn get_variable(&self, key: &str) -> (result: Result<TypedValue, DeployerError>)
        ensures
            result_model(result) == self.variable(key@),
    ;

    fn get_output(&self, id: &str) -> (result: Result<TypedValue, DeployerError>)
        ensures
            result_model(result) == self.output(id@),
    ;

    fn get_data(&self, path: &str) -> (result: Result<TypedValue, DeployerError>)
        ensures
            result_model(result) == self.data(path@),
    ;
}

/// What a reference resolves to, for a slot that expects the type `ty`: a
/// literal is read as that type, any other reference is looked up.
pub open spec fn resolved<R: VariableResolver>(
    reference: ReferenceView,
    ty: Seq<char>,
    resolver: &R,
) -> Result<ValueModel, ErrorView> {
    match reference {
        ReferenceView::Var(key) => resolver.variable(key),
        ReferenceView::Output(id) => resolver.output(id),
        ReferenceView::Value(text) => match read_value(ty, text) {
            Some(model) => Ok(model),
            None => Err(ErrorView::TypeConversion { expected: ty, actual: text }),
        },
        ReferenceView::Data(path) => resolver.data(path),
    }
}

impl VariableValue {
    /// Resolves this reference for a slot that expects `expected_type`.
    ///
    /// A literal is read as a value of that type and fails with
    /// `TypeConversion` where it is none. A variable, an output and a data
    /// path are looked up in `resolver`, whose failure is handed on.
    pub fn resolve<R: VariableResolver>(&self, expected_type: SolType, resolver: &R) -> (result:
        Result<TypedValue, DeployerError>)
        ensures
            result_model(result) == resolved(self@, expected_type@, resolver),
    {
        match self {
            VariableValue::Var(key) => resolver.get_variable(key.as_str()),
            VariableValue::Output(id) => resolver.get_output(id.as_str()),
            VariableValue::Value(value) => coerce(&expected_type, value.as_str()),
            VariableValue::Data(path) => resolver.get_data(path.as_str()),
        }
    }
}

/// Resolving a reference twice against an unchanged resolver gives the same
/// value, or the same failure, both times.
pub proof fn lemma_resolution_is_repeatable<R: VariableResolver>(
    reference: ReferenceView,
    ty: Seq<char>,
    resolver: &R,
    first: Result<TypedValue, DeployerError>,
    second: Result<TypedValue, DeployerError>,
)
    requires
        result_model(first) == resolved(reference, ty, resolver),
        result_model(second) == resolved(reference, ty, resolver),
    ensures
        result_model(first) == result_model(second),
{
}

} // verus!

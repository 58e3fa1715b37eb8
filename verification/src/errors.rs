//! The closed set of failures that every layer of the pipeline reports.
use vstd::prelude::*;
use vstd::string::*;

verus! {

/// A failure of the pipeline. Each variant carries the text that explains it.
#[derive(Debug, PartialEq, Eq)]
pub enum DeployerError {
    /// Malformed input, a missing file, an unknown tag or a bad path.
    Config(String),
    /// The preconditions of a call were not met.
    Execution(String),
    /// A `Var` reference named a variable that nothing declares.
    VariableNotFound(String),
    /// An `Output` reference named a path that nothing recorded.
    OutputNotFound(String),
    /// A text could not be read as a value of the expected type.
    TypeConversion { expected: String, actual: String },
    /// The deployment address did not match, or the deployment reverted.
    DeploymentFailed(String),
    /// A state-changing call reverted.
    TransactionFailed(String),
    /// A signature could not be parsed.
    AbiParsing(String),
}

/// The mathematical value of a `DeployerError`: the variant and its texts.
pub enum ErrorView {
    Config(Seq<char>),
    Execution(Seq<char>),
    VariableNotFound(Seq<char>),
    OutputNotFound(Seq<char>),
    TypeConversion { expected: Seq<char>, actual: Seq<char> },
    DeploymentFailed(Seq<char>),
    TransactionFailed(Seq<char>),
    AbiParsing(Seq<char>),
}

impl View for DeployerError {
    type V = ErrorView;

    open spec fn view(&self) -> ErrorView {
        match self {
            DeployerError::Config(m) => ErrorView::Config(m@),
            DeployerError::Execution(m) => ErrorView::Execution(m@),
            DeployerError::VariableNotFound(m) => ErrorView::VariableNotFound(m@),
            DeployerError::OutputNotFound(m) => ErrorView::OutputNotFound(m@),
            DeployerError::TypeConversion { expected, actual } => ErrorView::TypeConversion {
                expected: expected@,
                actual: actual@,
            },
            DeployerError::DeploymentFailed(m) => ErrorView::DeploymentFailed(m@),
            DeployerError::TransactionFailed(m) => ErrorView::TransactionFailed(m@),
            DeployerError::AbiParsing(m) => ErrorView::AbiParsing(m@),
        }
    }
}

impl ErrorView {
    /// The heading that introduces an error of this kind in its message.
    pub open spec fn heading(self) -> Seq<char> {
        match self {
            ErrorView::Config(_) => "Configuration error: "@,
            ErrorView::Execution(_) => "Execution error: "@,
            ErrorView::VariableNotFound(_) => "Variable not found: "@,
            ErrorView::OutputNotFound(_) => "Output not found: "@,
            ErrorView::TypeConversion { .. } => "Invalid type conversion: expected "@,
            ErrorView::DeploymentFailed(_) => "Deployment failed: "@,
            ErrorView::TransactionFailed(_) => "Transaction failed: "@,
            ErrorView::AbiParsing(_) => "ABI parsing error: "@,
        }
    }

    /// What follows the heading: the carried text, and for a type conversion
    /// the expected type, the words ", got " and the offending text.
    pub open spec fn detail(self) -> Seq<char> {
        match self {
            ErrorView::Config(m) => m,
            ErrorView::Execution(m) => m,
            ErrorView::VariableNotFound(m) => m,
            ErrorView::OutputNotFound(m) => m,
            ErrorView::TypeConversion { expected, actual } => expected + ", got "@ + actual,
            ErrorView::DeploymentFailed(m) => m,
            ErrorView::TransactionFailed(m) => m,
            ErrorView::AbiParsing(m) => m,
        }
    }

    /// The whole message: heading, then detail.
    pub open spec fn message(self) -> Seq<char> {
        self.heading() + self.detail()
    }
}

/// The result is the failure `error`.
pub open spec fn fails_with<T>(result: Result<T, DeployerError>, error: ErrorView) -> bool {
    match result {
        Ok(_) => false,
        Err(e) => e@ == error,
    }
}

impl DeployerError {
    /// A copy of this error.
    pub fn duplicate(&self) -> (copy: DeployerError)
        ensures
            copy@ == self@,
    {
        match self {
            DeployerError::Config(m) => DeployerError::Config(m.clone()),
            DeployerError::Execution(m) => DeployerError::Execution(m.clone()),
            DeployerError::VariableNotFound(m) => DeployerError::VariableNotFound(m.clone()),
            DeployerError::OutputNotFound(m) => DeployerError::OutputNotFound(m.clone()),
            DeployerError::TypeConversion { expected, actual } => DeployerError::TypeConversion {
                expected: expected.clone(),
                actual: actual.clone(),
            },
            DeployerError::DeploymentFailed(m) => DeployerError::DeploymentFailed(m.clone()),
            DeployerError::TransactionFailed(m) => DeployerError::TransactionFailed(m.clone()),
            DeployerError::AbiParsing(m) => DeployerError::AbiParsing(m.clone()),
        }
    }

    /// The message of this error, as one line of text.
    pub fn message(&self) -> (text: String)
        ensures
            text@ == self@.message(),
    {
        match self {
            DeployerError::Config(m) => String::from_str("Configuration error: ").concat(
                m.as_str(),
            ),
            DeployerError::Execution(m) => String::from_str("Execution error: ").concat(m.as_str()),
            DeployerError::VariableNotFound(m) => String::from_str("Variable not found: ").concat(
                m.as_str(),
            ),
            DeployerError::OutputNotFound(m) => String::from_str("Output not found: ").concat(
                m.as_str(),
            ),
            DeployerError::TypeConversion { expected, actual } => {
                let text = String::from_str("Invalid type conversion: expected ").concat(
                    expected.as_str(),
                ).concat(", got ").concat(actual.as_str());
                assert(text@ =~= self@.message());
                text
            },
            DeployerError::DeploymentFailed(m) => String::from_str("Deployment failed: ").concat(
                m.as_str(),
            ),
            DeployerError::TransactionFailed(m) => String::from_str("Transaction failed: ").concat(
                m.as_str(),
            ),
            DeployerError::AbiParsing(m) => String::from_str("ABI parsing error: ").concat(
                m.as_str(),
            ),
        }
    }
}

} // verus!

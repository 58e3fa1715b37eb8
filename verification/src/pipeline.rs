//! What a service that runs pipelines answers.
use vstd::prelude::*;

verus! {

/// Why a pipeline could not be run.
#[derive(Debug, PartialEq, Eq)]
pub enum PipelineError {
    NotFound,
    ExecutionFailed(String),
    InternalError,
}

/// How a pipeline stands.
#[derive(Debug, PartialEq, Eq)]
pub enum PipelineStatus {
    Success,
    Pending,
    Error,
}

/// The answer to a question for the status of a pipeline.
#[derive(Debug, PartialEq, Eq)]
pub struct PipelineStatusResponse {
    pub status: PipelineStatus,
}

/// The answer to the start of a pipeline.
#[derive(Debug, PartialEq, Eq)]
pub struct PipelineStartResponse {
    pub id: String,
}

/// What a pipeline executor answers to a command.
#[derive(Debug, PartialEq, Eq)]
pub enum ExecutorResponse {
    StartResponse(String),
    StatusResponse(String),
    ExecuteResponse(String),
}

} // verus!

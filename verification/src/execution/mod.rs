//! The executors of the three kinds of action. Each one resolves and encodes
//! what it needs, says what it asks of the chain, and judges the answer.
pub mod arguments;
pub mod call;
pub mod deploy;
pub mod read;
pub mod write;

//! A declarative EVM deployment pipeline: typed values, reference resolution,
//! dependency scheduling, CREATE2 deployment planning and output indexing.
pub mod errors;
pub mod text;
pub mod types;
pub mod lookup;
pub mod variables;
pub mod comparison;
pub mod canonical;
pub mod actions;
pub mod indexer;
pub mod collector;
pub mod abi;
pub mod hexcode;
pub mod json;
pub mod jsonpath;
pub mod data;
pub mod resolver;
pub mod data_indexer;
pub mod config;
pub mod executor;
pub mod schema;
pub mod pipeline;
pub mod scheduler;
pub mod execution;
pub mod conditions;

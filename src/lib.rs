//! Content moderation for a small social board, with the board's own
//! record keys, query parameters and listings.
//!
//! Moderation runs in two steps. `policy::screen` applies the forbidden-word
//! gate and says which classifier, if any, to ask. The caller runs it and
//! hands the outcome to `policy::finish_local` or `policy::finish_remote`.
//! The local model's inputs come from `tokenizer::model_inputs`.
//! Scores are fixed-point, in millionths of the unit interval.
pub mod config;
pub mod errors;
pub mod evaluation;
pub mod follow;
pub mod models;
pub mod policy;
pub mod posts;
pub mod query_params;
pub mod text;
pub mod tokenizer;
pub mod users;

//! Meeting summaries.
pub mod commands;

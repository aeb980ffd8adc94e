//! A small weather client: decoding of the provider's JSON answer into a
//! record, a fixed textual report of that record, and the decisions of the
//! line-mode and windowed front ends.

pub mod text;
pub mod json;
pub mod weather;
pub mod query;
pub mod pipeline;
pub mod cli;
pub mod gui;

//! Repository line-of-code analysis: per-language line classifiers, file
//! categorisation, aggregation and report rendering.
pub mod text;
pub mod types;
pub mod metrics;
pub mod lines;
pub mod registry;
pub mod backends;
pub mod paths;
pub mod categories;
pub mod filters;
pub mod analyze;
pub mod sorting;
pub mod report;
pub mod lang;
pub mod treesitter;
pub mod config;
pub mod cli;

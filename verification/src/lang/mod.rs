//! The per-language line classifiers.
pub mod cfamily;
pub mod rust;
pub mod js;
pub mod pyscan;
pub mod pydoc;
pub mod python;
pub mod shell;
pub mod powershell;
pub mod sql;
pub mod web;
pub mod plain;

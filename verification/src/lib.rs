//! Turns streams of structured records into command invocations.
//!
//! The crate holds the decisions of the tool: how the first bytes of an input
//! are kept for replay, which format an input is read as, how tabular rows
//! become records and back, how a command template becomes one invocation per
//! record, and how per-record outcomes fold into the result of a run.
//!
//! Reading files, asking the operator and running processes is left to the
//! caller. The bytes of a format, the rendering of a template and the
//! evaluation of a query are the work of other crates: `value`, `formats::rows`,
//! `formats` (its registry), `templates`, `command` and `query` hold the calls
//! into them, each with what is taken for granted of it.

pub mod action;
pub mod command;
pub mod errors;
pub mod formats;
pub mod query;
pub mod readers;
pub mod run;
pub mod scheduler;
pub mod templates;
pub mod text;
pub mod value;

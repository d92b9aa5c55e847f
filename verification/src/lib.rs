//! Environment resolution for a process launcher.
//!
//! A launcher of this kind rewrites the environment it was started in before
//! it hands it to the command it launches. This library holds the rules of
//! that rewriting, with everything they promise stated and proved.
//!
//! - [`classifier`] sorts the variables: those named on the pass list, and,
//!   where a prefix is set, those whose names do not begin with it, are
//!   handed on untouched; the others are candidates.
//! - [`directive`] splits a value of the form `<method>::<payload>`.
//! - [`engine`] takes the candidates in order and resolves their directives.
//!   It does no input or output: where it needs a secret it says so, and the
//!   caller comes back with the answer.
//! - [`launch`] puts together what the launcher is handed in the end.
//! - [`guarantees`] states what holds of every run.
//! - [`environment`], [`config`], [`warning`] and [`text`] hold the data the
//!   others work on.

pub mod classifier;
pub mod config;
pub mod directive;
pub mod engine;
pub mod environment;
pub mod guarantees;
pub mod launch;
pub mod text;
pub mod warning;

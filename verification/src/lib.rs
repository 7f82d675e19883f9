//! Staged command-line argument resolution with contextual help text.
//!
//! A [`cli::Cli`] session owns the tokens of one invocation and hands them out,
//! at most once each, to the descriptors of [`arg`]. Failures are classified
//! by [`errors::CliError`] and carry the [`help::Help`] document that was
//! active when they arose.

pub mod arg;
pub mod cli;
pub mod convert;
pub mod errors;
pub mod help;

//! The logic of the CortexFlow command line tool: what it asks the cluster,
//! and how it reads and presents the answers.
use vstd::prelude::*;

pub mod text;
pub mod runner;
pub mod errors;
pub mod logs;
pub mod report;
pub mod status;
pub mod service;
pub mod uninstall;
pub mod policies;

verus! {

/// The program that every cluster query is handed to.
pub const BASE_COMMAND: &'static str = "kubectl";

} // verus!

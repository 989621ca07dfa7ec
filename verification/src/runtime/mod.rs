//! The agent loop: a prompt goes to the model, the tools that the model asks for are run, and their
//! results go back to it, until the model asks for none.
//!
//! Everything that waits (the network, tools, people, the disk) happens outside. What happens here
//! are the decisions in between: each function takes in what came back and says what comes next.
use vstd::prelude::*;

pub mod agent;
pub mod approval;
pub mod batch;
pub mod commands;
pub mod compaction;
pub mod condensed;
pub mod facts;
pub mod laws;
pub mod preflight;
pub mod queues;
pub mod retry;
pub mod run;
pub mod shown;
pub mod turns;

verus! {

} // verus!

//! The terminal front end: what it shows, and what keys do.
use vstd::prelude::*;

pub mod app;
pub mod cells;
pub mod command;
pub mod input;
pub mod keys;
pub mod picker;
pub mod seen;
pub mod transcript;
pub mod wrap;

verus! {

} // verus!

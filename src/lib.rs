//! Filling named holes in a text file with model completions: the marker
//! grammar, composition of the context blob, hole detection, queries, reply
//! parsing, review of each edit, and the hole-by-hole resolution of a file.
use vstd::prelude::*;

pub mod command;
pub mod config;
pub mod error;
pub mod fill;
pub mod grammar;
pub mod model;
pub mod provider;
pub mod resolution;
pub mod review;
pub mod service;
pub mod text;

verus! {

} // verus!

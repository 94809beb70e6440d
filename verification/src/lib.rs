//! A package-manager front end: search, install and remove packages across
//! system package managers and language ecosystems, with the parsing of each
//! tool's output, the planning of package transactions and the safety checks
//! on command arguments verified.
use vstd::prelude::*;

pub mod backends;
pub mod clock;
pub mod commands;
pub mod diagnostics;
pub mod models;
pub mod pattern;
pub mod query;
pub mod services;
pub mod sorting;
pub mod text;
pub mod transaction;
pub mod utils;

verus! {

} // verus!

//! Package backends.
pub mod providers;

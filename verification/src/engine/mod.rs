//! Immutable engine generations: their specification, activation and background builds.

pub mod builder;
pub mod digest;
pub mod laws;
pub mod models;
pub mod reported;
pub mod rules;
pub mod spec;
pub mod supervisor;

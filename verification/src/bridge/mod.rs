//! From the values of controls to what an engine is asked for.

pub mod choices;
pub mod groups;
pub mod laws;
pub mod read;
pub mod request;
pub mod settings;

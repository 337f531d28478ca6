//! Workspaces: what an editor session is saved as, and how other documents are read and written.

pub mod document;
pub mod export;
pub mod format;
pub mod import;
pub mod laws;
pub mod values;

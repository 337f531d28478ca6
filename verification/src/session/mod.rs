//! An editor session: what it shows, what it holds, and what its user and its worker do to it.

pub mod events;
pub mod files;
pub mod inspector;
pub mod jobs;
pub mod laws;
pub mod media;
pub mod player;
pub mod routes;
pub mod state;
pub mod textures;

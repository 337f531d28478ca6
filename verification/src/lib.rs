pub mod artifacts;
pub mod assigned;
pub mod backend;
pub mod bridge;
pub mod config;
pub mod controls;
pub mod embeddings;
pub mod engine;
pub mod faces;
pub mod gpu;
pub mod headless;
pub mod intact;
pub mod json;
pub mod kernel_manifest;
pub mod live;
pub mod media;
pub mod npp;
pub mod number;
pub mod ordered;
pub mod paths;
pub mod pictures;
pub mod preview;
pub mod recording;
pub mod reports;
pub mod runtime;
pub mod search;
pub mod session;
pub mod text;
pub mod timeline;
pub mod trace;
pub mod viewport;
pub mod worker;
pub mod workspace;

//! Immutable downloadable artifact identities shared by models and runtimes.

use vstd::prelude::*;

verus! {

/// A place that an artifact can be had from.
#[derive(Debug, Clone, Copy, PartialEq, Eq)]
pub struct ArtifactMirror {
    pub name: &'static str,
    pub url: &'static str,
}

/// One artifact by its name, size and digest, with its two mirrors.
#[derive(Debug, Clone, Copy, PartialEq, Eq)]
pub struct ArtifactEntry {
    pub name: &'static str,
    pub filename: &'static str,
    pub size: u64,
    pub blake3: &'static str,
    pub mirrors: [ArtifactMirror; 2],
}

} // verus!

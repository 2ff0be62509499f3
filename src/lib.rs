//! Converts between a Rust script that carries its manifest in a leading
//! `//!` documentation comment and a package (manifest file plus source file),
//! keeps a workspace's member lists in order, and decides how a package is
//! mirrored against a remote snippet store.

pub mod cli;
pub mod gist;
pub mod locate;
pub mod members;
pub mod package;
pub mod text;
pub mod transcode;

use vstd::prelude::*;

verus! {

/// Why an operation failed.
#[derive(Clone, Debug, PartialEq, Eq)]
pub enum Failure {
    /// The source text is not a Rust file; the parser's message.
    Parse(String),
    /// The fenced `cargo` block is missing; the caller's label.
    ManifestBlockNotFound(String),
    /// The workspace manifest is not TOML; the parser's message.
    InvalidManifest(String),
    /// `workspace.<key>` is there but is not an array; the key.
    NotAnArray(String),
    /// The remote store answered with another status than expected.
    UnexpectedStatus { expected: u16, actual: u16 },
    /// The remote record holds several Rust files; their names.
    MultipleRustFiles(Vec<String>),
    /// The remote record holds no Rust file.
    NoRustFiles,
    /// The remote store cut the file short; its name.
    Truncated(String),
    /// There is no remote record yet and creating one was not asked for.
    SetUpstreamRequired,
    /// The package has no binary target to export.
    NoBinTargets,
    /// The package has several binary targets and none is the default.
    AmbiguousBinTarget,
    /// `package.name` is missing or is not a string.
    PackageNameNotString,
}

} // verus!

//! The options of the `cargo bikecase` subcommands, and what a run starts from.

use vstd::prelude::*;

verus! {

/// When output is coloured.
#[derive(Clone, Copy, Debug, PartialEq, Eq, Structural)]
pub enum ColorChoice {
    Auto,
    Always,
    Never,
}

/// The `cargo` entry point.
#[derive(Clone, Debug)]
pub enum Cargo {
    Bikecase(CargoBikecase),
}

/// The subcommands.
#[derive(Clone, Debug)]
pub enum CargoBikecase {
    /// Create a new workspace in an existing directory.
    InitWorkspace(CargoBikecaseInitWorkspace),
    /// Create a new workspace member from a template.
    New(CargoBikecaseNew),
    /// Remove a workspace member.
    Rm(CargoBikecaseRm),
    /// Include a package in the workspace.
    Include(CargoBikecaseInclude),
    /// Exclude a package from the workspace.
    Exclude(CargoBikecaseExclude),
    /// Import a script as a package.
    Import(CargoBikecaseImport),
    /// Export a package as a script.
    Export(CargoBikecaseExport),
    /// Mirror packages against remote snippets.
    Gist(CargoBikecaseGist),
}

#[derive(Clone, Debug)]
pub struct CargoBikecaseInitWorkspace {
    pub color: ColorChoice,
    pub dry_run: bool,
    pub path: String,
}

#[derive(Clone, Debug)]
pub struct CargoBikecaseNew {
    pub manifest_path: Option<String>,
    pub name: Option<String>,
    pub color: ColorChoice,
    pub dry_run: bool,
    pub config: String,
    pub path: String,
}

#[derive(Clone, Debug)]
pub struct CargoBikecaseRm {
    pub manifest_path: Option<String>,
    pub color: ColorChoice,
    pub dry_run: bool,
    pub spec: String,
}

#[derive(Clone, Debug)]
pub struct CargoBikecaseInclude {
    pub manifest_path: Option<String>,
    pub color: ColorChoice,
    pub dry_run: bool,
    pub path: String,
}

#[derive(Clone, Debug)]
pub struct CargoBikecaseExclude {
    pub manifest_path: Option<String>,
    pub color: ColorChoice,
    pub dry_run: bool,
    pub path: String,
}

#[derive(Clone, Debug)]
pub struct CargoBikecaseImport {
    pub manifest_path: Option<String>,
    pub color: ColorChoice,
    pub dry_run: bool,
    pub path: Option<String>,
    pub file: Option<String>,
}

#[derive(Clone, Debug)]
pub struct CargoBikecaseExport {
    pub package: Option<String>,
    pub manifest_path: Option<String>,
    pub color: ColorChoice,
}

/// The remote snippet subcommands.
#[derive(Clone, Debug)]
pub enum CargoBikecaseGist {
    Clone(CargoBikecaseGistClone),
    Pull(CargoBikecaseGistPull),
    Push(CargoBikecaseGistPush),
}

#[derive(Clone, Debug)]
pub struct CargoBikecaseGistClone {
    pub manifest_path: Option<String>,
    pub color: ColorChoice,
    pub dry_run: bool,
    pub path: Option<String>,
    pub config: String,
    pub gist_id: String,
}

#[derive(Clone, Debug)]
pub struct CargoBikecaseGistPull {
    pub package: Option<String>,
    pub manifest_path: Option<String>,
    pub color: ColorChoice,
    pub dry_run: bool,
    pub config: String,
}

#[derive(Clone, Debug)]
pub struct CargoBikecaseGistPush {
    pub package: Option<String>,
    pub manifest_path: Option<String>,
    pub color: ColorChoice,
    pub dry_run: bool,
    pub set_upstream: bool,
    pub private: bool,
    pub description: Option<String>,
    pub config: String,
}

/// What a run starts from: the working directory and the user's directories.
#[derive(Clone, Debug)]
pub struct Context {
    pub cwd: String,
    pub home_dir: Option<String>,
    pub data_local_dir: Option<String>,
}

/// The colour option of a subcommand.
pub open spec fn color_of(c: CargoBikecase) -> ColorChoice {
    match c {
        CargoBikecase::InitWorkspace(o) => o.color,
        CargoBikecase::New(o) => o.color,
        CargoBikecase::Rm(o) => o.color,
        CargoBikecase::Include(o) => o.color,
        CargoBikecase::Exclude(o) => o.color,
        CargoBikecase::Import(o) => o.color,
        CargoBikecase::Export(o) => o.color,
        CargoBikecase::Gist(CargoBikecaseGist::Clone(o)) => o.color,
        CargoBikecase::Gist(CargoBikecaseGist::Pull(o)) => o.color,
        CargoBikecase::Gist(CargoBikecaseGist::Push(o)) => o.color,
    }
}

impl CargoBikecase {
    /// The colour option, whichever subcommand this is.
    pub fn color(&self) -> (r: ColorChoice)
        ensures
            r == color_of(*self),
    {
        match self {
            CargoBikecase::InitWorkspace(o) => o.color,
            CargoBikecase::New(o) => o.color,
            CargoBikecase::Rm(o) => o.color,
            CargoBikecase::Include(o) => o.color,
            CargoBikecase::Exclude(o) => o.color,
            CargoBikecase::Import(o) => o.color,
            CargoBikecase::Export(o) => o.color,
            CargoBikecase::Gist(CargoBikecaseGist::Clone(o)) => o.color,
            CargoBikecase::Gist(CargoBikecaseGist::Pull(o)) => o.color,
            CargoBikecase::Gist(CargoBikecaseGist::Push(o)) => o.color,
        }
    }
}

} // verus!

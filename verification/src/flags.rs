//! The build-task selections of the surrounding tooling, held as plain
//! records; the command line is parsed into them outside the library.

use vstd::prelude::*;

verus! {

#[verifier::external_type_specification]
#[verifier::external_body]
pub struct ExPathBuf(std::path::PathBuf);

/// Compatibility notice for retired task names.
#[derive(Debug)]
pub struct Deprecated;

/// Publish the project and all its sub-crates.
#[derive(Debug)]
pub struct Publish {
    /// Do everything except pushing and publishing.
    pub dry_run: bool,
}

/// Package the project for distribution.
#[derive(Debug)]
pub struct Dist;

/// Lint every crate.
#[derive(Debug)]
pub struct Clippy;

/// Format, build, test and lint in sequence.
#[derive(Debug)]
pub struct Make {
    /// Build in release mode without debug symbols.
    pub release: bool,
    /// Clean the project before building.
    pub clean: bool,
}

/// Produce a runnable executable with plugins bundled.
#[derive(Debug)]
pub struct Install {
    /// Where to put the executable.
    pub destination: std::path::PathBuf,
}

/// Run the formatter on every crate.
#[derive(Debug)]
pub struct Format {
    /// Only check whether formatting would change anything.
    pub check: bool,
}

/// Build the application and its plugins.
#[derive(Debug)]
pub struct Build {
    /// Build in release mode without debug symbols.
    pub release: bool,
    /// Build only the plugins.
    pub plugins_only: bool,
    /// Build everything except the plugins.
    pub no_plugins: bool,
}

} // verus!

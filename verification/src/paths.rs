//! Where things are kept: the install directory and the names inside it.

use vstd::prelude::*;
use vstd::string::StringExecFns;

verus! {

/// Where the installation lives.
#[derive(Debug)]
pub enum InstallLocation {
    /// The directory that the operator or the environment named.
    Given(String),
    /// The default directory: `subdirectory` under the home directory.
    UnderHome { home: String, subdirectory: String },
}

/// The mathematical content of an install location.
pub enum LocationView {
    Given(Seq<char>),
    UnderHome { home: Seq<char>, subdirectory: Seq<char> },
}

impl View for InstallLocation {
    type V = LocationView;

    open spec fn view(&self) -> LocationView {
        match *self {
            InstallLocation::Given(path) => LocationView::Given(path@),
            InstallLocation::UnderHome { home, subdirectory } => LocationView::UnderHome {
                home: home@,
                subdirectory: subdirectory@,
            },
        }
    }
}

/// The name of the default install directory under the home directory.
pub open spec fn default_subdirectory() -> Seq<char> {
    ".lodestone"@
}

/// The name of the installation record inside the install directory.
pub open spec fn record_file_name() -> Seq<char> {
    ".lodestone_cli_metadata.json"@
}

/// The name of the scratch directory inside the install directory.
pub open spec fn scratch_dir_name() -> Seq<char> {
    "tmp"@
}

/// Resolves the install directory: a directory named by the environment
/// wins; without one it is the default directory under the home
/// directory; with neither there is none.
pub fn get_lodestone_path(home_dir: Option<String>, path_override: Option<String>) -> (r: Option<
    InstallLocation,
>)
    ensures
        match (path_override, home_dir) {
            (Some(path), _) => r is Some && r->0@ == LocationView::Given(path@),
            (None, Some(home)) => r is Some && r->0@ == (LocationView::UnderHome {
                home: home@,
                subdirectory: default_subdirectory(),
            }),
            (None, None) => r is None,
        },
{
    match path_override {
        Some(path) => Some(InstallLocation::Given(path)),
        None => match home_dir {
            Some(home) => Some(
                InstallLocation::UnderHome { home, subdirectory: String::from_str(".lodestone") },
            ),
            None => None,
        },
    }
}

/// The name of the installation record inside the install directory.
pub fn metadata_file_name() -> (name: &'static str)
    ensures
        name@ == record_file_name(),
{
    ".lodestone_cli_metadata.json"
}

/// The name of the scratch directory inside the install directory.
pub fn scratch_directory_name() -> (name: &'static str)
    ensures
        name@ == scratch_dir_name(),
{
    "tmp"
}

} // verus!

//! The launcher's options, and how the options of two sources combine.

use crate::version::view_of;
use crate::version::VersionView;
use crate::version::VersionWithV;
use vstd::prelude::*;

verus! {

/// What the operator asked of the launcher.
#[derive(Debug)]
pub struct Args {
    /// Remove the installation.
    pub uninstall: bool,
    /// Install this version in place of the latest.
    pub version: Option<VersionWithV>,
    /// Count every confirmation as granted.
    pub yes_all: bool,
    /// Install into this directory.
    pub install_path: Option<String>,
    /// Keep what is installed without consulting the registry.
    pub skip_update_check: bool,
    /// Start the executable without asking.
    pub run_core: bool,
    /// List the published versions and do nothing else.
    pub list_versions: bool,
    /// Ask for a confirmation before any pre-release is installed.
    pub confirm_prereleases: bool,
}

/// The mathematical content of the options.
pub struct ArgsView {
    pub uninstall: bool,
    pub version: Option<VersionView>,
    pub yes_all: bool,
    pub install_path: Option<Seq<char>>,
    pub skip_update_check: bool,
    pub run_core: bool,
    pub list_versions: bool,
    pub confirm_prereleases: bool,
}

impl View for Args {
    type V = ArgsView;

    open spec fn view(&self) -> ArgsView {
        ArgsView {
            uninstall: self.uninstall,
            version: match self.version {
                Some(v) => Some(v@),
                None => None,
            },
            yes_all: self.yes_all,
            install_path: match self.install_path {
                Some(p) => Some(p@),
                None => None,
            },
            skip_update_check: self.skip_update_check,
            run_core: self.run_core,
            list_versions: self.list_versions,
            confirm_prereleases: self.confirm_prereleases,
        }
    }
}

/// The options of `base` overlaid with those of `other`: a version or a
/// path that `other` names replaces that of `base`; a switch is on where
/// it is on in either.
pub open spec fn merged(base: ArgsView, other: ArgsView) -> ArgsView {
    ArgsView {
        uninstall: base.uninstall || other.uninstall,
        version: if other.version is Some {
            other.version
        } else {
            base.version
        },
        yes_all: base.yes_all || other.yes_all,
        install_path: if other.install_path is Some {
            other.install_path
        } else {
            base.install_path
        },
        skip_update_check: base.skip_update_check || other.skip_update_check,
        run_core: base.run_core || other.run_core,
        list_versions: base.list_versions || other.list_versions,
        confirm_prereleases: base.confirm_prereleases || other.confirm_prereleases,
    }
}

impl Args {
    /// Options with nothing asked for.
    pub fn new() -> (args: Args)
        ensures
            args@ == (ArgsView {
                uninstall: false,
                version: None,
                yes_all: false,
                install_path: None,
                skip_update_check: false,
                run_core: false,
                list_versions: false,
                confirm_prereleases: false,
            }),
    {
        Args {
            uninstall: false,
            version: None,
            yes_all: false,
            install_path: None,
            skip_update_check: false,
            run_core: false,
            list_versions: false,
            confirm_prereleases: false,
        }
    }

    /// Overlays `other` on these options.
    pub fn merge(&mut self, other: Args)
        ensures
            final(self)@ == merged(old(self)@, other@),
    {
        if let Some(version) = other.version {
            self.version = Some(version);
        }
        if let Some(install_path) = other.install_path {
            self.install_path = Some(install_path);
        }
        self.uninstall = self.uninstall || other.uninstall;
        self.yes_all = self.yes_all || other.yes_all;
        self.skip_update_check = self.skip_update_check || other.skip_update_check;
        self.run_core = self.run_core || other.run_core;
        self.list_versions = self.list_versions || other.list_versions;
        self.confirm_prereleases = self.confirm_prereleases || other.confirm_prereleases;
    }
}

/// Merging options that ask for nothing changes nothing.
pub proof fn law_merge_with_nothing(base: ArgsView)
    ensures
        merged(
            base,
            ArgsView {
                uninstall: false,
                version: None,
                yes_all: false,
                install_path: None,
                skip_update_check: false,
                run_core: false,
                list_versions: false,
                confirm_prereleases: false,
            },
        ) == base,
{
}

} // verus!

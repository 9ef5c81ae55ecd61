//! From the registry's answer to the latest version.

use crate::error::UpdateError;
use crate::source::is_newest;
use crate::source::Source;
use crate::text::strip_leading;
use crate::version::tag_version;
use crate::version::version_of;
use crate::version::VersionView;
use crate::version::Precedence;
use crate::version::Version;
use crate::version::VersionWithV;
use crate::version::precedence;
use vstd::prelude::*;

verus! {

/// The latest version, from the tag that the registry names as its latest
/// release; `None` stands for a registry that could not be reached or that
/// answered with a failure. The tag must be a semantic version as it
/// stands.
pub fn latest(tag: Option<&str>) -> (r: Result<Version, UpdateError>)
    ensures
        match tag {
            None => r == Err::<Version, UpdateError>(UpdateError::RegistryUnavailable),
            Some(text) => match r {
                Ok(v) => version_of(text@) == Some(v@) && v@.wf() && v@.text() == text@,
                Err(e) => e == UpdateError::MalformedVersionTag && version_of(text@) is None,
            },
        },
{
    match tag {
        None => Err(UpdateError::RegistryUnavailable),
        Some(text) => Version::parse(text),
    }
}

/// As `latest`, for registries that write their tags with a `v` in
/// front: any leading run of `v` is dropped before the tag is read.
pub fn get_latest_release(tag: Option<&str>) -> (r: Result<VersionWithV, UpdateError>)
    ensures
        match tag {
            None => r == Err::<VersionWithV, UpdateError>(UpdateError::RegistryUnavailable),
            Some(text) => match r {
                Ok(v) => tag_version(text@) == Some(v@) && v@.wf() && v@.text() == strip_leading(
                    text@,
                    'v',
                ),
                Err(e) => e == UpdateError::MalformedVersionTag && tag_version(text@) is None,
            },
        },
{
    match tag {
        None => Err(UpdateError::RegistryUnavailable),
        Some(text) => VersionWithV::from_str(text),
    }
}

/// The latest version according to a catalogue of releases: that of its
/// newest release. A catalogue without a newest release counts as an
/// unavailable registry.
pub fn latest_from_source(source: &Source) -> (r: Result<VersionWithV, UpdateError>)
    ensures
        match r {
            Ok(v) => exists|at: int|
                #![trigger source.versions()[at]]
                is_newest(source.versions(), at) && v@ == source.versions()[at] && forall|k: int|
                    0 <= k < at ==> !is_newest(source.versions(), k),
            Err(e) => e == UpdateError::RegistryUnavailable && forall|k: int|
                !is_newest(source.versions(), k),
        },
{
    match source.get_latest_release() {
        Some(release) => {
            proof {
                let at = choose|at: int|
                    #![trigger source.releases()[at]]
                    is_newest(source.versions(), at) && release == &source.releases()[at]
                        && forall|k: int| 0 <= k < at ==> !is_newest(source.versions(), k);
                assert(source.versions()[at] == release.version@);
            }
            Ok(release.version.clone())
        },
        None => Err(UpdateError::RegistryUnavailable),
    }
}

/// What the launcher does about its own executable.
#[derive(Debug)]
pub enum SelfUpdate {
    /// The running launcher is the latest, or newer.
    UpToDate,
    /// Replace the running launcher (first) by the latest (second).
    Replace(Version, Version),
}

/// The launcher is replaced exactly where `latest` stands above `running`.
pub open spec fn replaces(latest: VersionView, running: VersionView, r: SelfUpdate) -> bool {
    match r {
        SelfUpdate::UpToDate => precedence(latest, running) != Precedence::Higher,
        SelfUpdate::Replace(from, to) => from@ == running && to@ == latest && precedence(
            latest,
            running,
        ) == Precedence::Higher,
    }
}

/// Decides whether the launcher replaces itself, from the tag of its
/// latest release and the version that runs.
pub fn self_update(latest_tag: &str, running: Version) -> (r: Result<SelfUpdate, UpdateError>)
    ensures
        match r {
            Ok(decision) => tag_version(latest_tag@) is Some && replaces(
                tag_version(latest_tag@)->0,
                running@,
                decision,
            ),
            Err(e) => e == UpdateError::MalformedVersionTag && tag_version(latest_tag@) is None,
        },
{
    match VersionWithV::from_str(latest_tag) {
        Ok(tagged) => {
            let latest = tagged.into_version();
            Ok(replacement(latest, running))
        },
        Err(e) => Err(e),
    }
}

/// Decides whether the launcher replaces itself, from the latest version
/// and the version that runs.
pub fn replacement(latest: Version, running: Version) -> (r: SelfUpdate)
    ensures
        replaces(latest@, running@, r),
{
    match latest.compare(&running) {
        Precedence::Higher => SelfUpdate::Replace(running, latest),
        _ => SelfUpdate::UpToDate,
    }
}

} // verus!

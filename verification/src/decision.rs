//! The update decision: what a run does about the installed version, given
//! the version on disk, the version aimed at and the operator's wishes.

use crate::version::precedence;
use crate::version::view_of;
use crate::version::Precedence;
use crate::version::Version;
use crate::version::VersionView;
use vstd::prelude::*;

verus! {

/// The single outcome of the decision for one run.
#[derive(Debug)]
pub enum UpdateDecision {
    /// Nothing is installed: install the target.
    FreshInstall(Version),
    /// Replace the installed version (first) by a newer target (second).
    Upgrade(Version, Version),
    /// Keep the installed version.
    UpToDate(Version),
    /// The installed version (first) is newer than the one asked for
    /// (second): nothing is replaced.
    DowngradeBlocked(Version, Version),
    /// The operator withheld the confirmation; the version given stays, or
    /// would have been installed.
    SkippedByUser(Version),
    /// The change was left out by a flag; the version given stays.
    SkippedBecauseFlagged(Version),
}

/// The mathematical content of a decision.
pub enum DecisionView {
    FreshInstall(VersionView),
    Upgrade(VersionView, VersionView),
    UpToDate(VersionView),
    DowngradeBlocked(VersionView, VersionView),
    SkippedByUser(VersionView),
    SkippedBecauseFlagged(VersionView),
}

impl DecisionView {
    /// Whether the decision has an artifact fetched and the record written.
    pub open spec fn installs(self) -> bool {
        self is FreshInstall || self is Upgrade
    }

    /// The version that the decision has installed, if it installs.
    pub open spec fn installed_version(self) -> Option<VersionView> {
        match self {
            DecisionView::FreshInstall(t) => Some(t),
            DecisionView::Upgrade(_, t) => Some(t),
            _ => None,
        }
    }
}

impl View for UpdateDecision {
    type V = DecisionView;

    open spec fn view(&self) -> DecisionView {
        match *self {
            UpdateDecision::FreshInstall(t) => DecisionView::FreshInstall(t@),
            UpdateDecision::Upgrade(c, t) => DecisionView::Upgrade(c@, t@),
            UpdateDecision::UpToDate(c) => DecisionView::UpToDate(c@),
            UpdateDecision::DowngradeBlocked(c, t) => DecisionView::DowngradeBlocked(c@, t@),
            UpdateDecision::SkippedByUser(v) => DecisionView::SkippedByUser(v@),
            UpdateDecision::SkippedBecauseFlagged(v) => DecisionView::SkippedBecauseFlagged(v@),
        }
    }
}

/// What the operator asked for, apart from the versions.
#[derive(Clone, Copy, Debug, PartialEq, Eq, Structural)]
pub struct Wishes {
    /// The target was named by the operator, not looked up.
    pub explicit: bool,
    /// Every confirmation counts as granted without asking.
    pub allow_unconfirmed: bool,
    /// Keep whatever is installed, without consulting the registry.
    pub skip_checks: bool,
    /// The policy on pre-releases: where it is on, installing a
    /// pre-release always takes a confirmation.
    pub confirm_prereleases: bool,
}

/// The confirmations that a run may have to ask for.
#[derive(Clone, Copy, Debug, PartialEq, Eq, Structural)]
pub enum Confirmation {
    /// Installing into a directory that holds files but no record.
    InstallIntoUsedDirectory,
    /// Replacing the installed version by a newer one.
    Upgrade,
    /// Installing a pre-release, where the policy asks for it.
    InstallPrerelease,
}

/// The confirmation that the decision depends on, if any. None is needed
/// where every confirmation is waived. With nothing installed, a directory
/// in use takes one, and else a pre-release where the policy says so. With
/// something installed and checks not skipped, an upgrade takes one, and so
/// does a pre-release named explicitly where the policy says so.
pub open spec fn confirmation_needed(
    current: Option<VersionView>,
    target: VersionView,
    wishes: Wishes,
    directory_in_use: bool,
) -> Option<Confirmation> {
    if wishes.allow_unconfirmed {
        None
    } else {
        match current {
            None => if directory_in_use {
                Some(Confirmation::InstallIntoUsedDirectory)
            } else if wishes.confirm_prereleases && target.is_prerelease() {
                Some(Confirmation::InstallPrerelease)
            } else {
                None
            },
            Some(c) => if wishes.skip_checks {
                None
            } else if wishes.explicit {
                if wishes.confirm_prereleases && target.is_prerelease() {
                    Some(Confirmation::InstallPrerelease)
                } else {
                    None
                }
            } else if precedence(c, target) == Precedence::Lower {
                Some(Confirmation::Upgrade)
            } else {
                None
            },
        }
    }
}

/// The decision, rule by rule:
/// with checks skipped, an installed version stays whatever the target is;
/// with nothing installed the target is installed;
/// a target named by the operator replaces what is installed without any
/// comparison;
/// an installed version equal to the target stays; a newer one blocks the
/// downgrade; an older one is upgraded.
/// Where an install or upgrade needs a confirmation and `confirmed` is
/// `false`, it is skipped instead, and what was there stays.
pub open spec fn decide_spec(
    current: Option<VersionView>,
    target: VersionView,
    wishes: Wishes,
    directory_in_use: bool,
    confirmed: bool,
) -> DecisionView {
    let withheld = confirmation_needed(current, target, wishes, directory_in_use) is Some
        && !confirmed;
    match current {
        None => if withheld {
            DecisionView::SkippedByUser(target)
        } else {
            DecisionView::FreshInstall(target)
        },
        Some(c) => if wishes.skip_checks {
            DecisionView::UpToDate(c)
        } else if wishes.explicit {
            if withheld {
                DecisionView::SkippedByUser(c)
            } else {
                DecisionView::FreshInstall(target)
            }
        } else {
            match precedence(c, target) {
                Precedence::Same => DecisionView::UpToDate(c),
                Precedence::Higher => DecisionView::DowngradeBlocked(c, target),
                Precedence::Lower => if withheld {
                    DecisionView::SkippedByUser(c)
                } else {
                    DecisionView::Upgrade(c, target)
                },
            }
        },
    }
}

/// Tells which confirmation, if any, has to be asked for before `decide`
/// can be called.
pub fn required_confirmation(
    current: &Option<Version>,
    target: &Version,
    wishes: Wishes,
    directory_in_use: bool,
) -> (r: Option<Confirmation>)
    ensures
        r == confirmation_needed(view_of(*current), target@, wishes, directory_in_use),
{
    if wishes.allow_unconfirmed {
        return None;
    }
    match current {
        None => {
            if directory_in_use {
                Some(Confirmation::InstallIntoUsedDirectory)
            } else if wishes.confirm_prereleases && target.is_prerelease() {
                Some(Confirmation::InstallPrerelease)
            } else {
                None
            }
        },
        Some(c) => {
            if wishes.skip_checks {
                None
            } else if wishes.explicit {
                if wishes.confirm_prereleases && target.is_prerelease() {
                    Some(Confirmation::InstallPrerelease)
                } else {
                    None
                }
            } else {
                match c.compare(target) {
                    Precedence::Lower => Some(Confirmation::Upgrade),
                    _ => None,
                }
            }
        },
    }
}

/// Decides what the run does. `confirmed` is the operator's answer to the
/// confirmation that `required_confirmation` names; where none is needed
/// it is not looked at.
pub fn decide(
    current: Option<Version>,
    target: Version,
    wishes: Wishes,
    directory_in_use: bool,
    confirmed: bool,
) -> (d: UpdateDecision)
    ensures
        d@ == decide_spec(view_of(current), target@, wishes, directory_in_use, confirmed),
{
    let withheld = required_confirmation(&current, &target, wishes, directory_in_use).is_some()
        && !confirmed;
    match current {
        None => {
            if withheld {
                UpdateDecision::SkippedByUser(target)
            } else {
                UpdateDecision::FreshInstall(target)
            }
        },
        Some(c) => {
            if wishes.skip_checks {
                UpdateDecision::UpToDate(c)
            } else if wishes.explicit {
                if withheld {
                    UpdateDecision::SkippedByUser(c)
                } else {
                    UpdateDecision::FreshInstall(target)
                }
            } else {
                match c.compare(&target) {
                    Precedence::Same => UpdateDecision::UpToDate(c),
                    Precedence::Higher => UpdateDecision::DowngradeBlocked(c, target),
                    Precedence::Lower => {
                        if withheld {
                            UpdateDecision::SkippedByUser(c)
                        } else {
                            UpdateDecision::Upgrade(c, target)
                        }
                    },
                }
            }
        },
    }
}

/// What the operator is told before a version that was named explicitly
/// is installed.
#[derive(Clone, Copy, Debug, PartialEq, Eq, Structural)]
pub struct OverrideNotice {
    /// The version named stands below the installed one.
    pub downgrade: bool,
    /// Nothing is known to be installed, so a downgrade cannot be ruled
    /// out.
    pub current_unknown: bool,
    /// The version named is a pre-release.
    pub prerelease: bool,
    /// The install needs the operator's confirmation: always, for a version
    /// named explicitly.
    pub confirmation_required: bool,
}

/// The notice for installing `requested` over `current`.
pub open spec fn notice_for(current: Option<VersionView>, requested: VersionView) -> OverrideNotice {
    OverrideNotice {
        downgrade: current is Some && precedence(current->0, requested) == Precedence::Higher,
        current_unknown: current is None,
        prerelease: requested.is_prerelease(),
        confirmation_required: true,
    }
}

/// Tells what the operator has to be warned of before a version named
/// explicitly is installed.
pub fn override_notice(current: &Option<Version>, requested: &Version) -> (n: OverrideNotice)
    ensures
        n == notice_for(view_of(*current), requested@),
{
    let downgrade = match current {
        Some(c) => matches!(c.compare(requested), Precedence::Higher),
        None => false,
    };
    OverrideNotice {
        downgrade,
        current_unknown: current.is_none(),
        prerelease: requested.is_prerelease(),
        confirmation_required: true,
    }
}

/// Whether the install of a version named explicitly goes ahead: unless a
/// confirmation is required, not waived, and withheld.
pub fn override_proceeds(notice: OverrideNotice, yes_all: bool, granted: bool) -> (r: bool)
    ensures
        r == (yes_all || !notice.confirmation_required || granted),
{
    yes_all || !notice.confirmation_required || granted
}

/// An installed version equal to the target is kept, whatever else is
/// asked for short of naming the target explicitly.
pub proof fn law_equal_versions_are_up_to_date(
    version: VersionView,
    wishes: Wishes,
    directory_in_use: bool,
    confirmed: bool,
)
    requires
        !wishes.explicit,
    ensures
        decide_spec(Some(version), version, wishes, directory_in_use, confirmed)
            == DecisionView::UpToDate(version),
        !decide_spec(Some(version), version, wishes, directory_in_use, confirmed).installs(),
{
}

/// An installed version above the target blocks the downgrade, unless the
/// target was named explicitly or checks are skipped.
pub proof fn law_newer_installed_blocks_downgrade(
    current: VersionView,
    target: VersionView,
    wishes: Wishes,
    directory_in_use: bool,
    confirmed: bool,
)
    requires
        precedence(current, target) == Precedence::Higher,
        !wishes.explicit,
        !wishes.skip_checks,
    ensures
        decide_spec(Some(current), target, wishes, directory_in_use, confirmed)
            == DecisionView::DowngradeBlocked(current, target),
        !decide_spec(Some(current), target, wishes, directory_in_use, confirmed).installs(),
{
}

/// Where no confirmation is needed, the answer does not matter.
pub proof fn law_unasked_confirmation_is_ignored(
    current: Option<VersionView>,
    target: VersionView,
    wishes: Wishes,
    directory_in_use: bool,
)
    requires
        confirmation_needed(current, target, wishes, directory_in_use) is None,
    ensures
        decide_spec(current, target, wishes, directory_in_use, true) == decide_spec(
            current,
            target,
            wishes,
            directory_in_use,
            false,
        ),
{
}

/// The decision never leaves a change out by a flag: with checks skipped
/// the installed version counts as up to date.
pub proof fn law_no_decision_is_flagged(
    current: Option<VersionView>,
    target: VersionView,
    wishes: Wishes,
    directory_in_use: bool,
    confirmed: bool,
)
    ensures
        !(decide_spec(current, target, wishes, directory_in_use, confirmed)
            is SkippedBecauseFlagged),
{
}

/// With the policy on pre-releases switched off, no confirmation is asked
/// for on account of a pre-release: the only confirmations are those for a
/// directory in use and for an upgrade.
pub proof fn law_policy_off_asks_for_no_prerelease_confirmation(
    current: Option<VersionView>,
    target: VersionView,
    wishes: Wishes,
    directory_in_use: bool,
)
    requires
        !wishes.confirm_prereleases,
    ensures
        confirmation_needed(current, target, wishes, directory_in_use) != Some(
            Confirmation::InstallPrerelease,
        ),
{
}

/// With the policy on pre-releases switched on, a pre-release is never
/// installed or upgraded to without a confirmation, unless every
/// confirmation is waived.
pub proof fn law_policy_on_confirms_every_prerelease(
    current: Option<VersionView>,
    target: VersionView,
    wishes: Wishes,
    directory_in_use: bool,
)
    requires
        wishes.confirm_prereleases,
        !wishes.allow_unconfirmed,
        target.is_prerelease(),
    ensures
        !decide_spec(current, target, wishes, directory_in_use, false).installs(),
{
}

} // verus!

use lodestone_cli::confirm::accepts_full_yes;
use lodestone_cli::confirm::accepts_short_yes;
use lodestone_cli::confirm::grants;
use lodestone_cli::decision::decide;
use lodestone_cli::decision::override_notice;
use lodestone_cli::decision::override_proceeds;
use lodestone_cli::decision::required_confirmation;
use lodestone_cli::decision::Confirmation;
use lodestone_cli::decision::UpdateDecision;
use lodestone_cli::decision::Wishes;
use lodestone_cli::version::Version;

fn v(text: &str) -> Version {
    Version::parse(text).unwrap()
}

fn plain() -> Wishes {
    Wishes { explicit: false, allow_unconfirmed: false, skip_checks: false, confirm_prereleases: false }
}

fn show(d: &UpdateDecision) -> String {
    match d {
        UpdateDecision::FreshInstall(t) => format!("FreshInstall({})", t.to_string()),
        UpdateDecision::Upgrade(c, t) => format!("Upgrade({}, {})", c.to_string(), t.to_string()),
        UpdateDecision::UpToDate(c) => format!("UpToDate({})", c.to_string()),
        UpdateDecision::DowngradeBlocked(c, t) => format!("DowngradeBlocked({}, {})", c.to_string(), t.to_string()),
        UpdateDecision::SkippedByUser(f) => format!("SkippedByUser({})", f.to_string()),
        UpdateDecision::SkippedBecauseFlagged(f) => format!("SkippedBecauseFlagged({})", f.to_string()),
    }
}

#[test]
fn equal_versions_are_up_to_date() {
    for text in ["1.2.0", "0.0.1-alpha", "3.0.0+b1"] {
        for allow in [false, true] {
            for skip in [false, true] {
                for in_use in [false, true] {
                    for confirmed in [false, true] {
                        let w = Wishes { explicit: false, allow_unconfirmed: allow, skip_checks: skip, confirm_prereleases: false };
                        let d = decide(Some(v(text)), v(text), w, in_use, confirmed);
                        assert_eq!(show(&d), format!("UpToDate({text})"));
                        assert!(required_confirmation(&Some(v(text)), &v(text), w, in_use).is_none());
                    }
                }
            }
        }
    }
}

#[test]
fn newer_installed_blocks_the_downgrade() {
    for (current, target) in [("1.3.0", "1.2.9"), ("2.0.0", "2.0.0-rc.1"), ("1.0.0+b", "1.0.0+a"), ("0.10.0", "0.9.0")] {
        for allow in [false, true] {
            for confirmed in [false, true] {
                let w = Wishes { explicit: false, allow_unconfirmed: allow, skip_checks: false, confirm_prereleases: false };
                let d = decide(Some(v(current)), v(target), w, true, confirmed);
                assert_eq!(show(&d), format!("DowngradeBlocked({current}, {target})"));
                assert!(required_confirmation(&Some(v(current)), &v(target), w, true).is_none());
            }
        }
    }
}

#[test]
fn skipped_checks_keep_what_is_installed() {
    let w = Wishes { explicit: false, allow_unconfirmed: false, skip_checks: true, confirm_prereleases: false };
    assert_eq!(show(&decide(Some(v("1.0.0")), v("9.0.0"), w, true, false)), "UpToDate(1.0.0)");
    assert_eq!(show(&decide(Some(v("1.0.0")), v("0.1.0"), w, false, true)), "UpToDate(1.0.0)");
    let named = Wishes { explicit: true, allow_unconfirmed: true, skip_checks: true, confirm_prereleases: false };
    assert_eq!(show(&decide(Some(v("1.0.0")), v("9.0.0"), named, true, true)), "UpToDate(1.0.0)");
    assert_eq!(show(&decide(None, v("9.0.0"), w, false, false)), "FreshInstall(9.0.0)");
}

#[test]
fn nothing_installed_is_a_fresh_install() {
    assert_eq!(show(&decide(None, v("1.3.0"), plain(), false, false)), "FreshInstall(1.3.0)");
    assert_eq!(show(&decide(None, v("1.3.0"), plain(), true, true)), "FreshInstall(1.3.0)");
    let allow = Wishes { explicit: false, allow_unconfirmed: true, skip_checks: false, confirm_prereleases: false };
    assert_eq!(show(&decide(None, v("1.3.0"), allow, true, false)), "FreshInstall(1.3.0)");
}

#[test]
fn a_used_directory_needs_a_confirmation() {
    assert_eq!(show(&decide(None, v("1.3.0"), plain(), true, false)), "SkippedByUser(1.3.0)");
    assert_eq!(required_confirmation(&None, &v("1.3.0"), plain(), true), Some(Confirmation::InstallIntoUsedDirectory));
    assert_eq!(required_confirmation(&None, &v("1.3.0"), plain(), false), None);
    let allow = Wishes { explicit: false, allow_unconfirmed: true, skip_checks: false, confirm_prereleases: false };
    assert_eq!(required_confirmation(&None, &v("1.3.0"), allow, true), None);
}

#[test]
fn an_older_installed_version_is_upgraded_when_confirmed() {
    assert_eq!(show(&decide(Some(v("1.2.0")), v("1.3.0"), plain(), false, true)), "Upgrade(1.2.0, 1.3.0)");
    assert_eq!(show(&decide(Some(v("1.2.0")), v("1.3.0"), plain(), false, false)), "SkippedByUser(1.2.0)");
    let allow = Wishes { explicit: false, allow_unconfirmed: true, skip_checks: false, confirm_prereleases: false };
    assert_eq!(show(&decide(Some(v("1.2.0")), v("1.3.0"), allow, false, false)), "Upgrade(1.2.0, 1.3.0)");
    assert_eq!(required_confirmation(&Some(v("1.2.0")), &v("1.3.0"), plain(), false), Some(Confirmation::Upgrade));
    assert_eq!(required_confirmation(&Some(v("1.2.0")), &v("1.3.0"), allow, false), None);
}

#[test]
fn a_named_version_replaces_without_comparing() {
    let named = Wishes { explicit: true, allow_unconfirmed: false, skip_checks: false, confirm_prereleases: false };
    for target in ["1.0.0", "2.0.0", "3.0.0"] {
        let d = decide(Some(v("2.0.0")), v(target), named, true, false);
        assert_eq!(show(&d), format!("FreshInstall({target})"));
        assert_eq!(required_confirmation(&Some(v("2.0.0")), &v(target), named, true), None);
    }
}

#[test]
fn no_decision_is_flagged() {
    for current in [None, Some("1.0.0"), Some("2.0.0"), Some("3.0.0")] {
        for bits in 0..64u32 {
            let w = Wishes { explicit: bits & 1 != 0, allow_unconfirmed: bits & 2 != 0, skip_checks: bits & 4 != 0, confirm_prereleases: bits & 32 != 0 };
            let d = decide(current.map(v), v("2.0.0"), w, bits & 8 != 0, bits & 16 != 0);
            assert!(!matches!(d, UpdateDecision::SkippedBecauseFlagged(_)));
        }
    }
}

#[test]
fn answers_are_read_with_white_space_aside() {
    for yes in ["y", "yes", " y", "y\n", "\tyes \r\n", "\u{a0}yes\u{3000}"] {
        assert!(accepts_short_yes(yes), "{yes:?}");
    }
    for no in ["", "n", "no", "Y", "YES", "Yes", "ye", "yess", "y es", "yes.", "да"] {
        assert!(!accepts_short_yes(no), "{no:?}");
        assert!(!accepts_full_yes(no), "{no:?}");
    }
    assert!(accepts_full_yes("yes\n"));
    assert!(accepts_full_yes("  yes  "));
    assert!(!accepts_full_yes("y"));
    assert!(!accepts_full_yes("y\n"));
}

#[test]
fn each_confirmation_has_its_answer() {
    assert!(grants(Confirmation::Upgrade, "y\n"));
    assert!(grants(Confirmation::Upgrade, "yes\n"));
    assert!(!grants(Confirmation::Upgrade, "n\n"));
    assert!(grants(Confirmation::InstallIntoUsedDirectory, "yes\n"));
    assert!(!grants(Confirmation::InstallIntoUsedDirectory, "y\n"));
}

#[test]
fn a_named_version_comes_with_its_notice() {
    let n = override_notice(&Some(v("2.0.0")), &v("1.0.0"));
    assert!(n.downgrade && !n.current_unknown && !n.prerelease && n.confirmation_required);
    let n = override_notice(&Some(v("1.0.0")), &v("1.0.0"));
    assert!(!n.downgrade && !n.current_unknown && !n.prerelease && n.confirmation_required);
    let n = override_notice(&Some(v("1.0.0")), &v("2.0.0-beta"));
    assert!(!n.downgrade && !n.current_unknown && n.prerelease && n.confirmation_required);
    let n = override_notice(&None, &v("2.0.0"));
    assert!(!n.downgrade && n.current_unknown && !n.prerelease && n.confirmation_required);
    assert!(override_proceeds(n, true, false));
    assert!(override_proceeds(n, false, true));
    assert!(!override_proceeds(n, false, false));
}

#[test]
fn the_policy_on_prereleases_is_a_switch() {
    let off = plain();
    let on = Wishes { explicit: false, allow_unconfirmed: false, skip_checks: false, confirm_prereleases: true };
    assert_eq!(required_confirmation(&None, &v("1.0.0-rc.1"), off, false), None);
    assert_eq!(required_confirmation(&None, &v("1.0.0-rc.1"), on, false), Some(Confirmation::InstallPrerelease));
    assert_eq!(required_confirmation(&None, &v("1.0.0"), on, false), None);
    assert_eq!(required_confirmation(&None, &v("1.0.0-rc.1"), on, true), Some(Confirmation::InstallIntoUsedDirectory));
    assert_eq!(show(&decide(None, v("1.0.0-rc.1"), on, false, false)), "SkippedByUser(1.0.0-rc.1)");
    assert_eq!(show(&decide(None, v("1.0.0-rc.1"), on, false, true)), "FreshInstall(1.0.0-rc.1)");
    assert_eq!(show(&decide(None, v("1.0.0-rc.1"), off, false, false)), "FreshInstall(1.0.0-rc.1)");
    let named_on = Wishes { explicit: true, allow_unconfirmed: false, skip_checks: false, confirm_prereleases: true };
    assert_eq!(
        required_confirmation(&Some(v("1.0.0")), &v("0.9.0-beta"), named_on, false),
        Some(Confirmation::InstallPrerelease)
    );
    assert_eq!(show(&decide(Some(v("1.0.0")), v("0.9.0-beta"), named_on, false, false)), "SkippedByUser(1.0.0)");
    assert_eq!(show(&decide(Some(v("1.0.0")), v("0.9.0-beta"), named_on, false, true)), "FreshInstall(0.9.0-beta)");
    assert_eq!(required_confirmation(&Some(v("1.0.0")), &v("0.9.0"), named_on, false), None);
    let waived = Wishes { explicit: true, allow_unconfirmed: true, skip_checks: false, confirm_prereleases: true };
    assert_eq!(required_confirmation(&Some(v("1.0.0")), &v("0.9.0-beta"), waived, false), None);
    assert_eq!(show(&decide(Some(v("1.0.0")), v("1.1.0-beta"), on, false, false)), "SkippedByUser(1.0.0)");
    assert_eq!(required_confirmation(&Some(v("1.0.0")), &v("1.1.0-beta"), on, false), Some(Confirmation::Upgrade));
    assert!(grants(Confirmation::InstallPrerelease, "y\n"));
    assert!(!grants(Confirmation::InstallPrerelease, "\n"));
}

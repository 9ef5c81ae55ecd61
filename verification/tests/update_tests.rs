use lodestone_cli::artifact::ReleaseTarget;
use lodestone_cli::decision::Confirmation;
use lodestone_cli::decision::UpdateDecision;
use lodestone_cli::download::DownloadOutcome;
use lodestone_cli::error::UpdateError;
use lodestone_cli::metadata::Metadata;
use lodestone_cli::update::try_update;
use lodestone_cli::update::UpdateAction;
use lodestone_cli::update::UpdateConfig;
use lodestone_cli::update::UpdateEvent;
use lodestone_cli::update::UpdateOutcome;
use lodestone_cli::update::UpdateState;
use lodestone_cli::version::Version;

fn v(text: &str) -> Version {
    Version::parse(text).unwrap()
}

fn config(version_override: Option<&str>, yes_all: bool, skip_update_check: bool) -> UpdateConfig {
    UpdateConfig {
        version_override: version_override.map(v),
        yes_all,
        skip_update_check,
        confirm_prereleases: false,
        target: ReleaseTarget { arch: "x86_64".to_string(), os: "linux".to_string() },
    }
}

fn show(action: &UpdateAction) -> String {
    match action {
        UpdateAction::ReadRecord => "ReadRecord".to_string(),
        UpdateAction::FetchLatest => "FetchLatest".to_string(),
        UpdateAction::InspectDirectory => "InspectDirectory".to_string(),
        UpdateAction::Ask(kind, version) => format!("Ask({:?}, {})", kind, version.to_string()),
        UpdateAction::Snapshot => "Snapshot".to_string(),
        UpdateAction::Download(d) => format!("Download({}, {})", d.expected_filename, d.download_url),
        UpdateAction::WriteRecord { version, executable_name } => {
            format!("WriteRecord({}, {})", version.to_string(), executable_name)
        }
        UpdateAction::DiscardSnapshot => "DiscardSnapshot".to_string(),
        UpdateAction::Restore => "Restore".to_string(),
        UpdateAction::Finish(UpdateOutcome::Settled { decision, executable }) => {
            let d = match decision {
                UpdateDecision::FreshInstall(t) => format!("FreshInstall({})", t.to_string()),
                UpdateDecision::Upgrade(c, t) => format!("Upgrade({}, {})", c.to_string(), t.to_string()),
                UpdateDecision::UpToDate(c) => format!("UpToDate({})", c.to_string()),
                UpdateDecision::DowngradeBlocked(c, t) => {
                    format!("DowngradeBlocked({}, {})", c.to_string(), t.to_string())
                }
                UpdateDecision::SkippedByUser(f) => format!("SkippedByUser({})", f.to_string()),
                UpdateDecision::SkippedBecauseFlagged(f) => format!("SkippedBecauseFlagged({})", f.to_string()),
            };
            format!("Finish(Settled({}, {:?}))", d, executable)
        }
        UpdateAction::Finish(UpdateOutcome::Failed { error, restore_failed }) => {
            format!("Finish(Failed({:?}, {}))", error, restore_failed)
        }
        UpdateAction::Unexpected => "Unexpected".to_string(),
    }
}

fn run(config: &UpdateConfig, events: Vec<UpdateEvent>) -> (UpdateState, Vec<String>) {
    let mut state = UpdateState::Start;
    let mut actions = Vec::new();
    for event in events {
        let (next, action) = try_update(config, state, event);
        actions.push(show(&action));
        state = next;
    }
    (state, actions)
}

const NAME_130: &str = "lodestone_core_linux_x86_64_1.3.0";
const URL_130: &str =
    "https://github.com/Lodestone-Team/lodestone_core/releases/download/v1.3.0/lodestone_core_linux_x86_64_1.3.0";

#[test]
fn scenario_upgrade_confirmed_and_installed() {
    let cfg = config(None, false, false);
    let mut state = UpdateState::Start;
    let mut shown = Vec::new();
    let mut written: Option<Metadata> = None;
    let events = vec![
        UpdateEvent::Started,
        UpdateEvent::RecordRead(Some(v("1.2.0"))),
        UpdateEvent::LatestResolved(Ok(v("1.3.0"))),
        UpdateEvent::Answered(true),
        UpdateEvent::SnapshotFinished(true),
        UpdateEvent::DownloadFinished(DownloadOutcome::Placed),
        UpdateEvent::RecordWritten(true),
        UpdateEvent::SnapshotDiscarded,
    ];
    for event in events {
        let (next, action) = try_update(&cfg, state, event);
        shown.push(show(&action));
        if let UpdateAction::WriteRecord { version, executable_name } = action {
            written = Some(Metadata::new(version, "2024-01-01 00:00:00 UTC".to_string(), executable_name));
        }
        state = next;
    }
    assert_eq!(
        shown,
        vec![
            "ReadRecord".to_string(),
            "FetchLatest".to_string(),
            "Ask(Upgrade, 1.3.0)".to_string(),
            "Snapshot".to_string(),
            format!("Download({NAME_130}, {URL_130})"),
            format!("WriteRecord(1.3.0, {NAME_130})"),
            "DiscardSnapshot".to_string(),
            format!("Finish(Settled(Upgrade(1.2.0, 1.3.0), Some(\"{NAME_130}\")))"),
        ]
    );
    assert!(matches!(state, UpdateState::Done));
    let record = written.unwrap();
    assert_eq!(record.current_version.to_string(), "1.3.0");
    assert_eq!(record.executable_name, "lodestone_core_linux_x86_64_1.3.0");
    assert_eq!(record.last_updated, "2024-01-01 00:00:00 UTC");
}

#[test]
fn scenario_used_directory_and_confirmation_withheld() {
    let cfg = config(None, false, false);
    let (state, actions) = run(
        &cfg,
        vec![
            UpdateEvent::Started,
            UpdateEvent::RecordRead(None),
            UpdateEvent::LatestResolved(Ok(v("1.3.0"))),
            UpdateEvent::DirectoryInspected(true),
            UpdateEvent::Answered(false),
        ],
    );
    assert_eq!(
        actions,
        vec![
            "ReadRecord",
            "FetchLatest",
            "InspectDirectory",
            "Ask(InstallIntoUsedDirectory, 1.3.0)",
            "Finish(Settled(SkippedByUser(1.3.0), None))",
        ]
    );
    assert!(matches!(state, UpdateState::Done));
    for a in &actions {
        assert!(!a.starts_with("Snapshot") && !a.starts_with("Download") && !a.starts_with("WriteRecord"));
    }
}

#[test]
fn scenario_failed_transfer_is_restored() {
    let cfg = config(None, true, false);
    let (state, actions) = run(
        &cfg,
        vec![
            UpdateEvent::Started,
            UpdateEvent::RecordRead(Some(v("1.2.0"))),
            UpdateEvent::LatestResolved(Ok(v("1.3.0"))),
            UpdateEvent::SnapshotFinished(true),
            UpdateEvent::DownloadFinished(DownloadOutcome::TransferFailed),
            UpdateEvent::RestoreFinished(true),
        ],
    );
    assert_eq!(
        actions,
        vec![
            "ReadRecord".to_string(),
            "FetchLatest".to_string(),
            "Snapshot".to_string(),
            format!("Download({NAME_130}, {URL_130})"),
            "Restore".to_string(),
            "Finish(Failed(TransferFailed, false))".to_string(),
        ]
    );
    assert!(matches!(state, UpdateState::Done));
}

#[test]
fn failed_placement_is_restored_and_a_failed_restore_is_told() {
    let cfg = config(None, true, false);
    let (_, actions) = run(
        &cfg,
        vec![
            UpdateEvent::Started,
            UpdateEvent::RecordRead(None),
            UpdateEvent::LatestResolved(Ok(v("1.3.0"))),
            UpdateEvent::DirectoryInspected(false),
            UpdateEvent::SnapshotFinished(true),
            UpdateEvent::DownloadFinished(DownloadOutcome::PlacementFailed),
            UpdateEvent::RestoreFinished(false),
        ],
    );
    assert_eq!(actions[3], "Snapshot");
    assert_eq!(actions[5], "Restore");
    assert_eq!(actions.last().unwrap(), "Finish(Failed(PlacementFailed, true))");
}

#[test]
fn equal_versions_end_the_run_without_touching_anything() {
    let cfg = config(None, false, false);
    let (state, actions) = run(
        &cfg,
        vec![
            UpdateEvent::Started,
            UpdateEvent::RecordRead(Some(v("1.3.0"))),
            UpdateEvent::LatestResolved(Ok(v("1.3.0"))),
            UpdateEvent::SnapshotFinished(true),
            UpdateEvent::DownloadFinished(DownloadOutcome::Placed),
            UpdateEvent::RecordWritten(true),
        ],
    );
    assert_eq!(
        actions,
        vec![
            "ReadRecord".to_string(),
            "FetchLatest".to_string(),
            format!("Finish(Settled(UpToDate(1.3.0), Some(\"{NAME_130}\")))"),
            "Unexpected".to_string(),
            "Unexpected".to_string(),
            "Unexpected".to_string(),
        ]
    );
    assert!(matches!(state, UpdateState::Done));
}

#[test]
fn newer_installed_ends_the_run_with_the_downgrade_blocked() {
    let cfg = config(None, true, false);
    let (_, actions) = run(
        &cfg,
        vec![
            UpdateEvent::Started,
            UpdateEvent::RecordRead(Some(v("1.3.0"))),
            UpdateEvent::LatestResolved(Ok(v("1.2.0"))),
        ],
    );
    assert_eq!(
        actions,
        vec![
            "ReadRecord".to_string(),
            "FetchLatest".to_string(),
            format!("Finish(Settled(DowngradeBlocked(1.3.0, 1.2.0), Some(\"{NAME_130}\")))"),
        ]
    );
}

#[test]
fn skipped_checks_use_what_is_installed() {
    let cfg = config(None, false, true);
    let (_, actions) = run(&cfg, vec![UpdateEvent::Started, UpdateEvent::RecordRead(Some(v("1.3.0")))]);
    assert_eq!(
        actions,
        vec!["ReadRecord".to_string(), format!("Finish(Settled(UpToDate(1.3.0), Some(\"{NAME_130}\")))")]
    );
    let (_, actions) = run(&cfg, vec![UpdateEvent::Started, UpdateEvent::RecordRead(None)]);
    assert_eq!(actions, vec!["ReadRecord", "FetchLatest"]);
}

#[test]
fn a_named_version_is_installed_without_lookup() {
    let cfg = config(Some("1.0.0"), false, false);
    let (_, actions) = run(
        &cfg,
        vec![
            UpdateEvent::Started,
            UpdateEvent::RecordRead(Some(v("1.3.0"))),
            UpdateEvent::SnapshotFinished(true),
        ],
    );
    assert_eq!(
        actions,
        vec![
            "ReadRecord".to_string(),
            "Snapshot".to_string(),
            "Download(lodestone_core_linux_x86_64_1.0.0, https://github.com/Lodestone-Team/lodestone_core/releases/download/v1.0.0/lodestone_core_linux_x86_64_1.0.0)".to_string(),
        ]
    );
    let (_, actions) = run(&cfg, vec![UpdateEvent::Started, UpdateEvent::RecordRead(None)]);
    assert_eq!(actions, vec!["ReadRecord", "InspectDirectory"]);
}

#[test]
fn a_failed_lookup_ends_the_run() {
    let cfg = config(None, false, false);
    for error in [UpdateError::RegistryUnavailable, UpdateError::MalformedVersionTag] {
        let (state, actions) = run(
            &cfg,
            vec![
                UpdateEvent::Started,
                UpdateEvent::RecordRead(Some(v("1.3.0"))),
                UpdateEvent::LatestResolved(Err(error)),
            ],
        );
        assert_eq!(actions[2], format!("Finish(Failed({:?}, false))", error));
        assert!(matches!(state, UpdateState::Done));
    }
}

#[test]
fn an_unsupported_platform_ends_the_run_at_once() {
    let mut cfg = config(None, false, false);
    cfg.target = ReleaseTarget { arch: "riscv64".to_string(), os: "linux".to_string() };
    let (state, actions) = run(&cfg, vec![UpdateEvent::Started, UpdateEvent::RecordRead(None)]);
    assert_eq!(actions, vec!["Finish(Failed(UnsupportedPlatform, false))", "Unexpected"]);
    assert!(matches!(state, UpdateState::Done));
}

#[test]
fn a_failed_snapshot_ends_the_run_before_any_download() {
    let cfg = config(None, true, false);
    let (_, actions) = run(
        &cfg,
        vec![
            UpdateEvent::Started,
            UpdateEvent::RecordRead(Some(v("1.2.0"))),
            UpdateEvent::LatestResolved(Ok(v("1.3.0"))),
            UpdateEvent::SnapshotFinished(false),
            UpdateEvent::SnapshotDiscarded,
        ],
    );
    assert_eq!(
        actions,
        vec!["ReadRecord", "FetchLatest", "Snapshot", "DiscardSnapshot", "Finish(Failed(BackupFailed, false))"]
    );
}

#[test]
fn a_record_that_cannot_be_written_is_restored() {
    let cfg = config(None, true, false);
    let (_, actions) = run(
        &cfg,
        vec![
            UpdateEvent::Started,
            UpdateEvent::RecordRead(Some(v("1.2.0"))),
            UpdateEvent::LatestResolved(Ok(v("1.3.0"))),
            UpdateEvent::SnapshotFinished(true),
            UpdateEvent::DownloadFinished(DownloadOutcome::Placed),
            UpdateEvent::RecordWritten(false),
            UpdateEvent::RestoreFinished(true),
        ],
    );
    assert_eq!(actions[5], "Restore");
    assert_eq!(actions[6], "Finish(Failed(PlacementFailed, false))");
}

#[test]
fn an_event_out_of_turn_changes_nothing() {
    let cfg = config(None, false, false);
    let (state, action) = try_update(&cfg, UpdateState::Start, UpdateEvent::Answered(true));
    assert!(matches!(state, UpdateState::Start));
    assert!(matches!(action, UpdateAction::Unexpected));
    let (state, action) = try_update(&cfg, UpdateState::AwaitRecord, UpdateEvent::Started);
    assert!(matches!(state, UpdateState::AwaitRecord));
    assert!(matches!(action, UpdateAction::Unexpected));
    let (state, action) =
        try_update(&cfg, UpdateState::AwaitRestore { error: UpdateError::TransferFailed }, UpdateEvent::RecordWritten(true));
    assert!(matches!(state, UpdateState::AwaitRestore { error: UpdateError::TransferFailed }));
    assert!(matches!(action, UpdateAction::Unexpected));
}

#[test]
fn the_upgrade_question_can_be_waived() {
    let cfg = config(None, true, false);
    let (_, actions) = run(
        &cfg,
        vec![
            UpdateEvent::Started,
            UpdateEvent::RecordRead(Some(v("1.2.0"))),
            UpdateEvent::LatestResolved(Ok(v("1.3.0"))),
        ],
    );
    assert_eq!(actions, vec!["ReadRecord", "FetchLatest", "Snapshot"]);
    let asked = config(None, false, false);
    let (_, actions) = run(
        &asked,
        vec![
            UpdateEvent::Started,
            UpdateEvent::RecordRead(Some(v("1.2.0"))),
            UpdateEvent::LatestResolved(Ok(v("1.3.0"))),
            UpdateEvent::Answered(false),
        ],
    );
    assert_eq!(actions[2], format!("Ask({:?}, 1.3.0)", Confirmation::Upgrade));
    assert_eq!(
        actions[3],
        "Finish(Settled(SkippedByUser(1.2.0), Some(\"lodestone_core_linux_x86_64_1.2.0\")))"
    );
}

#[test]
fn a_lookup_fails_as_a_malformed_tag_or_as_an_unavailable_registry() {
    let cfg = config(None, false, false);
    for (given, told) in [
        (UpdateError::MalformedVersionTag, UpdateError::MalformedVersionTag),
        (UpdateError::RegistryUnavailable, UpdateError::RegistryUnavailable),
        (UpdateError::TransferFailed, UpdateError::RegistryUnavailable),
        (UpdateError::RecordUnreadable, UpdateError::RegistryUnavailable),
    ] {
        let (_, actions) = run(
            &cfg,
            vec![UpdateEvent::Started, UpdateEvent::RecordRead(None), UpdateEvent::LatestResolved(Err(given))],
        );
        assert_eq!(actions[2], format!("Finish(Failed({:?}, false))", told));
    }
}

#[test]
fn the_policy_on_prereleases_asks_before_a_prerelease_is_installed() {
    let mut cfg = config(Some("2.0.0-rc.1"), false, false);
    cfg.confirm_prereleases = true;
    let (_, actions) = run(
        &cfg,
        vec![UpdateEvent::Started, UpdateEvent::RecordRead(Some(v("1.3.0"))), UpdateEvent::Answered(false)],
    );
    assert_eq!(
        actions,
        vec![
            "ReadRecord".to_string(),
            format!("Ask({:?}, 2.0.0-rc.1)", Confirmation::InstallPrerelease),
            format!("Finish(Settled(SkippedByUser(1.3.0), Some(\"{NAME_130}\")))"),
        ]
    );
    let (_, actions) = run(
        &cfg,
        vec![UpdateEvent::Started, UpdateEvent::RecordRead(Some(v("1.3.0"))), UpdateEvent::Answered(true)],
    );
    assert_eq!(actions[2], "Snapshot");
    let (_, actions) = run(
        &cfg,
        vec![UpdateEvent::Started, UpdateEvent::RecordRead(None), UpdateEvent::DirectoryInspected(false)],
    );
    assert_eq!(actions[2], format!("Ask({:?}, 2.0.0-rc.1)", Confirmation::InstallPrerelease));
    cfg.confirm_prereleases = false;
    let (_, actions) = run(&cfg, vec![UpdateEvent::Started, UpdateEvent::RecordRead(Some(v("1.3.0")))]);
    assert_eq!(actions[1], "Snapshot");
}

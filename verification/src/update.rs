//! The update run as a state machine: each call takes the state of the run
//! and what just happened, and gives the next state and what to do next.
//! Reading, fetching, asking, copying and writing are the caller's part.

use crate::artifact::descriptor_for;
use crate::artifact::name_for;
use crate::artifact::platform_key;
use crate::artifact::ArtifactDescriptor;
use crate::artifact::DescriptorView;
use crate::artifact::ReleaseTarget;
use crate::artifact::TargetView;
use crate::decision::confirmation_needed;
use crate::decision::decide;
use crate::decision::decide_spec;
use crate::decision::required_confirmation;
use crate::decision::Confirmation;
use crate::decision::DecisionView;
use crate::decision::UpdateDecision;
use crate::decision::Wishes;
use crate::download::DownloadOutcome;
use crate::error::UpdateError;
use crate::version::view_of;
use crate::version::Version;
use crate::version::VersionView;
use vstd::prelude::*;

verus! {

/// What is fixed for the whole run.
#[derive(Debug)]
pub struct UpdateConfig {
    /// The version that the operator named, if any; it is installed in
    /// place of the latest release, without comparing.
    pub version_override: Option<Version>,
    /// Every confirmation counts as granted.
    pub yes_all: bool,
    /// Keep an installed version without consulting the registry.
    pub skip_update_check: bool,
    /// Ask for a confirmation before any pre-release is installed.
    pub confirm_prereleases: bool,
    /// The platform that the artifact is chosen for.
    pub target: ReleaseTarget,
}

/// The mathematical content of a configuration.
pub struct ConfigView {
    pub version_override: Option<VersionView>,
    pub yes_all: bool,
    pub skip_update_check: bool,
    pub confirm_prereleases: bool,
    pub target: TargetView,
}

impl ConfigView {
    /// The operator's wishes that the configuration holds: a version named
    /// in it counts as explicit.
    pub open spec fn wishes(self) -> Wishes {
        Wishes {
            explicit: self.version_override is Some,
            allow_unconfirmed: self.yes_all,
            skip_checks: self.skip_update_check,
            confirm_prereleases: self.confirm_prereleases,
        }
    }
}

impl View for UpdateConfig {
    type V = ConfigView;

    open spec fn view(&self) -> ConfigView {
        ConfigView {
            version_override: view_of(self.version_override),
            yes_all: self.yes_all,
            skip_update_check: self.skip_update_check,
            confirm_prereleases: self.confirm_prereleases,
            target: self.target@,
        }
    }
}

/// How a run ended.
#[derive(Debug)]
pub enum UpdateOutcome {
    /// The run did what was decided; `executable` is the file name of the
    /// executable to launch, if there is one.
    Settled { decision: UpdateDecision, executable: Option<String> },
    /// The run failed; `restore_failed` tells that the restore that was
    /// attempted after the failure failed too.
    Failed { error: UpdateError, restore_failed: bool },
}

/// The mathematical content of an outcome.
pub enum OutcomeView {
    Settled { decision: DecisionView, executable: Option<Seq<char>> },
    Failed { error: UpdateError, restore_failed: bool },
}

impl View for UpdateOutcome {
    type V = OutcomeView;

    open spec fn view(&self) -> OutcomeView {
        match *self {
            UpdateOutcome::Settled { decision, executable } => OutcomeView::Settled {
                decision: decision@,
                executable: match executable {
                    Some(name) => Some(name@),
                    None => None,
                },
            },
            UpdateOutcome::Failed { error, restore_failed } => OutcomeView::Failed {
                error,
                restore_failed,
            },
        }
    }
}

/// Where a run stands.
#[derive(Debug)]
pub enum UpdateState {
    /// Nothing has happened yet.
    Start,
    /// The installation record is being read.
    AwaitRecord,
    /// The latest release is being looked up.
    AwaitLatest { current: Option<Version> },
    /// The install directory is being inspected.
    AwaitDirectory { target: Version },
    /// The operator is being asked.
    AwaitAnswer { current: Option<Version>, target: Version, directory_in_use: bool },
    /// The install directory is being copied aside.
    AwaitSnapshot { decision: UpdateDecision, artifact: ArtifactDescriptor },
    /// The artifact is being downloaded.
    AwaitDownload { decision: UpdateDecision, artifact: ArtifactDescriptor },
    /// The installation record is being written.
    AwaitRecordWrite { decision: UpdateDecision, artifact: ArtifactDescriptor },
    /// The snapshot is being deleted.
    AwaitDiscard { outcome: UpdateOutcome },
    /// The snapshot is being brought back.
    AwaitRestore { error: UpdateError },
    /// The run is over.
    Done,
}

/// The mathematical content of a state.
pub enum StateView {
    Start,
    AwaitRecord,
    AwaitLatest { current: Option<VersionView> },
    AwaitDirectory { target: VersionView },
    AwaitAnswer { current: Option<VersionView>, target: VersionView, directory_in_use: bool },
    AwaitSnapshot { decision: DecisionView, artifact: DescriptorView },
    AwaitDownload { decision: DecisionView, artifact: DescriptorView },
    AwaitRecordWrite { decision: DecisionView, artifact: DescriptorView },
    AwaitDiscard { outcome: OutcomeView },
    AwaitRestore { error: UpdateError },
    Done,
}

impl View for UpdateState {
    type V = StateView;

    open spec fn view(&self) -> StateView {
        match *self {
            UpdateState::Start => StateView::Start,
            UpdateState::AwaitRecord => StateView::AwaitRecord,
            UpdateState::AwaitLatest { current } => StateView::AwaitLatest {
                current: view_of(current),
            },
            UpdateState::AwaitDirectory { target } => StateView::AwaitDirectory { target: target@ },
            UpdateState::AwaitAnswer {
                current,
                target,
                directory_in_use,
            } => StateView::AwaitAnswer {
                current: view_of(current),
                target: target@,
                directory_in_use,
            },
            UpdateState::AwaitSnapshot { decision, artifact } => StateView::AwaitSnapshot {
                decision: decision@,
                artifact: artifact@,
            },
            UpdateState::AwaitDownload { decision, artifact } => StateView::AwaitDownload {
                decision: decision@,
                artifact: artifact@,
            },
            UpdateState::AwaitRecordWrite { decision, artifact } => StateView::AwaitRecordWrite {
                decision: decision@,
                artifact: artifact@,
            },
            UpdateState::AwaitDiscard { outcome } => StateView::AwaitDiscard { outcome: outcome@ },
            UpdateState::AwaitRestore { error } => StateView::AwaitRestore { error },
            UpdateState::Done => StateView::Done,
        }
    }
}

/// What just happened.
#[derive(Debug)]
pub enum UpdateEvent {
    /// The run begins.
    Started,
    /// The record was read; it names the installed version, or there is no
    /// readable record.
    RecordRead(Option<Version>),
    /// The latest release was looked up.
    LatestResolved(Result<Version, UpdateError>),
    /// The install directory was inspected: `true` where it holds anything.
    DirectoryInspected(bool),
    /// The operator answered: `true` where the confirmation was granted.
    Answered(bool),
    /// The snapshot was taken (`true`) or could not be taken.
    SnapshotFinished(bool),
    /// The download ended.
    DownloadFinished(DownloadOutcome),
    /// The record was written (`true`) or could not be written.
    RecordWritten(bool),
    /// The snapshot was deleted, or could not be; either way it is not
    /// needed again.
    SnapshotDiscarded,
    /// The snapshot was brought back (`true`) or could not be.
    RestoreFinished(bool),
}

/// The mathematical content of an event.
pub enum EventView {
    Started,
    RecordRead(Option<VersionView>),
    LatestResolved(Result<VersionView, UpdateError>),
    DirectoryInspected(bool),
    Answered(bool),
    SnapshotFinished(bool),
    DownloadFinished(DownloadOutcome),
    RecordWritten(bool),
    SnapshotDiscarded,
    RestoreFinished(bool),
}

impl View for UpdateEvent {
    type V = EventView;

    open spec fn view(&self) -> EventView {
        match *self {
            UpdateEvent::Started => EventView::Started,
            UpdateEvent::RecordRead(current) => EventView::RecordRead(view_of(current)),
            UpdateEvent::LatestResolved(latest) => EventView::LatestResolved(
                match latest {
                    Ok(v) => Ok(v@),
                    Err(e) => Err(e),
                },
            ),
            UpdateEvent::DirectoryInspected(in_use) => EventView::DirectoryInspected(in_use),
            UpdateEvent::Answered(granted) => EventView::Answered(granted),
            UpdateEvent::SnapshotFinished(ok) => EventView::SnapshotFinished(ok),
            UpdateEvent::DownloadFinished(outcome) => EventView::DownloadFinished(outcome),
            UpdateEvent::RecordWritten(ok) => EventView::RecordWritten(ok),
            UpdateEvent::SnapshotDiscarded => EventView::SnapshotDiscarded,
            UpdateEvent::RestoreFinished(ok) => EventView::RestoreFinished(ok),
        }
    }
}

/// What the caller does next.
#[derive(Debug)]
pub enum UpdateAction {
    /// Read the installation record.
    ReadRecord,
    /// Look up the latest release.
    FetchLatest,
    /// Find out whether the install directory holds anything.
    InspectDirectory,
    /// Ask the operator to confirm; the version is the one to be installed.
    Ask(Confirmation, Version),
    /// Copy the install directory aside.
    Snapshot,
    /// Download the artifact.
    Download(ArtifactDescriptor),
    /// Overwrite the installation record.
    WriteRecord { version: Version, executable_name: String },
    /// Delete the snapshot.
    DiscardSnapshot,
    /// Bring the snapshot back, then delete it.
    Restore,
    /// End the run.
    Finish(UpdateOutcome),
    /// The event does not belong to the state; the state is unchanged.
    Unexpected,
}

/// The mathematical content of an action.
pub enum ActionView {
    ReadRecord,
    FetchLatest,
    InspectDirectory,
    Ask(Confirmation, VersionView),
    Snapshot,
    Download(DescriptorView),
    WriteRecord { version: VersionView, executable_name: Seq<char> },
    DiscardSnapshot,
    Restore,
    Finish(OutcomeView),
    Unexpected,
}

impl View for UpdateAction {
    type V = ActionView;

    open spec fn view(&self) -> ActionView {
        match *self {
            UpdateAction::ReadRecord => ActionView::ReadRecord,
            UpdateAction::FetchLatest => ActionView::FetchLatest,
            UpdateAction::InspectDirectory => ActionView::InspectDirectory,
            UpdateAction::Ask(kind, version) => ActionView::Ask(kind, version@),
            UpdateAction::Snapshot => ActionView::Snapshot,
            UpdateAction::Download(artifact) => ActionView::Download(artifact@),
            UpdateAction::WriteRecord { version, executable_name } => ActionView::WriteRecord {
                version: version@,
                executable_name: executable_name@,
            },
            UpdateAction::DiscardSnapshot => ActionView::DiscardSnapshot,
            UpdateAction::Restore => ActionView::Restore,
            UpdateAction::Finish(outcome) => ActionView::Finish(outcome@),
            UpdateAction::Unexpected => ActionView::Unexpected,
        }
    }
}

/// The failure that a failed lookup of the latest release counts as: a
/// malformed tag as such, anything else as an unavailable registry.
pub open spec fn lookup_failure(error: UpdateError) -> UpdateError {
    if error == UpdateError::MalformedVersionTag {
        UpdateError::MalformedVersionTag
    } else {
        UpdateError::RegistryUnavailable
    }
}

/// The run ends with a failure before anything was changed.
pub open spec fn fail(error: UpdateError) -> (StateView, ActionView) {
    (StateView::Done, ActionView::Finish(OutcomeView::Failed { error, restore_failed: false }))
}

/// The file name of the executable of the installed version, if a version
/// is installed.
pub open spec fn kept_executable(config: ConfigView, current: Option<VersionView>) -> Option<
    Seq<char>,
> {
    match current {
        Some(c) => match descriptor_for(c, config.target) {
            Some(d) => Some(d.expected_filename),
            None => None,
        },
        None => None,
    }
}

/// What follows a decision: one that installs has the install directory
/// copied aside first; any other ends the run, with the installed
/// executable to launch.
pub open spec fn settle(config: ConfigView, current: Option<VersionView>, decision: DecisionView) -> (
    StateView,
    ActionView,
) {
    match decision.installed_version() {
        Some(version) => match descriptor_for(version, config.target) {
            Some(artifact) => (
                StateView::AwaitSnapshot { decision, artifact },
                ActionView::Snapshot,
            ),
            None => fail(UpdateError::UnsupportedPlatform),
        },
        None => (
            StateView::Done,
            ActionView::Finish(
                OutcomeView::Settled { decision, executable: kept_executable(config, current) },
            ),
        ),
    }
}

/// What follows once the installed version and the target are known: with
/// nothing installed the directory is inspected; else the operator is asked
/// where the decision depends on it, and the decision is taken.
pub open spec fn with_versions(
    config: ConfigView,
    current: Option<VersionView>,
    target: VersionView,
) -> (StateView, ActionView) {
    match current {
        None => (StateView::AwaitDirectory { target }, ActionView::InspectDirectory),
        Some(c) => match confirmation_needed(current, target, config.wishes(), false) {
            Some(kind) => (
                StateView::AwaitAnswer { current, target, directory_in_use: false },
                ActionView::Ask(kind, target),
            ),
            None => settle(
                config,
                current,
                decide_spec(current, target, config.wishes(), false, false),
            ),
        },
    }
}

/// The transition of the run: the next state and the action, for a state
/// and an event.
pub open spec fn step(config: ConfigView, state: StateView, event: EventView) -> (
    StateView,
    ActionView,
) {
    match (state, event) {
        (StateView::Start, EventView::Started) => if platform_key(config.target) is None {
            fail(UpdateError::UnsupportedPlatform)
        } else {
            (StateView::AwaitRecord, ActionView::ReadRecord)
        },
        (StateView::AwaitRecord, EventView::RecordRead(current)) => if config.skip_update_check
            && current is Some {
            settle(config, current, DecisionView::UpToDate(current->0))
        } else {
            match config.version_override {
                Some(target) => with_versions(config, current, target),
                None => (StateView::AwaitLatest { current }, ActionView::FetchLatest),
            }
        },
        (StateView::AwaitLatest { current }, EventView::LatestResolved(latest)) => match latest {
            Ok(target) => with_versions(config, current, target),
            Err(error) => fail(lookup_failure(error)),
        },
        (StateView::AwaitDirectory { target }, EventView::DirectoryInspected(in_use)) => {
            match confirmation_needed(None, target, config.wishes(), in_use) {
                Some(kind) => (
                    StateView::AwaitAnswer { current: None, target, directory_in_use: in_use },
                    ActionView::Ask(kind, target),
                ),
                None => settle(
                    config,
                    None,
                    decide_spec(None, target, config.wishes(), in_use, false),
                ),
            }
        },
        (
            StateView::AwaitAnswer { current, target, directory_in_use },
            EventView::Answered(granted),
        ) => settle(
            config,
            current,
            decide_spec(current, target, config.wishes(), directory_in_use, granted),
        ),
        (StateView::AwaitSnapshot { decision, artifact }, EventView::SnapshotFinished(ok)) => if ok {
            (StateView::AwaitDownload { decision, artifact }, ActionView::Download(artifact))
        } else {
            (
                StateView::AwaitDiscard {
                    outcome: OutcomeView::Failed {
                        error: UpdateError::BackupFailed,
                        restore_failed: false,
                    },
                },
                ActionView::DiscardSnapshot,
            )
        },
        (
            StateView::AwaitDownload { decision, artifact },
            EventView::DownloadFinished(outcome),
        ) => match (outcome, decision.installed_version()) {
            (DownloadOutcome::Placed, Some(version)) => (
                StateView::AwaitRecordWrite { decision, artifact },
                ActionView::WriteRecord { version, executable_name: artifact.expected_filename },
            ),
            (DownloadOutcome::TransferFailed, _) => (
                StateView::AwaitRestore { error: UpdateError::TransferFailed },
                ActionView::Restore,
            ),
            _ => (
                StateView::AwaitRestore { error: UpdateError::PlacementFailed },
                ActionView::Restore,
            ),
        },
        (StateView::AwaitRecordWrite { decision, artifact }, EventView::RecordWritten(ok)) => if ok {
            (
                StateView::AwaitDiscard {
                    outcome: OutcomeView::Settled {
                        decision,
                        executable: Some(artifact.expected_filename),
                    },
                },
                ActionView::DiscardSnapshot,
            )
        } else {
            (StateView::AwaitRestore { error: UpdateError::PlacementFailed }, ActionView::Restore)
        },
        (StateView::AwaitDiscard { outcome }, EventView::SnapshotDiscarded) => (
            StateView::Done,
            ActionView::Finish(outcome),
        ),
        (StateView::AwaitRestore { error }, EventView::RestoreFinished(ok)) => (
            StateView::Done,
            ActionView::Finish(OutcomeView::Failed { error, restore_failed: !ok }),
        ),
        _ => (state, ActionView::Unexpected),
    }
}

fn failed(error: UpdateError) -> (r: (UpdateState, UpdateAction))
    ensures
        (r.0@, r.1@) == fail(error),
{
    (
        UpdateState::Done,
        UpdateAction::Finish(UpdateOutcome::Failed { error, restore_failed: false }),
    )
}

fn installed_executable(config: &UpdateConfig, current: &Option<Version>) -> (r: Option<String>)
    ensures
        match r {
            Some(name) => kept_executable(config@, view_of(*current)) == Some(name@),
            None => kept_executable(config@, view_of(*current)) is None,
        },
{
    match current {
        Some(c) => match name_for(c, &config.target) {
            Ok(d) => Some(d.expected_filename),
            Err(_) => None,
        },
        None => None,
    }
}

fn settled(config: &UpdateConfig, current: Option<Version>, decision: UpdateDecision) -> (r: (
    UpdateState,
    UpdateAction,
))
    ensures
        (r.0@, r.1@) == settle(config@, view_of(current), decision@),
{
    let described = match &decision {
        UpdateDecision::FreshInstall(t) => Some(name_for(t, &config.target)),
        UpdateDecision::Upgrade(_, t) => Some(name_for(t, &config.target)),
        _ => None,
    };
    match described {
        Some(Ok(artifact)) => (
            UpdateState::AwaitSnapshot { decision, artifact },
            UpdateAction::Snapshot,
        ),
        Some(Err(_)) => failed(UpdateError::UnsupportedPlatform),
        None => {
            let executable = installed_executable(config, &current);
            (
                UpdateState::Done,
                UpdateAction::Finish(UpdateOutcome::Settled { decision, executable }),
            )
        },
    }
}

fn wishes_of(config: &UpdateConfig) -> (w: Wishes)
    ensures
        w == config@.wishes(),
{
    Wishes {
        explicit: config.version_override.is_some(),
        allow_unconfirmed: config.yes_all,
        skip_checks: config.skip_update_check,
        confirm_prereleases: config.confirm_prereleases,
    }
}

fn versions_known(config: &UpdateConfig, current: Option<Version>, target: Version) -> (r: (
    UpdateState,
    UpdateAction,
))
    ensures
        (r.0@, r.1@) == with_versions(config@, view_of(current), target@),
{
    if current.is_none() {
        return (UpdateState::AwaitDirectory { target }, UpdateAction::InspectDirectory);
    }
    match required_confirmation(&current, &target, wishes_of(config), false) {
        Some(kind) => {
            let asked = target.clone();
            (
                UpdateState::AwaitAnswer { current, target, directory_in_use: false },
                UpdateAction::Ask(kind, asked),
            )
        },
        None => {
            let kept = current.clone();
            let decision = decide(current, target, wishes_of(config), false, false);
            settled(config, kept, decision)
        },
    }
}

/// Advances the update run by one event.
///
/// A run begins in `Start` with `Started`. An unsupported platform ends
/// it at once. Otherwise the record is read; with checks skipped an
/// installed version is kept. The target is the version named in
/// the configuration, or else the latest release; a failed lookup ends the
/// run, as a malformed tag or else as an unavailable registry. With nothing installed the install directory is
/// inspected. The operator is asked only where the decision depends on the
/// answer. A decision that installs has the directory copied aside, the
/// artifact downloaded, the record written and the snapshot deleted, in
/// that order; a failed download, or a record that cannot be written, has
/// the snapshot brought back before the run ends with the failure. An
/// event that the state does not wait for changes nothing.
pub fn try_update(config: &UpdateConfig, state: UpdateState, event: UpdateEvent) -> (r: (
    UpdateState,
    UpdateAction,
))
    ensures
        (r.0@, r.1@) == step(config@, state@, event@),
{
    match (state, event) {
        (UpdateState::Start, UpdateEvent::Started) => {
            match crate::artifact::executable_name_without_version(&config.target) {
                None => failed(UpdateError::UnsupportedPlatform),
                Some(_) => (UpdateState::AwaitRecord, UpdateAction::ReadRecord),
            }
        },
        (UpdateState::AwaitRecord, UpdateEvent::RecordRead(current)) => {
            match (config.skip_update_check, current) {
                (true, Some(c)) => {
                    let kept = Some(c.clone());
                    settled(config, kept, UpdateDecision::UpToDate(c))
                },
                (_, current) => match &config.version_override {
                    Some(target) => versions_known(config, current, target.clone()),
                    None => (UpdateState::AwaitLatest { current }, UpdateAction::FetchLatest),
                },
            }
        },
        (UpdateState::AwaitLatest { current }, UpdateEvent::LatestResolved(latest)) => {
            match latest {
                Ok(target) => versions_known(config, current, target),
                Err(UpdateError::MalformedVersionTag) => failed(UpdateError::MalformedVersionTag),
                Err(_) => failed(UpdateError::RegistryUnavailable),
            }
        },
        (UpdateState::AwaitDirectory { target }, UpdateEvent::DirectoryInspected(in_use)) => {
            let current: Option<Version> = None;
            match required_confirmation(&current, &target, wishes_of(config), in_use) {
                Some(kind) => {
                    let asked = target.clone();
                    (
                        UpdateState::AwaitAnswer { current, target, directory_in_use: in_use },
                        UpdateAction::Ask(kind, asked),
                    )
                },
                None => {
                    let decision = decide(current, target, wishes_of(config), in_use, false);
                    settled(config, None, decision)
                },
            }
        },
        (
            UpdateState::AwaitAnswer { current, target, directory_in_use },
            UpdateEvent::Answered(granted),
        ) => {
            let kept = current.clone();
            let decision = decide(current, target, wishes_of(config), directory_in_use, granted);
            settled(config, kept, decision)
        },
        (UpdateState::AwaitSnapshot { decision, artifact }, UpdateEvent::SnapshotFinished(ok)) => {
            if ok {
                let wanted = ArtifactDescriptor {
                    expected_filename: artifact.expected_filename.clone(),
                    download_url: artifact.download_url.clone(),
                };
                (UpdateState::AwaitDownload { decision, artifact }, UpdateAction::Download(wanted))
            } else {
                (
                    UpdateState::AwaitDiscard {
                        outcome: UpdateOutcome::Failed {
                            error: UpdateError::BackupFailed,
                            restore_failed: false,
                        },
                    },
                    UpdateAction::DiscardSnapshot,
                )
            }
        },
        (
            UpdateState::AwaitDownload { decision, artifact },
            UpdateEvent::DownloadFinished(outcome),
        ) => {
            let installed = match &decision {
                UpdateDecision::FreshInstall(t) => Some(t.clone()),
                UpdateDecision::Upgrade(_, t) => Some(t.clone()),
                _ => None,
            };
            match (outcome, installed) {
                (DownloadOutcome::Placed, Some(version)) => {
                    let executable_name = artifact.expected_filename.clone();
                    (
                        UpdateState::AwaitRecordWrite { decision, artifact },
                        UpdateAction::WriteRecord { version, executable_name },
                    )
                },
                (DownloadOutcome::TransferFailed, _) => (
                    UpdateState::AwaitRestore { error: UpdateError::TransferFailed },
                    UpdateAction::Restore,
                ),
                _ => (
                    UpdateState::AwaitRestore { error: UpdateError::PlacementFailed },
                    UpdateAction::Restore,
                ),
            }
        },
        (UpdateState::AwaitRecordWrite { decision, artifact }, UpdateEvent::RecordWritten(ok)) => {
            if ok {
                (
                    UpdateState::AwaitDiscard {
                        outcome: UpdateOutcome::Settled {
                            decision,
                            executable: Some(artifact.expected_filename),
                        },
                    },
                    UpdateAction::DiscardSnapshot,
                )
            } else {
                (
                    UpdateState::AwaitRestore { error: UpdateError::PlacementFailed },
                    UpdateAction::Restore,
                )
            }
        },
        (UpdateState::AwaitDiscard { outcome }, UpdateEvent::SnapshotDiscarded) => (
            UpdateState::Done,
            UpdateAction::Finish(outcome),
        ),
        (UpdateState::AwaitRestore { error }, UpdateEvent::RestoreFinished(ok)) => (
            UpdateState::Done,
            UpdateAction::Finish(UpdateOutcome::Failed { error, restore_failed: !ok }),
        ),
        (state, _) => (state, UpdateAction::Unexpected),
    }
}

/// The state that a run is in after a series of events, from `Start`.
pub open spec fn run_state(config: ConfigView, events: Seq<EventView>) -> StateView
    decreases events.len(),
{
    if events.len() == 0 {
        StateView::Start
    } else {
        step(config, run_state(config, events.drop_last()), events.last()).0
    }
}

/// The actions that a run has asked for after a series of events, one for
/// each event.
pub open spec fn run_actions(config: ConfigView, events: Seq<EventView>) -> Seq<ActionView>
    decreases events.len(),
{
    if events.len() == 0 {
        Seq::<ActionView>::empty()
    } else {
        run_actions(config, events.drop_last()).push(
            step(config, run_state(config, events.drop_last()), events.last()).1,
        )
    }
}

/// The actions that change or copy anything on disk or fetch an artifact.
pub open spec fn touches_disk(action: ActionView) -> bool {
    action is Snapshot || action is Download || action is WriteRecord || action is DiscardSnapshot
        || action is Restore
}

/// None of the actions touches the disk.
pub open spec fn quiet(actions: Seq<ActionView>) -> bool {
    forall|i: int| 0 <= i < actions.len() ==> !touches_disk(#[trigger] actions[i])
}

/// One of the actions is a download.
pub open spec fn downloads(actions: Seq<ActionView>) -> bool {
    exists|i: int| 0 <= i < actions.len() && #[trigger] actions[i] is Download
}

/// One of the actions is a snapshot.
pub open spec fn snapshots(actions: Seq<ActionView>) -> bool {
    exists|i: int| 0 <= i < actions.len() && #[trigger] actions[i] is Snapshot
}

/// One of the actions is a restore.
pub open spec fn restores(actions: Seq<ActionView>) -> bool {
    exists|i: int| 0 <= i < actions.len() && #[trigger] actions[i] is Restore
}

/// One of the actions deletes the snapshot.
pub open spec fn discards(actions: Seq<ActionView>) -> bool {
    exists|i: int| 0 <= i < actions.len() && #[trigger] actions[i] is DiscardSnapshot
}

/// The action ends the run with a decision that installs nothing, or with
/// a failure that is fatal before anything was changed.
pub open spec fn finishes_untouched(action: ActionView) -> bool {
    match action {
        ActionView::Finish(OutcomeView::Settled { decision, .. }) => !decision.installs(),
        ActionView::Finish(OutcomeView::Failed { error, .. }) => error.is_fatal_before_mutation(),
        _ => false,
    }
}

/// The action ends the run with a failure.
pub open spec fn finishes_failed(action: ActionView) -> bool {
    action matches ActionView::Finish(OutcomeView::Failed { .. })
}

/// The action writes the record of a version under the file name of that
/// version's artifact.
pub open spec fn writes_matching_record(config: ConfigView, action: ActionView) -> bool {
    action matches ActionView::WriteRecord { version, executable_name } ==> descriptor_for(
        version,
        config.target,
    ) is Some && descriptor_for(version, config.target)->0.expected_filename
        == executable_name
}

spec fn no_finish(actions: Seq<ActionView>) -> bool {
    forall|i: int| 0 <= i < actions.len() ==> !(#[trigger] actions[i] is Finish)
}

spec fn records_match(config: ConfigView, actions: Seq<ActionView>) -> bool {
    forall|i: int| 0 <= i < actions.len() ==> writes_matching_record(config, #[trigger] actions[i])
}

spec fn steps_in_order(actions: Seq<ActionView>) -> bool {
    &&& forall|i: int|
        0 <= i < actions.len() && #[trigger] actions[i] is Download ==> snapshots(actions.take(i))
    &&& forall|i: int|
        0 <= i < actions.len() && #[trigger] actions[i] is WriteRecord ==> downloads(
            actions.take(i),
        )
}

spec fn fits(config: ConfigView, decision: DecisionView, artifact: DescriptorView) -> bool {
    decision.installed_version() is Some && descriptor_for(
        decision.installed_version()->0,
        config.target,
    ) == Some(artifact)
}

/// What a run has done so far, as far as the invariant of runs needs it.
struct Account {
    quiet: bool,
    finished: bool,
    downloaded: bool,
    snapshotted: bool,
    restored: bool,
    discarded: bool,
}

spec fn account_of(actions: Seq<ActionView>) -> Account {
    Account {
        quiet: quiet(actions),
        finished: !no_finish(actions),
        downloaded: downloads(actions),
        snapshotted: snapshots(actions),
        restored: restores(actions),
        discarded: discards(actions),
    }
}

spec fn account_after(account: Account, action: ActionView) -> Account {
    Account {
        quiet: account.quiet && !touches_disk(action),
        finished: account.finished || action is Finish,
        downloaded: account.downloaded || action is Download,
        snapshotted: account.snapshotted || action is Snapshot,
        restored: account.restored || action is Restore,
        discarded: account.discarded || action is DiscardSnapshot,
    }
}

spec fn finish_is_sound(action: ActionView, account: Account) -> bool {
    &&& finishes_untouched(action) ==> account.quiet
    &&& finishes_failed(action) && account.downloaded ==> account.restored
    &&& action matches ActionView::Finish(OutcomeView::Failed { error, .. }) ==> (account.restored
        <==> error.requires_restore())
    &&& action is Finish && account.snapshotted ==> account.discarded || account.restored
}

spec fn coherent(account: Account) -> bool {
    account.quiet ==> !account.downloaded && !account.snapshotted && !account.restored
        && !account.discarded
}

spec fn phase_is_sound(config: ConfigView, state: StateView, account: Account) -> bool {
    coherent(account) && match state {
        StateView::Start
        | StateView::AwaitRecord
        | StateView::AwaitLatest { .. }
        | StateView::AwaitDirectory { .. }
        | StateView::AwaitAnswer { .. } => account.quiet && !account.finished,
        StateView::AwaitSnapshot { decision, artifact } => fits(config, decision, artifact)
            && !account.finished && !account.downloaded && !account.restored
            && account.snapshotted,
        StateView::AwaitDownload { decision, artifact } => fits(config, decision, artifact)
            && !account.finished && account.downloaded,
        StateView::AwaitRecordWrite { decision, artifact } => fits(config, decision, artifact)
            && !account.finished && account.downloaded,
        StateView::AwaitDiscard { outcome } => !account.finished && account.discarded
            && match outcome {
            OutcomeView::Settled { decision, .. } => decision.installs(),
            OutcomeView::Failed { error, .. } => !error.is_fatal_before_mutation()
                && !error.requires_restore() && !account.downloaded && !account.restored,
        },
        StateView::AwaitRestore { error } => !account.finished && account.restored
            && error.requires_restore(),
        StateView::Done => true,
    }
}

spec fn leaving_is_sound(
    config: ConfigView,
    account: Account,
    next: StateView,
    action: ActionView,
) -> bool {
    &&& phase_is_sound(config, next, account_after(account, action))
    &&& writes_matching_record(config, action)
    &&& action is Download ==> account.snapshotted
    &&& action is WriteRecord ==> account.downloaded
    &&& !account.finished
    &&& next is Done ==> finish_is_sound(action, account_after(account, action))
}

spec fn transition_is_sound(
    config: ConfigView,
    state: StateView,
    account: Account,
    next: StateView,
    action: ActionView,
) -> bool {
    if state is Done {
        next is Done && action is Unexpected
    } else {
        leaving_is_sound(config, account, next, action)
    }
}

spec fn run_invariant(config: ConfigView, state: StateView, actions: Seq<ActionView>) -> bool {
    &&& records_match(config, actions)
    &&& steps_in_order(actions)
    &&& phase_is_sound(config, state, account_of(actions))
    &&& state is Done ==> forall|i: int|
        0 <= i < actions.len() ==> finish_is_sound(#[trigger] actions[i], account_of(actions))
}

proof fn lemma_account_after(actions: Seq<ActionView>, action: ActionView)
    ensures
        account_of(actions.push(action)) == account_after(account_of(actions), action),
{
    let after = actions.push(action);
    let n = actions.len() as int;
    assert(after[n] == action);
    assert(forall|i: int| 0 <= i < n ==> after[i] == actions[i]);
    if downloads(actions) {
        let i = choose|i: int| 0 <= i < actions.len() && #[trigger] actions[i] is Download;
        assert(after[i] is Download);
    }
    if snapshots(actions) {
        let i = choose|i: int| 0 <= i < actions.len() && #[trigger] actions[i] is Snapshot;
        assert(after[i] is Snapshot);
    }
    if restores(actions) {
        let i = choose|i: int| 0 <= i < actions.len() && #[trigger] actions[i] is Restore;
        assert(after[i] is Restore);
    }
    if discards(actions) {
        let i = choose|i: int| 0 <= i < actions.len() && #[trigger] actions[i] is DiscardSnapshot;
        assert(after[i] is DiscardSnapshot);
    }
    if downloads(after) {
        let i = choose|i: int| 0 <= i < after.len() && #[trigger] after[i] is Download;
        if i < n {
            assert(actions[i] is Download);
        }
    }
    if snapshots(after) {
        let i = choose|i: int| 0 <= i < after.len() && #[trigger] after[i] is Snapshot;
        if i < n {
            assert(actions[i] is Snapshot);
        }
    }
    if restores(after) {
        let i = choose|i: int| 0 <= i < after.len() && #[trigger] after[i] is Restore;
        if i < n {
            assert(actions[i] is Restore);
        }
    }
    if discards(after) {
        let i = choose|i: int| 0 <= i < after.len() && #[trigger] after[i] is DiscardSnapshot;
        if i < n {
            assert(actions[i] is DiscardSnapshot);
        }
    }
    if quiet(after) {
        assert forall|i: int| 0 <= i < actions.len() implies !touches_disk(
            #[trigger] actions[i],
        ) by {
            assert(after[i] == actions[i]);
        }
        assert(!touches_disk(after[n]));
    }
    if no_finish(after) {
        assert forall|i: int| 0 <= i < actions.len() implies !(#[trigger] actions[i] is Finish) by {
            assert(after[i] == actions[i]);
        }
        assert(!(after[n] is Finish));
    }
}

proof fn lemma_order_kept(actions: Seq<ActionView>, action: ActionView)
    requires
        steps_in_order(actions),
        action is Download ==> snapshots(actions),
        action is WriteRecord ==> downloads(actions),
    ensures
        steps_in_order(actions.push(action)),
{
    let after = actions.push(action);
    let n = actions.len() as int;
    assert(after.take(n) =~= actions);
    assert forall|i: int| 0 <= i < after.len() && #[trigger] after[i] is Download implies snapshots(
        after.take(i),
    ) by {
        if i < n {
            assert(after[i] == actions[i]);
            assert(after.take(i) =~= actions.take(i));
        }
    }
    assert forall|i: int|
        0 <= i < after.len() && #[trigger] after[i] is WriteRecord implies downloads(
        after.take(i),
    ) by {
        if i < n {
            assert(after[i] == actions[i]);
            assert(after.take(i) =~= actions.take(i));
        }
    }
}

proof fn lemma_fail_is_sound(config: ConfigView, account: Account, error: UpdateError)
    requires
        coherent(account),
        account.quiet,
        !account.finished,
        !error.requires_restore(),
    ensures
        leaving_is_sound(config, account, fail(error).0, fail(error).1),
{
}

proof fn lemma_settle_is_sound(
    config: ConfigView,
    account: Account,
    current: Option<VersionView>,
    decision: DecisionView,
)
    requires
        coherent(account),
        account.quiet,
        !account.finished,
    ensures
        leaving_is_sound(
            config,
            account,
            settle(config, current, decision).0,
            settle(config, current, decision).1,
        ),
{
    match decision.installed_version() {
        Some(version) => {
            if descriptor_for(version, config.target) is None {
                lemma_fail_is_sound(config, account, UpdateError::UnsupportedPlatform);
            }
        },
        None => {},
    }
}

proof fn lemma_with_versions_is_sound(
    config: ConfigView,
    account: Account,
    current: Option<VersionView>,
    target: VersionView,
)
    requires
        coherent(account),
        account.quiet,
        !account.finished,
    ensures
        leaving_is_sound(
            config,
            account,
            with_versions(config, current, target).0,
            with_versions(config, current, target).1,
        ),
{
    if current is Some && confirmation_needed(current, target, config.wishes(), false) is None {
        lemma_settle_is_sound(
            config,
            account,
            current,
            decide_spec(current, target, config.wishes(), false, false),
        );
    }
}

proof fn lemma_deciding_is_sound(
    config: ConfigView,
    state: StateView,
    account: Account,
    event: EventView,
)
    requires
        phase_is_sound(config, state, account),
        state is Start || state is AwaitRecord || state is AwaitLatest || state is AwaitDirectory
            || state is AwaitAnswer,
    ensures
        leaving_is_sound(
            config,
            account,
            step(config, state, event).0,
            step(config, state, event).1,
        ),
{
    match (state, event) {
        (StateView::Start, EventView::Started) => {
            lemma_fail_is_sound(config, account, UpdateError::UnsupportedPlatform);
        },
        (StateView::AwaitRecord, EventView::RecordRead(current)) => {
            if config.skip_update_check && current is Some {
                lemma_settle_is_sound(
                    config,
                    account,
                    current,
                    DecisionView::UpToDate(current->0),
                );
            } else if config.version_override is Some {
                lemma_with_versions_is_sound(config, account, current, config.version_override->0);
            }
        },
        (StateView::AwaitLatest { current }, EventView::LatestResolved(latest)) => {
            match latest {
                Ok(target) => {
                    lemma_with_versions_is_sound(config, account, current, target);
                },
                Err(error) => {
                    lemma_fail_is_sound(config, account, lookup_failure(error));
                },
            }
        },
        (StateView::AwaitDirectory { target }, EventView::DirectoryInspected(in_use)) => {
            if confirmation_needed(None, target, config.wishes(), in_use) is None {
                lemma_settle_is_sound(
                    config,
                    account,
                    None,
                    decide_spec(None, target, config.wishes(), in_use, false),
                );
            }
        },
        (
            StateView::AwaitAnswer { current, target, directory_in_use },
            EventView::Answered(granted),
        ) => {
            lemma_settle_is_sound(
                config,
                account,
                current,
                decide_spec(current, target, config.wishes(), directory_in_use, granted),
            );
        },
        _ => {},
    }
}

proof fn lemma_installing_is_sound(
    config: ConfigView,
    state: StateView,
    account: Account,
    event: EventView,
)
    requires
        phase_is_sound(config, state, account),
        state is AwaitSnapshot || state is AwaitDownload || state is AwaitRecordWrite
            || state is AwaitDiscard || state is AwaitRestore,
    ensures
        leaving_is_sound(
            config,
            account,
            step(config, state, event).0,
            step(config, state, event).1,
        ),
{
}

proof fn lemma_step_is_sound(
    config: ConfigView,
    state: StateView,
    account: Account,
    event: EventView,
)
    requires
        phase_is_sound(config, state, account),
    ensures
        transition_is_sound(
            config,
            state,
            account,
            step(config, state, event).0,
            step(config, state, event).1,
        ),
{
    if state is Done {
    } else if state is Start || state is AwaitRecord || state is AwaitLatest
        || state is AwaitDirectory || state is AwaitAnswer {
        lemma_deciding_is_sound(config, state, account, event);
    } else {
        lemma_installing_is_sound(config, state, account, event);
    }
}

proof fn lemma_sound_transition_keeps_invariant(
    config: ConfigView,
    state: StateView,
    actions: Seq<ActionView>,
    next: StateView,
    action: ActionView,
)
    requires
        run_invariant(config, state, actions),
        transition_is_sound(config, state, account_of(actions), next, action),
    ensures
        run_invariant(config, next, actions.push(action)),
{
    let after = actions.push(action);
    let n = actions.len() as int;
    lemma_account_after(actions, action);
    assert(after[n] == action);
    assert(forall|i: int| 0 <= i < n ==> after[i] == actions[i]);
    lemma_order_kept(actions, action);
    if next is Done {
        assert forall|i: int| 0 <= i < after.len() implies finish_is_sound(
            #[trigger] after[i],
            account_of(after),
        ) by {
            if i < n {
                assert(after[i] == actions[i]);
                if !(state is Done) {
                    assert(no_finish(actions));
                    assert(!(actions[i] is Finish));
                }
            }
        }
    }
}

proof fn lemma_run_invariant(config: ConfigView, events: Seq<EventView>)
    ensures
        run_invariant(config, run_state(config, events), run_actions(config, events)),
    decreases events.len(),
{
    if events.len() > 0 {
        let before = events.drop_last();
        lemma_run_invariant(config, before);
        lemma_step_is_sound(
            config,
            run_state(config, before),
            account_of(run_actions(config, before)),
            events.last(),
        );
        lemma_sound_transition_keeps_invariant(
            config,
            run_state(config, before),
            run_actions(config, before),
            run_state(config, events),
            run_actions(config, events).last(),
        );
        assert(run_actions(config, events) =~= run_actions(config, before).push(
            run_actions(config, events).last(),
        ));
    }
}

proof fn lemma_finish_means_done(config: ConfigView, events: Seq<EventView>, at: int)
    requires
        0 <= at < run_actions(config, events).len(),
        run_actions(config, events)[at] is Finish,
    ensures
        run_state(config, events) is Done,
    decreases events.len(),
{
    if events.len() > 0 {
        let before = events.drop_last();
        if at < run_actions(config, before).len() {
            lemma_finish_means_done(config, before, at);
        }
    }
}

/// A run that ends with a decision that installs nothing, or with a
/// failure that is fatal before anything was changed, has not touched the
/// disk: it took no snapshot, downloaded nothing, wrote no record and
/// restored nothing, whatever the events were.
pub proof fn law_run_without_install_touches_nothing(
    config: ConfigView,
    events: Seq<EventView>,
    at: int,
)
    requires
        0 <= at < run_actions(config, events).len(),
        finishes_untouched(run_actions(config, events)[at]),
    ensures
        quiet(run_actions(config, events)),
{
    lemma_run_invariant(config, events);
    lemma_finish_means_done(config, events, at);
}

/// A run that has downloaded and ends with a failure has brought the
/// snapshot back, or tried to, before it ended.
pub proof fn law_failed_install_is_restored(config: ConfigView, events: Seq<EventView>, at: int)
    requires
        0 <= at < run_actions(config, events).len(),
        finishes_failed(run_actions(config, events)[at]),
        downloads(run_actions(config, events)),
    ensures
        restores(run_actions(config, events)),
{
    lemma_run_invariant(config, events);
    lemma_finish_means_done(config, events, at);
}

/// A run that ends with a failure has brought the snapshot back, or tried
/// to, exactly where the failure is one of transfer or of placement.
pub proof fn law_restore_follows_the_failures_that_call_for_it(
    config: ConfigView,
    events: Seq<EventView>,
    at: int,
)
    requires
        0 <= at < run_actions(config, events).len(),
        run_actions(config, events)[at] is Finish,
        run_actions(config, events)[at]->Finish_0 is Failed,
    ensures
        restores(run_actions(config, events)) <==> run_actions(
            config,
            events,
        )[at]->Finish_0->Failed_error.requires_restore(),
{
    lemma_run_invariant(config, events);
    lemma_finish_means_done(config, events, at);
}

/// No snapshot outlives its run: a run that took a snapshot and has ended
/// has deleted the snapshot or brought it back, which deletes it too.
pub proof fn law_snapshot_does_not_outlive_the_run(
    config: ConfigView,
    events: Seq<EventView>,
    at: int,
)
    requires
        0 <= at < run_actions(config, events).len(),
        run_actions(config, events)[at] is Finish,
        snapshots(run_actions(config, events)),
    ensures
        discards(run_actions(config, events)) || restores(run_actions(config, events)),
{
    lemma_run_invariant(config, events);
    lemma_finish_means_done(config, events, at);
}

/// In every run the steps of an install keep their order: a download
/// comes after a snapshot, and the record is written after a download.
pub proof fn law_install_steps_come_in_order(config: ConfigView, events: Seq<EventView>, at: int)
    requires
        0 <= at < run_actions(config, events).len(),
    ensures
        run_actions(config, events)[at] is Download ==> snapshots(
            run_actions(config, events).take(at),
        ),
        run_actions(config, events)[at] is WriteRecord ==> downloads(
            run_actions(config, events).take(at),
        ),
{
    lemma_run_invariant(config, events);
}

/// In every run the record is written for the version that was installed,
/// under the file name of that version's artifact.
pub proof fn law_record_names_the_installed_artifact(
    config: ConfigView,
    events: Seq<EventView>,
    at: int,
)
    requires
        0 <= at < run_actions(config, events).len(),
    ensures
        writes_matching_record(config, run_actions(config, events)[at]),
{
    lemma_run_invariant(config, events);
}

/// Once a run is over, every further event is refused and changes nothing.
pub proof fn law_done_is_final(config: ConfigView, event: EventView)
    ensures
        step(config, StateView::Done, event) == (StateView::Done, ActionView::Unexpected),
{
}

/// With an installed version equal to the latest release, the run reads
/// the record, looks up the release and ends: the version is up to date.
pub proof fn law_run_with_equal_versions(config: ConfigView, version: VersionView)
    requires
        platform_key(config.target) is Some,
        config.version_override is None,
    ensures
        run_state(
            config,
            seq![
                EventView::Started,
                EventView::RecordRead(Some(version)),
                EventView::LatestResolved(Ok(version)),
            ],
        ) is Done || config.skip_update_check,
        !config.skip_update_check ==> run_actions(
            config,
            seq![
                EventView::Started,
                EventView::RecordRead(Some(version)),
                EventView::LatestResolved(Ok(version)),
            ],
        ) == seq![
            ActionView::ReadRecord,
            ActionView::FetchLatest,
            ActionView::Finish(
                OutcomeView::Settled {
                    decision: DecisionView::UpToDate(version),
                    executable: kept_executable(config, Some(version)),
                },
            ),
        ],
{
    let e0 = Seq::<EventView>::empty();
    let e1 = seq![EventView::Started];
    let e2 = seq![EventView::Started, EventView::RecordRead(Some(version))];
    let e3 = seq![
        EventView::Started,
        EventView::RecordRead(Some(version)),
        EventView::LatestResolved(Ok(version)),
    ];
    assert(e1.drop_last() =~= e0);
    assert(e2.drop_last() =~= e1);
    assert(e3.drop_last() =~= e2);
    assert(run_state(config, e0) == StateView::Start);
    assert(run_state(config, e1) == StateView::AwaitRecord);
    assert(run_actions(config, e0) =~= Seq::<ActionView>::empty());
    assert(run_actions(config, e1) =~= seq![ActionView::ReadRecord]);
    if !config.skip_update_check {
        assert(run_state(config, e2) == StateView::AwaitLatest { current: Some(version) });
        assert(run_actions(config, e2) =~= seq![ActionView::ReadRecord, ActionView::FetchLatest]);
        assert(run_actions(config, e3) =~= seq![
            ActionView::ReadRecord,
            ActionView::FetchLatest,
            ActionView::Finish(
                OutcomeView::Settled {
                    decision: DecisionView::UpToDate(version),
                    executable: kept_executable(config, Some(version)),
                },
            ),
        ]);
    }
}

/// With an installed version above the latest release, the run reads the
/// record, looks up the release and ends: the downgrade is blocked.
pub proof fn law_run_with_newer_installed(
    config: ConfigView,
    current: VersionView,
    target: VersionView,
)
    requires
        platform_key(config.target) is Some,
        config.version_override is None,
        !config.skip_update_check,
        crate::version::precedence(current, target) == crate::version::Precedence::Higher,
    ensures
        run_actions(
            config,
            seq![
                EventView::Started,
                EventView::RecordRead(Some(current)),
                EventView::LatestResolved(Ok(target)),
            ],
        ) == seq![
            ActionView::ReadRecord,
            ActionView::FetchLatest,
            ActionView::Finish(
                OutcomeView::Settled {
                    decision: DecisionView::DowngradeBlocked(current, target),
                    executable: kept_executable(config, Some(current)),
                },
            ),
        ],
{
    let e0 = Seq::<EventView>::empty();
    let e1 = seq![EventView::Started];
    let e2 = seq![EventView::Started, EventView::RecordRead(Some(current))];
    let e3 = seq![
        EventView::Started,
        EventView::RecordRead(Some(current)),
        EventView::LatestResolved(Ok(target)),
    ];
    assert(e1.drop_last() =~= e0);
    assert(e2.drop_last() =~= e1);
    assert(e3.drop_last() =~= e2);
    assert(run_state(config, e0) == StateView::Start);
    assert(run_state(config, e1) == StateView::AwaitRecord);
    assert(run_actions(config, e0) =~= Seq::<ActionView>::empty());
    assert(run_actions(config, e1) =~= seq![ActionView::ReadRecord]);
    assert(run_state(config, e2) == StateView::AwaitLatest { current: Some(current) });
    assert(run_actions(config, e2) =~= seq![ActionView::ReadRecord, ActionView::FetchLatest]);
    assert(run_actions(config, e3) =~= seq![
        ActionView::ReadRecord,
        ActionView::FetchLatest,
        ActionView::Finish(
            OutcomeView::Settled {
                decision: DecisionView::DowngradeBlocked(current, target),
                executable: kept_executable(config, Some(current)),
            },
        ),
    ]);
}

/// A download that fails has the snapshot brought back, and the run then
/// ends with the failure of the download; where the restore fails too,
/// the outcome says so.
pub proof fn law_failed_download_is_restored(
    config: ConfigView,
    decision: DecisionView,
    artifact: DescriptorView,
    outcome: DownloadOutcome,
    restored: bool,
)
    requires
        outcome != DownloadOutcome::Placed,
    ensures
        step(
            config,
            StateView::AwaitDownload { decision, artifact },
            EventView::DownloadFinished(outcome),
        ).1 == ActionView::Restore,
        step(
            config,
            step(
                config,
                StateView::AwaitDownload { decision, artifact },
                EventView::DownloadFinished(outcome),
            ).0,
            EventView::RestoreFinished(restored),
        ) == (
            StateView::Done,
            ActionView::Finish(
                OutcomeView::Failed {
                    error: if outcome == DownloadOutcome::TransferFailed {
                        UpdateError::TransferFailed
                    } else {
                        UpdateError::PlacementFailed
                    },
                    restore_failed: !restored,
                },
            ),
        ),
{
}

} // verus!

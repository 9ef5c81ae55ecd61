//! The backup of an install directory: which of its entries a snapshot
//! copies, in which order, and how a snapshot is brought back.
//!
//! The directory is handed in as a listing; what comes out is the series of
//! steps that a caller carries out on disk.

use crate::artifact::is_artifact_file_name;
use crate::artifact::descriptor_for;
use crate::artifact::is_artifact_name;
use crate::artifact::law_placed_artifacts_have_artifact_names;
use crate::artifact::platform_key;
use crate::artifact::TargetView;
use crate::error::UpdateError;
use crate::text::same_text;
use crate::version::VersionView;
use vstd::prelude::*;

verus! {

/// What a directory entry is.
#[derive(Debug)]
pub enum EntryKind {
    /// A regular file.
    File,
    /// A directory, with its own entries.
    Directory(Vec<DirEntry>),
    /// Neither of the two.
    Other,
}

/// One entry of a directory listing.
#[derive(Debug)]
pub struct DirEntry {
    /// The entry's file name.
    pub name: String,
    /// The extension of the file name, if it has one.
    pub extension: Option<String>,
    pub kind: EntryKind,
}

/// A path below the directory that is copied: the file names from the top
/// down.
pub type Path = Seq<Seq<char>>;

/// The content of a step.
pub enum StepView {
    CreateDir(Path),
    CopyFile(Path),
}

/// One step of a copy, with its path relative to both roots.
#[derive(Debug)]
pub enum CopyStep {
    /// Create the directory, and those above it, under the destination.
    CreateDir(Vec<String>),
    /// Copy the file from under the source to under the destination.
    CopyFile(Vec<String>),
}

/// The path that a vector of file names stands for.
pub open spec fn path_of(names: Seq<String>) -> Path {
    Seq::new(names.len(), |i: int| names[i]@)
}

impl View for CopyStep {
    type V = StepView;

    open spec fn view(&self) -> StepView {
        match *self {
            CopyStep::CreateDir(p) => StepView::CreateDir(path_of(p@)),
            CopyStep::CopyFile(p) => StepView::CopyFile(path_of(p@)),
        }
    }
}

/// The contents of a vector of steps.
pub open spec fn steps_of(steps: Seq<CopyStep>) -> Seq<StepView> {
    Seq::new(steps.len(), |i: int| steps[i]@)
}

/// The name of the directory that holds the snapshot.
pub open spec fn backup_dir_name() -> Seq<char> {
    ".core_backup"@
}

/// The name of the directory that holds the snapshot, inside the install
/// directory.
pub fn backup_directory_name() -> (name: &'static str)
    ensures
        name@ == backup_dir_name(),
{
    ".core_backup"
}

/// An executable artifact: a regular file with the extension `exe`, or one
/// with the name of an artifact of a supported platform.
pub open spec fn is_exe(entry: DirEntry) -> bool {
    entry.kind is File && ((entry.extension is Some && entry.extension->0@ == "exe"@)
        || is_artifact_name(entry.name@))
}

/// A copy leaves out executable artifacts and the snapshot itself.
pub open spec fn is_skipped(entry: DirEntry) -> bool {
    is_exe(entry) || entry.name@ == backup_dir_name()
}

/// The file that a version's artifact is placed as on a supported platform
/// is left out of every copy.
pub proof fn law_placed_artifacts_are_left_out(
    entry: DirEntry,
    version: VersionView,
    target: TargetView,
)
    requires
        platform_key(target) is Some,
        entry.kind is File,
        entry.name@ == descriptor_for(version, target)->0.expected_filename,
    ensures
        is_exe(entry),
        is_skipped(entry),
{
    law_placed_artifacts_have_artifact_names(version, target);
}

/// The steps that copy one entry to `prefix`.
pub open spec fn entry_steps(entry: DirEntry, prefix: Path) -> Seq<StepView>
    decreases entry, 0nat,
{
    if is_skipped(entry) {
        Seq::<StepView>::empty()
    } else {
        match entry.kind {
            EntryKind::Directory(children) => dir_steps(children@, prefix.push(entry.name@)),
            _ => seq![StepView::CopyFile(prefix.push(entry.name@))],
        }
    }
}

/// The steps that copy the first `count` of `entries` to `prefix`, one
/// entry after the other.
pub open spec fn listing_steps(entries: Seq<DirEntry>, prefix: Path, count: nat) -> Seq<StepView>
    decreases entries, count,
{
    if count == 0 || count > entries.len() {
        Seq::<StepView>::empty()
    } else {
        listing_steps(entries, prefix, (count - 1) as nat) + entry_steps(
            entries[count - 1],
            prefix,
        )
    }
}

/// The steps that copy a directory to `prefix`: the directory is created,
/// then its entries are copied in the order of the listing.
pub open spec fn dir_steps(entries: Seq<DirEntry>, prefix: Path) -> Seq<StepView>
    decreases entries, entries.len() + 1,
{
    seq![StepView::CreateDir(prefix)] + listing_steps(entries, prefix, entries.len())
}

/// Whether the entry is an executable artifact.
pub fn is_exe_file(entry: &DirEntry) -> (r: bool)
    ensures
        r == is_exe(*entry),
{
    match entry.kind {
        EntryKind::File => {
            let by_extension = match &entry.extension {
                Some(x) => same_text(x.as_str(), "exe"),
                None => false,
            };
            by_extension || is_artifact_file_name(entry.name.as_str())
        },
        _ => false,
    }
}

fn extend_path(prefix: &Vec<String>, name: &String) -> (r: Vec<String>)
    ensures
        path_of(r@) == path_of(prefix@).push(name@),
{
    let mut r: Vec<String> = Vec::new();
    let mut i: usize = 0;
    while i < prefix.len()
        invariant
            i <= prefix.len(),
            r@.len() == i,
            forall|k: int| 0 <= k < i ==> r@[k]@ == prefix@[k]@,
        decreases prefix.len() - i,
    {
        r.push(prefix[i].clone());
        i += 1;
    }
    r.push(name.clone());
    assert(path_of(r@) =~= path_of(prefix@).push(name@));
    r
}

fn copy_entry_into(entry: &DirEntry, prefix: &Vec<String>, steps: &mut Vec<CopyStep>)
    ensures
        steps_of(final(steps)@) == steps_of(old(steps)@) + entry_steps(*entry, path_of(prefix@)),
    decreases entry, 0nat,
{
    if is_exe_file(entry) || same_text(entry.name.as_str(), backup_directory_name()) {
        assert(steps_of(steps@) =~= steps_of(old(steps)@) + Seq::<StepView>::empty());
        return ;
    }
    let path = extend_path(prefix, &entry.name);
    match &entry.kind {
        EntryKind::Directory(children) => {
            copy_dir_into(children, &path, steps);
        },
        _ => {
            steps.push(CopyStep::CopyFile(path));
            assert(steps_of(steps@) =~= steps_of(old(steps)@) + seq![
                StepView::CopyFile(path_of(prefix@).push(entry.name@)),
            ]);
        },
    }
}

fn copy_dir_into(entries: &Vec<DirEntry>, prefix: &Vec<String>, steps: &mut Vec<CopyStep>)
    ensures
        steps_of(final(steps)@) == steps_of(old(steps)@) + dir_steps(entries@, path_of(prefix@)),
    decreases entries@, entries@.len() + 1,
{
    let mut own: Vec<String> = Vec::new();
    let mut k: usize = 0;
    while k < prefix.len()
        invariant
            k <= prefix.len(),
            own@.len() == k,
            forall|j: int| 0 <= j < k ==> own@[j]@ == prefix@[j]@,
        decreases prefix.len() - k,
    {
        own.push(prefix[k].clone());
        k += 1;
    }
    assert(path_of(own@) =~= path_of(prefix@));
    steps.push(CopyStep::CreateDir(own));
    assert(steps_of(steps@) =~= steps_of(old(steps)@) + seq![
        StepView::CreateDir(path_of(prefix@)),
    ]);
    let mut i: usize = 0;
    while i < entries.len()
        invariant
            i <= entries.len(),
            steps_of(steps@) == steps_of(old(steps)@) + seq![StepView::CreateDir(path_of(prefix@))]
                + listing_steps(entries@, path_of(prefix@), i as nat),
        decreases entries.len() - i,
    {
        copy_entry_into(&entries[i], prefix, steps);
        assert(steps_of(steps@) =~= steps_of(old(steps)@) + seq![
            StepView::CreateDir(path_of(prefix@)),
        ] + listing_steps(entries@, path_of(prefix@), (i + 1) as nat));
        i += 1;
    }
    assert(steps_of(steps@) =~= steps_of(old(steps)@) + dir_steps(entries@, path_of(prefix@)));
}

/// The steps that copy the directory with the listing `source` onto a
/// destination: the destination is created first; then, entry by entry in
/// the order of the listing, a directory is copied in the same way under
/// its name and anything else is copied as a file. Executable artifacts
/// (regular files with the extension `exe` or with the name of an artifact
/// of a supported platform) and anything called `.core_backup` are left
/// out, at every depth.
pub fn copy_dir(source: &Vec<DirEntry>) -> (steps: Vec<CopyStep>)
    ensures
        steps_of(steps@) == dir_steps(source@, Seq::<Seq<char>>::empty()),
{
    let mut steps: Vec<CopyStep> = Vec::new();
    let root: Vec<String> = Vec::new();
    assert(path_of(root@) =~= Seq::<Seq<char>>::empty());
    copy_dir_into(source, &root, &mut steps);
    assert(steps_of(steps@) =~= dir_steps(source@, Seq::<Seq<char>>::empty()));
    steps
}

/// What bringing a snapshot back consists of.
#[derive(Debug)]
pub struct RestorePlan {
    /// The steps that copy the snapshot over the install directory.
    pub steps: Vec<CopyStep>,
    /// Whether the snapshot is deleted once the steps are done.
    pub remove_backup: bool,
}

impl RestorePlan {
    /// The plan does nothing at all.
    pub open spec fn is_noop(self) -> bool {
        self.steps@.len() == 0 && !self.remove_backup
    }
}

/// The plan that brings back the snapshot with the listing `backup`, or
/// does nothing where there is no snapshot.
pub open spec fn restore_plan(backup: Option<Seq<DirEntry>>, plan: RestorePlan) -> bool {
    match backup {
        Some(entries) => steps_of(plan.steps@) == dir_steps(entries, Seq::<Seq<char>>::empty())
            && plan.remove_backup,
        None => plan.is_noop(),
    }
}

/// Plans the restore from a snapshot: where the snapshot exists, its
/// content is copied over the install directory and the snapshot is then
/// deleted; where it does not, nothing is done, and that is no failure.
pub fn load_backup(backup: Option<&Vec<DirEntry>>) -> (plan: RestorePlan)
    ensures
        restore_plan(
            match backup {
                Some(entries) => Some(entries@),
                None => None,
            },
            plan,
        ),
{
    match backup {
        Some(entries) => RestorePlan { steps: copy_dir(entries), remove_backup: true },
        None => RestorePlan { steps: Vec::new(), remove_backup: false },
    }
}

/// Where the carrying out of a restore plan stands.
#[derive(Clone, Copy, Debug, PartialEq, Eq, Structural)]
pub enum RestoreState {
    /// The step with this index is being carried out.
    Copying { step: usize },
    /// The snapshot is being deleted.
    Removing,
    /// The restore is over.
    Done,
}

/// What the caller of a restore does next.
#[derive(Clone, Copy, Debug, PartialEq, Eq, Structural)]
pub enum RestoreAction {
    /// Carry out the step of the plan with this index.
    CarryOut(usize),
    /// Delete the snapshot.
    RemoveSnapshot,
    /// The restore is complete.
    Finished,
    /// The restore failed; whatever is left of the snapshot stays.
    Failed(UpdateError),
    /// The restore was over already.
    Unexpected,
}

/// What follows once the first `done` steps of a plan of `len` steps have
/// succeeded: the next step; after the last one the removal of the
/// snapshot, where the plan has one; else the end.
pub open spec fn restore_after(len: nat, remove: bool, done: nat) -> (RestoreState, RestoreAction) {
    if done < len {
        (RestoreState::Copying { step: done as usize }, RestoreAction::CarryOut(done as usize))
    } else if remove {
        (RestoreState::Removing, RestoreAction::RemoveSnapshot)
    } else {
        (RestoreState::Done, RestoreAction::Finished)
    }
}

/// The transition of a restore on the result of what was asked for last:
/// a success leads on, the first failure ends the restore with
/// `RestoreFailed`, and nothing more is asked for then.
pub open spec fn restore_step(len: nat, remove: bool, state: RestoreState, ok: bool) -> (
    RestoreState,
    RestoreAction,
) {
    match state {
        RestoreState::Copying { step } => if step >= len {
            (RestoreState::Done, RestoreAction::Unexpected)
        } else if ok {
            restore_after(len, remove, (step + 1) as nat)
        } else {
            (RestoreState::Done, RestoreAction::Failed(UpdateError::RestoreFailed))
        },
        RestoreState::Removing => if ok {
            (RestoreState::Done, RestoreAction::Finished)
        } else {
            (RestoreState::Done, RestoreAction::Failed(UpdateError::RestoreFailed))
        },
        RestoreState::Done => (RestoreState::Done, RestoreAction::Unexpected),
    }
}

fn restore_from(plan: &RestorePlan, done: usize) -> (r: (RestoreState, RestoreAction))
    ensures
        r == restore_after(plan.steps@.len(), plan.remove_backup, done as nat),
{
    if done < plan.steps.len() {
        (RestoreState::Copying { step: done }, RestoreAction::CarryOut(done))
    } else if plan.remove_backup {
        (RestoreState::Removing, RestoreAction::RemoveSnapshot)
    } else {
        (RestoreState::Done, RestoreAction::Finished)
    }
}

/// Begins the carrying out of a restore plan.
pub fn begin_restore(plan: &RestorePlan) -> (r: (RestoreState, RestoreAction))
    ensures
        r == restore_after(plan.steps@.len(), plan.remove_backup, 0),
{
    restore_from(plan, 0)
}

/// Goes on with a restore plan: `ok` tells whether what was asked for last
/// succeeded. The snapshot is deleted only after every step has succeeded;
/// a step that fails ends the restore at once.
pub fn continue_restore(plan: &RestorePlan, state: RestoreState, ok: bool) -> (r: (
    RestoreState,
    RestoreAction,
))
    ensures
        r == restore_step(plan.steps@.len(), plan.remove_backup, state, ok),
{
    match state {
        RestoreState::Copying { step } => {
            if step >= plan.steps.len() {
                (RestoreState::Done, RestoreAction::Unexpected)
            } else if ok {
                restore_from(plan, step + 1)
            } else {
                (RestoreState::Done, RestoreAction::Failed(UpdateError::RestoreFailed))
            }
        },
        RestoreState::Removing => {
            if ok {
                (RestoreState::Done, RestoreAction::Finished)
            } else {
                (RestoreState::Done, RestoreAction::Failed(UpdateError::RestoreFailed))
            }
        },
        RestoreState::Done => (RestoreState::Done, RestoreAction::Unexpected),
    }
}

/// The state of a restore after the results of what it asked for.
pub open spec fn restore_state(len: nat, remove: bool, results: Seq<bool>) -> RestoreState
    decreases results.len(),
{
    if results.len() == 0 {
        restore_after(len, remove, 0).0
    } else {
        restore_step(len, remove, restore_state(len, remove, results.drop_last()), results.last()).0
    }
}

/// What a restore asks for: first of all, and then after each result.
pub open spec fn restore_actions(len: nat, remove: bool, results: Seq<bool>) -> Seq<RestoreAction>
    decreases results.len(),
{
    if results.len() == 0 {
        seq![restore_after(len, remove, 0).1]
    } else {
        restore_actions(len, remove, results.drop_last()).push(
            restore_step(
                len,
                remove,
                restore_state(len, remove, results.drop_last()),
                results.last(),
            ).1,
        )
    }
}

/// The first `count` results are successes, and the first `count` actions
/// are the steps of the plan in their order.
pub open spec fn in_step(results: Seq<bool>, actions: Seq<RestoreAction>, count: int) -> bool {
    &&& 0 <= count <= results.len()
    &&& count <= actions.len()
    &&& forall|i: int| 0 <= i < count ==> #[trigger] results[i]
    &&& forall|i: int| 0 <= i < count ==> #[trigger] actions[i] == RestoreAction::CarryOut(i as usize)
}

spec fn restore_invariant(len: nat, remove: bool, results: Seq<bool>) -> bool {
    let state = restore_state(len, remove, results);
    let actions = restore_actions(len, remove, results);
    let n = results.len() as int;
    &&& len <= usize::MAX
    &&& actions.len() == n + 1
    &&& match state {
        RestoreState::Copying { step } => step == n && n < len && in_step(results, actions, n)
            && actions[n] == RestoreAction::CarryOut(n as usize),
        RestoreState::Removing => remove && n == len && in_step(results, actions, n) && actions[n]
            == RestoreAction::RemoveSnapshot,
        RestoreState::Done => {
            &&& forall|j: int|
                0 <= j <= n && #[trigger] actions[j] is RemoveSnapshot ==> remove && j == len
                    && in_step(results, actions, j)
            &&& forall|j: int|
                0 <= j <= n && #[trigger] actions[j] is Finished ==> j == len + (if remove {
                    1int
                } else {
                    0int
                }) && forall|i: int| 0 <= i < j ==> #[trigger] results[i]
        },
    }
}

proof fn lemma_restore_invariant(len: nat, remove: bool, results: Seq<bool>)
    requires
        len <= usize::MAX,
    ensures
        restore_invariant(len, remove, results),
    decreases results.len(),
{
    let state = restore_state(len, remove, results);
    let actions = restore_actions(len, remove, results);
    let n = results.len() as int;
    if n > 0 {
        let before = results.drop_last();
        lemma_restore_invariant(len, remove, before);
        let earlier = restore_actions(len, remove, before);
        let previous = restore_state(len, remove, before);
        assert(forall|i: int| 0 <= i < n ==> actions[i] == earlier[i]);
        assert(forall|i: int| 0 <= i < n - 1 ==> results[i] == before[i]);
        assert(results[n - 1] == results.last());
        match previous {
            RestoreState::Copying { step } => {
                assert(in_step(before, earlier, n - 1));
                if results.last() {
                    assert(in_step(results, actions, n));
                }
            },
            RestoreState::Removing => {
                assert(in_step(before, earlier, n - 1));
                assert(in_step(results, actions, n - 1));
                if results.last() {
                    assert forall|i: int| 0 <= i < n implies #[trigger] results[i] by {
                        if i < n - 1 {
                            assert(before[i]);
                        }
                    }
                }
            },
            RestoreState::Done => {
                assert forall|j: int|
                    0 <= j <= n && #[trigger] actions[j] is RemoveSnapshot implies remove && j
                        == len && in_step(results, actions, j) by {
                    assert(earlier[j] is RemoveSnapshot);
                    assert(in_step(before, earlier, j));
                }
                assert forall|j: int| 0 <= j <= n && #[trigger] actions[j] is Finished implies j
                    == len + (if remove {
                    1int
                } else {
                    0int
                }) && forall|i: int| 0 <= i < j ==> #[trigger] results[i] by {
                    assert(earlier[j] is Finished);
                    assert forall|i: int| 0 <= i < j implies #[trigger] results[i] by {
                        assert(before[i]);
                    }
                }
            },
        }
    }
}

/// Whatever the results, a restore asks for the removal of the snapshot
/// only after every step of the plan was asked for, in order, and
/// succeeded.
pub proof fn law_snapshot_is_removed_after_every_copy(plan: RestorePlan, results: Seq<bool>, at: int)
    requires
        0 <= at < restore_actions(plan.steps@.len(), plan.remove_backup, results).len(),
        restore_actions(plan.steps@.len(), plan.remove_backup, results)[at] is RemoveSnapshot,
    ensures
        plan.remove_backup,
        at == plan.steps@.len(),
        in_step(results, restore_actions(plan.steps@.len(), plan.remove_backup, results), at),
{
    assert(plan.steps@.len() == plan.steps.len());
    lemma_restore_invariant(plan.steps@.len(), plan.remove_backup, results);
}

/// Whatever the results, a restore is complete only after every step and
/// the removal of the snapshot, where the plan has one, have succeeded.
pub proof fn law_restore_is_complete_only_in_full(plan: RestorePlan, results: Seq<bool>, at: int)
    requires
        0 <= at < restore_actions(plan.steps@.len(), plan.remove_backup, results).len(),
        restore_actions(plan.steps@.len(), plan.remove_backup, results)[at] is Finished,
    ensures
        at == plan.steps@.len() + (if plan.remove_backup {
            1int
        } else {
            0int
        }),
        forall|i: int| 0 <= i < at ==> #[trigger] results[i],
{
    assert(plan.steps@.len() == plan.steps.len());
    lemma_restore_invariant(plan.steps@.len(), plan.remove_backup, results);
}

/// The position of the first entry called `.core_backup` among the first
/// `count` entries, if there is one.
pub open spec fn backup_position(entries: Seq<DirEntry>, count: nat) -> Option<int>
    decreases count,
{
    if count == 0 || count > entries.len() {
        None
    } else {
        match backup_position(entries, (count - 1) as nat) {
            Some(i) => Some(i),
            None => if entries[count - 1].name@ == backup_dir_name() {
                Some(count - 1)
            } else {
                None
            },
        }
    }
}

/// Plans the recovery of an install directory from the snapshot inside it.
/// With no entry `.core_backup` there is nothing to recover; with a
/// directory of that name its content is brought back; anything else of
/// that name cannot be restored from.
pub fn recover_backup(install_dir: &Vec<DirEntry>) -> (r: Result<RestorePlan, UpdateError>)
    ensures
        match backup_position(install_dir@, install_dir@.len()) {
            None => r is Ok && r->Ok_0.is_noop(),
            Some(i) => match install_dir@[i].kind {
                EntryKind::Directory(entries) => r is Ok && restore_plan(
                    Some(entries@),
                    r->Ok_0,
                ),
                _ => r == Err::<RestorePlan, UpdateError>(UpdateError::RestoreFailed),
            },
        },
{
    let mut i: usize = 0;
    while i < install_dir.len()
        invariant
            i <= install_dir.len(),
            backup_position(install_dir@, i as nat) is None,
        decreases install_dir.len() - i,
    {
        if same_text(install_dir[i].name.as_str(), backup_directory_name()) {
            assert(backup_position(install_dir@, (i + 1) as nat) == Some(i as int));
            proof {
                lemma_backup_position_stays(install_dir@, (i + 1) as nat, install_dir@.len());
            }
            return match &install_dir[i].kind {
                EntryKind::Directory(entries) => Ok(load_backup(Some(entries))),
                _ => Err(UpdateError::RestoreFailed),
            };
        }
        i += 1;
    }
    Ok(load_backup(None))
}

proof fn lemma_backup_position_stays(entries: Seq<DirEntry>, found: nat, count: nat)
    requires
        found <= count <= entries.len(),
        backup_position(entries, found) is Some,
    ensures
        backup_position(entries, count) == backup_position(entries, found),
    decreases count,
{
    if count > found {
        lemma_backup_position_stays(entries, found, (count - 1) as nat);
    }
}

/// The entry at `i` of the listing is called `name`.
pub open spec fn is_named(entries: Seq<DirEntry>, i: int, name: Seq<char>) -> bool {
    entries[i].name@ == name
}

/// A copy of the directory with this listing copies a file to `path`:
/// the listing has an entry called as the path begins, the entry is not
/// left out, and either the path ends there and the entry is no
/// directory, or the entry is a directory and the copy of its listing
/// copies a file to the rest of the path.
pub open spec fn copies_file(entries: Seq<DirEntry>, path: Path) -> bool
    decreases path.len(),
{
    path.len() > 0 && exists|i: int|
        0 <= i < entries.len() && #[trigger] is_named(entries, i, path[0]) && !is_skipped(
            entries[i],
        ) && (if path.len() == 1 {
            !(entries[i].kind is Directory)
        } else {
            entries[i].kind is Directory && copies_file(
                entries[i].kind->Directory_0@,
                path.drop_first(),
            )
        })
}

/// The copy of one entry copies a file to `path`, taken from the directory
/// that holds the entry.
pub open spec fn entry_copies(entry: DirEntry, path: Path) -> bool {
    &&& path.len() > 0
    &&& path[0] == entry.name@
    &&& !is_skipped(entry)
    &&& if path.len() == 1 {
        !(entry.kind is Directory)
    } else {
        entry.kind is Directory && copies_file(entry.kind->Directory_0@, path.drop_first())
    }
}

proof fn lemma_copies_by_entry(entries: Seq<DirEntry>, path: Path)
    ensures
        copies_file(entries, path) <==> (exists|i: int|
            0 <= i < entries.len() && #[trigger] entry_copies(entries[i], path)),
{
    if copies_file(entries, path) {
        let i = choose|i: int|
            0 <= i < entries.len() && #[trigger] is_named(entries, i, path[0]) && !is_skipped(
                entries[i],
            ) && (if path.len() == 1 {
                !(entries[i].kind is Directory)
            } else {
                entries[i].kind is Directory && copies_file(
                    entries[i].kind->Directory_0@,
                    path.drop_first(),
                )
            });
        assert(entry_copies(entries[i], path));
    }
    if exists|i: int| 0 <= i < entries.len() && #[trigger] entry_copies(entries[i], path) {
        let i = choose|i: int| 0 <= i < entries.len() && #[trigger] entry_copies(entries[i], path);
        assert(is_named(entries, i, path[0]));
    }
}

/// The path that a step works on.
pub open spec fn step_path(step: StepView) -> Path {
    match step {
        StepView::CreateDir(p) => p,
        StepView::CopyFile(p) => p,
    }
}

/// `path` lies at or below `prefix`.
pub open spec fn extends(path: Path, prefix: Path) -> bool {
    prefix.len() <= path.len() && path.subrange(0, prefix.len() as int) == prefix
}

proof fn lemma_extends_pushed(path: Path, prefix: Path, name: Seq<char>)
    requires
        extends(path, prefix.push(name)),
    ensures
        extends(path, prefix),
        path.len() > prefix.len(),
        path[prefix.len() as int] == name,
{
    let longer = prefix.push(name);
    assert(path.subrange(0, longer.len() as int)[prefix.len() as int] == longer[prefix.len() as int]);
    assert(path.subrange(0, prefix.len() as int) =~= prefix) by {
        assert forall|k: int| 0 <= k < prefix.len() implies path[k] == prefix[k] by {
            assert(path.subrange(0, longer.len() as int)[k] == longer[k]);
        }
    }
}

proof fn lemma_entry_paths(entry: DirEntry, prefix: Path, k: int)
    requires
        0 <= k < entry_steps(entry, prefix).len(),
    ensures
        extends(step_path(entry_steps(entry, prefix)[k]), prefix),
        step_path(entry_steps(entry, prefix)[k]).len() > prefix.len(),
    decreases entry, 0nat,
{
    let inner = prefix.push(entry.name@);
    match entry.kind {
        EntryKind::Directory(children) => {
            lemma_dir_paths(children@, inner, k);
            lemma_extends_pushed(step_path(entry_steps(entry, prefix)[k]), prefix, entry.name@);
        },
        _ => {
            assert(inner.subrange(0, prefix.len() as int) =~= prefix);
        },
    }
}

proof fn lemma_listing_paths(entries: Seq<DirEntry>, prefix: Path, count: nat, k: int)
    requires
        0 <= k < listing_steps(entries, prefix, count).len(),
    ensures
        extends(step_path(listing_steps(entries, prefix, count)[k]), prefix),
        step_path(listing_steps(entries, prefix, count)[k]).len() > prefix.len(),
    decreases entries, count,
{
    if count == 0 || count > entries.len() {
    } else {
        let earlier = listing_steps(entries, prefix, (count - 1) as nat);
        if k < earlier.len() {
            lemma_listing_paths(entries, prefix, (count - 1) as nat, k);
        } else {
            lemma_entry_paths(entries[count - 1], prefix, k - earlier.len());
        }
    }
}

proof fn lemma_dir_paths(entries: Seq<DirEntry>, prefix: Path, k: int)
    requires
        0 <= k < dir_steps(entries, prefix).len(),
    ensures
        extends(step_path(dir_steps(entries, prefix)[k]), prefix),
        dir_steps(entries, prefix)[k] is CopyFile ==> step_path(dir_steps(entries, prefix)[k]).len()
            > prefix.len(),
    decreases entries, entries.len() + 1,
{
    if k == 0 {
        assert(prefix.subrange(0, prefix.len() as int) =~= prefix);
    } else {
        lemma_listing_paths(entries, prefix, entries.len(), k - 1);
    }
}

proof fn lemma_entry_copies(entry: DirEntry, prefix: Path, path: Path)
    ensures
        entry_steps(entry, prefix).contains(StepView::CopyFile(prefix + path)) <==> entry_copies(
            entry,
            path,
        ),
    decreases entry, 0nat,
{
    let steps = entry_steps(entry, prefix);
    let wanted = StepView::CopyFile(prefix + path);
    let inner = prefix.push(entry.name@);
    if is_skipped(entry) {
    } else {
        match entry.kind {
            EntryKind::Directory(children) => {
                if steps.contains(wanted) {
                    let k = choose|k: int| 0 <= k < steps.len() && steps[k] == wanted;
                    lemma_dir_paths(children@, inner, k);
                    lemma_extends_pushed(prefix + path, prefix, entry.name@);
                    assert(path[0] == (prefix + path)[prefix.len() as int]);
                    assert(path.len() > 1);
                    assert(inner + path.drop_first() =~= prefix + path);
                    lemma_dir_copies(children@, inner, path.drop_first());
                }
                if entry_copies(entry, path) {
                    assert(inner + path.drop_first() =~= prefix + path);
                    lemma_dir_copies(children@, inner, path.drop_first());
                }
            },
            _ => {
                if steps.contains(wanted) {
                    assert(steps[0] == wanted);
                    assert(inner == prefix + path);
                    assert(path.len() == 1) by {
                        assert(inner.len() == (prefix + path).len());
                    }
                    assert(path[0] == (prefix + path)[prefix.len() as int]);
                }
                if entry_copies(entry, path) {
                    assert(inner =~= prefix + path);
                    assert(steps[0] == wanted);
                }
            },
        }
    }
}

proof fn lemma_listing_copies(entries: Seq<DirEntry>, prefix: Path, count: nat, path: Path)
    requires
        count <= entries.len(),
    ensures
        listing_steps(entries, prefix, count).contains(StepView::CopyFile(prefix + path)) <==> (
        exists|i: int| 0 <= i < count && #[trigger] entry_copies(entries[i], path)),
    decreases entries, count,
{
    let wanted = StepView::CopyFile(prefix + path);
    if count == 0 {
    } else {
        let earlier = listing_steps(entries, prefix, (count - 1) as nat);
        let last = entry_steps(entries[count - 1], prefix);
        let all = listing_steps(entries, prefix, count);
        assert(all == earlier + last);
        lemma_listing_copies(entries, prefix, (count - 1) as nat, path);
        lemma_entry_copies(entries[count - 1], prefix, path);
        if all.contains(wanted) {
            let k = choose|k: int| 0 <= k < all.len() && all[k] == wanted;
            if k < earlier.len() {
                assert(earlier[k] == wanted);
                let i = choose|i: int| 0 <= i < count - 1 && #[trigger] entry_copies(entries[i], path);
                assert(0 <= i < count && entry_copies(entries[i], path));
            } else {
                assert(last[k - earlier.len()] == wanted);
                assert(entry_copies(entries[count - 1], path));
            }
        }
        if exists|i: int| 0 <= i < count && #[trigger] entry_copies(entries[i], path) {
            let i = choose|i: int| 0 <= i < count && #[trigger] entry_copies(entries[i], path);
            if i < count - 1 {
                assert(earlier.contains(wanted));
                let k = choose|k: int| 0 <= k < earlier.len() && earlier[k] == wanted;
                assert(all[k] == wanted);
            } else {
                assert(last.contains(wanted));
                let k = choose|k: int| 0 <= k < last.len() && last[k] == wanted;
                assert(all[earlier.len() + k] == wanted);
            }
        }
    }
}

proof fn lemma_dir_copies(entries: Seq<DirEntry>, prefix: Path, path: Path)
    ensures
        dir_steps(entries, prefix).contains(StepView::CopyFile(prefix + path)) <==> copies_file(
            entries,
            path,
        ),
    decreases entries, entries.len() + 1,
{
    let wanted = StepView::CopyFile(prefix + path);
    let listing = listing_steps(entries, prefix, entries.len());
    let all = dir_steps(entries, prefix);
    lemma_listing_copies(entries, prefix, entries.len(), path);
    if all.contains(wanted) {
        let k = choose|k: int| 0 <= k < all.len() && all[k] == wanted;
        assert(k > 0);
        assert(listing[k - 1] == wanted);
        lemma_listing_paths(entries, prefix, entries.len(), k - 1);
        assert(path.len() > 0);
    }
    lemma_copies_by_entry(entries, path);
    if copies_file(entries, path) {
        assert(listing.contains(wanted));
        let k = choose|k: int| 0 <= k < listing.len() && listing[k] == wanted;
        assert(all[k + 1] == wanted);
    }
}

/// The steps of a copy name exactly the files that `copies_file` tells:
/// nothing called `.core_backup` and no executable artifact is among them,
/// nor anything below a directory that is left out, and everything else
/// is.
pub proof fn law_steps_copy_the_kept_files(entries: Seq<DirEntry>, path: Path)
    ensures
        dir_steps(entries, Seq::<Seq<char>>::empty()).contains(StepView::CopyFile(path))
            <==> copies_file(entries, path),
{
    let root = Seq::<Seq<char>>::empty();
    assert(root + path =~= path);
    lemma_dir_copies(entries, root, path);
}

/// What a directory holds once the steps are carried out: `source` and
/// `destination` map the path of each file to what the file holds. A file
/// that is copied replaces what stood at its path; nothing else changes.
pub open spec fn copied<T>(
    steps: Seq<StepView>,
    source: Map<Path, T>,
    destination: Map<Path, T>,
) -> Map<Path, T>
    decreases steps.len(),
{
    if steps.len() == 0 {
        destination
    } else {
        let done = copied(steps.drop_last(), source, destination);
        match steps.last() {
            StepView::CopyFile(p) => if source.dom().contains(p) {
                done.insert(p, source[p])
            } else {
                done
            },
            StepView::CreateDir(_) => done,
        }
    }
}

proof fn lemma_copied<T>(
    steps: Seq<StepView>,
    source: Map<Path, T>,
    destination: Map<Path, T>,
    path: Path,
)
    ensures
        copied(steps, source, destination).dom().contains(path) <==> destination.dom().contains(
            path,
        ) || (steps.contains(StepView::CopyFile(path)) && source.dom().contains(path)),
        steps.contains(StepView::CopyFile(path)) && source.dom().contains(path) ==> copied(
            steps,
            source,
            destination,
        )[path] == source[path],
        !(steps.contains(StepView::CopyFile(path)) && source.dom().contains(path)) ==> copied(
            steps,
            source,
            destination,
        )[path] == destination[path],
    decreases steps.len(),
{
    let wanted = StepView::CopyFile(path);
    if steps.len() > 0 {
        let earlier = steps.drop_last();
        lemma_copied(earlier, source, destination, path);
        if earlier.contains(wanted) {
            let k = choose|k: int| 0 <= k < earlier.len() && earlier[k] == wanted;
            assert(steps[k] == wanted);
        }
        if steps.contains(wanted) {
            let k = choose|k: int| 0 <= k < steps.len() && steps[k] == wanted;
            if k < earlier.len() {
                assert(earlier[k] == wanted);
            } else {
                assert(steps.last() == wanted);
            }
        }
        if steps.last() == wanted {
            assert(steps[steps.len() - 1] == wanted);
        }
    }
}

/// A snapshot holds the files that the copy keeps, each as it stands in
/// the install directory, and nothing else: no executable artifact and
/// nothing of an earlier snapshot.
pub proof fn law_snapshot_holds_the_kept_files<T>(
    listing: Seq<DirEntry>,
    directory: Map<Path, T>,
    path: Path,
)
    requires
        forall|p: Path| copies_file(listing, p) ==> directory.dom().contains(p),
    ensures
        copied(
            dir_steps(listing, Seq::<Seq<char>>::empty()),
            directory,
            Map::<Path, T>::empty(),
        ).dom().contains(path) <==> copies_file(listing, path),
        copies_file(listing, path) ==> copied(
            dir_steps(listing, Seq::<Seq<char>>::empty()),
            directory,
            Map::<Path, T>::empty(),
        )[path] == directory[path],
{
    let steps = dir_steps(listing, Seq::<Seq<char>>::empty());
    law_steps_copy_the_kept_files(listing, path);
    lemma_copied(steps, directory, Map::<Path, T>::empty(), path);
}

/// Snapshot, then restore at once: the install directory is left as it
/// was, file by file, whatever listing the restore is planned from.
pub proof fn law_snapshot_then_restore_round_trip<T>(
    listing: Seq<DirEntry>,
    backup_listing: Seq<DirEntry>,
    directory: Map<Path, T>,
)
    requires
        forall|p: Path| copies_file(listing, p) ==> directory.dom().contains(p),
    ensures
        copied(
            dir_steps(backup_listing, Seq::<Seq<char>>::empty()),
            copied(
                dir_steps(listing, Seq::<Seq<char>>::empty()),
                directory,
                Map::<Path, T>::empty(),
            ),
            directory,
        ) == directory,
{
    let root = Seq::<Seq<char>>::empty();
    let snapshot = copied(dir_steps(listing, root), directory, Map::<Path, T>::empty());
    let restored = copied(dir_steps(backup_listing, root), snapshot, directory);
    assert forall|p: Path| #[trigger]
        restored.dom().contains(p) == directory.dom().contains(p) by {
        law_snapshot_holds_the_kept_files(listing, directory, p);
        lemma_copied(dir_steps(backup_listing, root), snapshot, directory, p);
    }
    assert forall|p: Path| restored.dom().contains(p) implies #[trigger] restored[p]
        == directory[p] by {
        law_snapshot_holds_the_kept_files(listing, directory, p);
        lemma_copied(dir_steps(backup_listing, root), snapshot, directory, p);
    }
    assert(restored =~= directory);
}

/// Snapshot, then anything at all happens to the install directory, then
/// restore from a listing that shows every file of the snapshot: each file
/// that the snapshot kept stands in the install directory again as it
/// stood when the snapshot was taken.
pub proof fn law_restore_brings_the_kept_files_back<T>(
    listing: Seq<DirEntry>,
    backup_listing: Seq<DirEntry>,
    directory: Map<Path, T>,
    damaged: Map<Path, T>,
    path: Path,
)
    requires
        forall|p: Path| copies_file(listing, p) ==> directory.dom().contains(p),
        forall|p: Path| copies_file(listing, p) ==> copies_file(backup_listing, p),
        copies_file(listing, path),
    ensures
        copied(
            dir_steps(backup_listing, Seq::<Seq<char>>::empty()),
            copied(
                dir_steps(listing, Seq::<Seq<char>>::empty()),
                directory,
                Map::<Path, T>::empty(),
            ),
            damaged,
        ).dom().contains(path),
        copied(
            dir_steps(backup_listing, Seq::<Seq<char>>::empty()),
            copied(
                dir_steps(listing, Seq::<Seq<char>>::empty()),
                directory,
                Map::<Path, T>::empty(),
            ),
            damaged,
        )[path] == directory[path],
{
    let root = Seq::<Seq<char>>::empty();
    let snapshot = copied(dir_steps(listing, root), directory, Map::<Path, T>::empty());
    law_snapshot_holds_the_kept_files(listing, directory, path);
    law_steps_copy_the_kept_files(backup_listing, path);
    lemma_copied(dir_steps(backup_listing, root), snapshot, damaged, path);
}

/// Restoring where no snapshot exists is planned as nothing at all:
/// carried out, the plan leaves the install directory as it is and
/// deletes nothing.
pub proof fn law_restore_without_snapshot_changes_nothing<T>(
    plan: RestorePlan,
    anything: Map<Path, T>,
    directory: Map<Path, T>,
)
    requires
        restore_plan(None, plan),
    ensures
        copied(steps_of(plan.steps@), anything, directory) == directory,
        !plan.remove_backup,
{
}

} // verus!

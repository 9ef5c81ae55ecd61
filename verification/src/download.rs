//! The fetch-and-place protocol of the downloader as a state machine. The
//! caller does the I/O; the machine fixes the order of the steps, reads the
//! response status, keeps the count of bytes and names the failure.
//!
//! The artifact is streamed into a temporary file in a scratch directory
//! and moved onto its destination by one rename at the very end: nothing
//! else in the protocol touches the destination.

use vstd::prelude::*;

verus! {

/// How a download ended.
#[derive(Clone, Copy, Debug, PartialEq, Eq, Structural)]
pub enum DownloadOutcome {
    /// The artifact stands at its destination.
    Placed,
    /// The transfer failed; the destination was not touched.
    TransferFailed,
    /// The transfer succeeded, the move onto the destination did not.
    PlacementFailed,
}

/// Bytes written so far, and the size that the response announced (zero
/// where it announced none).
#[derive(Clone, Copy, Debug, PartialEq, Eq, Structural)]
pub struct Progress {
    pub received: u64,
    pub total: u64,
}

/// Where a download stands.
#[derive(Clone, Copy, Debug, PartialEq, Eq, Structural)]
pub enum TransferState {
    Start,
    /// The scratch directory is being created.
    AwaitScratch,
    /// The temporary file is being created.
    AwaitTempFile,
    /// The request is under way.
    AwaitResponse,
    /// The directory of the destination is being created.
    AwaitDestination { total: u64 },
    /// The body is being written to the temporary file.
    Streaming(Progress),
    /// The temporary file is being moved onto the destination.
    AwaitRename,
    Done,
}

/// What happened.
#[derive(Clone, Copy, Debug, PartialEq, Eq, Structural)]
pub enum TransferEvent {
    Started,
    /// The scratch directory exists now (`true`) or could not be created.
    ScratchCreated(bool),
    /// The temporary file was created (`true`) or could not be.
    TempFileCreated(bool),
    /// The response arrived, with its status and the length it announces.
    Responded { status: u16, content_length: Option<u64> },
    /// No response arrived.
    RequestFailed,
    /// The directory of the destination exists now (`true`) or could not
    /// be created.
    DestinationPrepared(bool),
    /// A chunk of this many bytes was read and written.
    ChunkWritten(u64),
    /// A chunk could not be read or could not be written.
    ChunkFailed,
    /// The body ended.
    StreamEnded,
    /// The rename succeeded (`true`) or failed.
    Renamed(bool),
}

/// What the caller does next.
#[derive(Clone, Copy, Debug, PartialEq, Eq, Structural)]
pub enum TransferAction {
    /// Create the scratch directory if it is absent.
    CreateScratch,
    /// Create a fresh temporary file in the scratch directory.
    CreateTempFile,
    /// Send the request.
    SendRequest,
    /// Create the directory that the destination lies in, if it is absent.
    PrepareDestination,
    /// Show the progress, then read the next chunk and append it to the
    /// temporary file.
    NextChunk(Progress),
    /// Rename the temporary file onto the destination.
    Rename,
    /// The download is over.
    Finish(DownloadOutcome),
    /// The event does not belong to the state; the state is unchanged.
    Unexpected,
}

/// A status from 200 to 299.
pub open spec fn is_success_status(status: u16) -> bool {
    200 <= status && status < 300
}

/// The count of bytes after one more chunk; it stops at the largest value
/// that fits.
pub open spec fn advanced(progress: Progress, chunk: u64) -> Progress {
    Progress {
        received: if progress.received + chunk > u64::MAX {
            u64::MAX
        } else {
            (progress.received + chunk) as u64
        },
        total: progress.total,
    }
}

/// The download ends with a failed transfer.
pub open spec fn transfer_failed() -> (TransferState, TransferAction) {
    (TransferState::Done, TransferAction::Finish(DownloadOutcome::TransferFailed))
}

/// The transition of a download.
///
/// The steps follow one another in a fixed order: scratch directory,
/// temporary file, request, directory of the destination, the chunks of
/// the body, the rename. A step that fails before the rename, or a
/// response whose status is not a success, ends the download with
/// `TransferFailed`; a failed rename ends it with `PlacementFailed`.
pub open spec fn transfer_step(state: TransferState, event: TransferEvent) -> (
    TransferState,
    TransferAction,
) {
    match (state, event) {
        (TransferState::Start, TransferEvent::Started) => (
            TransferState::AwaitScratch,
            TransferAction::CreateScratch,
        ),
        (TransferState::AwaitScratch, TransferEvent::ScratchCreated(ok)) => if ok {
            (TransferState::AwaitTempFile, TransferAction::CreateTempFile)
        } else {
            transfer_failed()
        },
        (TransferState::AwaitTempFile, TransferEvent::TempFileCreated(ok)) => if ok {
            (TransferState::AwaitResponse, TransferAction::SendRequest)
        } else {
            transfer_failed()
        },
        (TransferState::AwaitResponse, TransferEvent::Responded { status, content_length }) => {
            if is_success_status(status) {
                (
                    TransferState::AwaitDestination {
                        total: match content_length {
                            Some(n) => n,
                            None => 0,
                        },
                    },
                    TransferAction::PrepareDestination,
                )
            } else {
                transfer_failed()
            }
        },
        (TransferState::AwaitResponse, TransferEvent::RequestFailed) => transfer_failed(),
        (TransferState::AwaitDestination { total }, TransferEvent::DestinationPrepared(ok)) => {
            if ok {
                (
                    TransferState::Streaming(Progress { received: 0, total }),
                    TransferAction::NextChunk(Progress { received: 0, total }),
                )
            } else {
                transfer_failed()
            }
        },
        (TransferState::Streaming(progress), TransferEvent::ChunkWritten(len)) => (
            TransferState::Streaming(advanced(progress, len)),
            TransferAction::NextChunk(advanced(progress, len)),
        ),
        (TransferState::Streaming(_), TransferEvent::ChunkFailed) => transfer_failed(),
        (TransferState::Streaming(_), TransferEvent::StreamEnded) => (
            TransferState::AwaitRename,
            TransferAction::Rename,
        ),
        (TransferState::AwaitRename, TransferEvent::Renamed(ok)) => (
            TransferState::Done,
            TransferAction::Finish(
                if ok {
                    DownloadOutcome::Placed
                } else {
                    DownloadOutcome::PlacementFailed
                },
            ),
        ),
        _ => (state, TransferAction::Unexpected),
    }
}

fn failed_transfer() -> (r: (TransferState, TransferAction))
    ensures
        r == transfer_failed(),
{
    (TransferState::Done, TransferAction::Finish(DownloadOutcome::TransferFailed))
}

/// Advances a download by one event.
pub fn download_file(state: TransferState, event: TransferEvent) -> (r: (
    TransferState,
    TransferAction,
))
    ensures
        r == transfer_step(state, event),
{
    match state {
        TransferState::Start => match event {
            TransferEvent::Started => (TransferState::AwaitScratch, TransferAction::CreateScratch),
            _ => (state, TransferAction::Unexpected),
        },
        TransferState::AwaitScratch => match event {
            TransferEvent::ScratchCreated(true) => (
                TransferState::AwaitTempFile,
                TransferAction::CreateTempFile,
            ),
            TransferEvent::ScratchCreated(false) => failed_transfer(),
            _ => (state, TransferAction::Unexpected),
        },
        TransferState::AwaitTempFile => match event {
            TransferEvent::TempFileCreated(true) => (
                TransferState::AwaitResponse,
                TransferAction::SendRequest,
            ),
            TransferEvent::TempFileCreated(false) => failed_transfer(),
            _ => (state, TransferAction::Unexpected),
        },
        TransferState::AwaitResponse => match event {
            TransferEvent::Responded { status, content_length } => {
                if 200 <= status && status < 300 {
                    let total: u64 = match content_length {
                        Some(n) => n,
                        None => 0,
                    };
                    (
                        TransferState::AwaitDestination { total },
                        TransferAction::PrepareDestination,
                    )
                } else {
                    failed_transfer()
                }
            },
            TransferEvent::RequestFailed => failed_transfer(),
            _ => (state, TransferAction::Unexpected),
        },
        TransferState::AwaitDestination { total } => match event {
            TransferEvent::DestinationPrepared(true) => {
                let progress = Progress { received: 0, total };
                (TransferState::Streaming(progress), TransferAction::NextChunk(progress))
            },
            TransferEvent::DestinationPrepared(false) => failed_transfer(),
            _ => (state, TransferAction::Unexpected),
        },
        TransferState::Streaming(progress) => match event {
            TransferEvent::ChunkWritten(len) => {
                let received: u64 = if len > u64::MAX - progress.received {
                    u64::MAX
                } else {
                    progress.received + len
                };
                let next = Progress { received, total: progress.total };
                (TransferState::Streaming(next), TransferAction::NextChunk(next))
            },
            TransferEvent::ChunkFailed => failed_transfer(),
            TransferEvent::StreamEnded => (TransferState::AwaitRename, TransferAction::Rename),
            _ => (state, TransferAction::Unexpected),
        },
        TransferState::AwaitRename => match event {
            TransferEvent::Renamed(true) => (
                TransferState::Done,
                TransferAction::Finish(DownloadOutcome::Placed),
            ),
            TransferEvent::Renamed(false) => (
                TransferState::Done,
                TransferAction::Finish(DownloadOutcome::PlacementFailed),
            ),
            _ => (state, TransferAction::Unexpected),
        },
        TransferState::Done => (state, TransferAction::Unexpected),
    }
}

/// The state of a download after a series of events, from `Start`.
pub open spec fn transfer_state(events: Seq<TransferEvent>) -> TransferState
    decreases events.len(),
{
    if events.len() == 0 {
        TransferState::Start
    } else {
        transfer_step(transfer_state(events.drop_last()), events.last()).0
    }
}

/// The actions asked for during a series of events, one for each event.
pub open spec fn transfer_actions(events: Seq<TransferEvent>) -> Seq<TransferAction>
    decreases events.len(),
{
    if events.len() == 0 {
        Seq::<TransferAction>::empty()
    } else {
        transfer_actions(events.drop_last()).push(
            transfer_step(transfer_state(events.drop_last()), events.last()).1,
        )
    }
}

/// What stands at the destination after the caller has carried out a
/// series of actions, where `previous` stood there before and `fetched` is
/// what the temporary file holds: only a rename puts anything there.
pub open spec fn destination_after<T>(actions: Seq<TransferAction>, previous: T, fetched: T) -> T
    decreases actions.len(),
{
    if actions.len() == 0 {
        previous
    } else if actions.last() is Rename {
        fetched
    } else {
        destination_after(actions.drop_last(), previous, fetched)
    }
}

/// The body of a response with a success status was written to its end.
pub open spec fn body_complete(events: Seq<TransferEvent>) -> bool {
    exists|i: int, j: int|
        0 <= i < j < events.len() && (#[trigger] events[i] matches TransferEvent::Responded {
            status,
            ..
        } && is_success_status(status)) && #[trigger] events[j] is StreamEnded
}

spec fn transfer_invariant(events: Seq<TransferEvent>) -> bool {
    let state = transfer_state(events);
    let actions = transfer_actions(events);
    &&& actions.len() == events.len()
    &&& (state is AwaitDestination || state is Streaming) ==> exists|i: int|
        0 <= i < events.len() && (#[trigger] events[i] matches TransferEvent::Responded {
            status,
            ..
        } && is_success_status(status))
    &&& !(state is AwaitRename || state is Done) ==> forall|k: int|
        0 <= k < actions.len() ==> !(#[trigger] actions[k] is Rename)
    &&& (exists|k: int| 0 <= k < actions.len() && #[trigger] actions[k] is Rename) ==> body_complete(
        events,
    )
}

proof fn lemma_transfer_invariant(events: Seq<TransferEvent>)
    ensures
        transfer_invariant(events),
    decreases events.len(),
{
    if events.len() > 0 {
        let before = events.drop_last();
        lemma_transfer_invariant(before);
        let state = transfer_state(before);
        let actions = transfer_actions(before);
        let next = transfer_state(events);
        let after = transfer_actions(events);
        assert(forall|k: int| 0 <= k < before.len() ==> events[k] == before[k]);
        assert(forall|k: int| 0 <= k < actions.len() ==> after[k] == actions[k]);
        if next is AwaitDestination || next is Streaming {
            if state is AwaitDestination || state is Streaming {
                let i = choose|i: int|
                    0 <= i < before.len() && (#[trigger] before[i] matches TransferEvent::Responded {
                        status,
                        ..
                    } && is_success_status(status));
                assert(events[i] == before[i]);
            } else {
                assert(events[events.len() - 1] == events.last());
            }
        }
        if exists|k: int| 0 <= k < after.len() && #[trigger] after[k] is Rename {
            let k = choose|k: int| 0 <= k < after.len() && #[trigger] after[k] is Rename;
            if k < actions.len() {
                assert(actions[k] is Rename);
                let (i, j) = choose|i: int, j: int|
                    0 <= i < j < before.len() && (#[trigger] before[i] matches TransferEvent::Responded {
                        status,
                        ..
                    } && is_success_status(status)) && #[trigger] before[j] is StreamEnded;
                assert(events[i] == before[i] && events[j] == before[j]);
            } else {
                assert(state is Streaming);
                let i = choose|i: int|
                    0 <= i < before.len() && (#[trigger] before[i] matches TransferEvent::Responded {
                        status,
                        ..
                    } && is_success_status(status));
                let j = events.len() - 1;
                assert(events[i] == before[i]);
                assert(events[j] is StreamEnded);
            }
        }
    }
}

/// Whatever the events, the one action that touches the destination, the
/// rename, is asked for only after the body of a response with a success
/// status was written to its end.
pub proof fn law_only_complete_transfers_are_placed(events: Seq<TransferEvent>, at: int)
    requires
        0 <= at < transfer_actions(events).len(),
        transfer_actions(events)[at] is Rename,
    ensures
        body_complete(events),
{
    lemma_transfer_invariant(events);
}

/// As long as a download has not come to its rename, whatever stood at the
/// destination still stands there: an interruption leaves the previous
/// artifact, or none, never a part of the new one.
pub proof fn law_destination_untouched_before_rename<T>(
    events: Seq<TransferEvent>,
    previous: T,
    fetched: T,
)
    requires
        !(transfer_state(events) is AwaitRename),
        !(transfer_state(events) is Done),
    ensures
        destination_after(transfer_actions(events), previous, fetched) == previous,
{
    lemma_transfer_invariant(events);
    lemma_no_rename_no_change(transfer_actions(events), previous, fetched);
}

proof fn lemma_no_rename_no_change<T>(actions: Seq<TransferAction>, previous: T, fetched: T)
    requires
        forall|k: int| 0 <= k < actions.len() ==> !(#[trigger] actions[k] is Rename),
    ensures
        destination_after(actions, previous, fetched) == previous,
    decreases actions.len(),
{
    if actions.len() > 0 {
        assert(!(actions[actions.len() - 1] is Rename));
        lemma_no_rename_no_change(actions.drop_last(), previous, fetched);
    }
}

/// A download that fails in its transfer has left the destination as it
/// was.
pub proof fn law_failed_transfer_leaves_destination<T>(
    events: Seq<TransferEvent>,
    previous: T,
    fetched: T,
)
    requires
        events.len() > 0,
        transfer_actions(events).last() == TransferAction::Finish(DownloadOutcome::TransferFailed),
    ensures
        destination_after(transfer_actions(events), previous, fetched) == previous,
{
    let before = events.drop_last();
    let state = transfer_state(before);
    assert(!(state is AwaitRename) && !(state is Done));
    law_destination_untouched_before_rename(before, previous, fetched);
    assert(transfer_actions(events).drop_last() =~= transfer_actions(before));
}

} // verus!

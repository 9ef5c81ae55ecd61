//! Supervision of the launched executable as a state machine. The caller
//! spawns, waits and kills; the machine says when, and keeps the account.
//!
//! The waiting thread and the interrupt handler share one state behind a
//! lock and each hand their events to `run_lodestone` while holding it.

use crate::error::UpdateError;
use vstd::prelude::*;

verus! {

/// The permission bits given to the executable before it is started: read,
/// write and execute for the owner.
pub const EXECUTABLE_MODE: u32 = 0o700;

/// How a process ended: its exit code, or none where a signal ended it.
#[derive(Clone, Copy, Debug, PartialEq, Eq, Structural)]
pub struct ExitStatus {
    pub code: Option<i32>,
}

impl ExitStatus {
    /// The process ended with exit code zero.
    pub open spec fn spec_success(self) -> bool {
        self.code == Some(0i32)
    }

    /// Whether the process ended with exit code zero.
    #[verifier::when_used_as_spec(spec_success)]
    pub fn success(self) -> (r: bool)
        ensures
            r == self.spec_success(),
    {
        match self.code {
            Some(c) => c == 0,
            None => false,
        }
    }
}

/// Where the supervised process stands.
#[derive(Clone, Copy, Debug, PartialEq, Eq, Structural)]
pub enum SupervisorState {
    /// Nothing was started yet.
    NotStarted,
    /// The child runs.
    Running,
    /// The child ended by itself.
    Exited(ExitStatus),
    /// The child was told to end after an interrupt.
    Killed,
}

/// What happened to the supervised process.
#[derive(Clone, Copy, Debug, PartialEq, Eq, Structural)]
pub enum SupervisorEvent {
    /// The caller wants the executable started.
    Launch,
    /// The child was spawned.
    Spawned,
    /// The child could not be spawned.
    SpawnFailed,
    /// An interrupt signal arrived.
    Interrupted,
    /// The wait for the child returned.
    ChildExited(ExitStatus),
}

/// What the supervisor tells its caller.
#[derive(Clone, Copy, Debug, PartialEq, Eq, Structural)]
pub enum SupervisorReport {
    /// The child ended by itself, with this status.
    Exited(ExitStatus),
    /// The child was ended after an interrupt.
    Killed,
    /// The child was never started.
    Failed(UpdateError),
}

/// What the caller does next.
#[derive(Clone, Copy, Debug, PartialEq, Eq, Structural)]
pub enum SupervisorAction {
    /// Set the permission bits on the executable, then spawn it.
    Spawn { mode: u32 },
    /// Block until the child ends.
    Wait,
    /// Ask the child to end.
    Kill,
    /// Do nothing.
    Nothing,
    /// Hand the report to whoever asked for the run.
    Report(SupervisorReport),
}

/// The transition of the supervisor.
///
/// `Launch` asks for the spawn as long as no child was started; once one
/// was, no event asks for another. An interrupt while the child runs has it
/// killed, once; an interrupt at any other time does nothing. When the
/// wait returns, a child that was not killed is reported with its status,
/// whatever the status is; a killed one is reported as killed.
pub open spec fn supervise(state: SupervisorState, event: SupervisorEvent) -> (
    SupervisorState,
    SupervisorAction,
) {
    match (state, event) {
        (SupervisorState::NotStarted, SupervisorEvent::Launch) => (
            SupervisorState::NotStarted,
            SupervisorAction::Spawn { mode: EXECUTABLE_MODE },
        ),
        (SupervisorState::NotStarted, SupervisorEvent::Spawned) => (
            SupervisorState::Running,
            SupervisorAction::Wait,
        ),
        (SupervisorState::NotStarted, SupervisorEvent::SpawnFailed) => (
            SupervisorState::NotStarted,
            SupervisorAction::Report(SupervisorReport::Failed(UpdateError::ProcessSpawnFailed)),
        ),
        (SupervisorState::Running, SupervisorEvent::Interrupted) => (
            SupervisorState::Killed,
            SupervisorAction::Kill,
        ),
        (SupervisorState::Running, SupervisorEvent::ChildExited(status)) => (
            SupervisorState::Exited(status),
            SupervisorAction::Report(SupervisorReport::Exited(status)),
        ),
        (SupervisorState::Killed, SupervisorEvent::ChildExited(_)) => (
            SupervisorState::Killed,
            SupervisorAction::Report(SupervisorReport::Killed),
        ),
        _ => (state, SupervisorAction::Nothing),
    }
}

/// Advances the supervisor by one event.
pub fn run_lodestone(state: SupervisorState, event: SupervisorEvent) -> (r: (
    SupervisorState,
    SupervisorAction,
))
    ensures
        r == supervise(state, event),
{
    match state {
        SupervisorState::NotStarted => match event {
            SupervisorEvent::Launch => (state, SupervisorAction::Spawn { mode: EXECUTABLE_MODE }),
            SupervisorEvent::Spawned => (SupervisorState::Running, SupervisorAction::Wait),
            SupervisorEvent::SpawnFailed => (
                state,
                SupervisorAction::Report(SupervisorReport::Failed(UpdateError::ProcessSpawnFailed)),
            ),
            _ => (state, SupervisorAction::Nothing),
        },
        SupervisorState::Running => match event {
            SupervisorEvent::Interrupted => (SupervisorState::Killed, SupervisorAction::Kill),
            SupervisorEvent::ChildExited(status) => (
                SupervisorState::Exited(status),
                SupervisorAction::Report(SupervisorReport::Exited(status)),
            ),
            _ => (state, SupervisorAction::Nothing),
        },
        SupervisorState::Killed => match event {
            SupervisorEvent::ChildExited(_) => (
                state,
                SupervisorAction::Report(SupervisorReport::Killed),
            ),
            _ => (state, SupervisorAction::Nothing),
        },
        SupervisorState::Exited(_) => (state, SupervisorAction::Nothing),
    }
}

/// The failure, if any, that a report amounts to for the caller: a child
/// that could not be started, or one that ended by itself with anything but
/// exit code zero. The report itself is never a failure of the supervisor.
pub fn failure_of(report: SupervisorReport) -> (r: Option<UpdateError>)
    ensures
        r == match report {
            SupervisorReport::Exited(status) => if status.success() {
                None
            } else {
                Some(UpdateError::ProcessAbnormalExit)
            },
            SupervisorReport::Killed => None,
            SupervisorReport::Failed(error) => Some(error),
        },
{
    match report {
        SupervisorReport::Exited(status) => if status.success() {
            None
        } else {
            Some(UpdateError::ProcessAbnormalExit)
        },
        SupervisorReport::Killed => None,
        SupervisorReport::Failed(error) => Some(error),
    }
}

/// The state after a series of events, from `NotStarted`.
pub open spec fn supervised_state(events: Seq<SupervisorEvent>) -> SupervisorState
    decreases events.len(),
{
    if events.len() == 0 {
        SupervisorState::NotStarted
    } else {
        supervise(supervised_state(events.drop_last()), events.last()).0
    }
}

/// The actions asked for during a series of events, one for each event.
pub open spec fn supervised_actions(events: Seq<SupervisorEvent>) -> Seq<SupervisorAction>
    decreases events.len(),
{
    if events.len() == 0 {
        Seq::<SupervisorAction>::empty()
    } else {
        supervised_actions(events.drop_last()).push(
            supervise(supervised_state(events.drop_last()), events.last()).1,
        )
    }
}

/// How many of the actions are `Kill`.
pub open spec fn kills(actions: Seq<SupervisorAction>) -> nat
    decreases actions.len(),
{
    if actions.len() == 0 {
        0
    } else {
        kills(actions.drop_last()) + (if actions.last() is Kill {
            1nat
        } else {
            0nat
        })
    }
}

/// Whatever the events and their order, the child is killed at most once,
/// and exactly once where the supervisor ends up in `Killed`.
pub proof fn law_kill_happens_at_most_once(events: Seq<SupervisorEvent>)
    ensures
        kills(supervised_actions(events)) == (if supervised_state(events) is Killed {
            1nat
        } else {
            0nat
        }),
    decreases events.len(),
{
    if events.len() > 0 {
        let before = events.drop_last();
        law_kill_happens_at_most_once(before);
        let actions = supervised_actions(events);
        assert(actions.drop_last() =~= supervised_actions(before));
    }
}

/// `Exited` and `Killed` are final: no event leads out of them, and no
/// event asks for a kill there.
pub proof fn law_terminal_states_stay(state: SupervisorState, event: SupervisorEvent)
    requires
        state is Exited || state is Killed,
    ensures
        supervise(state, event).0 == state,
        !(supervise(state, event).1 is Kill),
        !(supervise(state, event).1 is Spawn),
{
}

/// Once a child was started, no event asks for another spawn.
pub proof fn law_one_child_is_started(state: SupervisorState, event: SupervisorEvent)
    requires
        !(state is NotStarted),
    ensures
        !(supervise(state, event).1 is Spawn),
{
}

/// No event leads back to `NotStarted`.
pub proof fn law_no_way_back(state: SupervisorState, event: SupervisorEvent)
    requires
        !(state is NotStarted),
    ensures
        !(supervise(state, event).0 is NotStarted),
{
}

/// A child that ends by itself with a status, after any number of
/// interrupts that came too early to matter, is reported with that status.
pub proof fn law_normal_exit_is_reported(status: ExitStatus)
    ensures
        supervised_state(
            seq![
                SupervisorEvent::Launch,
                SupervisorEvent::Spawned,
                SupervisorEvent::ChildExited(status),
            ],
        ) == SupervisorState::Exited(status),
        supervised_actions(
            seq![
                SupervisorEvent::Launch,
                SupervisorEvent::Spawned,
                SupervisorEvent::ChildExited(status),
            ],
        ) == seq![
            SupervisorAction::Spawn { mode: EXECUTABLE_MODE },
            SupervisorAction::Wait,
            SupervisorAction::Report(SupervisorReport::Exited(status)),
        ],
{
    let e1 = seq![SupervisorEvent::Launch];
    let e2 = seq![SupervisorEvent::Launch, SupervisorEvent::Spawned];
    let e3 = seq![
        SupervisorEvent::Launch,
        SupervisorEvent::Spawned,
        SupervisorEvent::ChildExited(status),
    ];
    let e0 = Seq::<SupervisorEvent>::empty();
    assert(e1.drop_last() =~= e0);
    assert(supervised_state(e0) == SupervisorState::NotStarted);
    assert(supervised_actions(e0) =~= Seq::<SupervisorAction>::empty());
    assert(e2.drop_last() =~= e1);
    assert(e3.drop_last() =~= e2);
    assert(supervised_state(e1) == SupervisorState::NotStarted);
    assert(supervised_state(e2) == SupervisorState::Running);
    assert(supervised_actions(e1) =~= seq![SupervisorAction::Spawn { mode: EXECUTABLE_MODE }]);
    assert(supervised_actions(e2) =~= seq![
        SupervisorAction::Spawn { mode: EXECUTABLE_MODE },
        SupervisorAction::Wait,
    ]);
    assert(supervised_actions(e3) =~= seq![
        SupervisorAction::Spawn { mode: EXECUTABLE_MODE },
        SupervisorAction::Wait,
        SupervisorAction::Report(SupervisorReport::Exited(status)),
    ]);
}

/// An interrupt while the child runs has it killed, and the wait that
/// follows reports `Killed`, whatever status the wait saw.
pub proof fn law_interrupt_kills_once(status: ExitStatus)
    ensures
        supervised_state(
            seq![
                SupervisorEvent::Launch,
                SupervisorEvent::Spawned,
                SupervisorEvent::Interrupted,
                SupervisorEvent::ChildExited(status),
            ],
        ) == SupervisorState::Killed,
        supervised_actions(
            seq![
                SupervisorEvent::Launch,
                SupervisorEvent::Spawned,
                SupervisorEvent::Interrupted,
                SupervisorEvent::ChildExited(status),
            ],
        ) == seq![
            SupervisorAction::Spawn { mode: EXECUTABLE_MODE },
            SupervisorAction::Wait,
            SupervisorAction::Kill,
            SupervisorAction::Report(SupervisorReport::Killed),
        ],
{
    let e1 = seq![SupervisorEvent::Launch];
    let e2 = seq![SupervisorEvent::Launch, SupervisorEvent::Spawned];
    let e3 = seq![SupervisorEvent::Launch, SupervisorEvent::Spawned, SupervisorEvent::Interrupted];
    let e4 = seq![
        SupervisorEvent::Launch,
        SupervisorEvent::Spawned,
        SupervisorEvent::Interrupted,
        SupervisorEvent::ChildExited(status),
    ];
    let e0 = Seq::<SupervisorEvent>::empty();
    assert(e1.drop_last() =~= e0);
    assert(supervised_state(e0) == SupervisorState::NotStarted);
    assert(supervised_actions(e0) =~= Seq::<SupervisorAction>::empty());
    assert(e2.drop_last() =~= e1);
    assert(e3.drop_last() =~= e2);
    assert(e4.drop_last() =~= e3);
    assert(supervised_state(e1) == SupervisorState::NotStarted);
    assert(supervised_state(e2) == SupervisorState::Running);
    assert(supervised_state(e3) == SupervisorState::Killed);
    assert(supervised_actions(e1) =~= seq![SupervisorAction::Spawn { mode: EXECUTABLE_MODE }]);
    assert(supervised_actions(e2) =~= seq![
        SupervisorAction::Spawn { mode: EXECUTABLE_MODE },
        SupervisorAction::Wait,
    ]);
    assert(supervised_actions(e3) =~= seq![
        SupervisorAction::Spawn { mode: EXECUTABLE_MODE },
        SupervisorAction::Wait,
        SupervisorAction::Kill,
    ]);
    assert(supervised_actions(e4) =~= seq![
        SupervisorAction::Spawn { mode: EXECUTABLE_MODE },
        SupervisorAction::Wait,
        SupervisorAction::Kill,
        SupervisorAction::Report(SupervisorReport::Killed),
    ]);
}

} // verus!

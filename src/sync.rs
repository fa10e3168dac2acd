use vstd::prelude::*;

verus! {

/// Where the periodic synchronization stands.
#[derive(Clone, Copy, Debug, PartialEq, Eq, Structural)]
pub enum SyncState {
    /// Waiting for the next tick.
    Idle,
    /// A synchronization is running.
    Syncing,
    /// Shutdown was requested; no synchronization starts any more.
    Stopped,
}

/// What happens to the periodic synchronization.
#[derive(Clone, Copy, Debug, PartialEq, Eq, Structural)]
pub enum SyncEvent {
    /// The interval elapsed.
    Tick,
    /// The running synchronization ended.
    SyncFinished { succeeded: bool },
    /// Shutdown was requested.
    ShutdownRequested,
}

/// What the runner of the schedule is to do next.
#[derive(Clone, Copy, Debug, PartialEq, Eq, Structural)]
pub enum SyncAction {
    /// Run one synchronization and report back when it ends.
    StartSync,
    /// Let this tick pass: a synchronization is still running.
    SkipTick,
    /// Record that the synchronization failed; the schedule goes on.
    ReportFailure,
    /// Wait for the next event.
    Wait,
    /// Leave the schedule.
    Exit,
}

/// The transition of the schedule on an event: the next state and the action.
pub open spec fn sync_step(state: SyncState, event: SyncEvent) -> (SyncState, SyncAction) {
    match (state, event) {
        (SyncState::Stopped, _) => (SyncState::Stopped, SyncAction::Exit),
        (_, SyncEvent::ShutdownRequested) => (SyncState::Stopped, SyncAction::Exit),
        (SyncState::Idle, SyncEvent::Tick) => (SyncState::Syncing, SyncAction::StartSync),
        (SyncState::Syncing, SyncEvent::Tick) => (SyncState::Syncing, SyncAction::SkipTick),
        (SyncState::Syncing, SyncEvent::SyncFinished { succeeded }) => (
            SyncState::Idle,
            if succeeded {
                SyncAction::Wait
            } else {
                SyncAction::ReportFailure
            },
        ),
        (SyncState::Idle, SyncEvent::SyncFinished { .. }) => (SyncState::Idle, SyncAction::Wait),
    }
}

/// The schedule of the periodic synchronization: at most one synchronization at a time, a tick
/// that comes while one runs is skipped, and after a shutdown request nothing starts again.
pub struct SyncScheduler {
    state: SyncState,
}

impl SyncScheduler {
    /// The current state.
    pub closed spec fn view_state(&self) -> SyncState {
        self.state
    }

    /// A schedule that waits for its first tick.
    pub fn new() -> (r: Self)
        ensures
            r.view_state() == SyncState::Idle,
    {
        SyncScheduler { state: SyncState::Idle }
    }

    /// The current state.
    pub fn state(&self) -> (r: SyncState)
        ensures
            r == self.view_state(),
    {
        self.state
    }

    /// Takes in an event and says what to do.
    pub fn handle(&mut self, event: SyncEvent) -> (r: SyncAction)
        ensures
            (final(self).view_state(), r) == sync_step(old(self).view_state(), event),
    {
        let (next, action) = match (self.state, event) {
            (SyncState::Stopped, _) => (SyncState::Stopped, SyncAction::Exit),
            (_, SyncEvent::ShutdownRequested) => (SyncState::Stopped, SyncAction::Exit),
            (SyncState::Idle, SyncEvent::Tick) => (SyncState::Syncing, SyncAction::StartSync),
            (SyncState::Syncing, SyncEvent::Tick) => (SyncState::Syncing, SyncAction::SkipTick),
            (SyncState::Syncing, SyncEvent::SyncFinished { succeeded }) => (
                SyncState::Idle,
                if succeeded {
                    SyncAction::Wait
                } else {
                    SyncAction::ReportFailure
                },
            ),
            (SyncState::Idle, SyncEvent::SyncFinished { .. }) => (SyncState::Idle, SyncAction::Wait),
        };
        self.state = next;
        action
    }
}

/// The state after each event of `events` in turn, from `state`.
pub open spec fn run_schedule(state: SyncState, events: Seq<SyncEvent>) -> SyncState
    decreases events.len(),
{
    if events.len() == 0 {
        state
    } else {
        run_schedule(sync_step(state, events[0]).0, events.drop_first())
    }
}

/// Once shutdown is requested, no later event starts a synchronization and the schedule stays
/// stopped.
pub proof fn lemma_shutdown_is_final(events: Seq<SyncEvent>, i: int)
    requires
        0 <= i < events.len(),
    ensures
        run_schedule(SyncState::Stopped, events) == SyncState::Stopped,
        sync_step(run_schedule(SyncState::Stopped, events.subrange(0, i)), events[i]).1
            != SyncAction::StartSync,
{
    lemma_stopped_stays(events);
    lemma_stopped_stays(events.subrange(0, i));
}

proof fn lemma_stopped_stays(events: Seq<SyncEvent>)
    ensures
        run_schedule(SyncState::Stopped, events) == SyncState::Stopped,
    decreases events.len(),
{
    if events.len() > 0 {
        lemma_stopped_stays(events.drop_first());
    }
}

} // verus!

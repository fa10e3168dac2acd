use breez_sdk_ark::sync::{SyncAction, SyncEvent, SyncScheduler, SyncState};

#[test]
fn tick_starts_sync_and_overlapping_tick_is_skipped() {
    let mut s = SyncScheduler::new();
    assert_eq!(SyncState::Idle, s.state());
    assert_eq!(SyncAction::StartSync, s.handle(SyncEvent::Tick));
    assert_eq!(SyncState::Syncing, s.state());
    assert_eq!(SyncAction::SkipTick, s.handle(SyncEvent::Tick));
    assert_eq!(SyncAction::Wait, s.handle(SyncEvent::SyncFinished { succeeded: true }));
    assert_eq!(SyncState::Idle, s.state());
    assert_eq!(SyncAction::StartSync, s.handle(SyncEvent::Tick));
    assert_eq!(
        SyncAction::ReportFailure,
        s.handle(SyncEvent::SyncFinished { succeeded: false })
    );
    assert_eq!(SyncAction::StartSync, s.handle(SyncEvent::Tick));
}

#[test]
fn shutdown_is_terminal() {
    let mut s = SyncScheduler::new();
    assert_eq!(SyncAction::StartSync, s.handle(SyncEvent::Tick));
    assert_eq!(SyncAction::Exit, s.handle(SyncEvent::ShutdownRequested));
    assert_eq!(SyncState::Stopped, s.state());
    assert_eq!(SyncAction::Exit, s.handle(SyncEvent::Tick));
    assert_eq!(SyncAction::Exit, s.handle(SyncEvent::SyncFinished { succeeded: true }));
    assert_eq!(SyncState::Stopped, s.state());
}

use breez_sdk_ark::{EventEmitter, EventListener, SdkEvent};
use std::sync::atomic::{AtomicUsize, Ordering};
use std::sync::Arc;

struct Counting {
    calls: Arc<AtomicUsize>,
}

impl EventListener for Counting {
    fn on_event(&self, _event: &SdkEvent) -> Result<(), String> {
        self.calls.fetch_add(1, Ordering::SeqCst);
        Ok(())
    }
}

struct Failing {
    calls: Arc<AtomicUsize>,
}

impl EventListener for Failing {
    fn on_event(&self, _event: &SdkEvent) -> Result<(), String> {
        self.calls.fetch_add(1, Ordering::SeqCst);
        Err("listener failed".to_string())
    }
}

#[test]
fn failing_listener_does_not_stop_others() {
    let mut emitter = EventEmitter::new();
    let failing_calls = Arc::new(AtomicUsize::new(0));
    let good_calls = Arc::new(AtomicUsize::new(0));
    emitter.add_listener(Box::new(Failing { calls: failing_calls.clone() }));
    emitter.add_listener(Box::new(Counting { calls: good_calls.clone() }));
    emitter.emit(&SdkEvent::Synced {});
    assert_eq!(1, good_calls.load(Ordering::SeqCst));
    emitter.emit(&SdkEvent::Synced {});
    assert_eq!(2, good_calls.load(Ordering::SeqCst));
    assert_eq!(2, failing_calls.load(Ordering::SeqCst));
}

#[test]
fn listener_ids_are_distinct_and_removable() {
    let mut emitter = EventEmitter::new();
    let calls = Arc::new(AtomicUsize::new(0));
    let first = emitter.add_listener(Box::new(Counting { calls: calls.clone() }));
    let second = emitter.add_listener(Box::new(Counting { calls: calls.clone() }));
    assert_eq!(36, first.len());
    assert_ne!(first, second);
    assert!(emitter.remove_listener(&first));
    assert!(!emitter.remove_listener(&first));
    emitter.emit(&SdkEvent::Synced {});
    assert_eq!(1, calls.load(Ordering::SeqCst));
    assert!(emitter.remove_listener(&second));
    emitter.emit(&SdkEvent::Synced {});
    assert_eq!(1, calls.load(Ordering::SeqCst));
}

#[test]
fn emit_without_listeners_does_nothing() {
    let emitter = EventEmitter::new();
    emitter.emit(&SdkEvent::Synced {});
}

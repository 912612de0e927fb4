use gpio_wait::registry::Registry;
use gpio_wait::signal::{PollOutcome, Signal};
use gpio_wait::wake::WakeHandle;

#[test]
fn fresh_poll_is_pending_and_stores_waker() {
    let mut r = Registry::new();
    assert!(r.register(11).is_ok());
    let sig = Signal::new(11);
    let w = WakeHandle::new(42);
    assert_eq!(sig.poll(&mut r, w), PollOutcome::Pending);
    let e = r.get(11).unwrap();
    assert_eq!(e.signaled, 0);
    assert_eq!(e.waker, Some(w));
}

#[test]
fn poll_after_signal_completes_and_removes_entry() {
    let mut r = Registry::new();
    assert!(r.register(11).is_ok());
    let sig = Signal::new(11);
    let w = WakeHandle::new(42);
    assert_eq!(sig.poll(&mut r, w), PollOutcome::Pending);
    assert_eq!(r.mark_signaled(11), Some(w));
    assert_eq!(sig.poll(&mut r, w), PollOutcome::Ready);
    assert!(!r.contains_line(11));
    assert_eq!(r.len(), 0);
}

#[test]
fn redundant_poll_after_completion_is_harmless() {
    let mut r = Registry::new();
    assert!(r.register(3).is_ok());
    let sig = Signal::new(3);
    let w = WakeHandle::new(7);
    r.mark_signaled(3);
    assert_eq!(sig.poll(&mut r, w), PollOutcome::Ready);
    // the wait completed and its entry left; an extra poll re-checks and
    // finds nothing, without completing again or panicking
    assert_eq!(sig.poll(&mut r, w), PollOutcome::Pending);
    assert_eq!(sig.poll(&mut r, w), PollOutcome::Pending);
    assert_eq!(r.len(), 0);
}

#[test]
fn poll_of_never_registered_line_is_pending() {
    let mut r = Registry::new();
    let sig = Signal::new(20);
    assert_eq!(sig.poll(&mut r, WakeHandle::new(0)), PollOutcome::Pending);
    assert_eq!(r.len(), 0);
}

use gpio_wait::isr::service_line_events;
use gpio_wait::registry::Registry;
use gpio_wait::signal::{PollOutcome, Signal};
use gpio_wait::wake::WakeHandle;

#[test]
fn two_lines_in_one_invocation() {
    let mut r = Registry::new();
    assert!(r.register(1).is_ok());
    assert!(r.register(9).is_ok());
    let sig1 = Signal::new(1);
    let sig9 = Signal::new(9);
    let w1 = WakeHandle::new(1);
    let w9 = WakeHandle::new(9);
    assert_eq!(sig1.poll(&mut r, w1), PollOutcome::Pending);
    assert_eq!(sig9.poll(&mut r, w9), PollOutcome::Pending);

    let status = (1u32 << 1) | (1u32 << 9);
    let (wakers, ack) = service_line_events(&mut r, status);
    // one independent resolution per line, wakers in entry order
    assert_eq!(wakers, vec![w1, w9]);
    // the acknowledge write clears exactly the bits consumed
    assert_eq!(ack, status);
    assert_eq!(r.get(1).unwrap().signaled, 1);
    assert_eq!(r.get(9).unwrap().signaled, 1);

    assert_eq!(sig1.poll(&mut r, w1), PollOutcome::Ready);
    assert_eq!(sig9.poll(&mut r, w9), PollOutcome::Ready);
    assert_eq!(r.len(), 0);
}

#[test]
fn falling_edge_event_on_line_nine() {
    let mut r = Registry::new();
    assert!(r.register(9).is_ok());
    let status = 1u32 << 9;
    let (wakers, ack) = service_line_events(&mut r, status);
    assert!(wakers.is_empty());
    assert_eq!(ack, status);
    assert_eq!(r.get(9).unwrap().signaled, 1);
    let taken = r.take_if_signaled(9).unwrap();
    assert_eq!(taken.number, 9);
    assert!(!r.contains_line(9));
}

#[test]
fn event_for_unwaited_line_is_ignored() {
    let mut r = Registry::new();
    assert!(r.register(2).is_ok());
    let status = 1u32 << 5;
    let (wakers, ack) = service_line_events(&mut r, status);
    assert!(wakers.is_empty());
    assert_eq!(ack, status);
    assert_eq!(r.get(2).unwrap().signaled, 0);
}

#[test]
fn highest_status_bit_still_matches_its_line() {
    let mut r = Registry::new();
    assert!(r.register(31).is_ok());
    let (wakers, ack) = service_line_events(&mut r, 1u32 << 31);
    assert!(wakers.is_empty());
    assert_eq!(ack, 1u32 << 31);
    assert_eq!(r.get(31).unwrap().signaled, 1);
}

#[test]
fn lines_beyond_the_status_width_never_match() {
    let mut r = Registry::new();
    assert!(r.register(40).is_ok());
    let (wakers, _) = service_line_events(&mut r, u32::MAX);
    assert!(wakers.is_empty());
    assert_eq!(r.get(40).unwrap().signaled, 0);
}

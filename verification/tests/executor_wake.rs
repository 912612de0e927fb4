use gpio_wait::executor::{Executor, RunStep};
use gpio_wait::wake::WakeHandle;

#[test]
fn wake_is_idempotent() {
    let mut exec = Executor::new();
    assert!(!exec.repoll_pending);
    let w = WakeHandle::new(0);
    w.wake(&mut exec);
    let after_one = exec.repoll_pending;
    // invoking the capability many more times changes nothing
    for _ in 0..8 {
        w.wake(&mut exec);
    }
    assert!(exec.repoll_pending);
    assert_eq!(exec.repoll_pending, after_one);
}

#[test]
fn wake_after_condition_resolved_is_harmless() {
    let mut exec = Executor::new();
    let w = WakeHandle::new(1);
    w.wake(&mut exec);
    assert_eq!(exec.after_root_poll(false), RunStep::Sleep);
    assert!(!exec.repoll_pending);
    // a stale wake merely requests one more poll, which finds nothing to do
    w.wake(&mut exec);
    w.wake(&mut exec);
    assert_eq!(exec.after_root_poll(false), RunStep::Sleep);
}

#[test]
fn acknowledge_clears_the_request() {
    let mut exec = Executor::new();
    exec.request_repoll();
    assert!(exec.repoll_pending);
    exec.acknowledge_repoll();
    assert!(!exec.repoll_pending);
}

#[test]
fn root_task_completion_is_fatal() {
    let mut exec = Executor::new();
    assert_eq!(exec.after_root_poll(true), RunStep::FatalRootCompleted);
}

#[test]
fn copies_of_a_wake_capability_share_identity() {
    let w = WakeHandle::new(9);
    let copy = w;
    assert_eq!(w, copy);
    assert_eq!(copy.tag, 9);
}

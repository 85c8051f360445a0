use sgl_omni_router::lifecycle::{Lifecycle, LifecycleError, State};

#[test]
fn liveness_covers_serving_and_draining_only() {
    let mut lifecycle = Lifecycle::starting();
    assert!(!lifecycle.is_live());

    lifecycle.enter_serving().expect("enter serving state");
    assert!(lifecycle.is_live());

    lifecycle.enter_draining().expect("enter draining state");
    assert!(lifecycle.is_live());

    lifecycle.enter_stopped().expect("enter stopped state");
    assert!(!lifecycle.is_live());
}

#[test]
fn illegal_steps_are_refused_and_change_nothing() {
    let mut lifecycle = Lifecycle::starting();
    assert_eq!(lifecycle.enter_draining(), Err(LifecycleError));
    assert_eq!(lifecycle.enter_stopped(), Err(LifecycleError));
    assert_eq!(lifecycle.snapshot(), State::Starting);
    lifecycle.enter_serving().expect("enter serving state");
    assert!(lifecycle.is_serving());
    assert_eq!(lifecycle.enter_serving(), Err(LifecycleError));
    assert_eq!(lifecycle.enter_stopped(), Err(LifecycleError));
    lifecycle.enter_draining().expect("enter draining state");
    lifecycle.enter_draining().expect("draining again is legal");
    assert!(!lifecycle.is_serving());
    assert_eq!(lifecycle.snapshot(), State::Draining);
}

#[test]
fn terminal_states_never_change() {
    let mut failed = Lifecycle::starting();
    failed.enter_failed().expect("starting may fail");
    assert_eq!(failed.snapshot(), State::Failed);
    assert_eq!(failed.enter_serving(), Err(LifecycleError));
    assert_eq!(failed.enter_draining(), Err(LifecycleError));
    assert_eq!(failed.enter_failed(), Err(LifecycleError));
    assert_eq!(failed.snapshot(), State::Failed);

    let mut stopped = Lifecycle::starting();
    stopped.enter_serving().expect("enter serving state");
    stopped.enter_draining().expect("enter draining state");
    stopped.enter_stopped().expect("enter stopped state");
    assert_eq!(stopped.enter_failed(), Err(LifecycleError));
    assert_eq!(stopped.snapshot(), State::Stopped);
}

#[test]
fn state_labels_are_fixed() {
    assert_eq!(State::Starting.label(), "starting");
    assert_eq!(State::Serving.label(), "serving");
    assert_eq!(State::Draining.label(), "draining");
    assert_eq!(State::Stopped.label(), "stopped");
    assert_eq!(State::Failed.label(), "failed");
}

use sgl_omni_router::worker_pool::health::{
    probe_succeeded, AtomicHealth, ProbeTracker, WorkerHealth,
};

#[test]
fn hysteresis_preserves_unknown_and_requires_consecutive_observations() {
    let mut tracker = ProbeTracker::new(2, 3);
    assert_eq!(tracker.observe(true), WorkerHealth::Unknown);
    assert_eq!(tracker.observe(false), WorkerHealth::Unknown);
    assert_eq!(tracker.observe(false), WorkerHealth::Unknown);
    assert_eq!(tracker.observe(false), WorkerHealth::Unhealthy);
    assert_eq!(tracker.observe(true), WorkerHealth::Unhealthy);
    assert_eq!(tracker.observe(true), WorkerHealth::Healthy);
    assert_eq!(tracker.observe(false), WorkerHealth::Healthy);
}

#[test]
fn counters_saturate_without_changing_the_outcome() {
    let mut tracker = ProbeTracker::new(255, 1);
    for _ in 0..254 {
        assert_eq!(tracker.observe(true), WorkerHealth::Unknown);
    }
    for _ in 0..10 {
        assert_eq!(tracker.observe(true), WorkerHealth::Healthy);
    }
    assert_eq!(tracker.observe(false), WorkerHealth::Unhealthy);
}

#[test]
fn health_cells_hold_what_was_stored() {
    let mut cell = AtomicHealth::unknown();
    assert_eq!(cell.load(), WorkerHealth::Unknown);
    for health in [WorkerHealth::Healthy, WorkerHealth::Unhealthy, WorkerHealth::Unknown] {
        cell.store(health);
        assert_eq!(cell.load(), health);
        assert_eq!(WorkerHealth::from_atomic(health.to_atomic()), health);
    }
    assert_eq!(WorkerHealth::from_atomic(7), WorkerHealth::Unknown);
    assert_eq!(WorkerHealth::Unknown.label(), "unknown");
    assert_eq!(WorkerHealth::Healthy.label(), "healthy");
    assert_eq!(WorkerHealth::Unhealthy.label(), "unhealthy");
}

#[test]
fn only_success_statuses_count_as_success() {
    assert!(probe_succeeded(Some(200)));
    assert!(probe_succeeded(Some(299)));
    assert!(!probe_succeeded(Some(199)));
    assert!(!probe_succeeded(Some(300)));
    assert!(!probe_succeeded(Some(503)));
    assert!(!probe_succeeded(None));
}

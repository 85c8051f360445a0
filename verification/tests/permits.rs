use sgl_omni_router::config::RoutingStrategy;
use sgl_omni_router::worker_pool::admission::{
    AdmissionController, AdmissionError, DispatchError,
};
use sgl_omni_router::worker_pool::permits::{AcquireFault, PermitPool, MAX_PERMITS};
use sgl_omni_router::worker_pool::profile::{CapacityClass, MAX_WORKERS};
use sgl_omni_router::worker_pool::selection::Selector;

#[test]
fn permits_are_counted_and_come_back() {
    let mut pool = PermitPool::new(3);
    assert_eq!((pool.limit(), pool.available(), pool.in_flight()), (3, 3, 0));
    assert_eq!(pool.try_acquire(2), Ok(()));
    assert_eq!((pool.limit(), pool.available(), pool.in_flight()), (3, 1, 2));
    assert_eq!(pool.try_acquire(2), Err(AcquireFault::NoPermits));
    assert_eq!(pool.try_acquire(0), Ok(()));
    pool.release(2);
    assert_eq!(pool.available(), 3);
    pool.release(1);
    assert_eq!(pool.available(), 3);
}

#[test]
fn a_closed_pool_gives_nothing_and_takes_back() {
    let mut pool = PermitPool::new(2);
    assert_eq!(pool.try_acquire(2), Ok(()));
    pool.close();
    assert_eq!(pool.try_acquire(1), Err(AcquireFault::Closed));
    assert_eq!(pool.try_acquire(u32::MAX), Err(AcquireFault::Closed));
    pool.release(1);
    assert_eq!((pool.available(), pool.in_flight()), (1, 1));
    assert_eq!(pool.try_acquire(1), Err(AcquireFault::Closed));
}

#[test]
fn the_largest_pool_can_be_made() {
    assert_eq!(MAX_PERMITS, tokio::sync::Semaphore::MAX_PERMITS);
    let mut pool = PermitPool::new(MAX_PERMITS);
    assert_eq!(pool.try_acquire(u32::MAX), Ok(()));
    pool.release(u32::MAX as usize);
    assert_eq!(pool.available(), MAX_PERMITS);
    let mut empty = PermitPool::new(0);
    assert_eq!(empty.try_acquire(1), Err(AcquireFault::NoPermits));
}

#[test]
fn a_refused_class_gives_its_envelope_back() {
    let mut admission = AdmissionController::new(2, [None, None, Some(4), None, None, None]);
    let envelope = admission.try_admit_envelope().expect("envelope");
    assert_eq!(admission.available(), (1, [None, None, Some(4), None, None, None]));
    assert_eq!(
        admission
            .try_admit_class(envelope, CapacityClass::SpeechBatch, 5)
            .err(),
        Some(AdmissionError::Overloaded)
    );
    assert_eq!(admission.available(), (2, [None, None, Some(4), None, None, None]));
    let envelope = admission.try_admit_envelope().expect("envelope");
    let lease = admission
        .try_admit_class(envelope, CapacityClass::SpeechBatch, 4)
        .expect("class");
    assert_eq!(admission.available(), (1, [None, None, Some(0), None, None, None]));
    assert_eq!(
        admission.snapshot(),
        [(2, 1), (0, 0), (0, 0), (4, 4), (0, 0), (0, 0), (0, 0)]
    );
    admission.close();
    assert_eq!(
        admission.try_admit(CapacityClass::SpeechBatch, 1).err(),
        Some(AdmissionError::Draining)
    );
    admission.release(lease);
    assert_eq!(admission.available(), (2, [None, None, Some(4), None, None, None]));
}

#[test]
fn refusals_have_fixed_texts() {
    assert_eq!(AdmissionError::Draining.message(), "router is draining");
    assert_eq!(AdmissionError::Overloaded.message(), "router admission is full");
    for (error, text) in [
        (
            DispatchError::AmbiguousModel,
            "compatible workers have ambiguous default models",
        ),
        (
            DispatchError::NoEligibleProfile,
            "no configured profile matches the request",
        ),
        (DispatchError::Unavailable, "matching workers are unavailable"),
        (
            DispatchError::Overloaded,
            "matching worker session capacity is full",
        ),
        (DispatchError::Internal, "router dispatch invariant failed"),
    ] {
        assert_eq!(error.message(), text);
    }
}

fn among(ordinals: &[usize]) -> [bool; MAX_WORKERS] {
    let mut candidates = [false; MAX_WORKERS];
    for &ordinal in ordinals {
        candidates[ordinal] = true;
    }
    candidates
}

#[test]
fn turns_pass_in_order_and_waiting_candidates_come_first() {
    let mut selector = Selector::new(RoutingStrategy::RoundRobin, 4);
    assert_eq!(selector.strategy(), RoutingStrategy::RoundRobin);
    assert_eq!(selector.select(&among(&[])), None);
    assert_eq!(selector.select(&among(&[2, 3])), Some(2));
    assert_eq!(selector.select(&among(&[2, 3])), Some(3));
    assert_eq!(selector.select(&among(&[1, 2, 3])), Some(1));
    assert_eq!(selector.select(&among(&[0, 1, 2, 3])), Some(0));
    assert_eq!(selector.select(&among(&[0, 1, 2, 3])), Some(2));
    assert_eq!(selector.select(&among(&[9])), None);
}

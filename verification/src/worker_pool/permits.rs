//! Bounded pools of permits.

use vstd::prelude::*;

verus! {

#[verifier::external_type_specification]
#[verifier::external_body]
pub struct ExSemaphore(tokio::sync::Semaphore);

/// The permits that a semaphore has left to give.
pub uninterp spec fn permits_left(semaphore: tokio::sync::Semaphore) -> nat;

/// A semaphore gives no more permits.
pub uninterp spec fn permits_closed(semaphore: tokio::sync::Semaphore) -> bool;

/// The largest number of permits of one pool: `tokio::sync::Semaphore::MAX_PERMITS`.
pub const MAX_PERMITS: usize = usize::MAX / 8;

/// Why a permit was not given.
#[derive(Clone, Copy, Debug, PartialEq, Eq, Structural)]
pub enum AcquireFault {
    Closed,
    NoPermits,
}

/// Calls `tokio::sync::Semaphore::new`. Claimed: the semaphore is open and has
/// the given number of permits. Above `MAX_PERMITS` the call would panic.
#[verifier::external_body]
fn semaphore_new(permits: usize) -> (semaphore: tokio::sync::Semaphore)
    requires
        permits <= MAX_PERMITS,
    ensures
        permits_left(semaphore) == permits,
        !permits_closed(semaphore),
{
    tokio::sync::Semaphore::new(permits)
}

/// Calls `tokio::sync::Semaphore::try_acquire_many` and forgets the permit, so
/// that it stays taken. Claimed: a closed semaphore reports so; an open one
/// with too few permits left reports that; else the permits are taken. Above
/// `MAX_PERMITS` the call would panic.
#[verifier::external_body]
fn semaphore_try_acquire_many(semaphore: &mut tokio::sync::Semaphore, count: u32) -> (outcome: Result<
    (),
    AcquireFault,
>)
    requires
        count <= MAX_PERMITS,
    ensures
        permits_closed(*final(semaphore)) == permits_closed(*old(semaphore)),
        outcome is Ok <==> !permits_closed(*old(semaphore)) && count <= permits_left(
            *old(semaphore),
        ),
        outcome is Err ==> outcome->Err_0 is Closed == permits_closed(*old(semaphore)),
        permits_left(*final(semaphore)) == (if outcome is Ok {
            permits_left(*old(semaphore)) - count
        } else {
            permits_left(*old(semaphore)) as int
        }),
{
    match semaphore.try_acquire_many(count) {
        Ok(permit) => {
            permit.forget();
            Ok(())
        },
        Err(tokio::sync::TryAcquireError::Closed) => Err(AcquireFault::Closed),
        Err(tokio::sync::TryAcquireError::NoPermits) => Err(AcquireFault::NoPermits),
    }
}

/// Calls `tokio::sync::Semaphore::available_permits`. Claimed: it is the number
/// of permits left.
#[verifier::external_body]
fn semaphore_available_permits(semaphore: &tokio::sync::Semaphore) -> (permits: usize)
    ensures
        permits == permits_left(*semaphore),
{
    semaphore.available_permits()
}

/// Calls `tokio::sync::Semaphore::is_closed`.
#[verifier::external_body]
fn semaphore_is_closed(semaphore: &tokio::sync::Semaphore) -> (closed: bool)
    ensures
        closed == permits_closed(*semaphore),
{
    semaphore.is_closed()
}

/// Calls `tokio::sync::Semaphore::add_permits`. Claimed: the permits are added,
/// and the semaphore stays open or closed. Above `MAX_PERMITS` the call would
/// panic.
#[verifier::external_body]
fn semaphore_add_permits(semaphore: &mut tokio::sync::Semaphore, count: usize)
    requires
        permits_left(*old(semaphore)) + count <= MAX_PERMITS,
    ensures
        permits_left(*final(semaphore)) == permits_left(*old(semaphore)) + count,
        permits_closed(*final(semaphore)) == permits_closed(*old(semaphore)),
{
    semaphore.add_permits(count)
}

/// Calls `tokio::sync::Semaphore::close`. Claimed: the semaphore is closed and
/// its permits are untouched.
#[verifier::external_body]
fn semaphore_close(semaphore: &mut tokio::sync::Semaphore)
    ensures
        permits_left(*final(semaphore)) == permits_left(*old(semaphore)),
        permits_closed(*final(semaphore)),
{
    semaphore.close()
}

/// The state of a pool of permits.
pub struct PermitView {
    pub limit: nat,
    pub available: nat,
    pub closed: bool,
}

impl PermitView {
    /// A pool never has more permits than it was made with.
    pub open spec fn wf(self) -> bool {
        self.available <= self.limit <= MAX_PERMITS
    }

    /// The permits that are given out.
    pub open spec fn in_flight(self) -> int {
        self.limit - self.available
    }

    /// The pool after `count` permits were taken.
    pub open spec fn taken(self, count: int) -> PermitView {
        PermitView { available: (self.available - count) as nat, ..self }
    }

    /// The pool after `count` permits came back. More than were given out are
    /// not taken back.
    pub open spec fn returned(self, count: int) -> PermitView {
        if count <= self.in_flight() {
            PermitView { available: (self.available + count) as nat, ..self }
        } else {
            self
        }
    }
}

/// A pool of permits with a fixed limit.
pub struct PermitPool {
    limit: usize,
    semaphore: tokio::sync::Semaphore,
}

impl View for PermitPool {
    type V = PermitView;

    closed spec fn view(&self) -> PermitView {
        PermitView {
            limit: self.limit as nat,
            available: permits_left(self.semaphore),
            closed: permits_closed(self.semaphore),
        }
    }
}

impl PermitPool {
    /// The pool keeps its limit.
    pub open spec fn wf(&self) -> bool {
        self@.wf()
    }

    /// A pool of which nothing is given out.
    pub fn new(limit: usize) -> (pool: Self)
        requires
            limit <= MAX_PERMITS,
        ensures
            pool.wf(),
            pool@ == (PermitView { limit: limit as nat, available: limit as nat, closed: false }),
    {
        PermitPool { limit, semaphore: semaphore_new(limit) }
    }

    /// Takes permits, if the pool is open and has enough of them.
    pub fn try_acquire(&mut self, count: u32) -> (outcome: Result<(), AcquireFault>)
        requires
            old(self).wf(),
        ensures
            final(self).wf(),
            match outcome {
                Ok(_) => !old(self)@.closed && count <= old(self)@.available && final(self)@
                    == old(self)@.taken(count as int),
                Err(AcquireFault::Closed) => old(self)@.closed && final(self)@ == old(self)@,
                Err(AcquireFault::NoPermits) => !old(self)@.closed && count > old(self)@.available
                    && final(self)@ == old(self)@,
            },
    {
        if count as usize > self.limit {
            if semaphore_is_closed(&self.semaphore) {
                return Err(AcquireFault::Closed);
            }
            return Err(AcquireFault::NoPermits);
        }
        semaphore_try_acquire_many(&mut self.semaphore, count)
    }

    /// Takes permits back, if so many were given out.
    pub fn release(&mut self, count: usize)
        requires
            old(self).wf(),
        ensures
            final(self).wf(),
            final(self)@ == old(self)@.returned(count as int),
    {
        let available: usize = semaphore_available_permits(&self.semaphore);
        if count <= self.limit - available {
            semaphore_add_permits(&mut self.semaphore, count);
        }
    }

    /// Gives no more permits.
    pub fn close(&mut self)
        requires
            old(self).wf(),
        ensures
            final(self).wf(),
            final(self)@ == (PermitView { closed: true, ..old(self)@ }),
    {
        semaphore_close(&mut self.semaphore);
    }

    pub fn limit(&self) -> (limit: usize)
        ensures
            limit == self@.limit,
    {
        self.limit
    }

    pub fn available(&self) -> (available: usize)
        ensures
            available == self@.available,
    {
        semaphore_available_permits(&self.semaphore)
    }

    /// The permits that are given out.
    pub fn in_flight(&self) -> (count: usize)
        requires
            self.wf(),
        ensures
            count == self@.in_flight(),
    {
        self.limit - semaphore_available_permits(&self.semaphore)
    }
}

} // verus!

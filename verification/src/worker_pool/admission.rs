//! Bounded admission: one global envelope and one class of credits per request.

use vstd::prelude::*;

use crate::worker_pool::permits::{AcquireFault, PermitPool, PermitView, MAX_PERMITS};
use crate::worker_pool::profile::{CapacityClass, CAPACITY_CLASS_COUNT};

verus! {

/// Why a request was not admitted.
#[derive(Clone, Copy, Debug, PartialEq, Eq, Structural)]
pub enum AdmissionError {
    Draining,
    Overloaded,
}

impl AdmissionError {
    /// What the error says to a reader.
    pub fn message(self) -> (text: &'static str)
        ensures
            text@ == (match self {
                AdmissionError::Draining => "router is draining"@,
                AdmissionError::Overloaded => "router admission is full"@,
            }),
    {
        match self {
            AdmissionError::Draining => "router is draining",
            AdmissionError::Overloaded => "router admission is full",
        }
    }
}

/// Why an admitted request was not handed to a worker.
#[derive(Clone, Copy, Debug, PartialEq, Eq, Structural)]
pub enum DispatchError {
    AmbiguousModel,
    NoEligibleProfile,
    Unavailable,
    Overloaded,
    Internal,
}

impl DispatchError {
    /// What the error says to a reader.
    pub fn message(self) -> (text: &'static str)
        ensures
            text@ == (match self {
                DispatchError::AmbiguousModel =>
                    "compatible workers have ambiguous default models"@,
                DispatchError::NoEligibleProfile => "no configured profile matches the request"@,
                DispatchError::Unavailable => "matching workers are unavailable"@,
                DispatchError::Overloaded => "matching worker session capacity is full"@,
                DispatchError::Internal => "router dispatch invariant failed"@,
            }),
    {
        match self {
            DispatchError::AmbiguousModel => "compatible workers have ambiguous default models",
            DispatchError::NoEligibleProfile => "no configured profile matches the request",
            DispatchError::Unavailable => "matching workers are unavailable",
            DispatchError::Overloaded => "matching worker session capacity is full",
            DispatchError::Internal => "router dispatch invariant failed",
        }
    }
}

/// A place in the global envelope. It is given back by
/// [`AdmissionController::release_envelope`], or by what consumes it.
#[derive(Debug)]
pub struct EnvelopeLease {
    held: (),
}

/// What an [`AdmissionLease`] holds besides its place in the envelope.
pub struct AdmissionHold {
    pub class: CapacityClass,
    pub credits: nat,
}

/// Global-envelope and route-class ingress ownership, released exactly once.
#[derive(Debug)]
pub struct AdmissionLease {
    class: CapacityClass,
    credits: usize,
    envelope: EnvelopeLease,
}

impl View for AdmissionLease {
    type V = AdmissionHold;

    closed spec fn view(&self) -> AdmissionHold {
        AdmissionHold { class: self.class, credits: self.credits as nat }
    }
}

impl AdmissionLease {
    pub fn class(&self) -> (class: CapacityClass)
        ensures
            class == self@.class,
    {
        self.class
    }

    /// The class credits that the request holds.
    pub fn credits(&self) -> (credits: usize)
        ensures
            credits == self@.credits,
    {
        self.credits
    }
}

/// The state of admission.
#[verifier::ext_equal]
pub struct AdmissionView {
    pub global: PermitView,
    pub classes: Seq<Option<PermitView>>,
}

impl AdmissionView {
    /// Every pool keeps its limit, and classes never close.
    pub open spec fn wf(self) -> bool {
        &&& self.global.wf()
        &&& self.classes.len() == CAPACITY_CLASS_COUNT
        &&& forall|i: int|
            0 <= i < CAPACITY_CLASS_COUNT && (#[trigger] self.classes[i]) is Some ==> {
                &&& self.classes[i]->Some_0.wf()
                &&& !self.classes[i]->Some_0.closed
            }
    }

    /// The error that the envelope refuses a request with.
    pub open spec fn envelope_refusal(self) -> Option<AdmissionError> {
        if self.global.closed {
            Some(AdmissionError::Draining)
        } else if self.global.available == 0 {
            Some(AdmissionError::Overloaded)
        } else {
            None
        }
    }

    /// After one place in the envelope was taken.
    pub open spec fn envelope_taken(self) -> AdmissionView {
        AdmissionView { global: self.global.taken(1), ..self }
    }

    /// After one place in the envelope came back.
    pub open spec fn envelope_returned(self) -> AdmissionView {
        AdmissionView { global: self.global.returned(1), ..self }
    }

    /// The class is configured and has the credits left.
    pub open spec fn class_admits(self, hold: AdmissionHold) -> bool {
        &&& self.classes[hold.class.ordinal()] is Some
        &&& hold.credits <= self.classes[hold.class.ordinal()]->Some_0.available
    }

    /// After class credits were taken.
    pub open spec fn class_taken(self, hold: AdmissionHold) -> AdmissionView {
        let index = hold.class.ordinal();
        AdmissionView {
            classes: self.classes.update(
                index,
                Some(self.classes[index]->Some_0.taken(hold.credits as int)),
            ),
            ..self
        }
    }

    /// After class credits came back.
    pub open spec fn class_returned(self, hold: AdmissionHold) -> AdmissionView {
        let index = hold.class.ordinal();
        if self.classes[index] is Some {
            AdmissionView {
                classes: self.classes.update(
                    index,
                    Some(self.classes[index]->Some_0.returned(hold.credits as int)),
                ),
                ..self
            }
        } else {
            self
        }
    }

    /// After an admitted request gave back all it held.
    pub open spec fn lease_returned(self, hold: AdmissionHold) -> AdmissionView {
        self.class_returned(hold).envelope_returned()
    }
}

/// The state of each configured class.
pub open spec fn class_views(classes: Seq<Option<PermitPool>>) -> Seq<Option<PermitView>> {
    Seq::new(
        classes.len(),
        |i: int|
            match classes[i] {
                Some(pool) => Some(pool@),
                None => None,
            },
    )
}

/// The state of a class of which nothing is given out.
pub open spec fn fresh_class(limit: Option<usize>) -> Option<PermitView> {
    match limit {
        Some(value) => Some(
            PermitView { limit: value as nat, available: value as nat, closed: false },
        ),
        None => None,
    }
}

/// A limit that a pool of permits can have.
pub open spec fn is_permit_limit(limit: Option<usize>) -> bool {
    limit is Some ==> limit->Some_0 <= MAX_PERMITS
}

/// Bounded ingress: a global envelope that drains, and optional class limits.
pub struct AdmissionController {
    global: PermitPool,
    classes: Vec<Option<PermitPool>>,
}

impl View for AdmissionController {
    type V = AdmissionView;

    closed spec fn view(&self) -> AdmissionView {
        AdmissionView { global: self.global@, classes: class_views(self.classes@) }
    }
}

impl AdmissionController {
    pub open spec fn wf(&self) -> bool {
        self@.wf()
    }

    /// Admission with the given global limit and one optional limit per class.
    pub fn new(global: usize, limits: [Option<usize>; CAPACITY_CLASS_COUNT]) -> (controller: Self)
        requires
            global <= MAX_PERMITS,
            forall|i: int|
                0 <= i < CAPACITY_CLASS_COUNT ==> is_permit_limit(#[trigger] limits@[i]),
        ensures
            controller.wf(),
            controller@ == (AdmissionView {
                global: PermitView {
                    limit: global as nat,
                    available: global as nat,
                    closed: false,
                },
                classes: Seq::new(
                    CAPACITY_CLASS_COUNT as nat,
                    |i: int| fresh_class(limits@[i]),
                ),
            }),
    {
        let mut classes: Vec<Option<PermitPool>> = Vec::new();
        let mut i: usize = 0;
        while i < CAPACITY_CLASS_COUNT
            invariant
                i <= CAPACITY_CLASS_COUNT,
                limits@.len() == CAPACITY_CLASS_COUNT,
                classes@.len() == i,
                forall|j: int|
                    0 <= j < CAPACITY_CLASS_COUNT ==> is_permit_limit(#[trigger] limits@[j]),
                forall|j: int|
                    0 <= j < i ==> #[trigger] class_views(classes@)[j] == fresh_class(limits@[j]),
            decreases CAPACITY_CLASS_COUNT - i,
        {
            let ghost before = classes@;
            assert(is_permit_limit(limits@[i as int]));
            let pool = match limits[i] {
                Some(limit) => Some(PermitPool::new(limit)),
                None => None,
            };
            classes.push(pool);
            assert forall|j: int| 0 <= j < i + 1 implies #[trigger] class_views(classes@)[j]
                == fresh_class(limits@[j]) by {
                if j < i {
                    assert(class_views(before)[j] == fresh_class(limits@[j]));
                }
            }
            i += 1;
        }
        let controller = AdmissionController { global: PermitPool::new(global), classes };
        assert(controller@.classes =~= Seq::new(
            CAPACITY_CLASS_COUNT as nat,
            |i: int| fresh_class(limits@[i]),
        ));
        assert forall|j: int|
            0 <= j < CAPACITY_CLASS_COUNT && (#[trigger] controller@.classes[j]) is Some implies {
            &&& controller@.classes[j]->Some_0.wf()
            &&& !controller@.classes[j]->Some_0.closed
        } by {
            assert(is_permit_limit(limits@[j]));
        }
        controller
    }

    /// Admits a request to the envelope and to its class. A refused request
    /// holds nothing.
    pub fn try_admit(&mut self, class: CapacityClass, credits: u32) -> (outcome: Result<
        AdmissionLease,
        AdmissionError,
    >)
        requires
            old(self).wf(),
        ensures
            final(self).wf(),
            ({
                let hold = AdmissionHold { class, credits: credits as nat };
                match old(self)@.envelope_refusal() {
                    Some(error) => outcome == Err::<AdmissionLease, AdmissionError>(error)
                        && final(self)@ == old(self)@,
                    None => if old(self)@.class_admits(hold) {
                        &&& outcome is Ok
                        &&& outcome->Ok_0@ == hold
                        &&& final(self)@ == old(self)@.envelope_taken().class_taken(hold)
                    } else {
                        &&& outcome is Err
                        &&& outcome->Err_0 is Overloaded
                        &&& final(self)@ == old(self)@
                    },
                }
            }),
    {
        match self.try_admit_envelope() {
            Ok(envelope) => self.try_admit_class(envelope, class, credits),
            Err(error) => Err(error),
        }
    }

    /// Admits a request to the global envelope.
    pub fn try_admit_envelope(&mut self) -> (outcome: Result<EnvelopeLease, AdmissionError>)
        requires
            old(self).wf(),
        ensures
            final(self).wf(),
            match old(self)@.envelope_refusal() {
                Some(error) => outcome == Err::<EnvelopeLease, AdmissionError>(error)
                    && final(self)@ == old(self)@,
                None => outcome is Ok && final(self)@ == old(self)@.envelope_taken(),
            },
    {
        match self.global.try_acquire(1) {
            Ok(_) => Ok(EnvelopeLease { held: () }),
            Err(AcquireFault::Closed) => Err(AdmissionError::Draining),
            Err(AcquireFault::NoPermits) => Err(AdmissionError::Overloaded),
        }
    }

    /// Admits a request that holds a place in the envelope to its class. A
    /// refused request gives its place back.
    pub fn try_admit_class(
        &mut self,
        envelope: EnvelopeLease,
        class: CapacityClass,
        credits: u32,
    ) -> (outcome: Result<AdmissionLease, AdmissionError>)
        requires
            old(self).wf(),
        ensures
            final(self).wf(),
            ({
                let hold = AdmissionHold { class, credits: credits as nat };
                if old(self)@.class_admits(hold) {
                    &&& outcome is Ok
                    &&& outcome->Ok_0@ == hold
                    &&& final(self)@ == old(self)@.class_taken(hold)
                } else {
                    &&& outcome is Err
                    &&& outcome->Err_0 is Overloaded
                    &&& final(self)@ == old(self)@.envelope_returned()
                }
            }),
    {
        let index: usize = class.index();
        let ghost before = self@;
        let mut slot: Option<PermitPool> = None;
        assert(before.classes[index as int] == class_views(self.classes@)[index as int]);
        std::mem::swap(&mut slot, &mut self.classes[index]);
        let granted = match &mut slot {
            Some(pool) => match pool.try_acquire(credits) {
                Ok(_) => true,
                Err(_) => false,
            },
            None => false,
        };
        self.classes[index] = slot;
        if granted {
            assert(self@.classes =~= before.class_taken(
                AdmissionHold { class, credits: credits as nat },
            ).classes);
            Ok(AdmissionLease { class, credits: credits as usize, envelope })
        } else {
            assert(self@.classes =~= before.classes);
            self.global.release(1);
            Err(AdmissionError::Overloaded)
        }
    }

    /// Takes a place in the envelope back.
    pub fn release_envelope(&mut self, envelope: EnvelopeLease)
        requires
            old(self).wf(),
        ensures
            final(self).wf(),
            final(self)@ == old(self)@.envelope_returned(),
    {
        self.global.release(1);
    }

    /// Takes all that an admitted request holds back.
    pub fn release(&mut self, lease: AdmissionLease)
        requires
            old(self).wf(),
        ensures
            final(self).wf(),
            final(self)@ == old(self)@.lease_returned(lease@),
    {
        let index: usize = lease.class.index();
        let ghost before = self@;
        let mut slot: Option<PermitPool> = None;
        assert(before.classes[index as int] == class_views(self.classes@)[index as int]);
        std::mem::swap(&mut slot, &mut self.classes[index]);
        if let Some(pool) = &mut slot {
            pool.release(lease.credits);
        }
        self.classes[index] = slot;
        assert(self@.classes =~= before.class_returned(lease@).classes);
        self.release_envelope(lease.envelope);
    }

    /// Refuses every further request; admitted requests are untouched.
    pub fn close(&mut self)
        requires
            old(self).wf(),
        ensures
            final(self).wf(),
            final(self)@ == (AdmissionView {
                global: PermitView { closed: true, ..old(self)@.global },
                ..old(self)@
            }),
    {
        self.global.close();
    }

    /// The limit and the permits given out, of the envelope and of each class
    /// in order. A class without a limit shows zeros.
    pub fn snapshot(&self) -> (table: [(usize, usize); 7])
        requires
            self.wf(),
        ensures
            table@[0] == occupancy(Some(self@.global)),
            forall|i: int|
                0 <= i < CAPACITY_CLASS_COUNT ==> #[trigger] table@[i + 1] == occupancy(
                    self@.classes[i],
                ),
    {
        let mut table: [(usize, usize); 7] = [(0, 0);7];
        table[0] = (self.global.limit(), self.global.in_flight());
        let mut i: usize = 0;
        while i < CAPACITY_CLASS_COUNT
            invariant
                i <= CAPACITY_CLASS_COUNT,
                self.wf(),
                table@.len() == 7,
                table@[0] == occupancy(Some(self@.global)),
                forall|j: int|
                    0 <= j < i ==> #[trigger] table@[j + 1] == occupancy(self@.classes[j]),
            decreases CAPACITY_CLASS_COUNT - i,
        {
            assert(self@.classes[i as int] == class_views(self.classes@)[i as int]);
            let entry: (usize, usize) = match &self.classes[i] {
                Some(pool) => (pool.limit(), pool.in_flight()),
                None => (0, 0),
            };
            table[i + 1] = entry;
            i += 1;
        }
        table
    }

    /// The permits left in the envelope and in each class.
    pub fn available(&self) -> (left: (usize, [Option<usize>; 6]))
        requires
            self.wf(),
        ensures
            left.0 == self@.global.available,
            forall|i: int|
                0 <= i < CAPACITY_CLASS_COUNT ==> match #[trigger] left.1@[i] {
                    Some(permits) => self@.classes[i] is Some && permits
                        == self@.classes[i]->Some_0.available,
                    None => self@.classes[i] is None,
                },
    {
        let mut classes: [Option<usize>; 6] = [None;6];
        let mut i: usize = 0;
        while i < CAPACITY_CLASS_COUNT
            invariant
                i <= CAPACITY_CLASS_COUNT,
                self.wf(),
                classes@.len() == 6,
                forall|j: int|
                    0 <= j < i ==> match #[trigger] classes@[j] {
                        Some(permits) => self@.classes[j] is Some && permits
                            == self@.classes[j]->Some_0.available,
                        None => self@.classes[j] is None,
                    },
            decreases CAPACITY_CLASS_COUNT - i,
        {
            assert(self@.classes[i as int] == class_views(self.classes@)[i as int]);
            let entry: Option<usize> = match &self.classes[i] {
                Some(pool) => Some(pool.available()),
                None => None,
            };
            classes[i] = entry;
            i += 1;
        }
        (self.global.available(), classes)
    }
}

/// The limit of a pool and the permits that it gave out; zeros where there is
/// no pool.
pub open spec fn occupancy(pool: Option<PermitView>) -> (usize, usize) {
    match pool {
        Some(permits) => (permits.limit as usize, permits.in_flight() as usize),
        None => (0, 0),
    }
}

} // verus!

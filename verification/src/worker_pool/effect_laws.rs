//! What admission, dispatch and release change, and what they leave alone.

use vstd::prelude::*;

use crate::worker_pool::admission::{AdmissionError, AdmissionHold, AdmissionView, DispatchError};
use crate::worker_pool::health::WorkerHealth;
use crate::worker_pool::permits::PermitView;
use crate::worker_pool::pool::{dispatched, RequestLease};
use crate::worker_pool::profile::CapacityClass;
use crate::worker_pool::routing::{Decision, PoolView, RequestHold};

verus! {

/// Taking permits takes that many and nothing else.
pub proof fn law_permits_are_taken_one_for_one(pool: PermitView, count: nat)
    requires
        count <= pool.available,
    ensures
        pool.taken(count as int).available + count == pool.available,
        pool.taken(count as int).limit == pool.limit,
        pool.taken(count as int).closed == pool.closed,
        pool.taken(count as int).in_flight() == pool.in_flight() + count,
{
}

/// Permits that were given out come back, that many and nothing else; more than
/// were given out do not.
pub proof fn law_permits_come_back_one_for_one(pool: PermitView, count: nat)
    requires
        pool.available <= pool.limit,
    ensures
        pool.returned(count as int).limit == pool.limit,
        pool.returned(count as int).closed == pool.closed,
        pool.limit - pool.available >= count ==> pool.returned(count as int).available
            == pool.available + count,
        pool.limit - pool.available < count ==> pool.returned(count as int).available
            == pool.available,
{
}

/// A pool is refused entry as draining exactly when the envelope is closed, and
/// as overloaded exactly when it is open and full.
pub proof fn law_envelope_refuses_when_closed_or_full(admission: AdmissionView)
    ensures
        admission.envelope_refusal() == Some(AdmissionError::Draining) <==> admission.global.closed,
        admission.envelope_refusal() == Some(AdmissionError::Overloaded)
            <==> !admission.global.closed && admission.global.available == 0,
        admission.envelope_refusal() is None <==> !admission.global.closed
            && admission.global.available >= 1,
{
}

/// A place in the envelope is one permit of the envelope, and no class credit.
pub proof fn law_envelope_place_is_one_permit(admission: AdmissionView)
    requires
        admission.wf(),
    ensures
        admission.global.available >= 1 ==> {
            let after = admission.envelope_taken();
            &&& after.global.available == admission.global.available - 1
            &&& after.global.limit == admission.global.limit
            &&& after.global.closed == admission.global.closed
            &&& after.classes == admission.classes
            &&& after.envelope_returned() == admission
        },
        admission.global.available < admission.global.limit ==> {
            let after = admission.envelope_returned();
            &&& after.global.available == admission.global.available + 1
            &&& after.global.limit == admission.global.limit
            &&& after.global.closed == admission.global.closed
            &&& after.classes == admission.classes
        },
{
    if admission.global.available >= 1 {
        assert(admission.envelope_taken().envelope_returned() =~= admission);
    }
}

/// Credits are taken from one class: it then admits that many fewer, every
/// other class admits what it did, and the envelope is left alone.
pub proof fn law_credits_are_taken_from_one_class(
    admission: AdmissionView,
    hold: AdmissionHold,
    other: AdmissionHold,
)
    requires
        admission.wf(),
        admission.class_admits(hold),
    ensures
        ({
            let after = admission.class_taken(hold);
            let both = AdmissionHold { class: hold.class, credits: hold.credits + other.credits };
            &&& after.global == admission.global
            &&& other.class == hold.class ==> (after.class_admits(other)
                <==> admission.class_admits(both))
            &&& other.class != hold.class ==> (after.class_admits(other)
                <==> admission.class_admits(other))
        }),
{
}

/// Credits that come back to a class can be had again, every other class
/// admits what it did, and the envelope is left alone.
pub proof fn law_credits_come_back_to_one_class(
    admission: AdmissionView,
    hold: AdmissionHold,
    other: AdmissionHold,
)
    requires
        admission.wf(),
        admission.class_admits(hold),
    ensures
        ({
            let taken = admission.class_taken(hold);
            let after = taken.class_returned(hold);
            &&& after == admission
            &&& taken.lease_returned(hold) == admission.envelope_returned()
            &&& other.class != hold.class ==> (admission.class_returned(hold).class_admits(other)
                <==> admission.class_admits(other))
            &&& admission.class_returned(hold).global == admission.global
        }),
{
    let after = admission.class_taken(hold).class_returned(hold);
    assert(after.classes =~= admission.classes);
    assert(after =~= admission);
}

/// A class admits credits exactly while it has that many, and admits fewer
/// wherever it admits more.
pub proof fn law_class_admits_while_credits_last(
    admission: AdmissionView,
    class: CapacityClass,
    fewer: nat,
    more: nat,
)
    requires
        fewer <= more,
        admission.class_admits(AdmissionHold { class, credits: more }),
    ensures
        admission.class_admits(AdmissionHold { class, credits: fewer }),
{
}

/// Each class has its own credits.
pub proof fn law_each_class_has_its_own_credits(admission: AdmissionView, credits: nat)
    ensures
        admission.class_admits(AdmissionHold { class: CapacityClass::GenerationHttp, credits })
            <==> admission.classes[0] is Some && credits <= admission.classes[0]->Some_0.available,
        admission.class_admits(AdmissionHold { class: CapacityClass::SpeechHttp, credits })
            <==> admission.classes[1] is Some && credits <= admission.classes[1]->Some_0.available,
        admission.class_admits(AdmissionHold { class: CapacityClass::SpeechBatch, credits })
            <==> admission.classes[2] is Some && credits <= admission.classes[2]->Some_0.available,
        admission.class_admits(AdmissionHold { class: CapacityClass::TranscriptionHttp, credits })
            <==> admission.classes[3] is Some && credits <= admission.classes[3]->Some_0.available,
        admission.class_admits(AdmissionHold { class: CapacityClass::SpeechWebsocket, credits })
            <==> admission.classes[4] is Some && credits <= admission.classes[4]->Some_0.available,
        admission.class_admits(AdmissionHold { class: CapacityClass::RealtimeWebsocket, credits })
            <==> admission.classes[5] is Some && credits <= admission.classes[5]->Some_0.available,
{
}

/// A request that is assigned puts the credits that it holds on its worker as
/// load, takes one session of the worker if it is one, and changes nothing
/// else but whose turn it is.
pub proof fn law_dispatch_loads_one_worker(
    before: PoolView,
    admission: AdmissionHold,
    session: Option<CapacityClass>,
    decision: Decision,
    outcome: Result<RequestLease, DispatchError>,
    after: PoolView,
    other: int,
)
    requires
        before.wf(),
        dispatched(before, admission, session, decision, outcome, after),
        decision is Assign,
        before.workers[decision->Assign_0 as int].load + admission.credits <= usize::MAX,
        session == Some(CapacityClass::SpeechWebsocket)
            ==> before.workers[decision->Assign_0 as int].sessions[0] is Some
            && before.workers[decision->Assign_0 as int].sessions[0]->Some_0.available >= 1,
        session == Some(CapacityClass::RealtimeWebsocket)
            ==> before.workers[decision->Assign_0 as int].sessions[1] is Some
            && before.workers[decision->Assign_0 as int].sessions[1]->Some_0.available >= 1,
        session is Some ==> session->Some_0 is SpeechWebsocket || session->Some_0
            is RealtimeWebsocket,
        0 <= other < before.workers.len(),
    ensures
        ({
            let w = decision->Assign_0;
            let then = before.workers[w as int];
            let now = after.workers[w as int];
            &&& outcome is Ok
            &&& outcome->Ok_0@.worker == w
            &&& outcome->Ok_0@.weight == admission.credits
            &&& outcome->Ok_0@.admission == Some(admission)
            &&& outcome->Ok_0@.session == session
            &&& after.roster == before.roster
            &&& after.strategy == before.strategy
            &&& after.voice_owner == before.voice_owner
            &&& after.admission == before.admission
            &&& after.order == decision->Assign_1
            &&& after.workers.len() == before.workers.len()
            &&& other != w ==> after.workers[other] == before.workers[other]
            &&& now.load == then.load + admission.credits
            &&& now.health == then.health
            &&& session != Some(CapacityClass::SpeechWebsocket) ==> now.sessions[0]
                == then.sessions[0]
            &&& session != Some(CapacityClass::RealtimeWebsocket) ==> now.sessions[1]
                == then.sessions[1]
            &&& session == Some(CapacityClass::SpeechWebsocket) ==> now.sessions[0] is Some
                && now.sessions[0]->Some_0.available == then.sessions[0]->Some_0.available - 1
                && now.sessions[0]->Some_0.limit == then.sessions[0]->Some_0.limit
            &&& session == Some(CapacityClass::RealtimeWebsocket) ==> now.sessions[1] is Some
                && now.sessions[1]->Some_0.available == then.sessions[1]->Some_0.available - 1
                && now.sessions[1]->Some_0.limit == then.sessions[1]->Some_0.limit
        }),
{
    assert(before.workers[decision->Assign_0 as int].wf());
}

/// A request that is refused gives back its credits and its place, and changes
/// nothing else, not even whose turn it is.
pub proof fn law_refused_dispatch_changes_admission_alone(
    before: PoolView,
    admission: AdmissionHold,
    session: Option<CapacityClass>,
    decision: Decision,
    outcome: Result<RequestLease, DispatchError>,
    after: PoolView,
)
    requires
        before.wf(),
        dispatched(before, admission, session, decision, outcome, after),
        decision is Refuse,
    ensures
        outcome is Err,
        outcome->Err_0 == decision->Refuse_0,
        after.roster == before.roster,
        after.strategy == before.strategy,
        after.voice_owner == before.voice_owner,
        after.workers == before.workers,
        after.order == before.order,
        before.admission.global.available < before.admission.global.limit
            ==> after.admission.global.available == before.admission.global.available + 1,
        ({
            let index = admission.class.ordinal();
            let credits = before.admission.classes[index]->Some_0;
            before.admission.classes[index] is Some && admission.credits <= credits.limit
                - credits.available ==> {
                &&& after.admission.classes[index] is Some
                &&& after.admission.classes[index]->Some_0.available == credits.available
                    + admission.credits
            }
        }),
{
}

/// A request that is done with takes its load off its worker, gives its session
/// back if it had one, and gives back its place and its credits. No other
/// worker is touched, and nobody's turn changes.
pub proof fn law_release_frees_one_worker(before: PoolView, hold: RequestHold, other: int)
    requires
        before.wf(),
        hold.worker < before.workers.len(),
        hold.weight <= before.workers[hold.worker as int].load,
        0 <= other < before.workers.len(),
    ensures
        ({
            let after = before.released(hold);
            let then = before.workers[hold.worker as int];
            let now = after.workers[hold.worker as int];
            &&& after.roster == before.roster
            &&& after.strategy == before.strategy
            &&& after.voice_owner == before.voice_owner
            &&& after.order == before.order
            &&& after.workers.len() == before.workers.len()
            &&& other != hold.worker ==> after.workers[other] == before.workers[other]
            &&& now.load == then.load - hold.weight
            &&& now.health == then.health
            &&& hold.session != Some(CapacityClass::SpeechWebsocket) ==> now.sessions[0]
                == then.sessions[0]
            &&& hold.session != Some(CapacityClass::RealtimeWebsocket) ==> now.sessions[1]
                == then.sessions[1]
            &&& hold.session == Some(CapacityClass::SpeechWebsocket) && then.sessions[0] is Some
                && then.sessions[0]->Some_0.available < then.sessions[0]->Some_0.limit ==> {
                &&& now.sessions[0] is Some
                &&& now.sessions[0]->Some_0.available == then.sessions[0]->Some_0.available + 1
                &&& now.sessions[0]->Some_0.limit == then.sessions[0]->Some_0.limit
            }
            &&& hold.session == Some(CapacityClass::RealtimeWebsocket) && then.sessions[1] is Some
                && then.sessions[1]->Some_0.available < then.sessions[1]->Some_0.limit ==> {
                &&& now.sessions[1] is Some
                &&& now.sessions[1]->Some_0.available == then.sessions[1]->Some_0.available + 1
                &&& now.sessions[1]->Some_0.limit == then.sessions[1]->Some_0.limit
            }
            &&& before.admission.global.available < before.admission.global.limit
                ==> after.admission.global.available == before.admission.global.available + 1
            &&& hold.admission is None ==> after.admission.classes == before.admission.classes
            &&& hold.admission matches Some(admission) ==> after.admission
                == before.admission.lease_returned(admission)
        }),
{
    assert(before.workers[hold.worker as int].wf());
}

/// A published health is that of one worker, and nothing else changes.
pub proof fn law_health_is_published_for_one_worker(
    pool: PoolView,
    worker: int,
    health: WorkerHealth,
    other: int,
)
    requires
        0 <= worker < pool.workers.len(),
        0 <= other < pool.workers.len(),
    ensures
        ({
            let after = pool.with_health(worker, health);
            &&& after.workers.len() == pool.workers.len()
            &&& after.workers[worker].health == health
            &&& after.workers[worker].load == pool.workers[worker].load
            &&& after.workers[worker].sessions == pool.workers[worker].sessions
            &&& other != worker ==> after.workers[other] == pool.workers[other]
            &&& after.roster == pool.roster
            &&& after.strategy == pool.strategy
            &&& after.voice_owner == pool.voice_owner
            &&& after.order == pool.order
            &&& after.admission == pool.admission
        }),
{
}

/// Draining closes the envelope, and changes nothing else.
pub proof fn law_draining_closes_the_envelope_alone(pool: PoolView)
    ensures
        pool.drained().admission.global.closed,
        pool.drained().admission.global.available == pool.admission.global.available,
        pool.drained().admission.global.limit == pool.admission.global.limit,
        pool.drained().admission.classes == pool.admission.classes,
        pool.drained().workers == pool.workers,
        pool.drained().order == pool.order,
        pool.drained().roster == pool.roster,
        pool.drained().strategy == pool.strategy,
        pool.drained().voice_owner == pool.voice_owner,
{
}

} // verus!

//! The books of the pool: what is given out is exactly what requests hold.

use vstd::prelude::*;

use crate::config::PoolConfig;
use crate::operations::metrics::{class_total, session_total, sums_fit, total_load};
use crate::worker_pool::admission::AdmissionHold;
use crate::worker_pool::health::WorkerHealth;
use crate::worker_pool::permits::{PermitView, MAX_PERMITS};
use crate::worker_pool::profile::{
    CapacityClass, WorkerConfig, CAPACITY_CLASS_COUNT, MAX_SESSION_LIMIT, MAX_WORKERS,
};
use crate::worker_pool::record::{session_slot, SESSION_CLASS_COUNT};
use crate::worker_pool::routing::{PoolView, RequestHold};
use crate::worker_pool::selection::is_turn_order;
use crate::worker_pool::snapshot::{session_readings, OperationsSnapshot};
use crate::worker_pool::startup::{buildable, initial_pool, limit_fits, registrable, worker_named};

verus! {

/// What one request holds. Each has one place in the envelope.
pub enum Outstanding {
    /// Only its place in the envelope.
    Envelope,
    /// Class credits besides.
    Admitted(AdmissionHold),
    /// A worker besides.
    Dispatched(RequestHold),
}

impl Outstanding {
    /// The credits of the class at the given place that the request holds.
    pub open spec fn credits(self, class: int) -> int {
        match self {
            Outstanding::Envelope => 0,
            Outstanding::Admitted(hold) => held_credits(Some(hold), class),
            Outstanding::Dispatched(hold) => held_credits(hold.admission, class),
        }
    }

    /// The load that the request puts on a worker.
    pub open spec fn load(self, worker: int) -> int {
        match self {
            Outstanding::Dispatched(hold) => if hold.worker == worker {
                hold.weight as int
            } else {
                0
            },
            _ => 0,
        }
    }

    /// The sessions of the class at the given place that the request has on a worker.
    pub open spec fn sessions(self, worker: int, slot: int) -> int {
        match self {
            Outstanding::Dispatched(hold) => if hold.worker == worker && occupies(
                hold.session,
                slot,
            ) {
                1
            } else {
                0
            },
            _ => 0,
        }
    }

    /// The request weighs what it was admitted with, a request that has only
    /// its place weighs one, and sessions are of a session class.
    pub open spec fn wf(self, workers: nat) -> bool {
        match self {
            Outstanding::Dispatched(hold) => {
                &&& hold.worker < workers
                &&& hold.weight as int == (match hold.admission {
                    Some(admission) => admission.credits as int,
                    None => 1,
                })
                &&& hold.session is Some ==> session_slot(hold.session->Some_0) is Some
            },
            _ => true,
        }
    }
}

/// The credits of the class at the given place in a hold.
pub open spec fn held_credits(hold: Option<AdmissionHold>, class: int) -> int {
    match hold {
        Some(admission) => if admission.class.ordinal() == class {
            admission.credits as int
        } else {
            0
        },
        None => 0,
    }
}

/// A session occupies the slot.
pub open spec fn occupies(session: Option<CapacityClass>, slot: int) -> bool {
    session is Some && session_slot(session->Some_0) == Some(slot as usize)
}

/// The sum of an amount over all requests.
pub open spec fn total(held: Seq<Outstanding>, amount: spec_fn(Outstanding) -> int) -> int
    decreases held.len(),
{
    if held.len() == 0 {
        0
    } else {
        total(held.drop_last(), amount) + amount(held.last())
    }
}

/// The credits of a class that requests hold.
pub open spec fn credits_of(class: int) -> spec_fn(Outstanding) -> int {
    |one: Outstanding| one.credits(class)
}

/// The load that requests put on a worker.
pub open spec fn load_on(worker: int) -> spec_fn(Outstanding) -> int {
    |one: Outstanding| one.load(worker)
}

/// The sessions that requests have on a worker.
pub open spec fn sessions_on(worker: int, slot: int) -> spec_fn(Outstanding) -> int {
    |one: Outstanding| one.sessions(worker, slot)
}

/// The permits that a pool gave out; none where there is no pool.
pub open spec fn given_out(pool: Option<PermitView>) -> int {
    match pool {
        Some(permits) => permits.in_flight(),
        None => 0,
    }
}

/// The books balance: places, credits, sessions and load that the pool counts
/// as given out are exactly those that the requests hold.
pub open spec fn balanced(pool: PoolView, held: Seq<Outstanding>) -> bool {
    &&& pool.wf()
    &&& forall|i: int| 0 <= i < held.len() ==> (#[trigger] held[i]).wf(pool.roster.len())
    &&& pool.admission.global.in_flight() == held.len()
    &&& forall|class: int|
        0 <= class < CAPACITY_CLASS_COUNT ==> given_out(#[trigger] pool.admission.classes[class])
            == total(held, credits_of(class))
    &&& forall|worker: int|
        0 <= worker < pool.roster.len() ==> (#[trigger] pool.workers[worker]).load == total(
            held,
            load_on(worker),
        )
    &&& forall|worker: int, slot: int|
        0 <= worker < pool.roster.len() && 0 <= slot < SESSION_CLASS_COUNT ==> given_out(
            #[trigger] pool.workers[worker].sessions[slot],
        ) == total(held, sessions_on(worker, slot))
}

/// The sum with one request replaced.
proof fn lemma_total_update(
    held: Seq<Outstanding>,
    at: int,
    one: Outstanding,
    amount: spec_fn(Outstanding) -> int,
)
    requires
        0 <= at < held.len(),
    ensures
        total(held.update(at, one), amount) == total(held, amount) - amount(held[at]) + amount(one),
    decreases held.len(),
{
    let last = held.len() - 1;
    if at == last {
        assert(held.update(at, one).drop_last() =~= held.drop_last());
    } else {
        assert(held.update(at, one).drop_last() =~= held.drop_last().update(at, one));
        lemma_total_update(held.drop_last(), at, one, amount);
    }
}

/// The sum with one request gone.
proof fn lemma_total_remove(
    held: Seq<Outstanding>,
    at: int,
    amount: spec_fn(Outstanding) -> int,
)
    requires
        0 <= at < held.len(),
    ensures
        total(held.remove(at), amount) == total(held, amount) - amount(held[at]),
    decreases held.len(),
{
    let last = held.len() - 1;
    if at == last {
        assert(held.remove(at) =~= held.drop_last());
    } else {
        assert(held.remove(at).drop_last() =~= held.drop_last().remove(at));
        assert(held.remove(at).last() == held.last());
        lemma_total_remove(held.drop_last(), at, amount);
    }
}

/// The sum with one request more.
proof fn lemma_total_push(held: Seq<Outstanding>, one: Outstanding, amount: spec_fn(Outstanding) -> int)
    ensures
        total(held.push(one), amount) == total(held, amount) + amount(one),
{
    assert(held.push(one).drop_last() =~= held);
}

/// A sum of amounts of which none is negative.
proof fn lemma_total_bounds(held: Seq<Outstanding>, at: int, amount: spec_fn(Outstanding) -> int)
    requires
        0 <= at < held.len(),
        forall|one: Outstanding| #[trigger] amount(one) >= 0,
    ensures
        0 <= amount(held[at]) <= total(held, amount),
    decreases held.len(),
{
    lemma_total_nonnegative(held.drop_last(), amount);
    if at < held.len() - 1 {
        lemma_total_bounds(held.drop_last(), at, amount);
    }
}

/// A sum of amounts of which none is negative is not negative.
proof fn lemma_total_nonnegative(held: Seq<Outstanding>, amount: spec_fn(Outstanding) -> int)
    requires
        forall|one: Outstanding| #[trigger] amount(one) >= 0,
    ensures
        total(held, amount) >= 0,
    decreases held.len(),
{
    if held.len() > 0 {
        lemma_total_nonnegative(held.drop_last(), amount);
    }
}

/// All class credits of a request.
spec fn all_credits(one: Outstanding) -> int {
    one.credits(0) + one.credits(1) + one.credits(2) + one.credits(3) + one.credits(4)
        + one.credits(5)
}

/// The load of a worker is at most all credits and one for each request.
proof fn lemma_load_bound(held: Seq<Outstanding>, workers: nat, worker: int)
    requires
        forall|i: int| 0 <= i < held.len() ==> (#[trigger] held[i]).wf(workers),
    ensures
        total(held, load_on(worker)) <= total(held, credits_of(0)) + total(held, credits_of(1))
            + total(held, credits_of(2)) + total(held, credits_of(3)) + total(held, credits_of(4))
            + total(held, credits_of(5)) + held.len(),
    decreases held.len(),
{
    if held.len() > 0 {
        let rest = held.drop_last();
        assert forall|i: int| 0 <= i < rest.len() implies (#[trigger] rest[i]).wf(workers) by {
            assert(held[i].wf(workers));
        }
        lemma_load_bound(rest, workers, worker);
        let one = held.last();
        assert(held[held.len() - 1].wf(workers));
        assert(one.load(worker) <= all_credits(one) + 1);
    }
}

/// A pool starts with balanced books.
pub proof fn law_books_start_balanced(config: PoolConfig)
    requires
        buildable(config),
        config.workers@.len() <= MAX_WORKERS,
    ensures
        balanced(initial_pool(config), Seq::empty()),
{
    let pool = initial_pool(config);
    assert forall|i: int| 0 <= i < pool.workers.len() implies (#[trigger] pool.workers[i]).wf() by {
        assert(registrable(config.workers@[i]));
    }
    assert forall|i: int|
        0 <= i < CAPACITY_CLASS_COUNT && (#[trigger] pool.admission.classes[i]) is Some implies {
        &&& pool.admission.classes[i]->Some_0.wf()
        &&& !pool.admission.classes[i]->Some_0.closed
    } by {
        assert(limit_fits(config.admission.classes()[i]));
    }
    if let Some(id) = config.voice_owner_worker_id {
        lemma_worker_named(config.workers@, id@, 0);
    }
}

/// The place of a named worker is in the list or at its end.
proof fn lemma_worker_named(workers: Seq<WorkerConfig>, id: Seq<char>, from: int)
    requires
        0 <= from <= workers.len(),
    ensures
        from <= worker_named(workers, id, from) <= workers.len(),
    decreases workers.len() - from,
{
    if from < workers.len() && workers[from].worker_id@ != id {
        lemma_worker_named(workers, id, from + 1);
    }
}

/// Admission to the envelope is booked.
pub proof fn law_envelope_admission_is_booked(pool: PoolView, held: Seq<Outstanding>)
    requires
        balanced(pool, held),
        pool.admission.envelope_refusal() is None,
    ensures
        balanced(
            PoolView { admission: pool.admission.envelope_taken(), ..pool },
            held.push(Outstanding::Envelope),
        ),
{
    let one = Outstanding::Envelope;
    let after = PoolView { admission: pool.admission.envelope_taken(), ..pool };
    assert forall|class: int| 0 <= class < CAPACITY_CLASS_COUNT implies given_out(
        #[trigger] after.admission.classes[class],
    ) == total(held.push(one), credits_of(class)) by {
        lemma_total_push(held, one, credits_of(class));
    }
    assert forall|worker: int| 0 <= worker < pool.roster.len() implies (
    #[trigger] after.workers[worker]).load == total(held.push(one), load_on(worker)) by {
        assert(pool.workers[worker].load == total(held, load_on(worker)));
        lemma_total_push(held, one, load_on(worker));
    }
    assert forall|worker: int, slot: int|
        0 <= worker < pool.roster.len() && 0 <= slot < SESSION_CLASS_COUNT implies given_out(
        #[trigger] after.workers[worker].sessions[slot],
    ) == total(held.push(one), sessions_on(worker, slot)) by {
        assert(given_out(pool.workers[worker].sessions[slot]) == total(
            held,
            sessions_on(worker, slot),
        ));
        lemma_total_push(held, one, sessions_on(worker, slot));
    }
}

/// Admission to a class is booked.
pub proof fn law_class_admission_is_booked(
    pool: PoolView,
    held: Seq<Outstanding>,
    at: int,
    hold: AdmissionHold,
)
    requires
        balanced(pool, held),
        0 <= at < held.len(),
        held[at] is Envelope,
        pool.admission.class_admits(hold),
    ensures
        balanced(
            PoolView { admission: pool.admission.class_taken(hold), ..pool },
            held.update(at, Outstanding::Admitted(hold)),
        ),
{
    let one = Outstanding::Admitted(hold);
    let after = PoolView { admission: pool.admission.class_taken(hold), ..pool };
    assert forall|class: int| 0 <= class < CAPACITY_CLASS_COUNT implies given_out(
        #[trigger] after.admission.classes[class],
    ) == total(held.update(at, one), credits_of(class)) by {
        assert(given_out(pool.admission.classes[class]) == total(held, credits_of(class)));
        lemma_total_update(held, at, one, credits_of(class));
    }
    assert forall|worker: int| 0 <= worker < pool.roster.len() implies (
    #[trigger] after.workers[worker]).load == total(held.update(at, one), load_on(worker)) by {
        assert(pool.workers[worker].load == total(held, load_on(worker)));
        lemma_total_update(held, at, one, load_on(worker));
    }
    assert forall|worker: int, slot: int|
        0 <= worker < pool.roster.len() && 0 <= slot < SESSION_CLASS_COUNT implies given_out(
        #[trigger] after.workers[worker].sessions[slot],
    ) == total(held.update(at, one), sessions_on(worker, slot)) by {
        assert(given_out(pool.workers[worker].sessions[slot]) == total(
            held,
            sessions_on(worker, slot),
        ));
        lemma_total_update(held, at, one, sessions_on(worker, slot));
    }
}

/// What a request holds when it is refused comes back: a refused request
/// leaves the books balanced without it.
pub proof fn law_refusal_returns_what_was_held(
    pool: PoolView,
    held: Seq<Outstanding>,
    at: int,
)
    requires
        balanced(pool, held),
        0 <= at < held.len(),
        !(held[at] is Dispatched),
    ensures
        match held[at] {
            Outstanding::Admitted(hold) => balanced(pool.admission_returned(hold), held.remove(at)),
            _ => balanced(pool.envelope_returned(), held.remove(at)),
        },
{
    let one = held[at];
    let after = match one {
        Outstanding::Admitted(hold) => pool.admission_returned(hold),
        _ => pool.envelope_returned(),
    };
    let rest = held.remove(at);
    assert forall|i: int| 0 <= i < rest.len() implies (#[trigger] rest[i]).wf(
        pool.roster.len(),
    ) by {
        assert(rest[i] == if i < at {
            held[i]
        } else {
            held[i + 1]
        });
    }
    assert forall|class: int| 0 <= class < CAPACITY_CLASS_COUNT implies given_out(
        #[trigger] after.admission.classes[class],
    ) == total(rest, credits_of(class)) by {
        assert(given_out(pool.admission.classes[class]) == total(held, credits_of(class)));
        lemma_total_remove(held, at, credits_of(class));
        lemma_total_bounds(held, at, credits_of(class));
    }
    assert forall|worker: int| 0 <= worker < pool.roster.len() implies (
    #[trigger] after.workers[worker]).load == total(rest, load_on(worker)) by {
        assert(pool.workers[worker].load == total(held, load_on(worker)));
        lemma_total_remove(held, at, load_on(worker));
    }
    assert forall|worker: int, slot: int|
        0 <= worker < pool.roster.len() && 0 <= slot < SESSION_CLASS_COUNT implies given_out(
        #[trigger] after.workers[worker].sessions[slot],
    ) == total(rest, sessions_on(worker, slot)) by {
        assert(given_out(pool.workers[worker].sessions[slot]) == total(
            held,
            sessions_on(worker, slot),
        ));
        lemma_total_remove(held, at, sessions_on(worker, slot));
    }
}

/// The load counter never wraps while the books balance.
proof fn lemma_load_fits(pool: PoolView, held: Seq<Outstanding>, at: int, hold: RequestHold)
    requires
        balanced(pool, held),
        0 <= at < held.len(),
        !(held[at] is Dispatched),
        Outstanding::Dispatched(hold).wf(pool.roster.len()),
        hold.admission == (match held[at] {
            Outstanding::Admitted(admission) => Some(admission),
            _ => None,
        }),
    ensures
        pool.workers[hold.worker as int].load + hold.weight <= usize::MAX,
{
    let one = Outstanding::Dispatched(hold);
    let worker = hold.worker as int;
    let after = held.update(at, one);
    assert forall|i: int| 0 <= i < after.len() implies (#[trigger] after[i]).wf(
        pool.roster.len(),
    ) by {
        if i != at {
            assert(after[i] == held[i]);
        }
    }
    lemma_load_bound(after, pool.roster.len(), worker);
    lemma_total_update(held, at, one, load_on(worker));
    assert forall|class: int| 0 <= class < CAPACITY_CLASS_COUNT implies total(
        after,
        #[trigger] credits_of(class),
    ) <= MAX_PERMITS by {
        lemma_total_update(held, at, one, credits_of(class));
        assert(given_out(pool.admission.classes[class]) == total(held, credits_of(class)));
    }
    assert(total(after, credits_of(0)) <= MAX_PERMITS);
    assert(total(after, credits_of(1)) <= MAX_PERMITS);
    assert(total(after, credits_of(2)) <= MAX_PERMITS);
    assert(total(after, credits_of(3)) <= MAX_PERMITS);
    assert(total(after, credits_of(4)) <= MAX_PERMITS);
    assert(total(after, credits_of(5)) <= MAX_PERMITS);
    assert(pool.workers[worker].load == total(held, load_on(worker)));
}

/// A dispatch is booked: the request puts its weight on its worker, and the
/// load counter does not wrap.
pub proof fn law_dispatch_is_booked(
    pool: PoolView,
    held: Seq<Outstanding>,
    at: int,
    hold: RequestHold,
    order: Seq<usize>,
)
    requires
        balanced(pool, held),
        0 <= at < held.len(),
        !(held[at] is Dispatched),
        hold.admission == (match held[at] {
            Outstanding::Admitted(admission) => Some(admission),
            _ => None,
        }),
        Outstanding::Dispatched(hold).wf(pool.roster.len()),
        hold.session is Some ==> pool.workers[hold.worker as int].has_session_room(
            hold.session->Some_0,
        ),
        is_turn_order(order, pool.roster.len()),
    ensures
        balanced(pool.assigned(hold, order), held.update(at, Outstanding::Dispatched(hold))),
        pool.assigned(hold, order).workers[hold.worker as int].load
            == pool.workers[hold.worker as int].load + hold.weight,
{
    let one = Outstanding::Dispatched(hold);
    let after = pool.assigned(hold, order);
    let books = held.update(at, one);
    lemma_load_fits(pool, held, at, hold);
    assert forall|i: int| 0 <= i < after.workers.len() implies (#[trigger] after.workers[i]).wf() by {
        assert(pool.workers[i].wf());
    }
    assert forall|i: int| 0 <= i < books.len() implies (#[trigger] books[i]).wf(
        pool.roster.len(),
    ) by {
        if i != at {
            assert(books[i] == held[i]);
        }
    }
    assert forall|class: int| 0 <= class < CAPACITY_CLASS_COUNT implies given_out(
        #[trigger] after.admission.classes[class],
    ) == total(books, credits_of(class)) by {
        assert(given_out(pool.admission.classes[class]) == total(held, credits_of(class)));
        lemma_total_update(held, at, one, credits_of(class));
    }
    assert forall|worker: int| 0 <= worker < pool.roster.len() implies (
    #[trigger] after.workers[worker]).load == total(books, load_on(worker)) by {
        assert(pool.workers[worker].load == total(held, load_on(worker)));
        lemma_total_update(held, at, one, load_on(worker));
    }
    assert forall|worker: int, slot: int|
        0 <= worker < pool.roster.len() && 0 <= slot < SESSION_CLASS_COUNT implies given_out(
        #[trigger] after.workers[worker].sessions[slot],
    ) == total(books, sessions_on(worker, slot)) by {
        assert(given_out(pool.workers[worker].sessions[slot]) == total(
            held,
            sessions_on(worker, slot),
        ));
        lemma_total_update(held, at, one, sessions_on(worker, slot));
    }
}

/// Everything comes back: when a dispatched request is done, the books balance
/// without it.
pub proof fn law_release_returns_everything(pool: PoolView, held: Seq<Outstanding>, at: int)
    requires
        balanced(pool, held),
        0 <= at < held.len(),
        held[at] is Dispatched,
    ensures
        balanced(pool.released(held[at]->Dispatched_0), held.remove(at)),
{
    let hold = held[at]->Dispatched_0;
    let after = pool.released(hold);
    let rest = held.remove(at);
    assert(held[at].wf(pool.roster.len()));
    assert forall|i: int| 0 <= i < rest.len() implies (#[trigger] rest[i]).wf(
        pool.roster.len(),
    ) by {
        assert(rest[i] == if i < at {
            held[i]
        } else {
            held[i + 1]
        });
    }
    assert forall|class: int| 0 <= class < CAPACITY_CLASS_COUNT implies given_out(
        #[trigger] after.admission.classes[class],
    ) == total(rest, credits_of(class)) by {
        assert(given_out(pool.admission.classes[class]) == total(held, credits_of(class)));
        lemma_total_remove(held, at, credits_of(class));
        lemma_total_bounds(held, at, credits_of(class));
    }
    assert forall|worker: int| 0 <= worker < pool.roster.len() implies (
    #[trigger] after.workers[worker]).load == total(rest, load_on(worker)) by {
        assert(pool.workers[worker].load == total(held, load_on(worker)));
        lemma_total_remove(held, at, load_on(worker));
        lemma_total_bounds(held, at, load_on(worker));
    }
    assert forall|worker: int, slot: int|
        0 <= worker < pool.roster.len() && 0 <= slot < SESSION_CLASS_COUNT implies given_out(
        #[trigger] after.workers[worker].sessions[slot],
    ) == total(rest, sessions_on(worker, slot)) by {
        assert(given_out(pool.workers[worker].sessions[slot]) == total(
            held,
            sessions_on(worker, slot),
        ));
        lemma_total_remove(held, at, sessions_on(worker, slot));
        lemma_total_bounds(held, at, sessions_on(worker, slot));
    }
    assert forall|i: int| 0 <= i < after.workers.len() implies (#[trigger] after.workers[i]).wf() by {
        assert(pool.workers[i].wf());
    }
}

/// Health and draining are not booked: they leave the books as they are.
pub proof fn law_health_and_drain_leave_the_books(
    pool: PoolView,
    held: Seq<Outstanding>,
    worker: int,
    health: WorkerHealth,
)
    requires
        balanced(pool, held),
        0 <= worker < pool.roster.len(),
    ensures
        balanced(pool.with_health(worker, health), held),
        balanced(pool.drained(), held),
{
    let after = pool.with_health(worker, health);
    assert forall|i: int| 0 <= i < after.workers.len() implies (#[trigger] after.workers[i]).wf() by {
        assert(pool.workers[i].wf());
    }
    assert forall|w: int| 0 <= w < pool.roster.len() implies (#[trigger] after.workers[w]).load
        == total(held, load_on(w)) by {
        assert(pool.workers[w].load == total(held, load_on(w)));
    }
    assert forall|w: int, slot: int|
        0 <= w < pool.roster.len() && 0 <= slot < SESSION_CLASS_COUNT implies given_out(
        #[trigger] after.workers[w].sessions[slot],
    ) == total(held, sessions_on(w, slot)) by {
        assert(given_out(pool.workers[w].sessions[slot]) == total(held, sessions_on(w, slot)));
    }
}

/// When nothing is held, nothing is given out: every limit is fully available
/// and no worker carries load.
pub proof fn law_nothing_held_nothing_given_out(pool: PoolView)
    requires
        balanced(pool, Seq::empty()),
    ensures
        pool.admission.global.in_flight() == 0,
        forall|class: int|
            0 <= class < CAPACITY_CLASS_COUNT ==> given_out(
                #[trigger] pool.admission.classes[class],
            ) == 0,
        forall|worker: int|
            0 <= worker < pool.roster.len() ==> (#[trigger] pool.workers[worker]).load == 0,
        forall|worker: int, slot: int|
            0 <= worker < pool.roster.len() && 0 <= slot < SESSION_CLASS_COUNT ==> given_out(
                #[trigger] pool.workers[worker].sessions[slot],
            ) == 0,
{
}

/// Dispatching an admitted request and being done with it leaves the pool as
/// it was before the request was admitted, but for whose turn it is.
pub proof fn law_release_undoes_dispatch(
    pool: PoolView,
    admission: AdmissionHold,
    hold: RequestHold,
    order: Seq<usize>,
)
    requires
        pool.wf(),
        pool.admission.envelope_refusal() is None,
        pool.admission.class_admits(admission),
        hold.worker < pool.roster.len(),
        hold.admission == Some(admission),
        hold.weight == admission.credits,
        pool.workers[hold.worker as int].load + hold.weight <= usize::MAX,
        hold.session is Some ==> pool.workers[hold.worker as int].has_session_room(
            hold.session->Some_0,
        ),
    ensures
        (PoolView {
            admission: pool.admission.envelope_taken().class_taken(admission),
            ..pool
        }).assigned(hold, order).released(hold) == (PoolView { order, ..pool }),
{
    let admitted = PoolView {
        admission: pool.admission.envelope_taken().class_taken(admission),
        ..pool
    };
    let after = admitted.assigned(hold, order).released(hold);
    let before = pool.workers[hold.worker as int];
    assert(after.admission.classes =~= pool.admission.classes);
    assert(after.admission.global == pool.admission.global);
    assert(after.workers[hold.worker as int].sessions =~= before.sessions);
    assert(after.workers[hold.worker as int] == before);
    assert(after.workers =~= pool.workers);
}

/// The load that requests put on the first `count` workers.
spec fn load_below(count: int) -> spec_fn(Outstanding) -> int {
    |one: Outstanding|
        match one {
            Outstanding::Dispatched(hold) => if hold.worker < count {
                hold.weight as int
            } else {
                0
            },
            _ => 0,
        }
}

/// The load of one worker more.
proof fn lemma_load_below_step(held: Seq<Outstanding>, count: int)
    requires
        0 <= count,
    ensures
        total(held, load_below(count + 1)) == total(held, load_below(count)) + total(
            held,
            load_on(count),
        ),
    decreases held.len(),
{
    if held.len() > 0 {
        lemma_load_below_step(held.drop_last(), count);
    }
}

/// No worker, no load.
proof fn lemma_no_load(held: Seq<Outstanding>)
    ensures
        total(held, load_below(0)) == 0,
    decreases held.len(),
{
    if held.len() > 0 {
        lemma_no_load(held.drop_last());
    }
}

/// The load of all workers is at most all credits and one for each request.
proof fn lemma_all_load_bound(held: Seq<Outstanding>, workers: nat, count: int)
    requires
        forall|i: int| 0 <= i < held.len() ==> (#[trigger] held[i]).wf(workers),
    ensures
        total(held, load_below(count)) <= total(held, credits_of(0)) + total(held, credits_of(1))
            + total(held, credits_of(2)) + total(held, credits_of(3)) + total(held, credits_of(4))
            + total(held, credits_of(5)) + held.len(),
    decreases held.len(),
{
    if held.len() > 0 {
        let rest = held.drop_last();
        assert forall|i: int| 0 <= i < rest.len() implies (#[trigger] rest[i]).wf(workers) by {
            assert(held[i].wf(workers));
        }
        lemma_all_load_bound(rest, workers, count);
        let one = held.last();
        assert(held[held.len() - 1].wf(workers));
        assert(load_below(count)(one) <= all_credits(one) + 1);
    }
}

/// The summed load of a snapshot is the load that requests put on its workers.
proof fn lemma_snapshot_load(
    pool: PoolView,
    held: Seq<Outstanding>,
    snapshot: OperationsSnapshot,
    count: nat,
)
    requires
        balanced(pool, held),
        snapshot.reads(pool),
        count <= pool.roster.len(),
    ensures
        total_load(snapshot.workers@, count) == total(held, load_below(count as int)),
    decreases count,
{
    if count == 0 {
        lemma_no_load(held);
    } else {
        let last = (count - 1) as nat;
        lemma_snapshot_load(pool, held, snapshot, last);
        lemma_load_below_step(held, last as int);
        assert(snapshot.workers@[last as int].reads(
            pool.roster[last as int],
            pool.workers[last as int],
            last as int,
        ));
        assert(pool.workers[last as int].load == total(held, load_on(last as int)));
    }
}

/// The summed session limits and uses of a snapshot, where each is at most
/// `MAX_SESSION_LIMIT`.
proof fn lemma_snapshot_sessions(
    pool: PoolView,
    snapshot: OperationsSnapshot,
    class: CapacityClass,
    count: nat,
)
    requires
        pool.wf(),
        snapshot.reads(pool),
        session_limits_are_valid(pool),
        count <= pool.roster.len(),
    ensures
        class_total(snapshot.workers@, class, count).0 <= count * (2 * MAX_SESSION_LIMIT),
        class_total(snapshot.workers@, class, count).1 <= count * (2 * MAX_SESSION_LIMIT),
    decreases count,
{
    if count > 0 {
        let last = (count - 1) as nat;
        lemma_snapshot_sessions(pool, snapshot, class, last);
        let state = pool.workers[last as int];
        assert(snapshot.workers@[last as int].reads(
            pool.roster[last as int],
            state,
            last as int,
        ));
        assert(state.wf());
        let entries = session_readings(state);
        assert(pool.workers[last as int].sessions[0] is Some ==> state.sessions[0]->Some_0.limit
            <= MAX_SESSION_LIMIT);
        assert(pool.workers[last as int].sessions[1] is Some ==> state.sessions[1]->Some_0.limit
            <= MAX_SESSION_LIMIT);
        assert(entries.len() <= 2);
        reveal_with_fuel(session_total, 3);
        assert(session_total(entries, class, entries.len()).0 <= 2 * MAX_SESSION_LIMIT);
        assert(session_total(entries, class, entries.len()).1 <= 2 * MAX_SESSION_LIMIT);
        assert(count * (2 * MAX_SESSION_LIMIT) == last * (2 * MAX_SESSION_LIMIT) + 2
            * MAX_SESSION_LIMIT) by (nonlinear_arith)
            requires
                count == last + 1,
        ;
    }
}

/// Session limits are as validation demands.
pub open spec fn session_limits_are_valid(pool: PoolView) -> bool {
    forall|worker: int, slot: int|
        0 <= worker < pool.workers.len() && 0 <= slot < SESSION_CLASS_COUNT && (
        #[trigger] pool.workers[worker].sessions[slot]) is Some
            ==> pool.workers[worker].sessions[slot]->Some_0.limit <= MAX_SESSION_LIMIT
}

/// The metrics of a pool can always be rendered: while the books balance and
/// session limits are valid, no sum in them overflows.
pub proof fn law_metrics_sums_fit(
    pool: PoolView,
    held: Seq<Outstanding>,
    snapshot: OperationsSnapshot,
)
    requires
        balanced(pool, held),
        session_limits_are_valid(pool),
        snapshot.reads(pool),
    ensures
        sums_fit(snapshot.workers@),
{
    let count = pool.roster.len();
    lemma_snapshot_load(pool, held, snapshot, count);
    lemma_all_load_bound(held, count, count as int);
    assert forall|class: int| 0 <= class < CAPACITY_CLASS_COUNT implies total(
        held,
        #[trigger] credits_of(class),
    ) <= MAX_PERMITS by {
        assert(given_out(pool.admission.classes[class]) == total(held, credits_of(class)));
    }
    assert(total(held, credits_of(0)) <= MAX_PERMITS);
    assert(total(held, credits_of(1)) <= MAX_PERMITS);
    assert(total(held, credits_of(2)) <= MAX_PERMITS);
    assert(total(held, credits_of(3)) <= MAX_PERMITS);
    assert(total(held, credits_of(4)) <= MAX_PERMITS);
    assert(total(held, credits_of(5)) <= MAX_PERMITS);
    lemma_snapshot_sessions(pool, snapshot, CapacityClass::SpeechWebsocket, count);
    lemma_snapshot_sessions(pool, snapshot, CapacityClass::RealtimeWebsocket, count);
    assert(count * (2 * MAX_SESSION_LIMIT) <= 256 * (2 * MAX_SESSION_LIMIT)) by (nonlinear_arith)
        requires
            count <= 256,
    ;
}

} // verus!

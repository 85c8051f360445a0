//! What the pool can serve now.

use vstd::prelude::*;

use crate::config::HttpMediaRoute;
use crate::text::Item;
use crate::worker_pool::cohorts::{belongs, is_member};
use crate::worker_pool::pool::{media_key, WorkerPool};
use crate::worker_pool::profile::{ServiceClass, ServiceProfile, TrustDomain};
use crate::worker_pool::routing::{takes_batch, PoolView};

verus! {

/// Some worker of the trust domain takes requests of the endpoint.
pub open spec fn endpoint_ready(pool: PoolView, trust: Seq<char>, route: HttpMediaRoute) -> bool {
    exists|i: int|
        0 <= i < pool.roster.len() && pool.workers[i].routable() && is_member(
            #[trigger] pool.roster[i],
            media_key(trust, route),
        )
}

/// Every endpoint has a worker of the trust domain that takes its requests.
pub open spec fn endpoints_ready(
    pool: PoolView,
    trust: Seq<char>,
    routes: Seq<HttpMediaRoute>,
) -> bool {
    forall|r: int| 0 <= r < routes.len() ==> endpoint_ready(pool, trust, #[trigger] routes[r])
}

/// Whether some row takes batches of the size.
fn row_takes_batch(rows: &[ServiceProfile], size: u32) -> (outcome: bool)
    ensures
        outcome == takes_batch(rows@, size),
{
    let mut i: usize = 0;
    while i < rows.len()
        invariant
            i <= rows@.len(),
            forall|k: int|
                0 <= k < i ==> !(match #[trigger] rows@[k] {
                    ServiceProfile::SpeechBatch { max_batch_size, .. } => max_batch_size >= size,
                    _ => false,
                }),
        decreases rows@.len() - i,
    {
        if let ServiceProfile::SpeechBatch { max_batch_size, .. } = &rows[i] {
            if *max_batch_size as u32 >= size {
                return true;
            }
        }
        i += 1;
    }
    false
}

impl WorkerPool {
    /// Whether some worker of the trust domain takes requests for the service.
    pub fn service_ready(&self, trust: &TrustDomain, service: ServiceClass) -> (outcome: bool)
        requires
            self.wf(),
        ensures
            outcome == self@.ready_for(trust@, service),
    {
        let ghost pool = self@;
        let mut i: usize = 0;
        while i < self.worker_count()
            invariant
                i <= pool.roster.len(),
                self.wf(),
                pool == self@,
                forall|k: int|
                    0 <= k < i ==> !((#[trigger] pool.roster[k]).trust == trust@
                        && pool.workers[k].routable() && pool.roster[k].offers(service)),
            decreases pool.roster.len() - i,
        {
            let record = self.record(i);
            if record.trust_domain().same(trust) && record.is_routable() && record.offers_service(
                service,
            ) {
                return true;
            }
            i += 1;
        }
        false
    }

    /// Whether some worker of the trust domain takes chat requests.
    pub fn generation_http_ready(&self, trust: &TrustDomain) -> (outcome: bool)
        requires
            self.wf(),
        ensures
            outcome == self@.ready_for(trust@, ServiceClass::GenerationHttp),
    {
        self.service_ready(trust, ServiceClass::GenerationHttp)
    }

    /// Whether some worker of the trust domain takes requests of the endpoint.
    fn endpoint_is_ready(&self, trust: &TrustDomain, route: HttpMediaRoute) -> (outcome: bool)
        requires
            self.wf(),
        ensures
            outcome == endpoint_ready(self@, trust@, route),
    {
        let ghost pool = self@;
        let mut i: usize = 0;
        while i < self.worker_count()
            invariant
                i <= pool.roster.len(),
                self.wf(),
                pool == self@,
                forall|k: int|
                    0 <= k < i ==> !(pool.workers[k].routable() && is_member(
                        #[trigger] pool.roster[k],
                        media_key(trust@, route),
                    )),
            decreases pool.roster.len() - i,
        {
            let record = self.record(i);
            if record.is_routable() && belongs(
                record,
                trust,
                route.service_class(),
                route.speech_to_text_task(),
            ) {
                return true;
            }
            i += 1;
        }
        false
    }

    /// Whether every endpoint has a worker that takes its requests.
    pub fn media_http_ready(&self, trust: &TrustDomain, routes: &[HttpMediaRoute]) -> (outcome: bool)
        requires
            self.wf(),
        ensures
            outcome == endpoints_ready(self@, trust@, routes@),
    {
        let mut r: usize = 0;
        while r < routes.len()
            invariant
                r <= routes@.len(),
                self.wf(),
                forall|k: int|
                    0 <= k < r ==> endpoint_ready(self@, trust@, #[trigger] routes@[k]),
            decreases routes@.len() - r,
        {
            if !self.endpoint_is_ready(trust, routes[r]) {
                return false;
            }
            r += 1;
        }
        true
    }

    /// Whether some worker of the trust domain, of any health, takes batches of the size.
    pub fn supports_speech_batch_size(&self, trust: &TrustDomain, size: u32) -> (outcome: bool)
        requires
            self.wf(),
        ensures
            outcome == self@.takes_batch(trust@, size),
    {
        let ghost pool = self@;
        let mut i: usize = 0;
        while i < self.worker_count()
            invariant
                i <= pool.roster.len(),
                self.wf(),
                pool == self@,
                forall|k: int|
                    0 <= k < i ==> !((#[trigger] pool.roster[k]).trust == trust@ && takes_batch(
                        pool.roster[k].profiles,
                        size,
                    )),
            decreases pool.roster.len() - i,
        {
            let record = self.record(i);
            if record.trust_domain().same(trust) && row_takes_batch(record.profiles(), size) {
                return true;
            }
            i += 1;
        }
        false
    }
}

} // verus!

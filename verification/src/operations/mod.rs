//! What operators read: models, metrics and diagnostics.

pub mod diagnostics;
pub mod laws;
pub mod metrics;
pub mod models;
pub mod render;

use vstd::prelude::*;
use vstd::utf8::encode_utf8;

use crate::error::{HttpFault, WorkerPoolInvariant};
use crate::lifecycle::State;
use crate::operations::diagnostics::{diagnostics_json, diagnostics_of, worker_ids, Diagnostics};
use crate::operations::metrics::{metrics_text, render_metrics, sums_fit};
use crate::operations::models::{models_json, named_models, render_worker_models};
use crate::operations::render::json_strings;
use crate::worker_pool::profile::WorkerConfig;
use crate::worker_pool::snapshot::OperationsSnapshot;

verus! {

pub const JSON_CONTENT_TYPE: &'static str = "application/json";

pub const METRICS_CONTENT_TYPE: &'static str = "text/plain; version=0.0.4; charset=utf-8";

/// An answer to an operator. It is never cached.
#[derive(Clone, Debug, PartialEq, Eq)]
pub struct OperationResponse {
    pub status: u16,
    pub content_type: &'static str,
    pub content_length: usize,
    pub cache_control: &'static str,
    pub body: String,
}

impl OperationResponse {
    /// The answer has this status and type, says so much, and is not to be stored.
    pub open spec fn says(&self, status: u16, content_type: Seq<char>, body: Seq<char>) -> bool {
        &&& self.status == status
        &&& self.content_type@ == content_type
        &&& self.content_length == encode_utf8(body).len()
        &&& self.cache_control@ == "no-store"@
        &&& self.body@ == body
    }
}

/// An answer with the given status, type and body.
pub fn response(status: u16, content_type: &'static str, body: String) -> (answer: OperationResponse)
    ensures
        answer.says(status, content_type@, body@),
{
    let content_length: usize = body.as_str().as_bytes().len();
    OperationResponse { status, content_type, content_length, cache_control: "no-store", body }
}

/// Immutable model inventory plus scrape-time operations rendering.
#[derive(Debug)]
pub struct Operations {
    models: String,
}

impl Operations {
    /// The inventory document.
    pub closed spec fn inventory(&self) -> Seq<char> {
        self.models@
    }

    pub fn build(workers: &[WorkerConfig]) -> (outcome: Result<Self, WorkerPoolInvariant>)
        ensures
            outcome is Ok,
            outcome->Ok_0.inventory() == models_json(named_models(workers@)),
    {
        match render_worker_models(workers) {
            Ok(models) => Ok(Operations { models }),
            Err(error) => Err(error),
        }
    }

    pub fn models_response(&self) -> (answer: OperationResponse)
        ensures
            answer.says(200, JSON_CONTENT_TYPE@, self.inventory()),
    {
        response(200, JSON_CONTENT_TYPE, self.models.clone())
    }

    pub fn metrics_response(
        &self,
        lifecycle: State,
        ready: bool,
        snapshot: &OperationsSnapshot,
    ) -> (answer: OperationResponse)
        requires
            sums_fit(snapshot.workers@),
        ensures
            answer.says(
                200,
                METRICS_CONTENT_TYPE@,
                metrics_text(lifecycle, ready, snapshot.admission@, snapshot.workers@),
            ),
    {
        response(200, METRICS_CONTENT_TYPE, render_metrics(lifecycle, ready, snapshot))
    }

    pub fn diagnostics_response(
        &self,
        lifecycle: State,
        ready: bool,
        snapshot: &OperationsSnapshot,
    ) -> (outcome: Result<OperationResponse, HttpFault>)
        ensures
            outcome is Ok,
            ({
                let document = diagnostics_of(lifecycle, ready, *snapshot);
                outcome->Ok_0.says(
                    200,
                    JSON_CONTENT_TYPE@,
                    diagnostics_json(document, json_strings(worker_ids(document))),
                )
            }),
    {
        let document = Diagnostics::from_snapshot(lifecycle, ready, snapshot);
        match document.to_json() {
            Some(json) => Ok(response(200, JSON_CONTENT_TYPE, json)),
            None => Err(HttpFault::InternalError),
        }
    }
}

} // verus!

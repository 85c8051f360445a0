//! Workers: what they offer, how requests are admitted and routed to them, and
//! what is held while they work.

pub mod accounting;
pub mod admission;
pub mod cohort_laws;
pub mod cohorts;
pub mod dispatch_laws;
pub mod effect_laws;
pub mod health;
pub mod matching;
pub mod matching_laws;
pub mod permits;
pub mod pool;
pub mod profile;
pub mod readiness;
pub mod record;
pub mod resolver;
pub mod routing;
pub mod routing_laws;
pub mod selection;
pub mod serving_laws;
pub mod snapshot;
pub mod startup;
pub mod startup_laws;
pub mod validation;

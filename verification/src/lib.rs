//! The concurrency-safe mutation layer of a shared-lore timeline service.
//!
//! Three tightly-coupled parts make writes safe under concurrent, retried
//! or duplicated client requests, and each is specified and verified here:
//!
//! - [`fingerprint`] computes deterministic content fingerprints (ETags)
//!   and [`conditional`] evaluates `If-Match` / `If-None-Match`
//!   preconditions against them, so a client never silently overwrites a
//!   change it has not seen;
//! - [`handlers::one_time_tokens`] is the idempotency gate: single-use
//!   tokens whose claim is one atomic compare-and-swap, so the guarded
//!   mutation executes at most once and retries replay the stored
//!   response;
//! - [`handlers::merges`] merges one timeline into another as one
//!   all-or-nothing unit with deterministic, target-wins conflict
//!   resolution.
//!
//! The stores in [`handlers`] model the persistent tables in memory; the
//! unverified web boundary performs the equivalent SQL and routes every
//! decision through the functions here.

pub mod conditional;
pub mod error;
pub mod fingerprint;
pub mod handlers;
pub mod models;

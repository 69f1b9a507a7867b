//! The control plane of a multi-tenant build service.  Users submit
//! jobs, ordered lists of shell tasks bound for a target class of
//! worker; factories lease queued jobs and provision workers for them;
//! workers stream back an append-only event log and upload output
//! files; completed jobs are archived to a blob store and served from
//! there unchanged.  Every state machine and rule here carries a
//! contract, and the invariants the service depends on, dense event
//! numbering, idempotent completion and commits, single leases, and
//! faithful archives, are proved.

use vstd::prelude::*;

pub mod api;
pub mod archive;
pub mod assign;
pub mod auth;
pub mod cache;
pub mod central;
pub mod client;
pub mod error;
pub mod github;
pub mod ids;
pub mod jobs;
pub mod json;
pub mod leases;
pub mod publish;
pub mod rules;
pub mod staging;
pub mod store;
pub mod text;

verus! {

/// The five user-visible job states, projected from the stored booleans.
///
/// Precedence: failed, then completed, then running (a worker is
/// assigned), then waiting (inputs or dependencies outstanding), then
/// queued.
pub open spec fn spec_job_state(
    failed: bool,
    complete: bool,
    has_worker: bool,
    waiting: bool,
) -> Seq<char> {
    if failed {
        "failed"@
    } else if complete {
        "completed"@
    } else if has_worker {
        "running"@
    } else if waiting {
        "waiting"@
    } else {
        "queued"@
    }
}

} // verus!

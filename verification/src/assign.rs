//! The assignment loop: one logical background task that moves waiting
//! jobs to queued once their dependencies allow it, completes cancelled
//! jobs that never started, and ties queued jobs to idle workers of the
//! right target.  Each function here is one decision of an iteration;
//! the caller drives them over the jobs it snapshots and sleeps between
//! rounds.  The global hold flag disables new assignments without
//! stopping anything else.

use vstd::prelude::*;
use crate::error::{ApiError, ErrorKind};
use crate::ids::JobId;
use crate::leases::Leases;
use crate::store::{Database, spec_find_job, spec_dep_ready, spec_deps_ready};
use crate::text::str_eq;

verus! {

use vstd::string::StringExecFns;

/// Whether a dependency's prior job has completed in a state the
/// dependency does not permit.
pub open spec fn spec_dep_failed(jobs: Seq<crate::jobs::Job>, d: crate::jobs::Depend) -> bool {
    match spec_find_job(jobs, d.prior_job.id@) {
        None => false,
        Some(pi) => jobs[pi].complete && !(if jobs[pi].failed {
            d.on_failed
        } else {
            d.on_completed
        }),
    }
}

/// Some dependency of the job forbids it from ever running.
pub open spec fn spec_any_dep_failed(jobs: Seq<crate::jobs::Job>, j: crate::jobs::Job) -> bool {
    exists|i: int| 0 <= i < j.depends@.len() && spec_dep_failed(jobs, #[trigger] j.depends@[i])
}

/// What one round of dependency evaluation decided for a job.
#[derive(Debug, PartialEq, Eq, Structural)]
pub enum DependOutcome {
    /// The job is not in a state where dependencies matter.
    NotWaiting,
    /// Some dependency's prior job has not completed yet.
    StillWaiting,
    /// A dependency's terminal state forbids this job from running;
    /// the job was failed and completed.
    FailedDependency,
    /// Every dependency is satisfied; the job still waits on inputs.
    InputsOutstanding,
    /// Every dependency is satisfied and every input is present: the
    /// job is queued.
    Queued,
}

/// Copy the outputs of a prior job in as attached inputs of a
/// dependent job, named by their paths: staging by internal reference,
/// with no re-upload.
#[verifier::loop_isolation(false)]
fn copy_dep_outputs(db: &mut Database, job: &JobId, prior: &JobId) -> (r: Result<(), ApiError>)
    requires
        old(db).wf(),
    ensures
        final(db).wf(),
        *final(db) == (Database { jobs: final(db).jobs, ..*old(db) }),
        final(db).jobs@.len() == old(db).jobs@.len(),
        forall|k: int|
            0 <= k < old(db).jobs@.len() ==> (#[trigger] final(db).jobs@[k]).id.id@
                == old(db).jobs@[k].id.id@,
        spec_find_job(old(db).jobs@, job.id@) matches Some(ji) ==> (forall|k: int|
            0 <= k < old(db).jobs@.len() && k != ji ==> #[trigger] final(db).jobs@[k] == old(
                db,
            ).jobs@[k]) && final(db).jobs@[ji] == (crate::jobs::Job {
            inputs: final(db).jobs@[ji].inputs,
            waiting: final(db).jobs@[ji].waiting,
            ..old(db).jobs@[ji]
        }),
{
    let outs = match db.job_outputs(prior) {
        Ok(outs) => outs,
        Err(e) => {
            return Err(e);
        },
    };
    let mut k: usize = 0;
    while k < outs.len()
        invariant
            db.wf(),
            *db == (Database { jobs: db.jobs, ..*old(db) }),
            db.jobs@.len() == old(db).jobs@.len(),
            forall|m: int|
                0 <= m < old(db).jobs@.len() ==> (#[trigger] db.jobs@[m]).id.id@
                    == old(db).jobs@[m].id.id@,
            spec_find_job(old(db).jobs@, job.id@) matches Some(ji) ==> (forall|m: int|
                0 <= m < old(db).jobs@.len() && m != ji ==> #[trigger] db.jobs@[m] == old(
                    db,
                ).jobs@[m]) && db.jobs@[ji] == (crate::jobs::Job {
                inputs: db.jobs@[ji].inputs,
                waiting: db.jobs@[ji].waiting,
                ..old(db).jobs@[ji]
            }),
        decreases outs@.len() - k,
    {
        let ghost mid = db.jobs@;
        let o = &outs[k];
        proof {
            crate::store::lemma_find_job_same_ids(old(db).jobs@, mid, job.id@, 0);
        }
        match db.job_input_add(job, o.path.as_str(), &o.file, o.size) {
            Ok(()) => (),
            Err(_) => (),
        }
        proof {
            if let Some(ji) = spec_find_job(mid, job.id@) {
                assert(db.jobs@[ji].id == mid[ji].id);
            }
        }
        k = k + 1;
    }
    Ok(())
}

/// Evaluate the dependencies of one waiting job, as step two of an
/// assignment iteration: a dependency whose prior job ended in a
/// forbidden state fails the job with an explanatory event; incomplete
/// priors keep it waiting; once every dependency is satisfied, outputs
/// of priors are staged as inputs where asked, and the job is queued
/// when no input is still missing.
#[verifier::loop_isolation(false)]
pub fn dependency_step(db: &mut Database, job: &JobId, now: i64) -> (r: Result<
    DependOutcome,
    ApiError,
>)
    requires
        old(db).wf(),
    ensures
        final(db).wf(),
        *final(db) == (Database { jobs: final(db).jobs, ..*old(db) }),
        match spec_find_job(old(db).jobs@, job.id@) {
            None => *final(db) == *old(db) && (r matches Err(e) && e.kind == ErrorKind::NotFound),
            Some(i) => {
                let oj = old(db).jobs@[i];
                &&& (oj.complete || !oj.waiting ==> *final(db) == *old(db) && r == Ok::<
                    DependOutcome,
                    ApiError,
                >(DependOutcome::NotWaiting))
                &&& (r == Ok::<DependOutcome, ApiError>(DependOutcome::FailedDependency)
                    ==> spec_any_dep_failed(old(db).jobs@, oj) && final(db).jobs@.len() == old(
                    db,
                ).jobs@.len() && final(db).jobs@[i].complete && final(db).jobs@[i].failed)
                &&& (r == Ok::<DependOutcome, ApiError>(DependOutcome::StillWaiting) ==> *final(db)
                    == *old(db) && !spec_deps_ready(old(db).jobs@, oj))
                &&& (r == Ok::<DependOutcome, ApiError>(DependOutcome::Queued) ==> spec_deps_ready(
                    old(db).jobs@,
                    oj,
                ) && final(db).jobs@.len() == old(db).jobs@.len() && !final(db).jobs@[i].waiting
                    && !final(db).jobs@[i].complete)
                &&& (!oj.complete && oj.waiting && spec_any_dep_failed(old(db).jobs@, oj) ==> r
                    == Ok::<DependOutcome, ApiError>(DependOutcome::FailedDependency) || (r matches
                Err(e) && e.kind == ErrorKind::NotFound))
                &&& (!oj.complete && oj.waiting && !spec_any_dep_failed(old(db).jobs@, oj)
                    && spec_deps_ready(old(db).jobs@, oj) ==> ({
                    &&& (r == Ok::<DependOutcome, ApiError>(DependOutcome::Queued) || r == Ok::<
                        DependOutcome,
                        ApiError,
                    >(DependOutcome::InputsOutstanding))
                    &&& final(db).jobs@.len() == old(db).jobs@.len()
                    &&& final(db).jobs@[i] == (crate::jobs::Job {
                        inputs: final(db).jobs@[i].inputs,
                        waiting: final(db).jobs@[i].waiting,
                        ..oj
                    })
                    &&& (r == Ok::<DependOutcome, ApiError>(DependOutcome::Queued)
                        <==> crate::store::spec_all_inputs_attached(final(db).jobs@[i].inputs@))
                    &&& (r == Ok::<DependOutcome, ApiError>(DependOutcome::Queued) ==> !final(db).jobs@[i].waiting)
                }))
            },
        },
{
    let i = match db.find_job(job) {
        Some(i) => i,
        None => {
            return Err(ApiError::new(ErrorKind::NotFound, String::from_str("job not found")));
        },
    };
    if db.jobs[i].complete || !db.jobs[i].waiting {
        return Ok(DependOutcome::NotWaiting);
    }

    let nd = db.jobs[i].depends.len();
    let mut k: usize = 0;
    let mut failed_dep: Option<usize> = None;
    let mut incomplete = false;
    while k < nd
        invariant
            k <= nd,
            i < db.jobs@.len(),
            *db == *old(db),
            nd == db.jobs@[i as int].depends@.len(),
            failed_dep matches Some(f) ==> f < nd && spec_dep_failed(
                db.jobs@,
                db.jobs@[i as int].depends@[f as int],
            ),
            failed_dep is None && !incomplete ==> forall|m: int|
                0 <= m < k ==> spec_dep_ready(db.jobs@, #[trigger] db.jobs@[i as int].depends@[m]),
            failed_dep is None ==> forall|m: int|
                0 <= m < k ==> !spec_dep_failed(db.jobs@, #[trigger] db.jobs@[i as int].depends@[m]),
            incomplete ==> exists|m: int|
                0 <= m < k && !spec_dep_ready(db.jobs@, #[trigger] db.jobs@[i as int].depends@[m])
                    && !spec_dep_failed(db.jobs@, db.jobs@[i as int].depends@[m]),
        decreases nd - k,
    {
        if failed_dep.is_some() {
            break ;
        }
        let d = &db.jobs[i].depends[k];
        match db.find_job(&d.prior_job) {
            None => {
                incomplete = true;
            },
            Some(pi) => {
                let p = &db.jobs[pi];
                if p.complete {
                    let permitted = if p.failed {
                        d.on_failed
                    } else {
                        d.on_completed
                    };
                    if !permitted {
                        failed_dep = Some(k);
                    }
                } else {
                    incomplete = true;
                }
            },
        }
        k = k + 1;
    }

    if let Some(f) = failed_dep {
        let msg = {
            let mut m = String::from_str("dependency \"");
            m.append(db.jobs[i].depends[f].name.as_str());
            m.append("\" ended in a state that does not allow this job to run");
            m
        };
        let ghost pre = db.jobs@;
        match db.job_event_append(job, None, "control", msg.as_str(), now, None) {
            Ok(_) => (),
            Err(_) => (),
        }
        proof {
            assert forall|w: int|
                0 <= w < pre.len() implies (#[trigger] db.jobs@[w]).id.id@ == pre[w].id.id@ by {
                if spec_find_job(pre, job.id@) matches Some(ji) && w == ji {
                } else {
                }
            }
            crate::store::lemma_find_job_same_ids(pre, db.jobs@, job.id@, 0);
        }
        match db.job_complete(job, true, now) {
            Ok(_) => (),
            Err(e) => {
                return Err(e);
            },
        }
        return Ok(DependOutcome::FailedDependency);
    }
    if incomplete {
        return Ok(DependOutcome::StillWaiting);
    }

    let mut k: usize = 0;
    while k < nd
        invariant
            db.wf(),
            *db == (Database { jobs: db.jobs, ..*old(db) }),
            db.jobs@.len() == old(db).jobs@.len(),
            forall|m: int|
                0 <= m < old(db).jobs@.len() ==> (#[trigger] db.jobs@[m]).id.id@
                    == old(db).jobs@[m].id.id@,
            spec_find_job(old(db).jobs@, job.id@) matches Some(ji) ==> (forall|m: int|
                0 <= m < old(db).jobs@.len() && m != ji ==> #[trigger] db.jobs@[m] == old(
                    db,
                ).jobs@[m]) && db.jobs@[ji] == (crate::jobs::Job {
                inputs: db.jobs@[ji].inputs,
                waiting: db.jobs@[ji].waiting,
                ..old(db).jobs@[ji]
            }),
        decreases nd - k,
    {
        let (copy, prior) = match db.job_by_id(job) {
            Some(j) => {
                if k < j.depends.len() {
                    (
                        j.depends[k].copy_outputs,
                        Some(JobId { id: j.depends[k].prior_job.id.clone() }),
                    )
                } else {
                    (false, None)
                }
            },
            None => (false, None),
        };
        if copy {
            if let Some(prior) = prior {
                let ghost mid = db.jobs@;
                proof {
                    crate::store::lemma_find_job_same_ids(old(db).jobs@, mid, job.id@, 0);
                }
                match copy_dep_outputs(db, job, &prior) {
                    Ok(()) => (),
                    Err(_) => (),
                }
            }
        }
        k = k + 1;
    }

    proof {
        crate::store::lemma_find_job_same_ids(old(db).jobs@, db.jobs@, job.id@, 0);
    }
    let i = match db.find_job(job) {
        Some(i) => i,
        None => {
            proof {
                assert(false);
            }
            return Err(ApiError::new(ErrorKind::NotFound, String::from_str("job not found")));
        },
    };
    if db.jobs[i].complete {
        proof {
            assert(false);
        }
        return Err(ApiError::new(ErrorKind::NotFound, String::from_str("job not found")));
    }
    let mut all: bool = true;
    let mut m: usize = 0;
    let n = db.jobs[i].inputs.len();
    while m < n
        invariant
            m <= n,
            i < db.jobs@.len(),
            n == db.jobs@[i as int].inputs@.len(),
            all == (forall|t: int|
                0 <= t < m ==> (#[trigger] db.jobs@[i as int].inputs@[t]).file is Some),
        decreases n - m,
    {
        if db.jobs[i].inputs[m].file.is_none() {
            all = false;
        }
        m = m + 1;
    }
    if all {
        let ghost mid = db.jobs@;
        let j = &mut db.jobs[i];
        j.waiting = false;
        proof {
            assert forall|w: int| 0 <= w < db.jobs@.len() implies (#[trigger] db.jobs@[w]).wf() by {
                if w != i {
                    assert(db.jobs@[w] == mid[w]);
                }
            }
        }
        Ok(DependOutcome::Queued)
    } else {
        Ok(DependOutcome::InputsOutstanding)
    }
}

/// Complete a cancelled job that was never assigned a worker, as a
/// cancelled job cannot wait for a worker to observe the flag.  The
/// job ends failed and cancelled.
pub fn cancel_if_unassigned(db: &mut Database, job: &JobId, now: i64) -> (r: Result<bool, ApiError>)
    requires
        old(db).wf(),
    ensures
        final(db).wf(),
        *final(db) == (Database { jobs: final(db).jobs, ..*old(db) }),
        match spec_find_job(old(db).jobs@, job.id@) {
            None => *final(db) == *old(db) && (r matches Err(e) && e.kind == ErrorKind::NotFound),
            Some(i) => {
                let oj = old(db).jobs@[i];
                if oj.cancelled && !oj.complete && oj.worker is None {
                    &&& r == Ok::<bool, ApiError>(true)
                    &&& final(db).jobs@.len() == old(db).jobs@.len()
                    &&& final(db).jobs@[i].complete
                    &&& final(db).jobs@[i].failed
                    &&& final(db).jobs@[i].cancelled
                } else {
                    *final(db) == *old(db) && r == Ok::<bool, ApiError>(false)
                }
            },
        },
{
    let i = match db.find_job(job) {
        Some(i) => i,
        None => {
            return Err(ApiError::new(ErrorKind::NotFound, String::from_str("job not found")));
        },
    };
    if db.jobs[i].cancelled && !db.jobs[i].complete && db.jobs[i].worker.is_none() {
        match db.job_complete(job, true, now) {
            Ok(_) => Ok(true),
            Err(e) => Err(e),
        }
    } else {
        Ok(false)
    }
}

/// Whether a worker can take a given queued job right now: it is
/// alive, not recycling, bootstrapped, idle, of the job's resolved
/// target, and the job is not reserved by an unexpired lease another
/// factory holds.
pub open spec fn spec_worker_eligible(
    w: crate::store::Worker,
    j: crate::jobs::Job,
    leases: Leases,
    now: i64,
) -> bool {
    &&& !w.deleted
    &&& !w.recycle
    &&& w.token is Some
    &&& w.job is None
    &&& w.target@ == j.target_id@
    &&& match crate::leases::spec_find_lease_from(leases.leases@, j.id.id@, 0) {
        Some(li) => !(leases.leases@[li].factory@ != w.factory@ && leases.leases@[li].expires
            > now),
        None => true,
    }
}

/// Find an idle live worker for a queued job, honouring target and
/// leases, as step three of an assignment iteration.
#[verifier::loop_isolation(false)]
pub fn find_worker_for_job(db: &Database, leases: &Leases, job: &JobId, now: i64) -> (r: Option<
    usize,
>)
    ensures
        r matches Some(wi) ==> wi < db.workers@.len() && (spec_find_job(db.jobs@, job.id@) matches
        Some(ji) && spec_worker_eligible(db.workers@[wi as int], db.jobs@[ji], *leases, now)),
        r is None ==> (spec_find_job(db.jobs@, job.id@) matches Some(ji) ==> forall|wi: int|
            0 <= wi < db.workers@.len() ==> !spec_worker_eligible(
                #[trigger] db.workers@[wi],
                db.jobs@[ji],
                *leases,
                now,
            )),
{
    let j = match db.job_by_id(job) {
        Some(j) => j,
        None => {
            return None;
        },
    };
    let mut wi: usize = 0;
    while wi < db.workers.len()
        invariant
            wi <= db.workers@.len(),
            spec_find_job(db.jobs@, job.id@) matches Some(ji) ==> forall|m: int|
                0 <= m < wi ==> !spec_worker_eligible(
                    #[trigger] db.workers@[m],
                    db.jobs@[ji],
                    *leases,
                    now,
                ),
        decreases db.workers@.len() - wi,
    {
        let w = match db.worker_at(wi) {
            Some(w) => w,
            None => {
                return None;
            },
        };
        let lease_ok = !leases.held_by_other(job, w.factory.as_str(), now);
        if !w.deleted && !w.recycle && w.token.is_some() && w.job.is_none() && str_eq(
            w.target.as_str(),
            j.target_id.as_str(),
        ) && lease_ok {
            proof {
                crate::store::lemma_find_job_some(db.jobs@, job.id@, 0);
            }
            return Some(wi);
        }
        proof {
            if let Some(ji) = spec_find_job(db.jobs@, job.id@) {
                crate::store::lemma_find_job_some(db.jobs@, job.id@, 0);
                assert(db.jobs@[ji] == *j);
                assert(!spec_worker_eligible(db.workers@[wi as int], db.jobs@[ji], *leases, now));
            }
        }
        wi = wi + 1;
    }
    None
}

/// Assign one queued job to an eligible worker, as the single
/// transaction of step three, and record the `assigned` event.  With
/// the global hold flag up, no new assignment is made.
#[verifier::loop_isolation(false)]
pub fn assignment_step(db: &mut Database, leases: &Leases, job: &JobId, hold: bool, now: i64) -> (r:
    Result<bool, ApiError>)
    requires
        old(db).wf(),
    ensures
        final(db).wf(),
        *final(db) == (Database {
            jobs: final(db).jobs,
            workers: final(db).workers,
            ..*old(db)
        }),
        hold ==> *final(db) == *old(db) && r == Ok::<bool, ApiError>(false),
        r == Ok::<bool, ApiError>(true) ==> match spec_find_job(old(db).jobs@, job.id@) {
            Some(i) => final(db).jobs@.len() == old(db).jobs@.len() && final(db).jobs@[i].worker
                is Some && !final(db).jobs@[i].waiting && !final(db).jobs@[i].complete,
            None => false,
        },
        !hold && (spec_find_job(old(db).jobs@, job.id@) matches Some(i)
            && !old(db).jobs@[i].complete && !old(db).jobs@[i].waiting && old(
            db,
        ).jobs@[i].worker is None && (exists|wi: int|
            0 <= wi < old(db).workers@.len() && spec_worker_eligible(
                #[trigger] old(db).workers@[wi],
                old(db).jobs@[i],
                *leases,
                now,
            ))) ==> r == Ok::<bool, ApiError>(true),
{
    if hold {
        return Ok(false);
    }
    let wi = match find_worker_for_job(db, leases, job, now) {
        Some(wi) => wi,
        None => {
            proof {
                if let Some(i) = spec_find_job(db.jobs@, job.id@) {
                    assert forall|m: int|
                        0 <= m < old(db).workers@.len() implies !spec_worker_eligible(
                        #[trigger] old(db).workers@[m],
                        old(db).jobs@[i],
                        *leases,
                        now,
                    ) by {
                        assert(old(db).workers@[m] == db.workers@[m]);
                        assert(old(db).jobs@[i] == db.jobs@[i]);
                    }
                }
            }
            return Ok(false);
        },
    };
    let worker_id = match db.worker_at(wi) {
        Some(w) => w.id.clone(),
        None => {
            return Ok(false);
        },
    };
    let ghost pre = db.jobs@;
    proof {
        assert(db.workers@[wi as int].id@ == worker_id@);
        if spec_find_job(db.jobs@, job.id@) is Some {
            if crate::store::spec_find_worker(db.workers@, worker_id@) is None {
                crate::store::lemma_find_worker_none(db.workers@, worker_id@, 0);
                assert(false);
            }
            crate::store::lemma_find_worker_some(db.workers@, worker_id@, 0);
        }
    }
    match db.worker_assign(job, worker_id.as_str(), now) {
        Ok(()) => (),
        Err(_) => {
            return Ok(false);
        },
    }
    proof {
        assert forall|w: int|
            0 <= w < pre.len() implies (#[trigger] db.jobs@[w]).id.id@ == pre[w].id.id@ by {
            if spec_find_job(pre, job.id@) matches Some(ji) && w == ji {
            } else {
            }
        }
        crate::store::lemma_find_job_same_ids(pre, db.jobs@, job.id@, 0);
    }
    match db.job_event_append(job, None, "control", "worker assigned", now, None) {
        Ok(_) => Ok(true),
        Err(_) => Ok(true),
    }
}


/// Whether a job can be leased to a factory right now: queued for the
/// factory's target, with no worker and no unexpired lease.
pub open spec fn spec_leaseable(
    j: crate::jobs::Job,
    target_id: Seq<char>,
    leases: Leases,
    now: i64,
) -> bool {
    &&& !j.complete
    &&& !j.waiting
    &&& j.worker is None
    &&& j.target_id@ == target_id
    &&& match crate::leases::spec_find_lease_from(leases.leases@, j.id.id@, 0) {
        Some(li) => leases.leases@[li].expires <= now,
        None => true,
    }
}

/// Pick one queued job of a target for a factory to lease: the
/// handshake's first step.  Whatever is returned is a job that can be
/// leased at this instant.
#[verifier::loop_isolation(false)]
pub fn lease_pick(db: &Database, leases: &Leases, target_id: &str, now: i64) -> (r: Option<usize>)
    ensures
        r matches Some(i) ==> i < db.jobs@.len() && spec_leaseable(
            db.jobs@[i as int],
            target_id@,
            *leases,
            now,
        ),
        r is None ==> forall|i: int|
            0 <= i < db.jobs@.len() ==> !spec_leaseable(
                #[trigger] db.jobs@[i],
                target_id@,
                *leases,
                now,
            ),
{
    let mut i: usize = 0;
    while i < db.jobs.len()
        invariant
            i <= db.jobs@.len(),
            forall|m: int|
                0 <= m < i ==> !spec_leaseable(#[trigger] db.jobs@[m], target_id@, *leases, now),
        decreases db.jobs@.len() - i,
    {
        let j = &db.jobs[i];
        if !j.complete && !j.waiting && j.worker.is_none() && str_eq(
            j.target_id.as_str(),
            target_id,
        ) {
            let reserved = match leases.lease_of(&j.id) {
                Some(expires) => expires > now,
                None => false,
            };
            if !reserved {
                return Some(i);
            }
        }
        i = i + 1;
    }
    None
}

} // verus!

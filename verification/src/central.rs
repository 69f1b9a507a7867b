//! The heart of the service: the durable store, the staging area, the
//! lease table, the blob store and the local archive cache, together
//! with the operations that span them.  The archived read path serves
//! exactly what was captured when the job was archived, so archival is
//! invisible to readers.

use vstd::prelude::*;
use crate::archive::{ArchivedJob, BlobStore, archive_capture, spec_archive_matches_job};
use crate::error::{ApiError, ErrorKind};
use crate::ids::JobId;
use crate::jobs;
use crate::leases::Leases;
use crate::staging::Staging;
use crate::store::{Database, spec_find_job};
use crate::text::str_eq;

verus! {

use vstd::string::StringExecFns;

/// The index of the cached archive of a job, searching from `i`.
pub open spec fn spec_find_archive_from(s: Seq<ArchivedJob>, job: Seq<char>, i: int) -> Option<int>
    decreases s.len() - i when 0 <= i <= s.len()
{
    if i >= s.len() {
        None
    } else if s[i].id@ == job {
        Some(i)
    } else {
        spec_find_archive_from(s, job, i + 1)
    }
}

/// Where a committed file is served from.
#[derive(Debug)]
pub enum FileSource {
    /// Still on local disk: the position in the staging area.
    Staged(usize),
    /// Uploaded and unlinked: the object key in the blob store.
    Blob(String),
}

/// The shared state of the service.
#[derive(Debug)]
pub struct Central {
    pub db: Database,
    pub files: Staging,
    pub leases: Leases,
    pub blob: BlobStore,
    pub archives: Vec<ArchivedJob>,
    pub hold: bool,
    pub storage_prefix: String,
}

impl Central {
    /// Every cached archive carries a dense event log, so archived
    /// reads keep the numbering guarantee of live ones.
    pub open spec fn archives_wf(&self) -> bool {
        forall|a: int|
            0 <= a < self.archives@.len() ==> (forall|k: int|
                0 <= k < (#[trigger] self.archives@[a]).events@.len() ==> (
                #[trigger] self.archives@[a].events@[k]).seq == k)
    }

    pub open spec fn wf(&self) -> bool {
        &&& self.db.wf()
        &&& self.files.wf()
        &&& self.leases.wf()
        &&& self.archives_wf()
    }

    pub fn new(storage_prefix: String) -> (r: Central)
        ensures
            r.wf(),
            r.db.jobs@.len() == 0,
            r.archives@.len() == 0,
            r.hold == false,
    {
        Central {
            db: Database::new(),
            files: Staging::new(),
            leases: Leases::new(),
            blob: BlobStore::new(),
            archives: Vec::new(),
            hold: false,
            storage_prefix,
        }
    }

    /// Find the position of the cached archive of a job.
    fn find_archive(&self, job: &JobId) -> (r: Option<usize>)
        ensures
            match r {
                Some(i) => spec_find_archive_from(self.archives@, job.id@, 0) == Some(i as int) && i
                    < self.archives@.len() && self.archives@[i as int].id@ == job.id@,
                None => spec_find_archive_from(self.archives@, job.id@, 0) is None,
            },
    {
        let mut i: usize = 0;
        while i < self.archives.len()
            invariant
                i <= self.archives@.len(),
                spec_find_archive_from(self.archives@, job.id@, 0) == spec_find_archive_from(
                    self.archives@,
                    job.id@,
                    i as int,
                ),
            decreases self.archives@.len() - i,
        {
            if str_eq(self.archives[i].id.as_str(), job.id.as_str()) {
                return Some(i);
            }
            i = i + 1;
        }
        None
    }

    /// The object key of a committed file in the blob store.
    pub fn file_object_key(&self, job: &JobId, file: &crate::ids::JobFileId) -> (r: String)
        ensures
            r@ == self.storage_prefix@ + "/"@ + "output"@ + "/"@ + job.id@ + "/"@ + file.id@,
    {
        let mut suffix = String::new();
        suffix.append(job.id.as_str());
        suffix.append("/");
        suffix.append(file.id.as_str());
        let r = crate::archive::object_key(
            self.storage_prefix.as_str(),
            "output",
            suffix.as_str(),
        );
        proof {
            assert(r@ =~= self.storage_prefix@ + "/"@ + "output"@ + "/"@ + job.id@ + "/"@
                + file.id@);
        }
        r
    }

    /// The object key of a job's archive document in the blob store.
    pub fn archive_object_key(&self, job: &JobId) -> (r: String)
        ensures
            r@ == self.storage_prefix@ + "/"@ + "job"@ + "/"@ + "1/"@ + job.id@ + ".json"@,
    {
        let mut suffix = String::new();
        suffix.append("1/");
        suffix.append(job.id.as_str());
        suffix.append(".json");
        let r = crate::archive::object_key(self.storage_prefix.as_str(), "job", suffix.as_str());
        proof {
            assert(r@ =~= self.storage_prefix@ + "/"@ + "job"@ + "/"@ + "1/"@ + job.id@
                + ".json"@);
        }
        r
    }

    /// Presign one output for download: the requested life must be
    /// within the cap, and presigned reads always come from the object
    /// store, under the file's object key.  The signing itself is the
    /// store's.
    pub fn presign_file(&self, job: &JobId, file: &crate::ids::JobFileId, expiry_seconds: u64) -> (r:
        Result<String, ApiError>)
        ensures
            expiry_seconds > 3600 ==> (r matches Err(e) && e.kind == ErrorKind::Validation),
            expiry_seconds <= 3600 ==> (r matches Ok(key) && key@ == self.storage_prefix@ + "/"@
                + "output"@ + "/"@ + job.id@ + "/"@ + file.id@),
    {
        if !crate::archive::presign_expiry_ok(expiry_seconds) {
            return Err(
                ApiError::new(
                    ErrorKind::Validation,
                    String::from_str("URLs can last at most one hour"),
                ),
            );
        }
        Ok(self.file_object_key(job, file))
    }

    /// Complete a job, declining while any of its uploads is still in
    /// flight, and drop its commit bookkeeping afterwards.  Returns
    /// true exactly when this call performed the transition.
    pub fn complete_job(&mut self, job: &JobId, failed: bool, now: i64) -> (r: Result<
        bool,
        ApiError,
    >)
        requires
            old(self).wf(),
        ensures
            final(self).wf(),
            *final(self) == (Central {
                db: final(self).db,
                files: final(self).files,
                ..*old(self)
            }),
            (exists|i: int|
                0 <= i < old(self).files.commits@.len() && (
                #[trigger] old(self).files.commits@[i]).job.id@ == job.id@
                    && old(self).files.commits@[i].state is InFlight) ==> *final(self) == *old(self)
                && (r matches Err(e) && e.kind == ErrorKind::Conflict),
            !(exists|i: int|
                0 <= i < old(self).files.commits@.len() && (
                #[trigger] old(self).files.commits@[i]).job.id@ == job.id@
                    && old(self).files.commits@[i].state is InFlight) ==> match spec_find_job(
                old(self).db.jobs@,
                job.id@,
            ) {
                None => (r matches Err(e) && e.kind == ErrorKind::NotFound) && final(self).db
                    == old(self).db,
                Some(i) => {
                    if old(self).db.jobs@[i].complete {
                        r == Ok::<bool, ApiError>(false) && final(self).db == old(self).db
                    } else {
                        &&& r == Ok::<bool, ApiError>(true)
                        &&& final(self).db.jobs@.len() == old(self).db.jobs@.len()
                        &&& final(self).db.jobs@[i].complete
                        &&& final(self).db.jobs@[i].failed == failed
                        &&& final(self).db.jobs@[i].worker is None
                        &&& !final(self).db.jobs@[i].waiting
                        &&& final(self).db.jobs@[i].times@.len() == old(
                            self,
                        ).db.jobs@[i].times@.len() + 1
                        &&& final(self).db.jobs@[i].times@.last().0@ == "complete"@
                        &&& final(self).db.jobs@[i].times@.last().1 == now
                    }
                },
            },
            r is Ok ==> final(self).files.commits@ == crate::staging::spec_commits_kept(
                old(self).files.commits@,
                job.id@,
            ),
    {
        if self.files.uploads_in_flight(job) {
            return Err(
                ApiError::new(
                    ErrorKind::Conflict,
                    String::from_str("job cannot be completed while uploads are in flight"),
                ),
            );
        }
        let r = match self.db.job_complete(job, failed, now) {
            Ok(r) => r,
            Err(e) => {
                return Err(e);
            },
        };
        self.files.forget_job(job);
        Ok(r)
    }

    /// Archive a completed job: capture its read-model, upload the
    /// rendered document, keep it in the local cache, and purge the
    /// heavyweight rows from the live database.  Archiving an already
    /// archived job changes nothing.
    pub fn archive_job(&mut self, job: &JobId) -> (r: Result<(), ApiError>)
        requires
            old(self).wf(),
        ensures
            final(self).wf(),
            match spec_find_job(old(self).db.jobs@, job.id@) {
                None => *final(self) == *old(self) && (r matches Err(e) && e.kind
                    == ErrorKind::NotFound),
                Some(i) => {
                    if old(self).db.jobs@[i].archived {
                        *final(self) == *old(self) && r is Ok
                    } else if !old(self).db.jobs@[i].complete {
                        *final(self) == *old(self) && (r matches Err(e) && e.kind
                            == ErrorKind::Conflict)
                    } else {
                        &&& r is Ok
                        &&& *final(self) == (Central {
                            db: final(self).db,
                            blob: final(self).blob,
                            archives: final(self).archives,
                            ..*old(self)
                        })
                        &&& final(self).db == (crate::store::Database {
                            jobs: final(self).db.jobs,
                            ..old(self).db
                        })
                        &&& final(self).db.jobs@.len() == old(self).db.jobs@.len()
                        &&& (forall|k: int|
                            0 <= k < old(self).db.jobs@.len() && k != i ==> final(self).db.jobs@[k]
                                == old(self).db.jobs@[k])
                        &&& final(self).db.jobs@[i] == (crate::jobs::Job {
                            archived: true,
                            events: final(self).db.jobs@[i].events,
                            store: final(self).db.jobs@[i].store,
                            ..old(self).db.jobs@[i]
                        })
                        &&& final(self).db.jobs@[i].events@.len() == 0
                        &&& final(self).db.jobs@[i].store@.len() == 0
                        &&& (spec_find_archive_from(final(self).archives@, job.id@, 0) matches Some(
                            k,
                        ) && spec_archive_matches_job(
                            final(self).archives@[k],
                            old(self).db.jobs@[i],
                        ))
                        &&& ({
                            let key = old(self).storage_prefix@ + "/"@ + "job"@ + "/"@ + "1/"@
                                + job.id@ + ".json"@;
                            crate::archive::spec_find_doc_from(
                                final(self).blob.documents@,
                                key,
                                0,
                            ) matches Some(d) && ({
                                let doc = final(self).blob.documents@[d].1;
                                &&& (crate::json::spec_parse(doc@, 0) matches Some(p) && p.1
                                    == doc@.len() && (p.0 matches
                                crate::json::GJson::Obj(gfs) && ({
                                    let oj = old(self).db.jobs@[i];
                                    &&& gfs.len() == 15
                                    &&& gfs[0].0 == "version"@ && gfs[0].1
                                        == crate::json::GJson::Num(
                                        crate::archive::ARCHIVE_VERSION as int,
                                    )
                                    &&& gfs[1].0 == "id"@ && gfs[1].1 == crate::json::GJson::Str(
                                        oj.id.id@,
                                    )
                                    &&& gfs[13].0 == "events"@ && (gfs[13].1 matches
                                    crate::json::GJson::Arr(xs) && xs.len() == oj.events@.len())
                                    &&& gfs[10].0 == "outputs"@ && (gfs[10].1 matches
                                    crate::json::GJson::Arr(xs) && xs.len() == oj.outputs@.len())
                                })))
                            })
                        })
                    }
                },
            },
    {
        let (already, complete) = {
            let j = match self.db.job_by_id(job) {
                Some(j) => j,
                None => {
                    return Err(
                        ApiError::new(ErrorKind::NotFound, String::from_str("job not found")),
                    );
                },
            };
            (j.archived, j.complete)
        };
        if already {
            return Ok(());
        }
        if !complete {
            return Err(
                ApiError::new(
                    ErrorKind::Conflict,
                    String::from_str("only complete jobs can be archived"),
                ),
            );
        }
        proof {
            crate::store::lemma_find_job_some(self.db.jobs@, job.id@, 0);
        }
        let aj = {
            let j = match self.db.job_by_id(job) {
                Some(j) => j,
                None => {
                    return Err(
                        ApiError::new(ErrorKind::NotFound, String::from_str("job not found")),
                    );
                },
            };
            archive_capture(j)
        };
        let jdoc = crate::archive::archive_to_json(&aj);
        let doc = crate::json::render_json(&jdoc);
        let key = self.archive_object_key(job);
        self.blob.put_document(key, doc);
        proof {
            crate::json::lemma_round_trip(crate::json::jview(jdoc));
        }
        let pos = self.find_archive(job);
        let ghost pre_archives = self.archives@;
        match pos {
            Some(k) => {
                self.archives.set(k, aj);
                proof {
                    lemma_find_archive_update(pre_archives, job.id@, k as int);
                }
            },
            None => {
                self.archives.push(aj);
                proof {
                    lemma_find_archive_push(pre_archives, job.id@);
                }
            },
        }
        match self.db.job_mark_archived(job) {
            Ok(()) => Ok(()),
            Err(e) => Err(e),
        }
    }

    /// Read a job's events with sequence number at least `minseq`:
    /// from the live database, or, for an archived job, from its
    /// archive, unchanged.  A job archived by this instance is always
    /// served from the local cache.
    pub fn load_job_events(&self, job: &JobId, minseq: usize) -> (r: Result<
        Vec<jobs::JobEvent>,
        ApiError,
    >)
        ensures
            self.wf() ==> (r matches Ok(evs) ==> forall|k: int|
                0 <= k < evs@.len() ==> (#[trigger] evs@[k]).seq == minseq + k),
            match spec_find_job(self.db.jobs@, job.id@) {
                None => r matches Err(e) && e.kind == ErrorKind::NotFound,
                Some(i) => {
                    if !self.db.jobs@[i].archived {
                        match r {
                            Ok(evs) => {
                                let es = self.db.jobs@[i].events@;
                                &&& evs@.len() == if minseq < es.len() {
                                    es.len() - minseq
                                } else {
                                    0
                                }
                                &&& (forall|k: int|
                                    0 <= k < evs@.len() ==> jobs::spec_event_eqv(
                                        #[trigger] evs@[k],
                                        es[minseq + k],
                                    ))
                            },
                            Err(_) => false,
                        }
                    } else {
                        match spec_find_archive_from(self.archives@, job.id@, 0) {
                            None => r matches Err(e) && e.kind == ErrorKind::Internal,
                            Some(a) => match r {
                                Ok(evs) => {
                                    let es = self.archives@[a].events@;
                                    &&& evs@.len() == if minseq < es.len() {
                                        es.len() - minseq
                                    } else {
                                        0
                                    }
                                    &&& (forall|k: int|
                                        0 <= k < evs@.len() ==> jobs::spec_event_eqv(
                                            #[trigger] evs@[k],
                                            es[minseq + k],
                                        ))
                                },
                                Err(_) => false,
                            },
                        }
                    }
                },
            },
    {
        let archived = match self.db.job_by_id(job) {
            Some(j) => j.archived,
            None => {
                return Err(ApiError::new(ErrorKind::NotFound, String::from_str("job not found")));
            },
        };
        if !archived {
            let evs = match self.db.job_events(job, minseq) {
                Ok(e) => e,
                Err(e) => {
                    return Err(e);
                },
            };
            proof {
                if self.wf() {
                    if let Some(i) = spec_find_job(self.db.jobs@, job.id@) {
                        crate::store::lemma_find_job_some(self.db.jobs@, job.id@, 0);
                        assert forall|k: int|
                            0 <= k < evs@.len() implies (#[trigger] evs@[k]).seq == minseq
                            + k by {
                            assert(jobs::spec_event_eqv(
                                evs@[k],
                                self.db.jobs@[i].events@[minseq + k],
                            ));
                            assert(self.db.jobs@[i].wf());
                            assert(self.db.jobs@[i].events@[minseq + k].seq == minseq + k);
                        }
                    }
                }
            }
            return Ok(evs);
        }
        let a = match self.find_archive(job) {
            Some(a) => a,
            None => {
                return Err(
                    ApiError::new(ErrorKind::Internal, String::from_str("archive not cached")),
                );
            },
        };
        let es = &self.archives[a].events;
        let mut r: Vec<jobs::JobEvent> = Vec::new();
        let mut k: usize = minseq;
        while k < es.len()
            invariant
                minseq <= k <= es@.len() || (k == minseq && minseq >= es@.len()),
                es@ == self.archives@[a as int].events@,
                a < self.archives@.len(),
                r@.len() == if minseq < k {
                    k - minseq
                } else {
                    0
                },
                forall|m: int|
                    0 <= m < r@.len() ==> jobs::spec_event_eqv(#[trigger] r@[m], es@[minseq + m]),
            decreases es@.len() - k,
        {
            r.push(jobs::clone_event(&es[k]));
            k = k + 1;
        }
        proof {
            if self.wf() {
                assert forall|m: int|
                    0 <= m < r@.len() implies (#[trigger] r@[m]).seq == minseq + m by {
                    assert(jobs::spec_event_eqv(r@[m], es@[minseq + m]));
                    assert(self.archives@[a as int].events@[minseq + m].seq == minseq + m);
                }
            }
        }
        Ok(r)
    }

    /// Read all output records of a job: from the live database, or,
    /// for an archived job, from its archive, unchanged.
    pub fn load_job_outputs(&self, job: &JobId) -> (r: Result<Vec<jobs::JobOutput>, ApiError>)
        ensures
            match spec_find_job(self.db.jobs@, job.id@) {
                None => r matches Err(e) && e.kind == ErrorKind::NotFound,
                Some(i) => {
                    if !self.db.jobs@[i].archived {
                        match r {
                            Ok(outs) => {
                                let os = self.db.jobs@[i].outputs@;
                                &&& outs@.len() == os.len()
                                &&& (forall|k: int|
                                    0 <= k < os.len() ==> jobs::spec_output_eqv(
                                        #[trigger] outs@[k],
                                        os[k],
                                    ))
                            },
                            Err(_) => false,
                        }
                    } else {
                        match spec_find_archive_from(self.archives@, job.id@, 0) {
                            None => r matches Err(e) && e.kind == ErrorKind::Internal,
                            Some(a) => match r {
                                Ok(outs) => {
                                    let os = self.archives@[a].outputs@;
                                    &&& outs@.len() == os.len()
                                    &&& (forall|k: int|
                                        0 <= k < os.len() ==> jobs::spec_output_eqv(
                                            #[trigger] outs@[k],
                                            os[k],
                                        ))
                                },
                                Err(_) => false,
                            },
                        }
                    }
                },
            },
    {
        let archived = match self.db.job_by_id(job) {
            Some(j) => j.archived,
            None => {
                return Err(ApiError::new(ErrorKind::NotFound, String::from_str("job not found")));
            },
        };
        if !archived {
            return self.db.job_outputs(job);
        }
        let a = match self.find_archive(job) {
            Some(a) => a,
            None => {
                return Err(
                    ApiError::new(ErrorKind::Internal, String::from_str("archive not cached")),
                );
            },
        };
        let os = &self.archives[a].outputs;
        let mut r: Vec<jobs::JobOutput> = Vec::new();
        let mut k: usize = 0;
        while k < os.len()
            invariant
                k <= os@.len(),
                os@ == self.archives@[a as int].outputs@,
                a < self.archives@.len(),
                r@.len() == k,
                forall|m: int| 0 <= m < k ==> jobs::spec_output_eqv(#[trigger] r@[m], os@[m]),
            decreases os@.len() - k,
        {
            r.push(jobs::clone_output(&os[k]));
            k = k + 1;
        }
        Ok(r)
    }

    /// Bootstrap a worker with its single-use secret.  A worker a
    /// factory pre-bound to a leased job is joined to that job at
    /// once, bypassing the assignment loop, and the lease is consumed.
    pub fn worker_bootstrap(&mut self, bootstrap: &str, now: i64) -> (r: Result<String, ApiError>)
        requires
            old(self).wf(),
        ensures
            final(self).wf(),
            *final(self) == (Central {
                db: final(self).db,
                leases: final(self).leases,
                ..*old(self)
            }),
            match crate::store::spec_find_worker_bootstrap_from(
                old(self).db.workers@,
                bootstrap@,
                0,
            ) {
                None => *final(self) == *old(self) && (r matches Err(e) && e.kind
                    == ErrorKind::Authentication),
                Some(wi) => {
                    if old(self).db.workers@[wi].token is Some {
                        *final(self) == *old(self) && (r matches Err(e) && e.kind
                            == ErrorKind::Authentication)
                    } else {
                        &&& r matches Ok(t) && (final(self).db.workers@[wi].token matches Some(wt)
                            && wt@ == t@)
                        &&& match old(self).db.workers@[wi].job {
                            Some(jid) => crate::leases::spec_find_lease_from(
                                final(self).leases.leases@,
                                jid.id@,
                                0,
                            ) is None,
                            None => final(self).leases == old(self).leases && final(self).db.jobs
                                == old(self).db.jobs,
                        }
                    }
                },
            },
{
        let bound = {
            let mut wi: usize = 0;
            let n = self.db.workers.len();
            let mut found: Option<usize> = None;
            loop
                invariant_except_break
                    found is None,
                    crate::store::spec_find_worker_bootstrap_from(
                        self.db.workers@,
                        bootstrap@,
                        0,
                    ) == crate::store::spec_find_worker_bootstrap_from(
                        self.db.workers@,
                        bootstrap@,
                        wi as int,
                    ),
                invariant
                    wi <= n,
                    n == self.db.workers@.len(),
                    *self == *old(self),
                ensures
                    *self == *old(self),
                    match crate::store::spec_find_worker_bootstrap_from(
                        self.db.workers@,
                        bootstrap@,
                        0,
                    ) {
                        Some(m) => found == Some(m as usize) && 0 <= m < n,
                        None => found is None,
                    },
                decreases n - wi,
            {
                if wi >= n {
                    break ;
                }
                if str_eq(self.db.workers[wi].bootstrap.as_str(), bootstrap) {
                    found = Some(wi);
                    proof {
                        assert(crate::store::spec_find_worker_bootstrap_from(
                            self.db.workers@,
                            bootstrap@,
                            wi as int,
                        ) == Some(wi as int));
                    }
                    break ;
                }
                wi = wi + 1;
            }
            match found {
                Some(wi) => {
                    let w = &self.db.workers[wi];
                    (
                        Some(w.id.clone()),
                        match &w.job {
                            Some(j) => Some(JobId { id: j.id.clone() }),
                            None => None,
                        },
                    )
                },
                None => (None, None),
            }
        };
        let token = match self.db.worker_bootstrap(bootstrap) {
            Ok(t) => t,
            Err(e) => {
                return Err(e);
            },
        };
        let (wid, job) = bound;
        if let Some(jid) = job {
            self.leases.release(&jid);
            if let Some(wid) = wid {
                match self.db.worker_claim_prebound(wid.as_str(), now) {
                    Ok(()) => (),
                    Err(_) => (),
                }
            }
        }
        Ok(token)
    }

    /// Read a job's store: from the live database, or, for an
    /// archived job, from its archive, unchanged.
    pub fn load_job_store(&self, job: &JobId) -> (r: Result<
        Vec<(String, jobs::StoreValue)>,
        ApiError,
    >)
        ensures
            match spec_find_job(self.db.jobs@, job.id@) {
                None => r matches Err(e) && e.kind == ErrorKind::NotFound,
                Some(i) => {
                    if !self.db.jobs@[i].archived {
                        match r {
                            Ok(st) => {
                                let os = self.db.jobs@[i].store@;
                                &&& st@.len() == os.len()
                                &&& (forall|k: int|
                                    0 <= k < os.len() ==> crate::archive::spec_store_eqv(
                                        #[trigger] st@[k],
                                        os[k],
                                    ))
                            },
                            Err(_) => false,
                        }
                    } else {
                        match spec_find_archive_from(self.archives@, job.id@, 0) {
                            None => r matches Err(e) && e.kind == ErrorKind::Internal,
                            Some(a) => match r {
                                Ok(st) => {
                                    let os = self.archives@[a].store@;
                                    &&& st@.len() == os.len()
                                    &&& (forall|k: int|
                                        0 <= k < os.len() ==> crate::archive::spec_store_eqv(
                                            #[trigger] st@[k],
                                            os[k],
                                        ))
                                },
                                Err(_) => false,
                            },
                        }
                    }
                },
            },
    {
        let archived = match self.db.job_by_id(job) {
            Some(j) => j.archived,
            None => {
                return Err(ApiError::new(ErrorKind::NotFound, String::from_str("job not found")));
            },
        };
        let st = if !archived {
            let i = match self.db.find_job(job) {
                Some(i) => i,
                None => {
                    return Err(
                        ApiError::new(ErrorKind::NotFound, String::from_str("job not found")),
                    );
                },
            };
            &self.db.jobs[i].store
        } else {
            let a = match self.find_archive(job) {
                Some(a) => a,
                None => {
                    return Err(
                        ApiError::new(ErrorKind::Internal, String::from_str("archive not cached")),
                    );
                },
            };
            &self.archives[a].store
        };
        let mut r: Vec<(String, jobs::StoreValue)> = Vec::new();
        let mut k: usize = 0;
        while k < st.len()
            invariant
                k <= st@.len(),
                r@.len() == k,
                forall|m: int|
                    0 <= m < k ==> crate::archive::spec_store_eqv(#[trigger] r@[m], st@[m]),
            decreases st@.len() - k,
        {
            let (key, v) = &st[k];
            r.push(
                (
                    key.clone(),
                    jobs::StoreValue {
                        value: v.value.clone(),
                        secret: v.secret,
                        time_update: v.time_update,
                        source: v.source.clone(),
                    },
                ),
            );
            k = k + 1;
        }
        Ok(r)
    }

    /// Serve a committed file from wherever it lives: the local
    /// staging area while it is still there, and the blob store under
    /// its object key once it has been uploaded and unlinked.
    pub fn file_source(&self, job: &JobId, file: &crate::ids::JobFileId) -> (r: FileSource)
        ensures
            match r {
                FileSource::Staged(i) => crate::staging::spec_find_file_from(
                    self.files.files@,
                    job.id@,
                    file.id@,
                    0,
                ) == Some(i as int) && i < self.files.files@.len(),
                FileSource::Blob(key) => crate::staging::spec_find_file_from(
                    self.files.files@,
                    job.id@,
                    file.id@,
                    0,
                ) is None && key@ == self.storage_prefix@ + "/"@ + "output"@ + "/"@ + job.id@
                    + "/"@ + file.id@,
            },
    {
        match self.files.find_file(job, file) {
            Some(i) => FileSource::Staged(i),
            None => FileSource::Blob(self.file_object_key(job, file)),
        }
    }

    /// Restore a job's archive into the local cache from the blob
    /// store, after validating the fetched document.  A malformed or
    /// unknown document is rejected and never poisons reads.
    #[verifier::loop_isolation(false)]
    pub fn archive_restore(&mut self, job: &JobId) -> (r: Result<(), ApiError>)
        requires
            old(self).wf(),
        ensures
            final(self).wf(),
            *final(self) == (Central { archives: final(self).archives, ..*old(self) }),
            r is Err ==> *final(self) == *old(self),
            match spec_find_archive_from(old(self).archives@, job.id@, 0) {
                Some(_) => *final(self) == *old(self) && r is Ok,
                None => {
                    let key = old(self).storage_prefix@ + "/"@ + "job"@ + "/"@ + "1/"@ + job.id@
                        + ".json"@;
                    match crate::archive::spec_find_doc_from(old(self).blob.documents@, key, 0) {
                        None => *final(self) == *old(self) && (r matches Err(e) && e.kind
                            == ErrorKind::NotFound),
                        Some(d) => {
                            let doc = old(self).blob.documents@[d].1;
                            &&& (crate::json::spec_parse(doc@, 0) is None ==> r is Err)
                            &&& (r is Ok ==> (crate::json::spec_parse(doc@, 0) matches Some(p)
                                && p.1 == doc@.len()))
                            &&& (r is Ok ==> final(self).archives@ == old(self).archives@.push(
                                final(self).archives@.last(),
                            ) && ({
                                let aj = final(self).archives@.last();
                                &&& aj.version == crate::archive::ARCHIVE_VERSION
                                &&& aj.id@ == job.id@
                                &&& (forall|k: int|
                                    0 <= k < aj.events@.len() ==> (#[trigger] aj.events@[k]).seq
                                        == k)
                            }))
                        },
                    }
                },
            },
    {
        if self.find_archive(job).is_some() {
            return Ok(());
        }
        let key = self.archive_object_key(job);
        let doc = {
            match self.blob.get_document(key.as_str()) {
                Some(doc) => doc.clone(),
                None => {
                    return Err(
                        ApiError::new(ErrorKind::NotFound, String::from_str("archive not found")),
                    );
                },
            }
        };
        let v = match crate::json::parse_document(doc.as_str()) {
            Some(v) => v,
            None => {
                return Err(
                    ApiError::new(ErrorKind::Internal, String::from_str("archive is malformed")),
                );
            },
        };
        let aj = match crate::archive::archive_of_json(&v) {
            Some(aj) => aj,
            None => {
                return Err(
                    ApiError::new(ErrorKind::Internal, String::from_str("archive is malformed")),
                );
            },
        };
        if !aj.is_valid() {
            return Err(
                ApiError::new(ErrorKind::Internal, String::from_str("archive layout is unknown")),
            );
        }
        if !str_eq(aj.id.as_str(), job.id.as_str()) {
            return Err(
                ApiError::new(ErrorKind::Internal, String::from_str("archive names another job")),
            );
        }
        let mut k: usize = 0;
        while k < aj.events.len()
            invariant
                k <= aj.events@.len(),
                forall|m: int| 0 <= m < k ==> (#[trigger] aj.events@[m]).seq == m,
            decreases aj.events@.len() - k,
        {
            if aj.events[k].seq != k {
                return Err(
                    ApiError::new(
                        ErrorKind::Internal,
                        String::from_str("archive event numbering is broken"),
                    ),
                );
            }
            k = k + 1;
        }
        let ghost pre = self.archives@;
        self.archives.push(aj);
        proof {
            lemma_find_archive_push(pre, job.id@);
        }
        Ok(())
    }
}

/// Replacing the archive at the position a search finds keeps it
/// findable.
proof fn lemma_find_archive_update(s: Seq<ArchivedJob>, job: Seq<char>, k: int)
    requires
        0 <= k < s.len(),
        spec_find_archive_from(s, job, 0) == Some(k),
    ensures
        forall|a: ArchivedJob|
            a.id@ == job ==> spec_find_archive_from(#[trigger] s.update(k, a), job, 0) == Some(k),
{
    assert forall|a: ArchivedJob|
        a.id@ == job implies spec_find_archive_from(#[trigger] s.update(k, a), job, 0) == Some(
        k,
    ) by {
        lemma_find_archive_update_from(s, job, k, a, 0);
    }
}

proof fn lemma_find_archive_update_from(s: Seq<ArchivedJob>, job: Seq<char>, k: int, a: ArchivedJob, i: int)
    requires
        0 <= i <= s.len(),
        i <= k < s.len(),
        a.id@ == job,
        spec_find_archive_from(s, job, i) == Some(k),
    ensures
        spec_find_archive_from(s.update(k, a), job, i) == Some(k),
    decreases s.len() - i,
{
    if i < s.len() {
        if i == k {
        } else {
            assert(s.update(k, a)[i] == s[i]);
            lemma_find_archive_update_from(s, job, k, a, i + 1);
        }
    }
}

/// An archive pushed for a job that had none becomes the one a search
/// finds.
proof fn lemma_find_archive_push(s: Seq<ArchivedJob>, job: Seq<char>)
    requires
        spec_find_archive_from(s, job, 0) is None,
    ensures
        forall|a: ArchivedJob|
            a.id@ == job ==> spec_find_archive_from(#[trigger] s.push(a), job, 0) == Some(
                s.len() as int,
            ),
{
    assert forall|a: ArchivedJob|
        a.id@ == job implies spec_find_archive_from(#[trigger] s.push(a), job, 0) == Some(
        s.len() as int,
    ) by {
        lemma_find_archive_push_from(s, job, a, 0);
    }
}

proof fn lemma_find_archive_push_from(s: Seq<ArchivedJob>, job: Seq<char>, a: ArchivedJob, i: int)
    requires
        0 <= i <= s.len(),
        a.id@ == job,
        spec_find_archive_from(s, job, i) is None,
    ensures
        spec_find_archive_from(s.push(a), job, i) == Some(s.len() as int),
    decreases s.len() - i,
{
    if i < s.len() {
        assert(s.push(a)[i] == s[i]);
        lemma_find_archive_push_from(s, job, a, i + 1);
    } else {
        assert(s.push(a)[i] == a);
    }
}

} // verus!

//! File staging: the assembly buffer between client uploads and either
//! worker delivery or cold storage.  Clients upload chunks, then commit
//! a file as an ordered list of chunks with an expected total size.
//! Commits are idempotent on their commit identifier: repeating a commit
//! with the same parameters reports the same outcome, and repeating it
//! with different parameters is rejected.

use vstd::prelude::*;
use crate::error::{ApiError, ErrorKind};
use crate::ids::{JobId, JobFileId};
use crate::store::Database;
use crate::text::str_eq;

verus! {

use vstd::string::StringExecFns;

/// One uploaded chunk, addressed by job and chunk identifier.
#[derive(Debug)]
pub struct Chunk {
    pub job: JobId,
    pub id: String,
    pub data: Vec<u8>,
}

/// What a committed file becomes: a named input of the job, or an
/// output collected from the worker.
#[derive(Debug)]
pub enum FileKind {
    Input { name: String },
    Output { path: String },
}

/// Where a commit stands: the assembly is still owed, or it finished,
/// successfully or with an error message.
#[derive(Debug)]
pub enum CommitState {
    InFlight,
    Done(Option<String>),
}

/// One commit request, remembered under its commit identifier.
#[derive(Debug)]
pub struct Commit {
    pub job: JobId,
    pub commit_id: String,
    pub kind: FileKind,
    pub expected_size: u64,
    pub chunks: Vec<String>,
    pub state: CommitState,
}

/// An assembled, immutable file in the staging area.
#[derive(Debug)]
pub struct StagedFile {
    pub job: JobId,
    pub id: JobFileId,
    pub data: Vec<u8>,
}

/// What a client polling a commit learns.
#[derive(Debug)]
pub enum CommitProgress {
    Pending,
    Done(Option<String>),
}

/// The staging area.
#[derive(Debug)]
pub struct Staging {
    pub chunks: Vec<Chunk>,
    pub files: Vec<StagedFile>,
    pub commits: Vec<Commit>,
}

/// The index of the chunk of a job with the given identifier,
/// searching from `i`.
pub open spec fn spec_find_chunk_from(s: Seq<Chunk>, job: Seq<char>, id: Seq<char>, i: int) -> Option<
    int,
>
    decreases s.len() - i when 0 <= i <= s.len()
{
    if i >= s.len() {
        None
    } else if s[i].job.id@ == job && s[i].id@ == id {
        Some(i)
    } else {
        spec_find_chunk_from(s, job, id, i + 1)
    }
}

/// The index of the commit of a job with the given commit identifier,
/// searching from `i`.
pub open spec fn spec_find_commit_from(
    s: Seq<Commit>,
    job: Seq<char>,
    id: Seq<char>,
    i: int,
) -> Option<int>
    decreases s.len() - i when 0 <= i <= s.len()
{
    if i >= s.len() {
        None
    } else if s[i].job.id@ == job && s[i].commit_id@ == id {
        Some(i)
    } else {
        spec_find_commit_from(s, job, id, i + 1)
    }
}

/// The bytes that an ordered list of chunk identifiers assembles to for
/// a job, reading the identifiers from position `t` on: the
/// concatenation of the chunks' bytes, or nothing if an identifier
/// names no chunk of the job.
pub open spec fn spec_assemble_from(
    chunks: Seq<Chunk>,
    job: Seq<char>,
    ids: Seq<Seq<char>>,
    t: int,
) -> Option<Seq<u8>>
    decreases ids.len() - t when 0 <= t <= ids.len()
{
    if t >= ids.len() {
        Some(Seq::empty())
    } else {
        match spec_find_chunk_from(chunks, job, ids[t], 0) {
            None => None,
            Some(i) => match spec_assemble_from(chunks, job, ids, t + 1) {
                None => None,
                Some(rest) => Some(chunks[i].data@ + rest),
            },
        }
    }
}

/// The bytes that an ordered list of chunk identifiers assembles to.
pub open spec fn spec_assemble(chunks: Seq<Chunk>, job: Seq<char>, ids: Seq<Seq<char>>) -> Option<
    Seq<u8>,
> {
    spec_assemble_from(chunks, job, ids, 0)
}

/// The views of a list of chunk identifier strings.
pub open spec fn spec_id_views(ids: Seq<String>) -> Seq<Seq<char>> {
    ids.map_values(|s: String| s@)
}

/// A stored commit carries the given request parameters.
pub open spec fn spec_params_match(
    c: Commit,
    kind: FileKind,
    expected_size: u64,
    ids: Seq<Seq<char>>,
) -> bool {
    &&& match (c.kind, kind) {
        (FileKind::Input { name: x }, FileKind::Input { name: y }) => x@ == y@,
        (FileKind::Output { path: x }, FileKind::Output { path: y }) => x@ == y@,
        _ => false,
    }
    &&& c.expected_size == expected_size
    &&& spec_id_views(c.chunks@) == ids
}

/// The reported progress reflects where the stored commit stands.
pub open spec fn spec_progress_matches(p: CommitProgress, s: CommitState) -> bool {
    match (p, s) {
        (CommitProgress::Pending, CommitState::InFlight) => true,
        (CommitProgress::Done(a), CommitState::Done(b)) => match (a, b) {
            (None, None) => true,
            (Some(x), Some(y)) => x@ == y@,
            _ => false,
        },
        _ => false,
    }
}

impl Staging {
    pub open spec fn commits_unique(&self) -> bool {
        forall|i: int, k: int|
            0 <= i < self.commits@.len() && 0 <= k < self.commits@.len() && i != k ==> !((
            #[trigger] self.commits@[i]).job.id@ == (#[trigger] self.commits@[k]).job.id@
                && self.commits@[i].commit_id@ == self.commits@[k].commit_id@)
    }

    pub open spec fn wf(&self) -> bool {
        self.commits_unique()
    }

    pub fn new() -> (r: Staging)
        ensures
            r.wf(),
            r.chunks@.len() == 0,
            r.files@.len() == 0,
            r.commits@.len() == 0,
    {
        Staging { chunks: Vec::new(), files: Vec::new(), commits: Vec::new() }
    }

    /// Find the position of a chunk of a job.
    fn find_chunk(&self, job: &JobId, id: &str) -> (r: Option<usize>)
        ensures
            match r {
                Some(i) => spec_find_chunk_from(self.chunks@, job.id@, id@, 0) == Some(i as int)
                    && i < self.chunks@.len(),
                None => spec_find_chunk_from(self.chunks@, job.id@, id@, 0) is None,
            },
    {
        let mut i: usize = 0;
        while i < self.chunks.len()
            invariant
                i <= self.chunks@.len(),
                spec_find_chunk_from(self.chunks@, job.id@, id@, 0) == spec_find_chunk_from(
                    self.chunks@,
                    job.id@,
                    id@,
                    i as int,
                ),
            decreases self.chunks@.len() - i,
        {
            if str_eq(self.chunks[i].job.id.as_str(), job.id.as_str()) && str_eq(
                self.chunks[i].id.as_str(),
                id,
            ) {
                return Some(i);
            }
            i = i + 1;
        }
        None
    }

    /// Store one uploaded chunk under a fresh chunk identifier.  An
    /// existing chunk is never overwritten: the freak case of a
    /// colliding identifier is refused rather than shadowed.
    pub fn write_chunk(&mut self, job: &JobId, data: Vec<u8>) -> (r: Result<String, ApiError>)
        requires
            old(self).wf(),
        ensures
            final(self).wf(),
            *final(self) == (Staging { chunks: final(self).chunks, ..*old(self) }),
            match r {
                Ok(cid) => {
                    &&& final(self).chunks@.len() == old(self).chunks@.len() + 1
                    &&& final(self).chunks@.subrange(0, old(self).chunks@.len() as int) == old(
                        self,
                    ).chunks@
                    &&& final(self).chunks@.last().job.id@ == job.id@
                    &&& final(self).chunks@.last().id@ == cid@
                    &&& final(self).chunks@.last().data == data
                    &&& spec_find_chunk_from(old(self).chunks@, job.id@, cid@, 0) is None
                },
                Err(e) => *final(self) == *old(self) && e.kind == ErrorKind::Internal && old(
                    self,
                ).chunks@.len() > 0,
            },
    {
        let id = crate::ids::ulid_generate();
        if self.find_chunk(job, id.as_str()).is_some() {
            return Err(
                ApiError::new(ErrorKind::Internal, String::from_str("identifier collision")),
            );
        }
        self.chunks.push(Chunk { job: JobId { id: job.id.clone() }, id: id.clone(), data });
        proof {
            assert(final(self).chunks@.subrange(0, old(self).chunks@.len() as int) =~= old(self).chunks@);
        }
        Ok(id)
    }

    /// Assemble the named chunks of a job, in order, into one byte
    /// string.  Nothing is changed; the result is exactly the
    /// concatenation of the chunks' bytes.
    fn assemble(&self, job: &JobId, chunk_ids: &Vec<String>) -> (r: Option<Vec<u8>>)
        ensures
            match spec_assemble(self.chunks@, job.id@, spec_id_views(chunk_ids@)) {
                None => r is None,
                Some(bytes) => r matches Some(out) && out@ == bytes,
            },
    {
        let ghost ids = spec_id_views(chunk_ids@);
        let mut out: Vec<u8> = Vec::new();
        let mut t: usize = 0;
        while t < chunk_ids.len()
            invariant
                0 <= t <= chunk_ids@.len(),
                ids == spec_id_views(chunk_ids@),
                spec_assemble(self.chunks@, job.id@, ids) == match spec_assemble_from(
                    self.chunks@,
                    job.id@,
                    ids,
                    t as int,
                ) {
                    None => None::<Seq<u8>>,
                    Some(rest) => Some(out@ + rest),
                },
            decreases chunk_ids@.len() - t,
        {
            let mut ci: usize = 0;
            let n = self.chunks.len();
            loop
                invariant
                    ci <= n,
                    n == self.chunks@.len(),
                    t < chunk_ids@.len(),
                    ids == spec_id_views(chunk_ids@),
                    spec_find_chunk_from(self.chunks@, job.id@, ids[t as int], 0)
                        == spec_find_chunk_from(self.chunks@, job.id@, ids[t as int], ci as int),
                ensures
                    match spec_find_chunk_from(self.chunks@, job.id@, ids[t as int], 0) {
                        None => ci == n,
                        Some(m) => m == ci as int && ci < n,
                    },
                decreases n - ci,
            {
                if ci >= n {
                    break ;
                }
                if str_eq(self.chunks[ci].job.id.as_str(), job.id.as_str()) && str_eq(
                    self.chunks[ci].id.as_str(),
                    chunk_ids[t].as_str(),
                ) {
                    break ;
                }
                ci = ci + 1;
            }
            if ci >= n {
                return None;
            }
            let data = &self.chunks[ci].data;
            let ghost pre = out@;
            let mut m: usize = 0;
            while m < data.len()
                invariant
                    m <= data@.len(),
                    data@ == self.chunks@[ci as int].data@,
                    ci < self.chunks@.len(),
                    out@ == pre + data@.subrange(0, m as int),
                decreases data@.len() - m,
            {
                out.push(data[m]);
                proof {
                    assert(pre + data@.subrange(0, m as int).push(data@[m as int]) =~= pre
                        + data@.subrange(0, m + 1 as int));
                }
                m = m + 1;
            }
            proof {
                assert(data@.subrange(0, data@.len() as int) =~= data@);
                assert(out@ =~= pre + self.chunks@[ci as int].data@);
                if let Some(rest) = spec_assemble_from(self.chunks@, job.id@, ids, t + 1 as int) {
                    assert((pre + self.chunks@[ci as int].data@) + rest =~= pre + (
                    self.chunks@[ci as int].data@ + rest));
                }
            }
            t = t + 1;
        }
        proof {
            assert(out@ + Seq::<u8>::empty() =~= out@);
        }
        Some(out)
    }

    /// Commit a list of chunks into one immutable file whose bytes are
    /// exactly their concatenation, in order, and record it in the
    /// store as a file of the job.  Fails if a chunk is missing or the
    /// bytes do not add up to the expected size.
    pub fn commit_file_sync(
        &mut self,
        job: &JobId,
        chunk_ids: &Vec<String>,
        expected_size: u64,
    ) -> (r: Result<JobFileId, ApiError>)
        requires
            old(self).wf(),
        ensures
            final(self).wf(),
            *final(self) == (Staging { files: final(self).files, ..*old(self) }),
            match spec_assemble(old(self).chunks@, job.id@, spec_id_views(chunk_ids@)) {
                None => *final(self) == *old(self) && (r matches Err(e) && e.kind
                    == ErrorKind::Validation),
                Some(bytes) => {
                    if bytes.len() != expected_size {
                        *final(self) == *old(self) && (r matches Err(e) && e.kind
                            == ErrorKind::Validation)
                    } else {
                        &&& r matches Ok(fid)
                        &&& final(self).files@.len() == old(self).files@.len() + 1
                        &&& final(self).files@.subrange(0, old(self).files@.len() as int) == old(self).files@
                        &&& final(self).files@.last().job.id@ == job.id@
                        &&& (r matches Ok(fid) && final(self).files@.last().id.id@ == fid.id@)
                        &&& final(self).files@.last().data@ == bytes
                    }
                },
            },
    {
        let out = match self.assemble(job, chunk_ids) {
            Some(out) => out,
            None => {
                return Err(
                    ApiError::new(ErrorKind::Validation, String::from_str("missing chunk")),
                );
            },
        };
        if out.len() as u64 != expected_size {
            return Err(
                ApiError::new(
                    ErrorKind::Validation,
                    String::from_str("chunk size does not match expected size"),
                ),
            );
        }
        let fid = JobFileId::generate();
        self.files.push(
            StagedFile {
                job: JobId { id: job.id.clone() },
                id: JobFileId { id: fid.id.clone() },
                data: out,
            },
        );
        proof {
            assert(final(self).files@.subrange(0, old(self).files@.len() as int) =~= old(self).files@);
        }
        Ok(fid)
    }

    /// Whether a commit with this identifier was already requested for
    /// the job.
    pub fn commit_file_exists(&self, job: &JobId, commit_id: &str) -> (r: bool)
        ensures
            r == (spec_find_commit_from(self.commits@, job.id@, commit_id@, 0) is Some),
    {
        self.find_commit(job, commit_id).is_some()
    }

    /// Find the position of a commit record.
    fn find_commit(&self, job: &JobId, commit_id: &str) -> (r: Option<usize>)
        ensures
            match r {
                Some(i) => spec_find_commit_from(self.commits@, job.id@, commit_id@, 0) == Some(
                    i as int,
                ) && i < self.commits@.len() && self.commits@[i as int].job.id@ == job.id@
                    && self.commits@[i as int].commit_id@ == commit_id@,
                None => spec_find_commit_from(self.commits@, job.id@, commit_id@, 0) is None,
            },
    {
        let mut i: usize = 0;
        while i < self.commits.len()
            invariant
                i <= self.commits@.len(),
                spec_find_commit_from(self.commits@, job.id@, commit_id@, 0)
                    == spec_find_commit_from(self.commits@, job.id@, commit_id@, i as int),
            decreases self.commits@.len() - i,
        {
            if str_eq(self.commits[i].job.id.as_str(), job.id.as_str()) && str_eq(
                self.commits[i].commit_id.as_str(),
                commit_id,
            ) {
                return Some(i);
            }
            i = i + 1;
        }
        None
    }

    /// Request a commit, idempotently on the commit identifier.  A
    /// repeated request with the same parameters reports where the
    /// commit stands, whether still owed or finished, and finished
    /// commits report the same outcome every time; a repeated request
    /// with different parameters is rejected and changes nothing.  A
    /// new request is accepted only while the job is still waiting.
    pub fn commit_file(
        &mut self,
        db: &Database,
        job: &JobId,
        commit_id: &str,
        kind: FileKind,
        expected_size: u64,
        chunk_ids: Vec<String>,
    ) -> (r: Result<CommitProgress, ApiError>)
        requires
            old(self).wf(),
        ensures
            final(self).wf(),
            *final(self) == (Staging { commits: final(self).commits, ..*old(self) }),
            ({
                let ids = spec_id_views(chunk_ids@);
                match spec_find_commit_from(old(self).commits@, job.id@, commit_id@, 0) {
                    Some(i) => {
                        if spec_params_match(old(self).commits@[i], kind, expected_size, ids) {
                            *final(self) == *old(self) && (r matches Ok(p)
                                && spec_progress_matches(p, old(self).commits@[i].state))
                        } else {
                            *final(self) == *old(self) && (r matches Err(e) && e.kind
                                == ErrorKind::Validation)
                        }
                    },
                    None => {
                        match crate::store::spec_find_job(db.jobs@, job.id@) {
                            None => *final(self) == *old(self) && (r matches Err(e) && e.kind
                                == ErrorKind::NotFound),
                            Some(ji) => {
                                if !db.jobs@[ji].waiting {
                                    *final(self) == *old(self) && (r matches Err(e) && e.kind
                                        == ErrorKind::Conflict)
                                } else {
                                    &&& r matches Ok(p) && p is Pending
                                    &&& final(self).commits@.len() == old(self).commits@.len() + 1
                                    &&& final(self).commits@.subrange(
                                        0,
                                        old(self).commits@.len() as int,
                                    ) == old(self).commits@
                                    &&& final(self).commits@.last().job.id@ == job.id@
                                    &&& final(self).commits@.last().commit_id@ == commit_id@
                                    &&& spec_params_match(
                                        final(self).commits@.last(),
                                        kind,
                                        expected_size,
                                        ids,
                                    )
                                    &&& final(self).commits@.last().state is InFlight
                                }
                            },
                        }
                    },
                }
            }),
    {
        match self.find_commit(job, commit_id) {
            Some(i) => {
                let c = &self.commits[i];
                let same = match (&c.kind, &kind) {
                    (FileKind::Input { name: x }, FileKind::Input { name: y }) => str_eq(
                        x.as_str(),
                        y.as_str(),
                    ),
                    (FileKind::Output { path: x }, FileKind::Output { path: y }) => str_eq(
                        x.as_str(),
                        y.as_str(),
                    ),
                    _ => false,
                };
                let same = same && c.expected_size == expected_size && c.chunks.len()
                    == chunk_ids.len();
                let same = same && {
                    let mut eq = true;
                    let mut m: usize = 0;
                    while m < c.chunks.len()
                        invariant
                            m <= c.chunks@.len(),
                            c.chunks@.len() == chunk_ids@.len(),
                            eq == (forall|w: int|
                                0 <= w < m ==> (#[trigger] c.chunks@[w])@ == chunk_ids@[w]@),
                        decreases c.chunks@.len() - m,
                    {
                        if !str_eq(c.chunks[m].as_str(), chunk_ids[m].as_str()) {
                            eq = false;
                        }
                        m = m + 1;
                    }
                    proof {
                        if eq {
                            assert(spec_id_views(c.chunks@) =~= spec_id_views(chunk_ids@));
                        } else {
                            let w = choose|w: int|
                                0 <= w < c.chunks@.len() && (#[trigger] c.chunks@[w])@
                                    != chunk_ids@[w]@;
                            assert(spec_id_views(c.chunks@)[w] == c.chunks@[w]@);
                            assert(spec_id_views(chunk_ids@)[w] == chunk_ids@[w]@);
                            assert(spec_id_views(c.chunks@) != spec_id_views(chunk_ids@));
                        }
                    }
                    eq
                };
                proof {
                    if c.chunks@.len() != chunk_ids@.len() {
                        assert(spec_id_views(c.chunks@).len() == c.chunks@.len());
                        assert(spec_id_views(chunk_ids@).len() == chunk_ids@.len());
                    }
                }
                if !same {
                    return Err(
                        ApiError::new(
                            ErrorKind::Validation,
                            String::from_str(
                                "commit arguments inconsistent with a prior call using the same commit ID",
                            ),
                        ),
                    );
                }
                match &c.state {
                    CommitState::InFlight => Ok(CommitProgress::Pending),
                    CommitState::Done(e) => Ok(
                        CommitProgress::Done(
                            match e {
                                Some(msg) => Some(msg.clone()),
                                None => None,
                            },
                        ),
                    ),
                }
            },
            None => {
                let waiting = match db.job_by_id(job) {
                    Some(j) => j.waiting,
                    None => {
                        return Err(
                            ApiError::new(ErrorKind::NotFound, String::from_str("job not found")),
                        );
                    },
                };
                if !waiting {
                    return Err(
                        ApiError::new(
                            ErrorKind::Conflict,
                            String::from_str("cannot add inputs to a job that is not waiting"),
                        ),
                    );
                }
                self.commits.push(
                    Commit {
                        job: JobId { id: job.id.clone() },
                        commit_id: String::from_str(commit_id),
                        kind,
                        expected_size,
                        chunks: chunk_ids,
                        state: CommitState::InFlight,
                    },
                );
                proof {
                    lemma_find_commit_none(old(self).commits@, job.id@, commit_id@, 0);
                    assert(final(self).commits@.subrange(0, old(self).commits@.len() as int)
                        =~= old(self).commits@);
                }
                Ok(CommitProgress::Pending)
            },
        }
    }
}

/// A failed search means no commit from `i` on carries the pair of
/// identifiers.
pub proof fn lemma_find_commit_none(s: Seq<Commit>, job: Seq<char>, id: Seq<char>, i: int)
    requires
        0 <= i <= s.len(),
        spec_find_commit_from(s, job, id, i) is None,
    ensures
        forall|k: int|
            i <= k < s.len() ==> !((#[trigger] s[k]).job.id@ == job && s[k].commit_id@ == id),
    decreases s.len() - i,
{
    if i < s.len() {
        lemma_find_commit_none(s, job, id, i + 1);
    }
}


/// Copy a list of strings.
pub fn clone_strings(v: &Vec<String>) -> (r: Vec<String>)
    ensures
        r@.len() == v@.len(),
        forall|i: int| 0 <= i < v@.len() ==> (#[trigger] r@[i])@ == v@[i]@,
{
    let mut r: Vec<String> = Vec::new();
    let mut i: usize = 0;
    while i < v.len()
        invariant
            i <= v@.len(),
            r@.len() == i,
            forall|k: int| 0 <= k < i ==> (#[trigger] r@[k])@ == v@[k]@,
        decreases v@.len() - i,
    {
        r.push(v[i].clone());
        i = i + 1;
    }
    r
}

/// The commits that do not belong to the given job, in order.
pub open spec fn spec_commits_kept(s: Seq<Commit>, job: Seq<char>) -> Seq<Commit>
    decreases s.len(),
{
    if s.len() == 0 {
        Seq::empty()
    } else if s[0].job.id@ == job {
        spec_commits_kept(s.skip(1), job)
    } else {
        seq![s[0]] + spec_commits_kept(s.skip(1), job)
    }
}

/// Dropping a job's commits keeps the remaining (job, commit id) pairs
/// distinct.
pub proof fn lemma_commits_kept_wf(s: Seq<Commit>, job: Seq<char>)
    requires
        forall|i: int, k: int|
            0 <= i < s.len() && 0 <= k < s.len() && i != k ==> !((#[trigger] s[i]).job.id@ == (
            #[trigger] s[k]).job.id@ && s[i].commit_id@ == s[k].commit_id@),
    ensures
        ({
            let u = spec_commits_kept(s, job);
            &&& forall|i: int, k: int|
                0 <= i < u.len() && 0 <= k < u.len() && i != k ==> !((#[trigger] u[i]).job.id@ == (
                #[trigger] u[k]).job.id@ && u[i].commit_id@ == u[k].commit_id@)
            &&& forall|i: int|
                0 <= i < u.len() ==> exists|k: int|
                    0 <= k < s.len() && (#[trigger] u[i]).job.id@ == s[k].job.id@
                        && u[i].commit_id@ == s[k].commit_id@
        }),
    decreases s.len(),
{
    if s.len() > 0 {
        let rest = s.skip(1);
        assert forall|i: int, k: int|
            0 <= i < rest.len() && 0 <= k < rest.len() && i != k implies !((
        #[trigger] rest[i]).job.id@ == (#[trigger] rest[k]).job.id@ && rest[i].commit_id@
            == rest[k].commit_id@) by {
            assert(rest[i] == s[i + 1]);
            assert(rest[k] == s[k + 1]);
        }
        lemma_commits_kept_wf(rest, job);
        let ur = spec_commits_kept(rest, job);
        assert forall|i: int|
            0 <= i < ur.len() implies exists|k: int|
            0 <= k < s.len() && (#[trigger] ur[i]).job.id@ == s[k].job.id@ && ur[i].commit_id@
                == s[k].commit_id@ by {
            let k0 = choose|k0: int|
                0 <= k0 < rest.len() && ur[i].job.id@ == rest[k0].job.id@ && ur[i].commit_id@
                    == rest[k0].commit_id@;
            assert(rest[k0] == s[k0 + 1]);
            assert(0 <= k0 + 1 < s.len() && ur[i].job.id@ == s[k0 + 1].job.id@ && ur[i].commit_id@
                == s[k0 + 1].commit_id@);
        }
        if s[0].job.id@ != job {
            let u = spec_commits_kept(s, job);
            assert(u =~= seq![s[0]] + ur);
            assert forall|i: int, k: int|
                0 <= i < u.len() && 0 <= k < u.len() && i != k implies !((#[trigger] u[i]).job.id@
                == (#[trigger] u[k]).job.id@ && u[i].commit_id@ == u[k].commit_id@) by {
                if i == 0 {
                    let k1 = choose|k1: int|
                        0 <= k1 < rest.len() && ur[k - 1].job.id@ == rest[k1].job.id@ && ur[k
                            - 1].commit_id@ == rest[k1].commit_id@;
                    assert(rest[k1] == s[k1 + 1]);
                } else if k == 0 {
                    let k1 = choose|k1: int|
                        0 <= k1 < rest.len() && ur[i - 1].job.id@ == rest[k1].job.id@ && ur[i
                            - 1].commit_id@ == rest[k1].commit_id@;
                    assert(rest[k1] == s[k1 + 1]);
                } else {
                    assert(u[i] == ur[i - 1]);
                    assert(u[k] == ur[k - 1]);
                }
            }
        }
    }
}

impl Staging {
    /// Whether any commit of the job is still in flight.
    pub fn uploads_in_flight(&self, job: &JobId) -> (r: bool)
        ensures
            r == exists|i: int|
                0 <= i < self.commits@.len() && (#[trigger] self.commits@[i]).job.id@ == job.id@
                    && self.commits@[i].state is InFlight,
    {
        let mut i: usize = 0;
        while i < self.commits.len()
            invariant
                i <= self.commits@.len(),
                forall|k: int|
                    0 <= k < i ==> !((#[trigger] self.commits@[k]).job.id@ == job.id@
                        && self.commits@[k].state is InFlight),
            decreases self.commits@.len() - i,
        {
            let inflight = match &self.commits[i].state {
                CommitState::InFlight => true,
                CommitState::Done(_) => false,
            };
            if inflight && str_eq(self.commits[i].job.id.as_str(), job.id.as_str()) {
                return true;
            }
            i = i + 1;
        }
        false
    }

    /// Drop the commit bookkeeping of a job, keeping its chunks and
    /// files until a cleaner removes them.
    pub fn forget_job(&mut self, job: &JobId)
        requires
            old(self).wf(),
        ensures
            final(self).wf(),
            *final(self) == (Staging { commits: final(self).commits, ..*old(self) }),
            final(self).commits@ == spec_commits_kept(old(self).commits@, job.id@),
    {
        let ghost orig = self.commits@;
        let mut kept: Vec<Commit> = Vec::new();
        loop
            invariant
                kept@ + spec_commits_kept(self.commits@, job.id@) =~= spec_commits_kept(
                    orig,
                    job.id@,
                ),
                *self == (Staging { commits: self.commits, ..*old(self) }),
            ensures
                self.commits@.len() == 0,
                kept@ =~= spec_commits_kept(orig, job.id@),
                *self == (Staging { commits: self.commits, ..*old(self) }),
            decreases self.commits@.len(),
        {
            if self.commits.len() == 0 {
                proof {
                    assert(kept@ + spec_commits_kept(self.commits@, job.id@) =~= kept@);
                }
                break ;
            }
            let ghost pre = self.commits@;
            let c = self.commits.remove(0);
            proof {
                assert(pre[0] == c);
                assert(pre.skip(1) =~= self.commits@);
            }
            if !str_eq(c.job.id.as_str(), job.id.as_str()) {
                kept.push(c);
                proof {
                    assert(kept@ + spec_commits_kept(self.commits@, job.id@) =~= spec_commits_kept(
                        orig,
                        job.id@,
                    ));
                }
            }
        }
        self.commits = kept;
        proof {
            lemma_commits_kept_wf(orig, job.id@);
        }
    }

    /// Perform the assembly a pending commit owes: concatenate the
    /// chunks, record the file, and attach it to the job in the store.
    /// The outcome, success or an error message, is remembered under
    /// the commit identifier; a commit that is not pending is left
    /// alone.
    pub fn commit_work(&mut self, db: &mut Database, job: &JobId, commit_id: &str) -> (r: Result<
        (),
        ApiError,
    >)
        requires
            old(self).wf(),
            old(db).wf(),
        ensures
            final(self).wf(),
            final(db).wf(),
            *final(self) == (Staging {
                files: final(self).files,
                commits: final(self).commits,
                ..*old(self)
            }),
            match spec_find_commit_from(old(self).commits@, job.id@, commit_id@, 0) {
                None => *final(self) == *old(self) && *final(db) == *old(db) && (r matches Err(e)
                    && e.kind == ErrorKind::NotFound),
                Some(i) => {
                    if !(old(self).commits@[i].state is InFlight) {
                        *final(self) == *old(self) && *final(db) == *old(db) && r is Ok
                    } else {
                        &&& r is Ok
                        &&& final(self).commits@.len() == old(self).commits@.len()
                        &&& forall|k: int|
                            0 <= k < old(self).commits@.len() && k != i ==> final(self).commits@[k] == old(self).commits@[k]
                        &&& final(self).commits@[i] == (Commit {
                            state: final(self).commits@[i].state,
                            ..old(self).commits@[i]
                        })
                        &&& match spec_assemble(
                            old(self).chunks@,
                            job.id@,
                            spec_id_views(old(self).commits@[i].chunks@),
                        ) {
                            None => final(self).commits@[i].state matches CommitState::Done(e)
                                && e is Some && final(self).files@ == old(self).files@ && *final(db)
                                == *old(db),
                            Some(bytes) => {
                                if bytes.len() != old(self).commits@[i].expected_size {
                                    final(self).commits@[i].state matches CommitState::Done(e)
                                        && e is Some && final(self).files@ == old(self).files@
                                        && *final(db) == *old(db)
                                } else {
                                    ({
                                        let ok = final(self).commits@[i].state == CommitState::Done(
                                            None::<String>,
                                        );
                                        &&& (match old(self).commits@[i].kind {
                                            FileKind::Input { .. } => ok <==> (crate::store::spec_find_job(
                                                old(db).jobs@,
                                                job.id@,
                                            ) matches Some(ji) && old(db).jobs@[ji].waiting),
                                            FileKind::Output { .. } => ok <==> (crate::store::spec_find_job(
                                                old(db).jobs@,
                                                job.id@,
                                            ) matches Some(ji) && !old(db).jobs@[ji].complete),
                                        })
                                        &&& (!ok ==> (final(self).commits@[i].state matches
                                        CommitState::Done(e) && e is Some))
                                        &&& (ok ==> final(self).files@.len() == old(self).files@.len() + 1 && final(self).files@.subrange(
                                            0,
                                            old(self).files@.len() as int,
                                        ) == old(self).files@ && final(self).files@.last().job.id@
                                            == job.id@ && final(self).files@.last().data@ == bytes)
                                        &&& (!ok ==> final(self).files@ == old(self).files@
                                            && *final(db) == *old(db))
                                        &&& (ok
                                            ==> match old(self).commits@[i].kind {
                                            FileKind::Input { name } => ({
                                                let fid = final(self).files@.last().id;
                                                crate::store::spec_find_job(old(db).jobs@, job.id@)
                                                    matches Some(ji) && old(db).jobs@[ji].waiting
                                                    && final(db).jobs@.len() == old(db).jobs@.len()
                                                    && final(db).jobs@[ji].inputs@.len() > 0 && ({
                                                    let fin = final(db).jobs@[ji];
                                                    exists|m: int|
                                                        0 <= m < fin.inputs@.len() && (
                                                        #[trigger] fin.inputs@[m]).name@ == name@
                                                            && (fin.inputs@[m].file matches Some(f)
                                                            && f.0.id@ == fid.id@ && f.1
                                                            == bytes.len())
                                                })
                                            }),
                                            FileKind::Output { path } => ({
                                                let fid = final(self).files@.last().id;
                                                crate::store::spec_find_job(old(db).jobs@, job.id@)
                                                    matches Some(ji) && !old(db).jobs@[ji].complete
                                                    && final(db).jobs@.len() == old(db).jobs@.len()
                                                    && final(db).jobs@[ji].outputs@.len() == old(db).jobs@[ji].outputs@.len() + 1 && final(db).jobs@[ji].outputs@.last().path@ == path@ && final(db).jobs@[ji].outputs@.last().file.id@ == fid.id@
                                                    && final(db).jobs@[ji].outputs@.last().size
                                                    == bytes.len()
                                            }),
                                        })
                                    })
                                }
                            },
                        }
                    }
                },
            },
    {
        let i = match self.find_commit(job, commit_id) {
            Some(i) => i,
            None => {
                return Err(
                    ApiError::new(ErrorKind::NotFound, String::from_str("commit not found")),
                );
            },
        };
        let inflight = match &self.commits[i].state {
            CommitState::InFlight => true,
            CommitState::Done(_) => false,
        };
        if !inflight {
            return Ok(());
        }
        let ids = clone_strings(&self.commits[i].chunks);
        proof {
            assert(spec_id_views(ids@) =~= spec_id_views(self.commits@[i as int].chunks@));
        }
        let expected = self.commits[i].expected_size;
        let out = match self.assemble(job, &ids) {
            Some(out) => out,
            None => {
                let c = &mut self.commits[i];
                c.state = CommitState::Done(Some(String::from_str("missing chunk")));
                return Ok(());
            },
        };
        if out.len() as u64 != expected {
            let c = &mut self.commits[i];
            c.state = CommitState::Done(
                Some(String::from_str("chunk size does not match expected size")),
            );
            return Ok(());
        }
        let ghost bytes = out@;
        let fid = JobFileId::generate();
        let attach = match &self.commits[i].kind {
            FileKind::Input { name } => db.job_input_add(job, name.as_str(), &fid, out.len() as u64),
            FileKind::Output { path } => db.job_output_add(
                job,
                path.as_str(),
                &fid,
                out.len() as u64,
            ),
        };
        match attach {
            Ok(()) => {
                self.files.push(
                    StagedFile {
                        job: JobId { id: job.id.clone() },
                        id: JobFileId { id: fid.id.clone() },
                        data: out,
                    },
                );
                proof {
                    assert(self.files@.subrange(0, old(self).files@.len() as int) =~= old(
                        self,
                    ).files@);
                    if let FileKind::Input { name: nm } = old(self).commits@[i as int].kind {
                        if let Some(ji) = crate::store::spec_find_job(old(db).jobs@, job.id@) {
                            match crate::store::spec_find_input_from(
                                old(db).jobs@[ji].inputs@,
                                nm@,
                                0,
                            ) {
                                Some(k) => {
                                    crate::store::lemma_find_input_some(
                                        old(db).jobs@[ji].inputs@,
                                        nm@,
                                        0,
                                    );
                                    assert(db.jobs@[ji].inputs@[k].name@ == nm@);
                                    assert(0 <= k < db.jobs@[ji].inputs@.len());
                                    assert(db.jobs@[ji].inputs@[k].file is Some);
                                    assert(db.jobs@[ji].inputs@[k].file->Some_0.0.id@
                                        == self.files@.last().id.id@);
                                    assert(db.jobs@[ji].inputs@[k].file->Some_0.1 == bytes.len());
                                },
                                None => {
                                    let m = db.jobs@[ji].inputs@.len() - 1;
                                    assert(db.jobs@[ji].inputs@[m] == db.jobs@[ji].inputs@.last());
                                    assert(db.jobs@[ji].inputs@[m].name@ == nm@);
                                    assert(0 <= m < db.jobs@[ji].inputs@.len() && (
                                    #[trigger] db.jobs@[ji].inputs@[m]).name@ == nm@ && (
                                    db.jobs@[ji].inputs@[m].file matches Some(f) && f.0.id@
                                        == self.files@.last().id.id@ && f.1 == bytes.len()));
                                },
                            }
                        }
                    }
                }
                let c = &mut self.commits[i];
                c.state = CommitState::Done(None);
            },
            Err(e) => {
                let c = &mut self.commits[i];
                c.state = CommitState::Done(Some(e.msg));
            },
        }
        Ok(())
    }
}


/// The index of the staged file of a job with the given identifier,
/// searching from `i`.
pub open spec fn spec_find_file_from(
    s: Seq<StagedFile>,
    job: Seq<char>,
    file: Seq<char>,
    i: int,
) -> Option<int>
    decreases s.len() - i when 0 <= i <= s.len()
{
    if i >= s.len() {
        None
    } else if s[i].job.id@ == job && s[i].id.id@ == file {
        Some(i)
    } else {
        spec_find_file_from(s, job, file, i + 1)
    }
}

impl Staging {
    /// Find the position of a staged file.
    pub fn find_file(&self, job: &JobId, file: &JobFileId) -> (r: Option<usize>)
        ensures
            match r {
                Some(i) => spec_find_file_from(self.files@, job.id@, file.id@, 0) == Some(i as int)
                    && i < self.files@.len() && self.files@[i as int].job.id@ == job.id@
                    && self.files@[i as int].id.id@ == file.id@,
                None => spec_find_file_from(self.files@, job.id@, file.id@, 0) is None,
            },
    {
        let mut i: usize = 0;
        while i < self.files.len()
            invariant
                i <= self.files@.len(),
                spec_find_file_from(self.files@, job.id@, file.id@, 0) == spec_find_file_from(
                    self.files@,
                    job.id@,
                    file.id@,
                    i as int,
                ),
            decreases self.files@.len() - i,
        {
            if str_eq(self.files[i].job.id.as_str(), job.id.as_str()) && str_eq(
                self.files[i].id.id.as_str(),
                file.id.as_str(),
            ) {
                return Some(i);
            }
            i = i + 1;
        }
        None
    }
}

} // verus!

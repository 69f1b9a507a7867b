//! The durable store: users, targets, jobs, workers and factories, with
//! the transactional operations of the control plane.  Each operation
//! states exactly how the new store relates to the old one; every
//! operation preserves well-formedness, in particular the dense event
//! sequence numbering of every job.

use vstd::prelude::*;
use crate::error::{ApiError, ErrorKind};
use crate::ids::JobId;
use crate::jobs::{self, Job, JobEvent};
use crate::rules::CreateOutputRule;
use crate::text::str_eq;

verus! {

use vstd::string::StringExecFns;

/// A user account.
#[derive(Debug)]
pub struct User {
    pub id: String,
    pub name: String,
    pub token: String,
    pub privileges: Vec<String>,
    pub time_create: i64,
}

/// A named class of execution environment.  `redirect` points at
/// another target by identifier; resolution follows redirects until a
/// terminal target.
#[derive(Debug)]
pub struct Target {
    pub id: String,
    pub name: String,
    pub privilege: Option<String>,
    pub redirect: Option<String>,
}

/// A remote agent that executes jobs, owned by a factory.
#[derive(Debug)]
pub struct Worker {
    pub id: String,
    pub bootstrap: String,
    pub token: Option<String>,
    pub factory: String,
    pub target: String,
    pub instance_id: Option<String>,
    pub deleted: bool,
    pub recycle: bool,
    pub lastping: Option<i64>,
    pub job: Option<JobId>,
}

/// An external service that provisions workers.
#[derive(Debug)]
pub struct Factory {
    pub id: String,
    pub name: String,
    pub token: String,
}

/// The store itself.
#[derive(Debug)]
pub struct Database {
    pub users: Vec<User>,
    pub targets: Vec<Target>,
    pub jobs: Vec<Job>,
    pub workers: Vec<Worker>,
    pub factories: Vec<Factory>,
}

/// The index of the job with the given identifier, searching from `i`.
pub open spec fn spec_find_job_from(s: Seq<Job>, id: Seq<char>, i: int) -> Option<int>
    decreases s.len() - i when 0 <= i <= s.len()
{
    if i >= s.len() {
        None
    } else if s[i].id.id@ == id {
        Some(i)
    } else {
        spec_find_job_from(s, id, i + 1)
    }
}

/// The index of the job with the given identifier.
pub open spec fn spec_find_job(s: Seq<Job>, id: Seq<char>) -> Option<int> {
    spec_find_job_from(s, id, 0)
}

/// A failed search means no job from `i` on carries the identifier.
pub proof fn lemma_find_job_none(s: Seq<Job>, id: Seq<char>, i: int)
    requires
        0 <= i <= s.len(),
        spec_find_job_from(s, id, i) is None,
    ensures
        forall|k: int| i <= k < s.len() ==> (#[trigger] s[k]).id.id@ != id,
    decreases s.len() - i,
{
    if i < s.len() {
        lemma_find_job_none(s, id, i + 1);
    }
}

/// The index of the worker with the given identifier, searching from `i`.
pub open spec fn spec_find_worker_from(s: Seq<Worker>, id: Seq<char>, i: int) -> Option<int>
    decreases s.len() - i when 0 <= i <= s.len()
{
    if i >= s.len() {
        None
    } else if s[i].id@ == id {
        Some(i)
    } else {
        spec_find_worker_from(s, id, i + 1)
    }
}

/// The index of the worker with the given identifier.
pub open spec fn spec_find_worker(s: Seq<Worker>, id: Seq<char>) -> Option<int> {
    spec_find_worker_from(s, id, 0)
}

impl Database {
    pub open spec fn jobs_unique(&self) -> bool {
        forall|i: int, k: int|
            0 <= i < self.jobs@.len() && 0 <= k < self.jobs@.len() && i != k
                ==> (#[trigger] self.jobs@[i]).id.id@ != (#[trigger] self.jobs@[k]).id.id@
    }

    pub open spec fn workers_unique(&self) -> bool {
        forall|i: int, k: int|
            0 <= i < self.workers@.len() && 0 <= k < self.workers@.len() && i != k
                ==> (#[trigger] self.workers@[i]).id@ != (#[trigger] self.workers@[k]).id@
    }

    pub open spec fn wf(&self) -> bool {
        &&& forall|i: int| 0 <= i < self.jobs@.len() ==> (#[trigger] self.jobs@[i]).wf()
        &&& self.jobs_unique()
        &&& self.workers_unique()
    }

    /// An empty store.
    pub fn new() -> (r: Database)
        ensures
            r.wf(),
            r.users@.len() == 0,
            r.targets@.len() == 0,
            r.jobs@.len() == 0,
            r.workers@.len() == 0,
            r.factories@.len() == 0,
    {
        Database {
            users: Vec::new(),
            targets: Vec::new(),
            jobs: Vec::new(),
            workers: Vec::new(),
            factories: Vec::new(),
        }
    }

    /// Find the position of a job by identifier.
    pub fn find_job(&self, id: &JobId) -> (r: Option<usize>)
        ensures
            match r {
                Some(i) => spec_find_job(self.jobs@, id.id@) == Some(i as int) && i
                    < self.jobs@.len() && self.jobs@[i as int].id.id@ == id.id@,
                None => spec_find_job(self.jobs@, id.id@) is None,
            },
    {
        let mut i: usize = 0;
        while i < self.jobs.len()
            invariant
                i <= self.jobs@.len(),
                spec_find_job(self.jobs@, id.id@) == spec_find_job_from(self.jobs@, id.id@, i as int),
            decreases self.jobs@.len() - i,
        {
            if str_eq(self.jobs[i].id.id.as_str(), id.id.as_str()) {
                return Some(i);
            }
            i = i + 1;
        }
        None
    }

    /// Read a job record.
    pub fn job_by_id(&self, id: &JobId) -> (r: Option<&Job>)
        ensures
            match r {
                Some(j) => spec_find_job(self.jobs@, id.id@) matches Some(i) && self.jobs@[i] == *j,
                None => spec_find_job(self.jobs@, id.id@) is None,
            },
    {
        match self.find_job(id) {
            Some(i) => Some(&self.jobs[i]),
            None => None,
        }
    }

    /// Create a job, with its tasks, output rules, declared inputs, tags
    /// and dependencies, all in one transaction.  The job starts
    /// `waiting` exactly when it declares inputs; otherwise it is
    /// immediately queued.  The submission time is recorded.
    pub fn job_create(
        &mut self,
        owner: &str,
        name: &str,
        target: &str,
        target_id: &str,
        tasks: Vec<jobs::CreateTask>,
        output_rules: Vec<CreateOutputRule>,
        inputs: Vec<String>,
        tags: Vec<(String, String)>,
        depends: Vec<jobs::CreateDepend>,
        now: i64,
    ) -> (r: Result<JobId, ApiError>)
        requires
            old(self).wf(),
        ensures
            final(self).wf(),
            *final(self) == (Database { jobs: final(self).jobs, ..*old(self) }),
            match r {
                Ok(id) => {
                    &&& final(self).jobs@.len() == old(self).jobs@.len() + 1
                    &&& final(self).jobs@.subrange(0, old(self).jobs@.len() as int) == old(self).jobs@
                    &&& ({
                        let j = final(self).jobs@.last();
                        &&& j.id.id@ == id.id@
                        &&& j.owner@ == owner@
                        &&& j.name@ == name@
                        &&& j.target@ == target@
                        &&& j.target_id@ == target_id@
                        &&& j.complete == false
                        &&& j.failed == false
                        &&& j.cancelled == false
                        &&& j.archived == false
                        &&& j.worker is None
                        &&& j.waiting == (inputs@.len() > 0 || depends@.len() > 0)
                        &&& j.tasks@ == tasks@.map_values(
                            |c: jobs::CreateTask| jobs::spec_task_of_create(c),
                        )
                        &&& j.output_rules@ == output_rules@
                        &&& j.inputs@ == inputs@.map_values(
                            |n: String| jobs::spec_input_of_name(n),
                        )
                        &&& j.tags@ == tags@
                        &&& j.depends@ == depends@.map_values(
                            |c: jobs::CreateDepend| jobs::spec_depend_of_create(c),
                        )
                        &&& j.events@.len() == 0
                        &&& j.outputs@.len() == 0
                        &&& j.store@.len() == 0
                        &&& j.times@.len() == 1
                        &&& j.times@[0].0@ == "submit"@
                        &&& j.times@[0].1 == now
                    })
                },
                Err(e) => *final(self) == *old(self) && e.kind == ErrorKind::Internal && old(
                    self,
                ).jobs@.len() > 0,
            },
    {
        let id = JobId::generate();
        if self.find_job(&id).is_some() {
            return Err(
                ApiError::new(ErrorKind::Internal, String::from_str("identifier collision")),
            );
        }
        let waiting = inputs.len() > 0 || depends.len() > 0;
        let mut times: Vec<(String, i64)> = Vec::new();
        times.push((String::from_str("submit"), now));
        let j = Job {
            id: JobId { id: id.id.clone() },
            owner: String::from_str(owner),
            name: String::from_str(name),
            target: String::from_str(target),
            target_id: String::from_str(target_id),
            complete: false,
            failed: false,
            waiting,
            cancelled: false,
            archived: false,
            worker: None,
            tasks: jobs::tasks_of_creates(tasks),
            events: Vec::new(),
            output_rules,
            outputs: Vec::new(),
            inputs: jobs::inputs_of_names(inputs),
            tags,
            depends: jobs::depends_of_creates(depends),
            times,
            store: Vec::new(),
        };
        self.jobs.push(j);
        proof {
            lemma_find_job_none(old(self).jobs@, id.id@, 0);
            assert(final(self).jobs@.subrange(0, old(self).jobs@.len() as int) =~= old(self).jobs@);
            assert forall|i: int| 0 <= i < final(self).jobs@.len() implies (
            #[trigger] final(self).jobs@[i]).wf() by {
                if i < old(self).jobs@.len() {
                    assert(final(self).jobs@[i] == old(self).jobs@[i]);
                }
            }
        }
        Ok(id)
    }

    /// Append one record to a job's event log, assigning the next
    /// sequence number.  Events for archived jobs are rejected.
    pub fn job_event_append(
        &mut self,
        job: &JobId,
        task: Option<u32>,
        stream: &str,
        payload: &str,
        time: i64,
        time_remote: Option<i64>,
    ) -> (r: Result<usize, ApiError>)
        requires
            old(self).wf(),
        ensures
            final(self).wf(),
            *final(self) == (Database { jobs: final(self).jobs, ..*old(self) }),
            match spec_find_job(old(self).jobs@, job.id@) {
                None => *final(self) == *old(self) && (r matches Err(e) && e.kind
                    == ErrorKind::NotFound),
                Some(i) => {
                    if old(self).jobs@[i].archived {
                        *final(self) == *old(self) && (r matches Err(e) && e.kind
                            == ErrorKind::Conflict)
                    } else {
                        &&& r == Ok::<usize, ApiError>(old(self).jobs@[i].events@.len() as usize)
                        &&& final(self).jobs@.len() == old(self).jobs@.len()
                        &&& forall|k: int|
                            0 <= k < old(self).jobs@.len() && k != i ==> final(self).jobs@[k]
                                == old(self).jobs@[k]
                        &&& final(self).jobs@[i] == (Job {
                            events: final(self).jobs@[i].events,
                            ..old(self).jobs@[i]
                        })
                        &&& final(self).jobs@[i].events@.len() == old(self).jobs@[i].events@.len()
                            + 1
                        &&& final(self).jobs@[i].events@.subrange(
                            0,
                            old(self).jobs@[i].events@.len() as int,
                        ) == old(self).jobs@[i].events@
                        &&& ({
                            let ev = final(self).jobs@[i].events@.last();
                            &&& ev.seq == old(self).jobs@[i].events@.len()
                            &&& ev.task == task
                            &&& ev.stream@ == stream@
                            &&& ev.payload@ == payload@
                            &&& ev.time == time
                            &&& ev.time_remote == time_remote
                        })
                    }
                },
            },
    {
        let i = match self.find_job(job) {
            Some(i) => i,
            None => {
                return Err(ApiError::new(ErrorKind::NotFound, String::from_str("job not found")));
            },
        };
        if self.jobs[i].archived {
            return Err(
                ApiError::new(
                    ErrorKind::Conflict,
                    String::from_str("cannot append events to an archived job"),
                ),
            );
        }
        let j = &mut self.jobs[i];
        let seq = j.events.len();
        j.events.push(
            JobEvent {
                task,
                seq,
                stream: String::from_str(stream),
                time,
                time_remote,
                payload: String::from_str(payload),
            },
        );
        proof {
            assert(final(self).jobs@[i as int].events@.subrange(
                0,
                old(self).jobs@[i as int].events@.len() as int,
            ) =~= old(self).jobs@[i as int].events@);
            assert forall|k: int| 0 <= k < final(self).jobs@.len() implies (
            #[trigger] final(self).jobs@[k]).wf() by {
                if k != i {
                    assert(final(self).jobs@[k] == old(self).jobs@[k]);
                }
            }
        }
        Ok(seq)
    }

    /// Complete a job.  Returns true exactly when this call performed
    /// the transition; completing an already complete job changes
    /// nothing and returns false.  Completion clears the worker
    /// assignment, ends any waiting, and records the completion time.
    pub fn job_complete(&mut self, job: &JobId, failed: bool, now: i64) -> (r: Result<
        bool,
        ApiError,
    >)
        requires
            old(self).wf(),
        ensures
            final(self).wf(),
            *final(self) == (Database { jobs: final(self).jobs, ..*old(self) }),
            match spec_find_job(old(self).jobs@, job.id@) {
                None => *final(self) == *old(self) && (r matches Err(e) && e.kind
                    == ErrorKind::NotFound),
                Some(i) => {
                    if old(self).jobs@[i].complete {
                        *final(self) == *old(self) && r == Ok::<bool, ApiError>(false)
                    } else {
                        &&& r == Ok::<bool, ApiError>(true)
                        &&& final(self).jobs@.len() == old(self).jobs@.len()
                        &&& forall|k: int|
                            0 <= k < old(self).jobs@.len() && k != i ==> final(self).jobs@[k]
                                == old(self).jobs@[k]
                        &&& final(self).jobs@[i] == (Job {
                            complete: true,
                            failed: failed,
                            waiting: false,
                            worker: None,
                            times: final(self).jobs@[i].times,
                            ..old(self).jobs@[i]
                        })
                        &&& final(self).jobs@[i].times@.len() == old(self).jobs@[i].times@.len() + 1
                        &&& final(self).jobs@[i].times@.subrange(
                            0,
                            old(self).jobs@[i].times@.len() as int,
                        ) == old(self).jobs@[i].times@
                        &&& final(self).jobs@[i].times@.last().0@ == "complete"@
                        &&& final(self).jobs@[i].times@.last().1 == now
                    }
                },
            },
    {
        let i = match self.find_job(job) {
            Some(i) => i,
            None => {
                return Err(ApiError::new(ErrorKind::NotFound, String::from_str("job not found")));
            },
        };
        if self.jobs[i].complete {
            return Ok(false);
        }
        let j = &mut self.jobs[i];
        j.complete = true;
        j.failed = failed;
        j.waiting = false;
        j.worker = None;
        j.times.push((String::from_str("complete"), now));
        proof {
            assert(final(self).jobs@[i as int].times@.subrange(
                0,
                old(self).jobs@[i as int].times@.len() as int,
            ) =~= old(self).jobs@[i as int].times@);
            assert forall|k: int| 0 <= k < final(self).jobs@.len() implies (
            #[trigger] final(self).jobs@[k]).wf() by {
                if k != i {
                    assert(final(self).jobs@[k] == old(self).jobs@[k]);
                }
            }
        }
        Ok(true)
    }

    /// Mark a job cancelled.  A job that is already complete cannot be
    /// cancelled.
    pub fn job_cancel(&mut self, job: &JobId) -> (r: Result<(), ApiError>)
        requires
            old(self).wf(),
        ensures
            final(self).wf(),
            *final(self) == (Database { jobs: final(self).jobs, ..*old(self) }),
            match spec_find_job(old(self).jobs@, job.id@) {
                None => *final(self) == *old(self) && (r matches Err(e) && e.kind
                    == ErrorKind::NotFound),
                Some(i) => {
                    if old(self).jobs@[i].complete {
                        *final(self) == *old(self) && (r matches Err(e) && e.kind
                            == ErrorKind::Conflict)
                    } else {
                        &&& r is Ok
                        &&& final(self).jobs@.len() == old(self).jobs@.len()
                        &&& forall|k: int|
                            0 <= k < old(self).jobs@.len() && k != i ==> final(self).jobs@[k]
                                == old(self).jobs@[k]
                        &&& final(self).jobs@[i] == (Job {
                            cancelled: true,
                            ..old(self).jobs@[i]
                        })
                    }
                },
            },
    {
        let i = match self.find_job(job) {
            Some(i) => i,
            None => {
                return Err(ApiError::new(ErrorKind::NotFound, String::from_str("job not found")));
            },
        };
        if self.jobs[i].complete {
            return Err(
                ApiError::new(
                    ErrorKind::Conflict,
                    String::from_str("cannot cancel a job that is already complete"),
                ),
            );
        }
        let j = &mut self.jobs[i];
        j.cancelled = true;
        proof {
            assert forall|k: int| 0 <= k < final(self).jobs@.len() implies (
            #[trigger] final(self).jobs@[k]).wf() by {
                if k != i {
                    assert(final(self).jobs@[k] == old(self).jobs@[k]);
                }
            }
        }
        Ok(())
    }
}

/// The index of the target with the given name, searching from `i`.
pub open spec fn spec_find_target_name_from(s: Seq<Target>, name: Seq<char>, i: int) -> Option<int>
    decreases s.len() - i when 0 <= i <= s.len()
{
    if i >= s.len() {
        None
    } else if s[i].name@ == name {
        Some(i)
    } else {
        spec_find_target_name_from(s, name, i + 1)
    }
}

/// The index of the target with the given identifier, searching from `i`.
pub open spec fn spec_find_target_id_from(s: Seq<Target>, id: Seq<char>, i: int) -> Option<int>
    decreases s.len() - i when 0 <= i <= s.len()
{
    if i >= s.len() {
        None
    } else if s[i].id@ == id {
        Some(i)
    } else {
        spec_find_target_id_from(s, id, i + 1)
    }
}

/// Follow the redirect chain from the target at index `i`, giving up
/// once `fuel` redirects have been taken.  With fuel at least the number
/// of targets, a failure means the chain is circular or dangling.
pub open spec fn spec_resolve_from(s: Seq<Target>, i: int, fuel: nat) -> Option<int>
    decreases fuel when 0 <= i < s.len()
{
    match s[i].redirect {
        None => Some(i),
        Some(next) => if fuel == 0 {
            None
        } else {
            match spec_find_target_id_from(s, next@, 0) {
                None => None,
                Some(k) => spec_resolve_from(s, k, (fuel - 1) as nat),
            }
        },
    }
}

/// The index of the terminal target that the given name resolves to.
pub open spec fn spec_target_resolve(s: Seq<Target>, name: Seq<char>) -> Option<int> {
    match spec_find_target_name_from(s, name, 0) {
        None => None,
        Some(i) => spec_resolve_from(s, i, s.len()),
    }
}

/// The index of the user with the given name, searching from `i`.
pub open spec fn spec_find_user_name_from(s: Seq<User>, name: Seq<char>, i: int) -> Option<int>
    decreases s.len() - i when 0 <= i <= s.len()
{
    if i >= s.len() {
        None
    } else if s[i].name@ == name {
        Some(i)
    } else {
        spec_find_user_name_from(s, name, i + 1)
    }
}

/// The index of the user with the given identifier, searching from `i`.
pub open spec fn spec_find_user_id_from(s: Seq<User>, id: Seq<char>, i: int) -> Option<int>
    decreases s.len() - i when 0 <= i <= s.len()
{
    if i >= s.len() {
        None
    } else if s[i].id@ == id {
        Some(i)
    } else {
        spec_find_user_id_from(s, id, i + 1)
    }
}

/// The index of the user with the given token, searching from `i`.
pub open spec fn spec_find_user_token_from(s: Seq<User>, token: Seq<char>, i: int) -> Option<int>
    decreases s.len() - i when 0 <= i <= s.len()
{
    if i >= s.len() {
        None
    } else if s[i].token@ == token {
        Some(i)
    } else {
        spec_find_user_token_from(s, token, i + 1)
    }
}

/// The index of the factory with the given token, searching from `i`.
pub open spec fn spec_find_factory_token_from(s: Seq<Factory>, token: Seq<char>, i: int) -> Option<
    int,
>
    decreases s.len() - i when 0 <= i <= s.len()
{
    if i >= s.len() {
        None
    } else if s[i].token@ == token {
        Some(i)
    } else {
        spec_find_factory_token_from(s, token, i + 1)
    }
}

/// A user holds a privilege exactly when it appears in their list; a
/// privilege check is an exact string match.
pub open spec fn spec_has_privilege(u: User, p: Seq<char>) -> bool {
    exists|i: int| 0 <= i < u.privileges@.len() && (#[trigger] u.privileges@[i])@ == p
}

/// Whether a user holds a privilege.
pub fn user_has_privilege(u: &User, p: &str) -> (r: bool)
    ensures
        r == spec_has_privilege(*u, p@),
{
    let mut i: usize = 0;
    while i < u.privileges.len()
        invariant
            i <= u.privileges@.len(),
            forall|k: int| 0 <= k < i ==> (#[trigger] u.privileges@[k])@ != p@,
        decreases u.privileges@.len() - i,
    {
        if str_eq(u.privileges[i].as_str(), p) {
            return true;
        }
        i = i + 1;
    }
    false
}

impl Database {
    /// Find the position of a target by name.
    fn find_target_by_name(&self, name: &str) -> (r: Option<usize>)
        ensures
            match r {
                Some(i) => spec_find_target_name_from(self.targets@, name@, 0) == Some(i as int)
                    && i < self.targets@.len() && self.targets@[i as int].name@ == name@,
                None => spec_find_target_name_from(self.targets@, name@, 0) is None,
            },
    {
        let mut i: usize = 0;
        while i < self.targets.len()
            invariant
                i <= self.targets@.len(),
                spec_find_target_name_from(self.targets@, name@, 0) == spec_find_target_name_from(
                    self.targets@,
                    name@,
                    i as int,
                ),
            decreases self.targets@.len() - i,
        {
            if str_eq(self.targets[i].name.as_str(), name) {
                return Some(i);
            }
            i = i + 1;
        }
        None
    }

    /// Find the position of a target by identifier.
    fn find_target_by_id(&self, id: &str) -> (r: Option<usize>)
        ensures
            match r {
                Some(i) => spec_find_target_id_from(self.targets@, id@, 0) == Some(i as int) && i
                    < self.targets@.len() && self.targets@[i as int].id@ == id@,
                None => spec_find_target_id_from(self.targets@, id@, 0) is None,
            },
    {
        let mut i: usize = 0;
        while i < self.targets.len()
            invariant
                i <= self.targets@.len(),
                spec_find_target_id_from(self.targets@, id@, 0) == spec_find_target_id_from(
                    self.targets@,
                    id@,
                    i as int,
                ),
            decreases self.targets@.len() - i,
        {
            if str_eq(self.targets[i].id.as_str(), id) {
                return Some(i);
            }
            i = i + 1;
        }
        None
    }

    /// Resolve a target name to its terminal target, following redirects.
    /// Resolution always terminates: at most as many redirects are taken
    /// as there are targets, so a circular chain resolves to nothing.
    pub fn target_resolve(&self, name: &str) -> (r: Option<&Target>)
        ensures
            match r {
                Some(t) => spec_target_resolve(self.targets@, name@) matches Some(i) && *t
                    == self.targets@[i] && t.redirect is None,
                None => spec_target_resolve(self.targets@, name@) is None,
            },
    {
        let mut cur = match self.find_target_by_name(name) {
            Some(i) => i,
            None => {
                return None;
            },
        };
        let mut fuel: usize = self.targets.len();
        loop
            invariant
                cur < self.targets@.len(),
                fuel <= self.targets@.len(),
                spec_target_resolve(self.targets@, name@) == spec_resolve_from(
                    self.targets@,
                    cur as int,
                    fuel as nat,
                ),
            decreases fuel,
        {
            if self.targets[cur].redirect.is_none() {
                return Some(&self.targets[cur]);
            }
            if fuel == 0 {
                return None;
            }
            let next = match &self.targets[cur].redirect {
                Some(n) => n,
                None => {
                    return None;
                },
            };
            match self.find_target_by_id(next.as_str()) {
                Some(k) => {
                    cur = k;
                    fuel = fuel - 1;
                },
                None => {
                    return None;
                },
            }
        }
    }

    /// Create a target.  Target names are unique.
    pub fn target_create(&mut self, name: &str) -> (r: Result<String, ApiError>)
        requires
            old(self).wf(),
        ensures
            final(self).wf(),
            *final(self) == (Database { targets: final(self).targets, ..*old(self) }),
            match r {
                Ok(id) => {
                    &&& spec_find_target_name_from(old(self).targets@, name@, 0) is None
                    &&& final(self).targets@ == old(self).targets@.push(
                        final(self).targets@.last(),
                    )
                    &&& final(self).targets@.last().id@ == id@
                    &&& final(self).targets@.last().name@ == name@
                    &&& final(self).targets@.last().privilege is None
                    &&& final(self).targets@.last().redirect is None
                },
                Err(e) => {
                    &&& *final(self) == *old(self)
                    &&& e.kind == ErrorKind::Conflict
                    &&& spec_find_target_name_from(old(self).targets@, name@, 0) is Some
                },
            },
    {
        if self.find_target_by_name(name).is_some() {
            return Err(
                ApiError::new(ErrorKind::Conflict, String::from_str("target name already exists")),
            );
        }
        let id = crate::ids::ulid_generate();
        let t = Target {
            id: id.clone(),
            name: String::from_str(name),
            privilege: None,
            redirect: None,
        };
        self.targets.push(t);
        Ok(id)
    }

    /// Require a privilege of everyone submitting jobs for a target.
    pub fn target_require_privilege(&mut self, id: &str, privilege: &str) -> (r: Result<
        (),
        ApiError,
    >)
        requires
            old(self).wf(),
        ensures
            final(self).wf(),
            *final(self) == (Database { targets: final(self).targets, ..*old(self) }),
            match spec_find_target_id_from(old(self).targets@, id@, 0) {
                None => *final(self) == *old(self) && (r matches Err(e) && e.kind
                    == ErrorKind::NotFound),
                Some(i) => {
                    &&& r is Ok
                    &&& final(self).targets@.len() == old(self).targets@.len()
                    &&& forall|k: int|
                        0 <= k < old(self).targets@.len() && k != i ==> final(self).targets@[k]
                            == old(self).targets@[k]
                    &&& final(self).targets@[i] == (Target {
                        privilege: final(self).targets@[i].privilege,
                        ..old(self).targets@[i]
                    })
                    &&& final(self).targets@[i].privilege matches Some(p) && p@ == privilege@
                },
            },
    {
        let i = match self.find_target_by_id(id) {
            Some(i) => i,
            None => {
                return Err(
                    ApiError::new(ErrorKind::NotFound, String::from_str("target not found")),
                );
            },
        };
        let t = &mut self.targets[i];
        t.privilege = Some(String::from_str(privilege));
        Ok(())
    }

    /// Redirect a target to another target, by identifier.  Existing jobs
    /// keep their resolved target; new submissions follow the redirect.
    pub fn target_redirect(&mut self, id: &str, dest: &str) -> (r: Result<(), ApiError>)
        requires
            old(self).wf(),
        ensures
            final(self).wf(),
            *final(self) == (Database { targets: final(self).targets, ..*old(self) }),
            match spec_find_target_id_from(old(self).targets@, id@, 0) {
                None => *final(self) == *old(self) && (r matches Err(e) && e.kind
                    == ErrorKind::NotFound),
                Some(i) => {
                    &&& r is Ok
                    &&& final(self).targets@.len() == old(self).targets@.len()
                    &&& forall|k: int|
                        0 <= k < old(self).targets@.len() && k != i ==> final(self).targets@[k]
                            == old(self).targets@[k]
                    &&& final(self).targets@[i] == (Target {
                        redirect: final(self).targets@[i].redirect,
                        ..old(self).targets@[i]
                    })
                    &&& final(self).targets@[i].redirect matches Some(d) && d@ == dest@
                },
            },
    {
        let i = match self.find_target_by_id(id) {
            Some(i) => i,
            None => {
                return Err(
                    ApiError::new(ErrorKind::NotFound, String::from_str("target not found")),
                );
            },
        };
        let t = &mut self.targets[i];
        t.redirect = Some(String::from_str(dest));
        Ok(())
    }

    /// Rename a target.  The new name must not be taken.
    pub fn target_rename(&mut self, id: &str, new_name: &str) -> (r: Result<(), ApiError>)
        requires
            old(self).wf(),
        ensures
            final(self).wf(),
            *final(self) == (Database { targets: final(self).targets, ..*old(self) }),
            match spec_find_target_id_from(old(self).targets@, id@, 0) {
                None => *final(self) == *old(self) && (r matches Err(e) && e.kind
                    == ErrorKind::NotFound),
                Some(i) => {
                    if spec_find_target_name_from(old(self).targets@, new_name@, 0) is Some {
                        *final(self) == *old(self) && (r matches Err(e) && e.kind
                            == ErrorKind::Conflict)
                    } else {
                        &&& r is Ok
                        &&& final(self).targets@.len() == old(self).targets@.len()
                        &&& forall|k: int|
                            0 <= k < old(self).targets@.len() && k != i ==> final(self).targets@[k]
                                == old(self).targets@[k]
                        &&& final(self).targets@[i] == (Target {
                            name: final(self).targets@[i].name,
                            ..old(self).targets@[i]
                        })
                        &&& final(self).targets@[i].name@ == new_name@
                    }
                },
            },
    {
        let i = match self.find_target_by_id(id) {
            Some(i) => i,
            None => {
                return Err(
                    ApiError::new(ErrorKind::NotFound, String::from_str("target not found")),
                );
            },
        };
        if self.find_target_by_name(new_name).is_some() {
            return Err(
                ApiError::new(ErrorKind::Conflict, String::from_str("target name already exists")),
            );
        }
        let t = &mut self.targets[i];
        t.name = String::from_str(new_name);
        Ok(())
    }

    /// Find the position of a user by name.
    fn find_user_by_name(&self, name: &str) -> (r: Option<usize>)
        ensures
            match r {
                Some(i) => spec_find_user_name_from(self.users@, name@, 0) == Some(i as int) && i
                    < self.users@.len() && self.users@[i as int].name@ == name@,
                None => spec_find_user_name_from(self.users@, name@, 0) is None,
            },
    {
        let mut i: usize = 0;
        while i < self.users.len()
            invariant
                i <= self.users@.len(),
                spec_find_user_name_from(self.users@, name@, 0) == spec_find_user_name_from(
                    self.users@,
                    name@,
                    i as int,
                ),
            decreases self.users@.len() - i,
        {
            if str_eq(self.users[i].name.as_str(), name) {
                return Some(i);
            }
            i = i + 1;
        }
        None
    }

    /// Find the position of a user by identifier.
    fn find_user_by_id(&self, id: &str) -> (r: Option<usize>)
        ensures
            match r {
                Some(i) => spec_find_user_id_from(self.users@, id@, 0) == Some(i as int) && i
                    < self.users@.len() && self.users@[i as int].id@ == id@,
                None => spec_find_user_id_from(self.users@, id@, 0) is None,
            },
    {
        let mut i: usize = 0;
        while i < self.users.len()
            invariant
                i <= self.users@.len(),
                spec_find_user_id_from(self.users@, id@, 0) == spec_find_user_id_from(
                    self.users@,
                    id@,
                    i as int,
                ),
            decreases self.users@.len() - i,
        {
            if str_eq(self.users[i].id.as_str(), id) {
                return Some(i);
            }
            i = i + 1;
        }
        None
    }

    /// Authenticate a user by bearer token: an exact match against one
    /// stored token.
    pub fn user_auth(&self, token: &str) -> (r: Result<&User, ApiError>)
        ensures
            match r {
                Ok(u) => spec_find_user_token_from(self.users@, token@, 0) matches Some(i) && *u
                    == self.users@[i],
                Err(e) => spec_find_user_token_from(self.users@, token@, 0) is None && e.kind
                    == ErrorKind::Authentication,
            },
    {
        let mut i: usize = 0;
        while i < self.users.len()
            invariant
                i <= self.users@.len(),
                spec_find_user_token_from(self.users@, token@, 0) == spec_find_user_token_from(
                    self.users@,
                    token@,
                    i as int,
                ),
            decreases self.users@.len() - i,
        {
            if str_eq(self.users[i].token.as_str(), token) {
                return Ok(&self.users[i]);
            }
            i = i + 1;
        }
        Err(ApiError::new(ErrorKind::Authentication, String::from_str("not authorised")))
    }

    /// Create a user account with a fresh identifier and token.  User
    /// names are unique.
    pub fn user_create(&mut self, name: &str, now: i64) -> (r: Result<usize, ApiError>)
        requires
            old(self).wf(),
        ensures
            final(self).wf(),
            *final(self) == (Database { users: final(self).users, ..*old(self) }),
            match r {
                Ok(i) => {
                    &&& spec_find_user_name_from(old(self).users@, name@, 0) is None
                    &&& i == old(self).users@.len()
                    &&& final(self).users@ == old(self).users@.push(final(self).users@.last())
                    &&& final(self).users@.last().name@ == name@
                    &&& final(self).users@.last().privileges@.len() == 0
                    &&& final(self).users@.last().time_create == now
                },
                Err(e) => {
                    &&& *final(self) == *old(self)
                    &&& e.kind == ErrorKind::Conflict
                    &&& spec_find_user_name_from(old(self).users@, name@, 0) is Some
                },
            },
    {
        if self.find_user_by_name(name).is_some() {
            return Err(
                ApiError::new(ErrorKind::Conflict, String::from_str("user name already exists")),
            );
        }
        let u = User {
            id: crate::ids::ulid_generate(),
            name: String::from_str(name),
            token: crate::ids::ulid_generate(),
            privileges: Vec::new(),
            time_create: now,
        };
        let i = self.users.len();
        self.users.push(u);
        Ok(i)
    }

    /// Create a user if no user of that name exists; either way, the
    /// position of the user with that name is returned.
    pub fn user_ensure(&mut self, name: &str, now: i64) -> (r: Result<usize, ApiError>)
        requires
            old(self).wf(),
        ensures
            final(self).wf(),
            *final(self) == (Database { users: final(self).users, ..*old(self) }),
            r is Ok,
            match r {
                Ok(i) => {
                    &&& i < final(self).users@.len()
                    &&& final(self).users@[i as int].name@ == name@
                    &&& match spec_find_user_name_from(old(self).users@, name@, 0) {
                        Some(k) => k == i as int && *final(self) == *old(self),
                        None => final(self).users@ == old(self).users@.push(
                            final(self).users@.last(),
                        ) && i == old(self).users@.len() && final(self).users@.last().privileges@.len()
                            == 0 && final(self).users@.last().time_create == now,
                    }
                },
                Err(_) => false,
            },
    {
        match self.find_user_by_name(name) {
            Some(i) => Ok(i),
            None => self.user_create(name, now),
        }
    }

    /// Grant a privilege to a user.  Granting a privilege the user
    /// already holds changes nothing.
    pub fn user_privilege_grant(&mut self, user_id: &str, privilege: &str) -> (r: Result<
        (),
        ApiError,
    >)
        requires
            old(self).wf(),
        ensures
            final(self).wf(),
            *final(self) == (Database { users: final(self).users, ..*old(self) }),
            match spec_find_user_id_from(old(self).users@, user_id@, 0) {
                None => *final(self) == *old(self) && (r matches Err(e) && e.kind
                    == ErrorKind::NotFound),
                Some(i) => {
                    &&& r is Ok
                    &&& final(self).users@.len() == old(self).users@.len()
                    &&& forall|k: int|
                        0 <= k < old(self).users@.len() && k != i ==> final(self).users@[k] == old(self).users@[k]
                    &&& final(self).users@[i] == (User {
                        privileges: final(self).users@[i].privileges,
                        ..old(self).users@[i]
                    })
                    &&& spec_has_privilege(final(self).users@[i], privilege@)
                    &&& (spec_has_privilege(old(self).users@[i], privilege@) ==> old(self).users@[i] == final(self).users@[i])
                },
            },
    {
        let i = match self.find_user_by_id(user_id) {
            Some(i) => i,
            None => {
                return Err(ApiError::new(ErrorKind::NotFound, String::from_str("user not found")));
            },
        };
        if user_has_privilege(&self.users[i], privilege) {
            return Ok(());
        }
        let u = &mut self.users[i];
        let ghost n = u.privileges@.len();
        u.privileges.push(String::from_str(privilege));
        proof {
            assert((#[trigger] final(self).users@[i as int].privileges@[n as int])@ == privilege@);
        }
        Ok(())
    }

    /// Create a factory with a fresh identifier and token.
    pub fn factory_create(&mut self, name: &str) -> (r: Result<usize, ApiError>)
        requires
            old(self).wf(),
        ensures
            final(self).wf(),
            *final(self) == (Database { factories: final(self).factories, ..*old(self) }),
            match r {
                Ok(i) => {
                    &&& i == old(self).factories@.len()
                    &&& final(self).factories@ == old(self).factories@.push(
                        final(self).factories@.last(),
                    )
                    &&& final(self).factories@.last().name@ == name@
                },
                Err(_) => *final(self) == *old(self),
            },
    {
        let f = Factory {
            id: crate::ids::ulid_generate(),
            name: String::from_str(name),
            token: crate::ids::ulid_generate(),
        };
        let i = self.factories.len();
        self.factories.push(f);
        Ok(i)
    }

    /// Authenticate a factory by bearer token.
    pub fn factory_auth(&self, token: &str) -> (r: Result<&Factory, ApiError>)
        ensures
            match r {
                Ok(f) => spec_find_factory_token_from(self.factories@, token@, 0) matches Some(i)
                    && *f == self.factories@[i],
                Err(e) => spec_find_factory_token_from(self.factories@, token@, 0) is None && e.kind
                    == ErrorKind::Authentication,
            },
    {
        let mut i: usize = 0;
        while i < self.factories.len()
            invariant
                i <= self.factories@.len(),
                spec_find_factory_token_from(self.factories@, token@, 0)
                    == spec_find_factory_token_from(self.factories@, token@, i as int),
            decreases self.factories@.len() - i,
        {
            if str_eq(self.factories[i].token.as_str(), token) {
                return Ok(&self.factories[i]);
            }
            i = i + 1;
        }
        Err(ApiError::new(ErrorKind::Authentication, String::from_str("not authorised")))
    }
}


/// The index of the worker holding the given bootstrap secret,
/// searching from `i`.
pub open spec fn spec_find_worker_bootstrap_from(s: Seq<Worker>, b: Seq<char>, i: int) -> Option<
    int,
>
    decreases s.len() - i when 0 <= i <= s.len()
{
    if i >= s.len() {
        None
    } else if s[i].bootstrap@ == b {
        Some(i)
    } else {
        spec_find_worker_bootstrap_from(s, b, i + 1)
    }
}

/// The index of the worker holding the given token, searching from `i`.
pub open spec fn spec_find_worker_token_from(s: Seq<Worker>, t: Seq<char>, i: int) -> Option<int>
    decreases s.len() - i when 0 <= i <= s.len()
{
    if i >= s.len() {
        None
    } else if s[i].token matches Some(x) && x@ == t {
        Some(i)
    } else {
        spec_find_worker_token_from(s, t, i + 1)
    }
}

/// The index of the output with the given file identifier, searching
/// from `i`.
pub open spec fn spec_find_output_from(
    s: Seq<jobs::JobOutput>,
    file: Seq<char>,
    i: int,
) -> Option<int>
    decreases s.len() - i when 0 <= i <= s.len()
{
    if i >= s.len() {
        None
    } else if s[i].file.id@ == file {
        Some(i)
    } else {
        spec_find_output_from(s, file, i + 1)
    }
}

/// The index of the input with the given name, searching from `i`.
pub open spec fn spec_find_input_from(
    s: Seq<jobs::JobInput>,
    name: Seq<char>,
    i: int,
) -> Option<int>
    decreases s.len() - i when 0 <= i <= s.len()
{
    if i >= s.len() {
        None
    } else if s[i].name@ == name {
        Some(i)
    } else {
        spec_find_input_from(s, name, i + 1)
    }
}

/// The index of the store entry with the given name, searching from
/// `i`.
pub open spec fn spec_find_store_from(
    s: Seq<(String, jobs::StoreValue)>,
    name: Seq<char>,
    i: int,
) -> Option<int>
    decreases s.len() - i when 0 <= i <= s.len()
{
    if i >= s.len() {
        None
    } else if s[i].0@ == name {
        Some(i)
    } else {
        spec_find_store_from(s, name, i + 1)
    }
}

/// A successful search names an input in range carrying the name.
pub proof fn lemma_find_input_some(s: Seq<jobs::JobInput>, name: Seq<char>, i: int)
    requires
        0 <= i <= s.len(),
        spec_find_input_from(s, name, i) is Some,
    ensures
        ({
            let k = spec_find_input_from(s, name, i)->0;
            i <= k < s.len() && s[k].name@ == name
        }),
    decreases s.len() - i,
{
    if i < s.len() && s[i].name@ != name {
        lemma_find_input_some(s, name, i + 1);
    }
}

/// Every declared input has a committed file attached.
pub open spec fn spec_all_inputs_attached(s: Seq<jobs::JobInput>) -> bool {
    forall|i: int| 0 <= i < s.len() ==> (#[trigger] s[i]).file is Some
}

/// One dependency is satisfied: its prior job exists, has completed,
/// and ended in a state the dependency permits.
pub open spec fn spec_dep_ready(jobs: Seq<Job>, d: jobs::Depend) -> bool {
    match spec_find_job(jobs, d.prior_job.id@) {
        None => false,
        Some(pi) => jobs[pi].complete && (if jobs[pi].failed {
            d.on_failed
        } else {
            d.on_completed
        }),
    }
}

/// Every dependency of a job is satisfied.
pub open spec fn spec_deps_ready(jobs: Seq<Job>, j: Job) -> bool {
    forall|i: int| 0 <= i < j.depends@.len() ==> spec_dep_ready(jobs, #[trigger] j.depends@[i])
}

impl Database {
    /// Find the position of a worker by identifier.
    fn find_worker(&self, id: &str) -> (r: Option<usize>)
        ensures
            match r {
                Some(i) => spec_find_worker(self.workers@, id@) == Some(i as int) && i
                    < self.workers@.len() && self.workers@[i as int].id@ == id@,
                None => spec_find_worker(self.workers@, id@) is None,
            },
    {
        let mut i: usize = 0;
        while i < self.workers.len()
            invariant
                i <= self.workers@.len(),
                spec_find_worker(self.workers@, id@) == spec_find_worker_from(
                    self.workers@,
                    id@,
                    i as int,
                ),
            decreases self.workers@.len() - i,
        {
            if str_eq(self.workers[i].id.as_str(), id) {
                return Some(i);
            }
            i = i + 1;
        }
        None
    }

    /// Read a worker record.
    pub fn worker_by_id(&self, id: &str) -> (r: Option<&Worker>)
        ensures
            match r {
                Some(w) => spec_find_worker(self.workers@, id@) matches Some(i) && self.workers@[i]
                    == *w,
                None => spec_find_worker(self.workers@, id@) is None,
            },
    {
        match self.find_worker(id) {
            Some(i) => Some(&self.workers[i]),
            None => None,
        }
    }

    /// Create a worker with a fresh identifier and a single-use
    /// bootstrap secret, optionally bound to a leased job.
    pub fn worker_create(&mut self, factory: &str, target_id: &str, job: Option<&JobId>) -> (r:
        Result<String, ApiError>)
        requires
            old(self).wf(),
        ensures
            final(self).wf(),
            *final(self) == (Database { workers: final(self).workers, ..*old(self) }),
            match r {
                Ok(id) => {
                    &&& final(self).workers@.len() == old(self).workers@.len() + 1
                    &&& final(self).workers@.subrange(0, old(self).workers@.len() as int) == old(self).workers@
                    &&& ({
                        let w = final(self).workers@.last();
                        &&& w.id@ == id@
                        &&& w.factory@ == factory@
                        &&& w.target@ == target_id@
                        &&& w.token is None
                        &&& w.instance_id is None
                        &&& w.deleted == false
                        &&& w.recycle == false
                        &&& w.lastping is None
                        &&& match (w.job, job) {
                            (Some(a), Some(b)) => a.id@ == b.id@,
                            (None, None) => true,
                            _ => false,
                        }
                    })
                },
                Err(e) => *final(self) == *old(self) && e.kind == ErrorKind::Internal && old(
                    self,
                ).workers@.len() > 0,
            },
    {
        let id = crate::ids::ulid_generate();
        if self.find_worker(id.as_str()).is_some() {
            return Err(
                ApiError::new(ErrorKind::Internal, String::from_str("identifier collision")),
            );
        }
        let w = Worker {
            id: id.clone(),
            bootstrap: crate::ids::ulid_generate(),
            token: None,
            factory: String::from_str(factory),
            target: String::from_str(target_id),
            instance_id: None,
            deleted: false,
            recycle: false,
            lastping: None,
            job: match job {
                Some(j) => Some(JobId { id: j.id.clone() }),
                None => None,
            },
        };
        self.workers.push(w);
        proof {
            lemma_find_worker_none(old(self).workers@, id@, 0);
            assert(final(self).workers@.subrange(0, old(self).workers@.len() as int) =~= old(self).workers@);
        }
        Ok(id)
    }

    /// Consume a worker's single-use bootstrap secret, minting its
    /// token.  A secret that is unknown, or that was already consumed,
    /// does not authenticate.
    pub fn worker_bootstrap(&mut self, bootstrap: &str) -> (r: Result<String, ApiError>)
        requires
            old(self).wf(),
        ensures
            final(self).wf(),
            *final(self) == (Database { workers: final(self).workers, ..*old(self) }),
            match spec_find_worker_bootstrap_from(old(self).workers@, bootstrap@, 0) {
                None => *final(self) == *old(self) && (r matches Err(e) && e.kind
                    == ErrorKind::Authentication),
                Some(i) => {
                    if old(self).workers@[i].token is Some {
                        *final(self) == *old(self) && (r matches Err(e) && e.kind
                            == ErrorKind::Authentication)
                    } else {
                        &&& r is Ok
                        &&& final(self).workers@.len() == old(self).workers@.len()
                        &&& forall|k: int|
                            0 <= k < old(self).workers@.len() && k != i ==> final(self).workers@[k]
                                == old(self).workers@[k]
                        &&& final(self).workers@[i] == (Worker {
                            token: final(self).workers@[i].token,
                            ..old(self).workers@[i]
                        })
                        &&& final(self).workers@[i].token matches Some(t) && (r matches Ok(rt)
                            && rt@ == t@)
                    }
                },
            },
    {
        let mut i: usize = 0;
        loop
            invariant
                i <= self.workers@.len(),
                *self == *old(self),
                spec_find_worker_bootstrap_from(self.workers@, bootstrap@, 0)
                    == spec_find_worker_bootstrap_from(self.workers@, bootstrap@, i as int),
            ensures
                match spec_find_worker_bootstrap_from(self.workers@, bootstrap@, 0) {
                    None => i == self.workers@.len(),
                    Some(k) => k == i as int && i < self.workers@.len()
                        && self.workers@[i as int].bootstrap@ == bootstrap@,
                },
                *self == *old(self),
            decreases self.workers@.len() - i,
        {
            if i >= self.workers.len() {
                break ;
            }
            if str_eq(self.workers[i].bootstrap.as_str(), bootstrap) {
                break ;
            }
            i = i + 1;
        }
        if i >= self.workers.len() {
            return Err(
                ApiError::new(ErrorKind::Authentication, String::from_str("not authorised")),
            );
        }
        if self.workers[i].token.is_some() {
            return Err(
                ApiError::new(ErrorKind::Authentication, String::from_str("not authorised")),
            );
        }
        let t = crate::ids::ulid_generate();
        let w = &mut self.workers[i];
        w.token = Some(t.clone());
        Ok(t)
    }

    /// Authenticate a worker by bearer token.
    pub fn worker_auth(&self, token: &str) -> (r: Result<&Worker, ApiError>)
        ensures
            match r {
                Ok(w) => spec_find_worker_token_from(self.workers@, token@, 0) matches Some(i)
                    && *w == self.workers@[i],
                Err(e) => spec_find_worker_token_from(self.workers@, token@, 0) is None && e.kind
                    == ErrorKind::Authentication,
            },
    {
        let mut i: usize = 0;
        while i < self.workers.len()
            invariant
                i <= self.workers@.len(),
                spec_find_worker_token_from(self.workers@, token@, 0)
                    == spec_find_worker_token_from(self.workers@, token@, i as int),
            decreases self.workers@.len() - i,
        {
            let matched = match &self.workers[i].token {
                Some(t) => str_eq(t.as_str(), token),
                None => false,
            };
            if matched {
                return Ok(&self.workers[i]);
            }
            i = i + 1;
        }
        Err(ApiError::new(ErrorKind::Authentication, String::from_str("not authorised")))
    }

    /// Record that a worker pinged.
    pub fn worker_ping(&mut self, id: &str, now: i64) -> (r: Result<(), ApiError>)
        requires
            old(self).wf(),
        ensures
            final(self).wf(),
            *final(self) == (Database { workers: final(self).workers, ..*old(self) }),
            match spec_find_worker(old(self).workers@, id@) {
                None => *final(self) == *old(self) && (r matches Err(e) && e.kind
                    == ErrorKind::NotFound),
                Some(i) => {
                    &&& r is Ok
                    &&& final(self).workers@.len() == old(self).workers@.len()
                    &&& forall|k: int|
                        0 <= k < old(self).workers@.len() && k != i ==> final(self).workers@[k]
                            == old(self).workers@[k]
                    &&& final(self).workers@[i] == (Worker {
                        lastping: Some(now),
                        ..old(self).workers@[i]
                    })
                },
            },
    {
        let i = match self.find_worker(id) {
            Some(i) => i,
            None => {
                return Err(
                    ApiError::new(ErrorKind::NotFound, String::from_str("worker not found")),
                );
            },
        };
        let w = &mut self.workers[i];
        w.lastping = Some(now);
        Ok(())
    }

    /// Ask a worker to recycle once its current job ends.
    pub fn worker_recycle(&mut self, id: &str) -> (r: Result<(), ApiError>)
        requires
            old(self).wf(),
        ensures
            final(self).wf(),
            *final(self) == (Database { workers: final(self).workers, ..*old(self) }),
            match spec_find_worker(old(self).workers@, id@) {
                None => *final(self) == *old(self) && (r matches Err(e) && e.kind
                    == ErrorKind::NotFound),
                Some(i) => {
                    &&& r is Ok
                    &&& final(self).workers@.len() == old(self).workers@.len()
                    &&& forall|k: int|
                        0 <= k < old(self).workers@.len() && k != i ==> final(self).workers@[k]
                            == old(self).workers@[k]
                    &&& final(self).workers@[i] == (Worker {
                        recycle: true,
                        ..old(self).workers@[i]
                    })
                },
            },
    {
        let i = match self.find_worker(id) {
            Some(i) => i,
            None => {
                return Err(
                    ApiError::new(ErrorKind::NotFound, String::from_str("worker not found")),
                );
            },
        };
        let w = &mut self.workers[i];
        w.recycle = true;
        Ok(())
    }

    /// Read the worker at a given position.
    pub fn worker_at(&self, i: usize) -> (r: Option<&Worker>)
        ensures
            match r {
                Some(w) => i < self.workers@.len() && *w == self.workers@[i as int],
                None => i >= self.workers@.len(),
            },
    {
        if i < self.workers.len() {
            Some(&self.workers[i])
        } else {
            None
        }
    }

    /// Soft-delete a worker.  A job that was assigned to it and did not
    /// complete loses its worker assignment and is queued again.
    pub fn worker_destroy(&mut self, id: &str) -> (r: Result<(), ApiError>)
        requires
            old(self).wf(),
        ensures
            final(self).wf(),
            *final(self) == (Database {
                workers: final(self).workers,
                jobs: final(self).jobs,
                ..*old(self)
            }),
            match spec_find_worker(old(self).workers@, id@) {
                None => *final(self) == *old(self) && (r matches Err(e) && e.kind
                    == ErrorKind::NotFound),
                Some(i) => {
                    &&& r is Ok
                    &&& final(self).workers@.len() == old(self).workers@.len()
                    &&& forall|k: int|
                        0 <= k < old(self).workers@.len() && k != i ==> final(self).workers@[k]
                            == old(self).workers@[k]
                    &&& final(self).workers@[i] == (Worker {
                        deleted: true,
                        job: None,
                        ..old(self).workers@[i]
                    })
                    &&& match old(self).workers@[i].job {
                        None => final(self).jobs@ == old(self).jobs@,
                        Some(jid) => match spec_find_job(old(self).jobs@, jid.id@) {
                            None => final(self).jobs@ == old(self).jobs@,
                            Some(k) => {
                                if old(self).jobs@[k].complete {
                                    final(self).jobs@ == old(self).jobs@
                                } else {
                                    &&& final(self).jobs@.len() == old(self).jobs@.len()
                                    &&& forall|m: int|
                                        0 <= m < old(self).jobs@.len() && m != k ==> final(self).jobs@[m] == old(self).jobs@[m]
                                    &&& final(self).jobs@[k] == (Job {
                                        worker: None,
                                        ..old(self).jobs@[k]
                                    })
                                }
                            },
                        },
                    }
                },
            },
    {
        let i = match self.find_worker(id) {
            Some(i) => i,
            None => {
                return Err(
                    ApiError::new(ErrorKind::NotFound, String::from_str("worker not found")),
                );
            },
        };
        let jid = {
            let w = &mut self.workers[i];
            w.deleted = true;
            let jid = match &w.job {
                Some(j) => Some(JobId { id: j.id.clone() }),
                None => None,
            };
            w.job = None;
            jid
        };
        if let Some(jid) = jid {
            if let Some(k) = self.find_job(&jid) {
                if !self.jobs[k].complete {
                    let j = &mut self.jobs[k];
                    j.worker = None;
                    proof {
                        assert forall|m: int| 0 <= m < final(self).jobs@.len() implies (
                        #[trigger] final(self).jobs@[m]).wf() by {
                            if m != k {
                                assert(final(self).jobs@[m] == old(self).jobs@[m]);
                            }
                        }
                    }
                }
            }
        }
        Ok(())
    }

    /// Assign a queued job to an idle worker: one transaction setting
    /// the assignment on both records and stamping the time.
    pub fn worker_assign(&mut self, job: &JobId, worker_id: &str, now: i64) -> (r: Result<
        (),
        ApiError,
    >)
        requires
            old(self).wf(),
        ensures
            final(self).wf(),
            *final(self) == (Database {
                workers: final(self).workers,
                jobs: final(self).jobs,
                ..*old(self)
            }),
            match (
                spec_find_job(old(self).jobs@, job.id@),
                spec_find_worker(old(self).workers@, worker_id@),
            ) {
                (Some(ji), Some(wi)) => {
                    let oj = old(self).jobs@[ji];
                    let ow = old(self).workers@[wi];
                    if oj.complete || oj.waiting || oj.worker is Some || ow.deleted || ow.recycle
                        || ow.job is Some {
                        *final(self) == *old(self) && (r matches Err(e) && e.kind
                            == ErrorKind::Conflict)
                    } else {
                        &&& r is Ok
                        &&& final(self).jobs@.len() == old(self).jobs@.len()
                        &&& forall|m: int|
                            0 <= m < old(self).jobs@.len() && m != ji ==> final(self).jobs@[m]
                                == old(self).jobs@[m]
                        &&& final(self).jobs@[ji] == (Job {
                            worker: final(self).jobs@[ji].worker,
                            times: final(self).jobs@[ji].times,
                            ..oj
                        })
                        &&& final(self).jobs@[ji].worker matches Some(w) && w@ == worker_id@
                        &&& final(self).jobs@[ji].times@.len() == oj.times@.len() + 1
                        &&& final(self).jobs@[ji].times@.subrange(0, oj.times@.len() as int)
                            == oj.times@
                        &&& final(self).jobs@[ji].times@.last().0@ == "assigned"@
                        &&& final(self).jobs@[ji].times@.last().1 == now
                        &&& final(self).workers@.len() == old(self).workers@.len()
                        &&& forall|m: int|
                            0 <= m < old(self).workers@.len() && m != wi ==> final(self).workers@[m] == old(self).workers@[m]
                        &&& final(self).workers@[wi] == (Worker {
                            job: final(self).workers@[wi].job,
                            ..ow
                        })
                        &&& final(self).workers@[wi].job matches Some(jj) && jj.id@ == job.id@
                    }
                },
                _ => *final(self) == *old(self) && (r matches Err(e) && e.kind
                    == ErrorKind::NotFound),
            },
    {
        let ji = match self.find_job(job) {
            Some(i) => i,
            None => {
                return Err(ApiError::new(ErrorKind::NotFound, String::from_str("job not found")));
            },
        };
        let wi = match self.find_worker(worker_id) {
            Some(i) => i,
            None => {
                return Err(
                    ApiError::new(ErrorKind::NotFound, String::from_str("worker not found")),
                );
            },
        };
        if self.jobs[ji].complete || self.jobs[ji].waiting || self.jobs[ji].worker.is_some()
            || self.workers[wi].deleted || self.workers[wi].recycle
            || self.workers[wi].job.is_some() {
            return Err(
                ApiError::new(
                    ErrorKind::Conflict,
                    String::from_str("job and worker cannot be joined"),
                ),
            );
        }
        let j = &mut self.jobs[ji];
        j.worker = Some(String::from_str(worker_id));
        j.times.push((String::from_str("assigned"), now));
        let w = &mut self.workers[wi];
        w.job = Some(JobId { id: job.id.clone() });
        proof {
            assert(final(self).jobs@[ji as int].times@.subrange(
                0,
                old(self).jobs@[ji as int].times@.len() as int,
            ) =~= old(self).jobs@[ji as int].times@);
            assert forall|m: int| 0 <= m < final(self).jobs@.len() implies (
            #[trigger] final(self).jobs@[m]).wf() by {
                if m != ji {
                    assert(final(self).jobs@[m] == old(self).jobs@[m]);
                }
            }
        }
        Ok(())
    }
}

/// A successful search names a job in range carrying the identifier.
pub proof fn lemma_find_job_some(s: Seq<Job>, id: Seq<char>, i: int)
    requires
        0 <= i <= s.len(),
        spec_find_job_from(s, id, i) is Some,
    ensures
        ({
            let k = spec_find_job_from(s, id, i)->0;
            i <= k < s.len() && s[k].id.id@ == id
        }),
    decreases s.len() - i,
{
    if i < s.len() && s[i].id.id@ != id {
        lemma_find_job_some(s, id, i + 1);
    }
}

/// Two job lists with the same identifiers in the same places are
/// searched alike.
pub proof fn lemma_find_job_same_ids(a: Seq<Job>, b: Seq<Job>, id: Seq<char>, i: int)
    requires
        0 <= i <= a.len(),
        a.len() == b.len(),
        forall|k: int| 0 <= k < a.len() ==> (#[trigger] a[k]).id.id@ == b[k].id.id@,
    ensures
        spec_find_job_from(a, id, i) == spec_find_job_from(b, id, i),
    decreases a.len() - i,
{
    if i < a.len() {
        lemma_find_job_same_ids(a, b, id, i + 1);
    }
}

/// A successful search names a worker in range carrying the
/// identifier.
pub proof fn lemma_find_worker_some(s: Seq<Worker>, id: Seq<char>, i: int)
    requires
        0 <= i <= s.len(),
        spec_find_worker_from(s, id, i) is Some,
    ensures
        ({
            let k = spec_find_worker_from(s, id, i)->0;
            i <= k < s.len() && s[k].id@ == id
        }),
    decreases s.len() - i,
{
    if i < s.len() && s[i].id@ != id {
        lemma_find_worker_some(s, id, i + 1);
    }
}

/// A failed search means no worker from `i` on carries the identifier.
pub proof fn lemma_find_worker_none(s: Seq<Worker>, id: Seq<char>, i: int)
    requires
        0 <= i <= s.len(),
        spec_find_worker_from(s, id, i) is None,
    ensures
        forall|k: int| i <= k < s.len() ==> (#[trigger] s[k]).id@ != id,
    decreases s.len() - i,
{
    if i < s.len() {
        lemma_find_worker_none(s, id, i + 1);
    }
}


impl Database {
    /// Read a job's events with sequence number at least `minseq`, in
    /// ascending order.  A `minseq` past the log yields nothing.
    pub fn job_events(&self, job: &JobId, minseq: usize) -> (r: Result<Vec<JobEvent>, ApiError>)
        ensures
            match spec_find_job(self.jobs@, job.id@) {
                None => r matches Err(e) && e.kind == ErrorKind::NotFound,
                Some(i) => {
                    let es = self.jobs@[i].events@;
                    &&& r matches Ok(evs)
                    &&& evs@.len() == if minseq < es.len() {
                        es.len() - minseq
                    } else {
                        0
                    }
                    &&& forall|k: int|
                        0 <= k < evs@.len() ==> jobs::spec_event_eqv(
                            #[trigger] evs@[k],
                            es[minseq + k],
                        )
                },
            },
    {
        let i = match self.find_job(job) {
            Some(i) => i,
            None => {
                return Err(ApiError::new(ErrorKind::NotFound, String::from_str("job not found")));
            },
        };
        let es = &self.jobs[i].events;
        let mut r: Vec<JobEvent> = Vec::new();
        let mut k: usize = minseq;
        while k < es.len()
            invariant
                minseq <= k <= es.len() || (k == minseq && minseq >= es@.len()),
                es@ == self.jobs@[i as int].events@,
                i < self.jobs@.len(),
                r@.len() == if minseq < k {
                    k - minseq
                } else {
                    0
                },
                forall|m: int|
                    0 <= m < r@.len() ==> jobs::spec_event_eqv(#[trigger] r@[m], es@[minseq + m]),
            decreases es@.len() - k,
        {
            r.push(jobs::clone_event(&es[k]));
            k = k + 1;
        }
        Ok(r)
    }

    /// Read all output records of a job.
    pub fn job_outputs(&self, job: &JobId) -> (r: Result<Vec<jobs::JobOutput>, ApiError>)
        ensures
            match spec_find_job(self.jobs@, job.id@) {
                None => r matches Err(e) && e.kind == ErrorKind::NotFound,
                Some(i) => {
                    let os = self.jobs@[i].outputs@;
                    &&& r matches Ok(outs)
                    &&& outs@.len() == os.len()
                    &&& forall|k: int|
                        0 <= k < os.len() ==> jobs::spec_output_eqv(#[trigger] outs@[k], os[k])
                },
            },
    {
        let i = match self.find_job(job) {
            Some(i) => i,
            None => {
                return Err(ApiError::new(ErrorKind::NotFound, String::from_str("job not found")));
            },
        };
        let os = &self.jobs[i].outputs;
        let mut r: Vec<jobs::JobOutput> = Vec::new();
        let mut k: usize = 0;
        while k < os.len()
            invariant
                k <= os@.len(),
                os@ == self.jobs@[i as int].outputs@,
                i < self.jobs@.len(),
                r@.len() == k,
                forall|m: int|
                    0 <= m < k ==> jobs::spec_output_eqv(#[trigger] r@[m], os@[m]),
            decreases os@.len() - k,
        {
            r.push(jobs::clone_output(&os[k]));
            k = k + 1;
        }
        Ok(r)
    }

    /// Read one output record of a job, by file identifier.
    pub fn job_output(&self, job: &JobId, file: &crate::ids::JobFileId) -> (r: Result<
        jobs::JobOutput,
        ApiError,
    >)
        ensures
            spec_find_job(self.jobs@, job.id@) is None ==> (r matches Err(e) && e.kind
                == ErrorKind::NotFound),
            spec_find_job(self.jobs@, job.id@) matches Some(i) ==> ({
                let fo = spec_find_output_from(self.jobs@[i].outputs@, file.id@, 0);
                &&& fo is None ==> (r matches Err(e) && e.kind == ErrorKind::NotFound)
                &&& fo matches Some(k) ==> (r matches Ok(o) && jobs::spec_output_eqv(
                    o,
                    self.jobs@[i].outputs@[k],
                ))
            }),
    {
        let i = match self.find_job(job) {
            Some(i) => i,
            None => {
                return Err(ApiError::new(ErrorKind::NotFound, String::from_str("job not found")));
            },
        };
        let os = &self.jobs[i].outputs;
        let mut k: usize = 0;
        while k < os.len()
            invariant
                k <= os@.len(),
                os@ == self.jobs@[i as int].outputs@,
                i < self.jobs@.len(),
                spec_find_job(self.jobs@, job.id@) == Some(i as int),
                spec_find_output_from(os@, file.id@, 0) == spec_find_output_from(
                    os@,
                    file.id@,
                    k as int,
                ),
            decreases os@.len() - k,
        {
            if str_eq(os[k].file.id.as_str(), file.id.as_str()) {
                proof {
                    assert(spec_find_output_from(os@, file.id@, k as int) == Some(k as int));
                    assert(spec_find_output_from(self.jobs@[i as int].outputs@, file.id@, 0)
                        == Some(k as int));
                }
                let o = jobs::clone_output(&os[k]);
                proof {
                    assert(jobs::spec_output_eqv(o, self.jobs@[i as int].outputs@[k as int]));
                }
                return Ok(o);
            }
            k = k + 1;
        }
        proof {
            assert(spec_find_output_from(os@, file.id@, k as int) is None);
        }
        Err(ApiError::new(ErrorKind::NotFound, String::from_str("output not found")))
    }

    /// Record an output produced by a job.  A complete job takes no
    /// further outputs.
    pub fn job_output_add(
        &mut self,
        job: &JobId,
        path: &str,
        file: &crate::ids::JobFileId,
        size: u64,
    ) -> (r: Result<(), ApiError>)
        requires
            old(self).wf(),
        ensures
            final(self).wf(),
            *final(self) == (Database { jobs: final(self).jobs, ..*old(self) }),
            match spec_find_job(old(self).jobs@, job.id@) {
                None => *final(self) == *old(self) && (r matches Err(e) && e.kind
                    == ErrorKind::NotFound),
                Some(i) => {
                    if old(self).jobs@[i].complete {
                        *final(self) == *old(self) && (r matches Err(e) && e.kind
                            == ErrorKind::Conflict)
                    } else {
                        &&& r is Ok
                        &&& final(self).jobs@.len() == old(self).jobs@.len()
                        &&& forall|k: int|
                            0 <= k < old(self).jobs@.len() && k != i ==> final(self).jobs@[k]
                                == old(self).jobs@[k]
                        &&& final(self).jobs@[i] == (Job {
                            outputs: final(self).jobs@[i].outputs,
                            ..old(self).jobs@[i]
                        })
                        &&& final(self).jobs@[i].outputs@.len() == old(self).jobs@[i].outputs@.len()
                            + 1
                        &&& final(self).jobs@[i].outputs@.subrange(
                            0,
                            old(self).jobs@[i].outputs@.len() as int,
                        ) == old(self).jobs@[i].outputs@
                        &&& ({
                            let o = final(self).jobs@[i].outputs@.last();
                            &&& o.path@ == path@
                            &&& o.file.id@ == file.id@
                            &&& o.size == size
                            &&& o.published is None
                        })
                    }
                },
            },
    {
        let i = match self.find_job(job) {
            Some(i) => i,
            None => {
                return Err(ApiError::new(ErrorKind::NotFound, String::from_str("job not found")));
            },
        };
        if self.jobs[i].complete {
            return Err(
                ApiError::new(
                    ErrorKind::Conflict,
                    String::from_str("cannot add outputs to a complete job"),
                ),
            );
        }
        let j = &mut self.jobs[i];
        j.outputs.push(
            jobs::JobOutput {
                path: String::from_str(path),
                file: crate::ids::JobFileId { id: file.id.clone() },
                size,
                published: None,
            },
        );
        proof {
            assert(final(self).jobs@[i as int].outputs@.subrange(
                0,
                old(self).jobs@[i as int].outputs@.len() as int,
            ) =~= old(self).jobs@[i as int].outputs@);
            assert forall|k: int| 0 <= k < final(self).jobs@.len() implies (
            #[trigger] final(self).jobs@[k]).wf() by {
                if k != i {
                    assert(final(self).jobs@[k] == old(self).jobs@[k]);
                }
            }
        }
        Ok(())
    }

    /// Whether every dependency of the job at position `i` is
    /// satisfied.
    pub fn deps_ready_at(&self, i: usize) -> (r: bool)
        requires
            i < self.jobs@.len(),
        ensures
            r == spec_deps_ready(self.jobs@, self.jobs@[i as int]),
    {
        let n = self.jobs[i].depends.len();
        let mut k: usize = 0;
        while k < n
            invariant
                k <= n,
                i < self.jobs@.len(),
                n == self.jobs@[i as int].depends@.len(),
                forall|m: int|
                    0 <= m < k ==> spec_dep_ready(
                        self.jobs@,
                        #[trigger] self.jobs@[i as int].depends@[m],
                    ),
            decreases n - k,
        {
            let d = &self.jobs[i].depends[k];
            let ok = match self.find_job(&d.prior_job) {
                None => false,
                Some(pi) => {
                    let p = &self.jobs[pi];
                    p.complete && (if p.failed {
                        d.on_failed
                    } else {
                        d.on_completed
                    })
                },
            };
            if !ok {
                return false;
            }
            k = k + 1;
        }
        true
    }

    /// Attach a committed file to a job input.  The job must still be
    /// waiting; when the last still-missing input is attached and every
    /// dependency is satisfied, the job leaves waiting and is queued.
    pub fn job_input_add(
        &mut self,
        job: &JobId,
        name: &str,
        file: &crate::ids::JobFileId,
        size: u64,
    ) -> (r: Result<(), ApiError>)
        requires
            old(self).wf(),
        ensures
            final(self).wf(),
            *final(self) == (Database { jobs: final(self).jobs, ..*old(self) }),
            match spec_find_job(old(self).jobs@, job.id@) {
                None => *final(self) == *old(self) && (r matches Err(e) && e.kind
                    == ErrorKind::NotFound),
                Some(i) => {
                    if !old(self).jobs@[i].waiting {
                        *final(self) == *old(self) && (r matches Err(e) && e.kind
                            == ErrorKind::Conflict)
                    } else {
                        &&& r is Ok
                        &&& final(self).jobs@.len() == old(self).jobs@.len()
                        &&& forall|k: int|
                            0 <= k < old(self).jobs@.len() && k != i ==> final(self).jobs@[k]
                                == old(self).jobs@[k]
                        &&& final(self).jobs@[i] == (Job {
                            inputs: final(self).jobs@[i].inputs,
                            waiting: final(self).jobs@[i].waiting,
                            ..old(self).jobs@[i]
                        })
                        &&& match spec_find_input_from(old(self).jobs@[i].inputs@, name@, 0) {
                            Some(k) => {
                                &&& final(self).jobs@[i].inputs@.len() == old(self).jobs@[i].inputs@.len()
                                &&& forall|m: int|
                                    0 <= m < old(self).jobs@[i].inputs@.len() && m != k ==> final(self).jobs@[i].inputs@[m] == old(self).jobs@[i].inputs@[m]
                                &&& final(self).jobs@[i].inputs@[k].name@ == name@
                                &&& final(self).jobs@[i].inputs@[k].file matches Some(f) && f.0.id@
                                    == file.id@ && f.1 == size
                            },
                            None => {
                                &&& final(self).jobs@[i].inputs@.len() == old(self).jobs@[i].inputs@.len() + 1
                                &&& final(self).jobs@[i].inputs@.subrange(
                                    0,
                                    old(self).jobs@[i].inputs@.len() as int,
                                ) == old(self).jobs@[i].inputs@
                                &&& final(self).jobs@[i].inputs@.last().name@ == name@
                                &&& final(self).jobs@[i].inputs@.last().file matches Some(f)
                                    && f.0.id@ == file.id@ && f.1 == size
                            },
                        }
                        &&& final(self).jobs@[i].waiting == !(spec_all_inputs_attached(
                            final(self).jobs@[i].inputs@,
                        ) && spec_deps_ready(old(self).jobs@, old(self).jobs@[i]))
                    }
                },
            },
    {
        let i = match self.find_job(job) {
            Some(i) => i,
            None => {
                return Err(ApiError::new(ErrorKind::NotFound, String::from_str("job not found")));
            },
        };
        if !self.jobs[i].waiting {
            return Err(
                ApiError::new(
                    ErrorKind::Conflict,
                    String::from_str("cannot add inputs to a job that is not waiting"),
                ),
            );
        }
        let deps_ok = self.deps_ready_at(i);
        let j = &mut self.jobs[i];
        let mut k: usize = 0;
        let n = j.inputs.len();
        let ghost orig_inputs = j.inputs@;
        loop
            invariant
                k <= n,
                n == j.inputs@.len(),
                j.inputs@ == orig_inputs,
                spec_find_input_from(orig_inputs, name@, 0) == spec_find_input_from(
                    orig_inputs,
                    name@,
                    k as int,
                ),
            ensures
                j.inputs@ == orig_inputs,
                match spec_find_input_from(orig_inputs, name@, 0) {
                    None => k == n,
                    Some(m) => m == k as int && k < n && orig_inputs[k as int].name@ == name@,
                },
            decreases n - k,
        {
            if k >= n {
                break ;
            }
            if str_eq(j.inputs[k].name.as_str(), name) {
                break ;
            }
            k = k + 1;
        }
        let rec = jobs::JobInput {
            name: String::from_str(name),
            file: Some((crate::ids::JobFileId { id: file.id.clone() }, size)),
        };
        if k < n {
            j.inputs.set(k, rec);
        } else {
            j.inputs.push(rec);
            proof {
                assert(j.inputs@.subrange(0, orig_inputs.len() as int) =~= orig_inputs);
            }
        }
        let mut all: bool = true;
        let mut m: usize = 0;
        while m < j.inputs.len()
            invariant
                m <= j.inputs@.len(),
                all == (forall|t: int| 0 <= t < m ==> (#[trigger] j.inputs@[t]).file is Some),
            decreases j.inputs@.len() - m,
        {
            if j.inputs[m].file.is_none() {
                all = false;
            }
            m = m + 1;
        }
        j.waiting = !(all && deps_ok);
        proof {
            assert forall|k2: int| 0 <= k2 < final(self).jobs@.len() implies (
            #[trigger] final(self).jobs@[k2]).wf() by {
                if k2 != i {
                    assert(final(self).jobs@[k2] == old(self).jobs@[k2]);
                }
            }
        }
        Ok(())
    }

    /// Publish one output of a job under `series/version/name`.
    pub fn job_publish_output(
        &mut self,
        job: &JobId,
        file: &crate::ids::JobFileId,
        series: &str,
        version: &str,
        name: &str,
    ) -> (r: Result<(), ApiError>)
        requires
            old(self).wf(),
        ensures
            final(self).wf(),
            *final(self) == (Database { jobs: final(self).jobs, ..*old(self) }),
            match spec_find_job(old(self).jobs@, job.id@) {
                None => *final(self) == *old(self) && (r matches Err(e) && e.kind
                    == ErrorKind::NotFound),
                Some(i) => {
                    match spec_find_output_from(old(self).jobs@[i].outputs@, file.id@, 0) {
                        None => *final(self) == *old(self) && (r matches Err(e) && e.kind
                            == ErrorKind::NotFound),
                        Some(k) => {
                            &&& r is Ok
                            &&& final(self).jobs@.len() == old(self).jobs@.len()
                            &&& forall|m: int|
                                0 <= m < old(self).jobs@.len() && m != i ==> final(self).jobs@[m]
                                    == old(self).jobs@[m]
                            &&& final(self).jobs@[i] == (Job {
                                outputs: final(self).jobs@[i].outputs,
                                ..old(self).jobs@[i]
                            })
                            &&& final(self).jobs@[i].outputs@.len() == old(self).jobs@[i].outputs@.len()
                            &&& forall|m: int|
                                0 <= m < old(self).jobs@[i].outputs@.len() && m != k ==> final(self).jobs@[i].outputs@[m] == old(self).jobs@[i].outputs@[m]
                            &&& final(self).jobs@[i].outputs@[k] == (jobs::JobOutput {
                                published: final(self).jobs@[i].outputs@[k].published,
                                ..old(self).jobs@[i].outputs@[k]
                            })
                            &&& final(self).jobs@[i].outputs@[k].published matches Some(p) && p.0@
                                == series@ && p.1@ == version@ && p.2@ == name@
                        },
                    }
                },
            },
    {
        let i = match self.find_job(job) {
            Some(i) => i,
            None => {
                return Err(ApiError::new(ErrorKind::NotFound, String::from_str("job not found")));
            },
        };
        let mut k: usize = 0;
        let n = self.jobs[i].outputs.len();
        let ghost orig = self.jobs@[i as int].outputs@;
        loop
            invariant
                k <= n,
                i < self.jobs@.len(),
                n == self.jobs@[i as int].outputs@.len(),
                self.jobs@[i as int].outputs@ == orig,
                spec_find_output_from(orig, file.id@, 0) == spec_find_output_from(
                    orig,
                    file.id@,
                    k as int,
                ),
            ensures
                self.jobs@[i as int].outputs@ == orig,
                i < self.jobs@.len(),
                match spec_find_output_from(orig, file.id@, 0) {
                    None => k == n,
                    Some(m) => m == k as int && k < n && orig[k as int].file.id@ == file.id@,
                },
            decreases n - k,
        {
            if k >= n {
                break ;
            }
            if str_eq(self.jobs[i].outputs[k].file.id.as_str(), file.id.as_str()) {
                break ;
            }
            k = k + 1;
        }
        if k >= n {
            return Err(ApiError::new(ErrorKind::NotFound, String::from_str("output not found")));
        }
        let old_out = &self.jobs[i].outputs[k];
        let upd = jobs::JobOutput {
            path: old_out.path.clone(),
            file: crate::ids::JobFileId { id: old_out.file.id.clone() },
            size: old_out.size,
            published: Some(
                (String::from_str(series), String::from_str(version), String::from_str(name)),
            ),
        };
        let j = &mut self.jobs[i];
        j.outputs.set(k, upd);
        proof {
            assert forall|m: int| 0 <= m < final(self).jobs@.len() implies (
            #[trigger] final(self).jobs@[m]).wf() by {
                if m != i {
                    assert(final(self).jobs@[m] == old(self).jobs@[m]);
                }
            }
        }
        Ok(())
    }

    /// Write one value into a job's store, replacing any value of the
    /// same name.  The store of a complete job is read-only.
    pub fn job_store_put(
        &mut self,
        job: &JobId,
        name: &str,
        value: &str,
        secret: bool,
        source: &str,
        now: i64,
    ) -> (r: Result<(), ApiError>)
        requires
            old(self).wf(),
        ensures
            final(self).wf(),
            *final(self) == (Database { jobs: final(self).jobs, ..*old(self) }),
            match spec_find_job(old(self).jobs@, job.id@) {
                None => *final(self) == *old(self) && (r matches Err(e) && e.kind
                    == ErrorKind::NotFound),
                Some(i) => {
                    if old(self).jobs@[i].complete {
                        *final(self) == *old(self) && (r matches Err(e) && e.kind
                            == ErrorKind::Conflict)
                    } else {
                        &&& r is Ok
                        &&& final(self).jobs@.len() == old(self).jobs@.len()
                        &&& forall|k: int|
                            0 <= k < old(self).jobs@.len() && k != i ==> final(self).jobs@[k]
                                == old(self).jobs@[k]
                        &&& final(self).jobs@[i] == (Job {
                            store: final(self).jobs@[i].store,
                            ..old(self).jobs@[i]
                        })
                        &&& ({
                            let entry_ok = |e: (String, jobs::StoreValue)|
                                {
                                    &&& e.0@ == name@
                                    &&& e.1.value@ == value@
                                    &&& e.1.secret == secret
                                    &&& e.1.source@ == source@
                                    &&& e.1.time_update == now
                                };
                            match spec_find_store_from(old(self).jobs@[i].store@, name@, 0) {
                                Some(k) => {
                                    &&& final(self).jobs@[i].store@.len() == old(self).jobs@[i].store@.len()
                                    &&& forall|m: int|
                                        0 <= m < old(self).jobs@[i].store@.len() && m != k
                                            ==> final(self).jobs@[i].store@[m] == old(self).jobs@[i].store@[m]
                                    &&& entry_ok(final(self).jobs@[i].store@[k])
                                },
                                None => {
                                    &&& final(self).jobs@[i].store@.len() == old(self).jobs@[i].store@.len() + 1
                                    &&& final(self).jobs@[i].store@.subrange(
                                        0,
                                        old(self).jobs@[i].store@.len() as int,
                                    ) == old(self).jobs@[i].store@
                                    &&& entry_ok(final(self).jobs@[i].store@.last())
                                },
                            }
                        })
                    }
                },
            },
    {
        let i = match self.find_job(job) {
            Some(i) => i,
            None => {
                return Err(ApiError::new(ErrorKind::NotFound, String::from_str("job not found")));
            },
        };
        if self.jobs[i].complete {
            return Err(
                ApiError::new(
                    ErrorKind::Conflict,
                    String::from_str("cannot update the store for a job that is already complete"),
                ),
            );
        }
        let j = &mut self.jobs[i];
        let mut k: usize = 0;
        let n = j.store.len();
        let ghost orig = j.store@;
        loop
            invariant
                k <= n,
                n == j.store@.len(),
                j.store@ == orig,
                spec_find_store_from(orig, name@, 0) == spec_find_store_from(orig, name@, k as int),
            ensures
                j.store@ == orig,
                match spec_find_store_from(orig, name@, 0) {
                    None => k == n,
                    Some(m) => m == k as int && k < n,
                },
            decreases n - k,
        {
            if k >= n {
                break ;
            }
            if str_eq(j.store[k].0.as_str(), name) {
                break ;
            }
            k = k + 1;
        }
        let entry = (
            String::from_str(name),
            jobs::StoreValue {
                value: String::from_str(value),
                secret,
                time_update: now,
                source: String::from_str(source),
            },
        );
        if k < n {
            j.store.set(k, entry);
        } else {
            j.store.push(entry);
            proof {
                assert(j.store@.subrange(0, orig.len() as int) =~= orig);
            }
        }
        proof {
            assert forall|m: int| 0 <= m < final(self).jobs@.len() implies (
            #[trigger] final(self).jobs@[m]).wf() by {
                if m != i {
                    assert(final(self).jobs@[m] == old(self).jobs@[m]);
                }
            }
        }
        Ok(())
    }
}


impl Database {
    /// Mark a completed job archived and purge its heavyweight rows:
    /// the events and the store move to cold storage and are dropped
    /// from the live database.
    pub fn job_mark_archived(&mut self, job: &JobId) -> (r: Result<(), ApiError>)
        requires
            old(self).wf(),
        ensures
            final(self).wf(),
            *final(self) == (Database { jobs: final(self).jobs, ..*old(self) }),
            match spec_find_job(old(self).jobs@, job.id@) {
                None => *final(self) == *old(self) && (r matches Err(e) && e.kind
                    == ErrorKind::NotFound),
                Some(i) => {
                    if !old(self).jobs@[i].complete {
                        *final(self) == *old(self) && (r matches Err(e) && e.kind
                            == ErrorKind::Conflict)
                    } else {
                        &&& r is Ok
                        &&& final(self).jobs@.len() == old(self).jobs@.len()
                        &&& forall|k: int|
                            0 <= k < old(self).jobs@.len() && k != i ==> final(self).jobs@[k]
                                == old(self).jobs@[k]
                        &&& final(self).jobs@[i] == (Job {
                            archived: true,
                            events: final(self).jobs@[i].events,
                            store: final(self).jobs@[i].store,
                            ..old(self).jobs@[i]
                        })
                        &&& final(self).jobs@[i].events@.len() == 0
                        &&& final(self).jobs@[i].store@.len() == 0
                    }
                },
            },
    {
        let i = match self.find_job(job) {
            Some(i) => i,
            None => {
                return Err(ApiError::new(ErrorKind::NotFound, String::from_str("job not found")));
            },
        };
        if !self.jobs[i].complete {
            return Err(
                ApiError::new(
                    ErrorKind::Conflict,
                    String::from_str("only complete jobs can be archived"),
                ),
            );
        }
        let j = &mut self.jobs[i];
        j.archived = true;
        j.events = Vec::new();
        j.store = Vec::new();
        proof {
            assert forall|k: int| 0 <= k < final(self).jobs@.len() implies (
            #[trigger] final(self).jobs@[k]).wf() by {
                if k != i {
                    assert(final(self).jobs@[k] == old(self).jobs@[k]);
                }
            }
        }
        Ok(())
    }
}


impl Database {
    /// Join a freshly bootstrapped, pre-bound worker to its job: the
    /// factory reserved the job under a lease, so the normal
    /// assignment pathway is bypassed.
    pub fn worker_claim_prebound(&mut self, worker_id: &str, now: i64) -> (r: Result<
        (),
        ApiError,
    >)
        requires
            old(self).wf(),
        ensures
            final(self).wf(),
            *final(self) == (Database { jobs: final(self).jobs, ..*old(self) }),
            match spec_find_worker(old(self).workers@, worker_id@) {
                None => *final(self) == *old(self) && (r matches Err(e) && e.kind
                    == ErrorKind::NotFound),
                Some(wi) => {
                    match old(self).workers@[wi].job {
                        None => *final(self) == *old(self) && (r matches Err(e) && e.kind
                            == ErrorKind::Conflict),
                        Some(jid) => {
                            match spec_find_job(old(self).jobs@, jid.id@) {
                                None => *final(self) == *old(self) && (r matches Err(e) && e.kind
                                    == ErrorKind::NotFound),
                                Some(ji) => {
                                    let oj = old(self).jobs@[ji];
                                    if oj.complete || oj.waiting || oj.worker is Some {
                                        *final(self) == *old(self) && (r matches Err(e) && e.kind
                                            == ErrorKind::Conflict)
                                    } else {
                                        &&& r is Ok
                                        &&& final(self).jobs@.len() == old(self).jobs@.len()
                                        &&& forall|m: int|
                                            0 <= m < old(self).jobs@.len() && m != ji ==> final(self).jobs@[m] == old(self).jobs@[m]
                                        &&& final(self).jobs@[ji] == (Job {
                                            worker: final(self).jobs@[ji].worker,
                                            times: final(self).jobs@[ji].times,
                                            ..oj
                                        })
                                        &&& final(self).jobs@[ji].worker matches Some(w) && w@
                                            == worker_id@
                                        &&& final(self).jobs@[ji].times@.len() == oj.times@.len()
                                            + 1
                                        &&& final(self).jobs@[ji].times@.subrange(
                                            0,
                                            oj.times@.len() as int,
                                        ) == oj.times@
                                        &&& final(self).jobs@[ji].times@.last().0@ == "assigned"@
                                        &&& final(self).jobs@[ji].times@.last().1 == now
                                    }
                                },
                            }
                        },
                    }
                },
            },
    {
        let wi = match self.find_worker(worker_id) {
            Some(wi) => wi,
            None => {
                return Err(
                    ApiError::new(ErrorKind::NotFound, String::from_str("worker not found")),
                );
            },
        };
        let jid = match &self.workers[wi].job {
            Some(j) => JobId { id: j.id.clone() },
            None => {
                return Err(
                    ApiError::new(
                        ErrorKind::Conflict,
                        String::from_str("worker is not bound to a job"),
                    ),
                );
            },
        };
        let ji = match self.find_job(&jid) {
            Some(ji) => ji,
            None => {
                return Err(ApiError::new(ErrorKind::NotFound, String::from_str("job not found")));
            },
        };
        if self.jobs[ji].complete || self.jobs[ji].waiting || self.jobs[ji].worker.is_some() {
            return Err(
                ApiError::new(
                    ErrorKind::Conflict,
                    String::from_str("job cannot be joined to the worker"),
                ),
            );
        }
        let j = &mut self.jobs[ji];
        j.worker = Some(String::from_str(worker_id));
        j.times.push((String::from_str("assigned"), now));
        proof {
            assert(final(self).jobs@[ji as int].times@.subrange(
                0,
                old(self).jobs@[ji as int].times@.len() as int,
            ) =~= old(self).jobs@[ji as int].times@);
            assert forall|m: int| 0 <= m < final(self).jobs@.len() implies (
            #[trigger] final(self).jobs@[m]).wf() by {
                if m != ji {
                    assert(final(self).jobs@[m] == old(self).jobs@[m]);
                }
            }
        }
        Ok(())
    }
}

} // verus!

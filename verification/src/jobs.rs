//! The job model.  A job is an ordered list of tasks together with its
//! output rules, inputs, tags, dependencies, event log, outputs and
//! per-job store, plus the state booleans from which the user-visible
//! state string is projected.
//!
//! All times are UTC with millisecond precision, held as milliseconds
//! since the epoch.

use vstd::prelude::*;
use crate::ids::{JobId, JobFileId};
use crate::rules::CreateOutputRule;

verus! {

/// Look a name up in an association list; the last binding wins, so a
/// later `put` shadows an earlier one.
pub open spec fn spec_assoc<V>(entries: Seq<(Seq<char>, V)>, name: Seq<char>) -> Option<V>
    decreases entries.len(),
{
    if entries.len() == 0 {
        None
    } else if entries.last().0 == name {
        Some(entries.last().1)
    } else {
        spec_assoc(entries.drop_last(), name)
    }
}

/// The description of one task as handed to the store when a job is
/// created.
#[derive(Debug)]
pub struct CreateTask {
    pub name: String,
    pub script: String,
    pub env_clear: bool,
    pub env: Vec<(String, String)>,
    pub user_id: Option<u32>,
    pub group_id: Option<u32>,
    pub workdir: Option<String>,
}

/// The description of one dependency as handed to the store when a job
/// is created.
#[derive(Debug)]
pub struct CreateDepend {
    pub name: String,
    pub prior_job: JobId,
    pub copy_outputs: bool,
    pub on_failed: bool,
    pub on_completed: bool,
}

/// One shell task within a job, run in sequence order on the worker.
#[derive(Debug)]
pub struct Task {
    pub name: String,
    pub script: String,
    pub env_clear: bool,
    pub env: Vec<(String, String)>,
    pub user_id: Option<u32>,
    pub group_id: Option<u32>,
    pub workdir: Option<String>,
    pub complete: bool,
    pub failed: bool,
}

/// One record in a job's append-only event log.
#[derive(Debug)]
pub struct JobEvent {
    pub task: Option<u32>,
    pub seq: usize,
    pub stream: String,
    pub time: i64,
    pub time_remote: Option<i64>,
    pub payload: String,
}

/// A file produced by a job, addressable by its file identifier; it may
/// additionally be published under `series/version/name`.
#[derive(Debug)]
pub struct JobOutput {
    pub path: String,
    pub file: JobFileId,
    pub size: u64,
    pub published: Option<(String, String, String)>,
}

/// An input a job declared; the file identifier and size are attached
/// once the upload commits.
#[derive(Debug)]
pub struct JobInput {
    pub name: String,
    pub file: Option<(JobFileId, u64)>,
}

/// A dependency of a job on a prior job.
#[derive(Debug)]
pub struct Depend {
    pub name: String,
    pub prior_job: JobId,
    pub copy_outputs: bool,
    pub on_failed: bool,
    pub on_completed: bool,
}

/// One value in a job's key/value scratch store.
#[derive(Debug)]
pub struct StoreValue {
    pub value: String,
    pub secret: bool,
    pub time_update: i64,
    pub source: String,
}

/// A job and everything the store holds for it.
#[derive(Debug)]
pub struct Job {
    pub id: JobId,
    pub owner: String,
    pub name: String,
    pub target: String,
    pub target_id: String,
    pub complete: bool,
    pub failed: bool,
    pub waiting: bool,
    pub cancelled: bool,
    pub archived: bool,
    pub worker: Option<String>,
    pub tasks: Vec<Task>,
    pub events: Vec<JobEvent>,
    pub output_rules: Vec<CreateOutputRule>,
    pub outputs: Vec<JobOutput>,
    pub inputs: Vec<JobInput>,
    pub tags: Vec<(String, String)>,
    pub depends: Vec<Depend>,
    pub times: Vec<(String, i64)>,
    pub store: Vec<(String, StoreValue)>,
}

impl Job {
    /// The state booleans fit together: a complete job is no longer
    /// waiting, a job with a worker is neither waiting nor complete, and
    /// only complete jobs are archived.
    pub open spec fn flags_wf(&self) -> bool {
        &&& self.complete ==> !self.waiting
        &&& self.worker is Some ==> !self.waiting && !self.complete
        &&& self.archived ==> self.complete
    }

    /// Event sequence numbers are dense from zero: the record at index
    /// `i` carries sequence number `i`.
    pub open spec fn events_wf(&self) -> bool {
        forall|i: int| 0 <= i < self.events@.len() ==> (#[trigger] self.events@[i]).seq == i
    }

    pub open spec fn wf(&self) -> bool {
        &&& self.flags_wf()
        &&& self.events_wf()
    }

    /// The projected state string.
    pub open spec fn spec_state(&self) -> Seq<char> {
        crate::spec_job_state(self.failed, self.complete, self.worker is Some, self.waiting)
    }
}

/// The stored task a task description gives rise to: the same fields,
/// not yet complete and not failed.
pub open spec fn spec_task_of_create(c: CreateTask) -> Task {
    Task {
        name: c.name,
        script: c.script,
        env_clear: c.env_clear,
        env: c.env,
        user_id: c.user_id,
        group_id: c.group_id,
        workdir: c.workdir,
        complete: false,
        failed: false,
    }
}

/// The stored dependency a dependency description gives rise to.
pub open spec fn spec_depend_of_create(c: CreateDepend) -> Depend {
    Depend {
        name: c.name,
        prior_job: c.prior_job,
        copy_outputs: c.copy_outputs,
        on_failed: c.on_failed,
        on_completed: c.on_completed,
    }
}

/// The declared input a name gives rise to: no file is attached yet.
pub open spec fn spec_input_of_name(n: String) -> JobInput {
    JobInput { name: n, file: None }
}

/// Turn task descriptions into stored tasks.
pub fn tasks_of_creates(cs: Vec<CreateTask>) -> (r: Vec<Task>)
    ensures
        r@ == cs@.map_values(|c: CreateTask| spec_task_of_create(c)),
{
    let ghost orig = cs@;
    let mut cs = cs;
    let mut r: Vec<Task> = Vec::new();
    while cs.len() > 0
        invariant
            r@ + cs@.map_values(|c: CreateTask| spec_task_of_create(c)) =~= orig.map_values(
                |c: CreateTask| spec_task_of_create(c),
            ),
        decreases cs@.len(),
    {
        let c = cs.remove(0);
        r.push(
            Task {
                name: c.name,
                script: c.script,
                env_clear: c.env_clear,
                env: c.env,
                user_id: c.user_id,
                group_id: c.group_id,
                workdir: c.workdir,
                complete: false,
                failed: false,
            },
        );
        proof {
            assert(r@ + cs@.map_values(|c: CreateTask| spec_task_of_create(c)) =~= orig.map_values(
                |c: CreateTask| spec_task_of_create(c),
            ));
        }
    }
    proof {
        assert(r@ =~= orig.map_values(|c: CreateTask| spec_task_of_create(c)));
    }
    r
}

/// Turn dependency descriptions into stored dependencies.
pub fn depends_of_creates(cs: Vec<CreateDepend>) -> (r: Vec<Depend>)
    ensures
        r@ == cs@.map_values(|c: CreateDepend| spec_depend_of_create(c)),
{
    let ghost orig = cs@;
    let mut cs = cs;
    let mut r: Vec<Depend> = Vec::new();
    while cs.len() > 0
        invariant
            r@ + cs@.map_values(|c: CreateDepend| spec_depend_of_create(c)) =~= orig.map_values(
                |c: CreateDepend| spec_depend_of_create(c),
            ),
        decreases cs@.len(),
    {
        let c = cs.remove(0);
        r.push(
            Depend {
                name: c.name,
                prior_job: c.prior_job,
                copy_outputs: c.copy_outputs,
                on_failed: c.on_failed,
                on_completed: c.on_completed,
            },
        );
        proof {
            assert(r@ + cs@.map_values(|c: CreateDepend| spec_depend_of_create(c)) =~= orig
                .map_values(|c: CreateDepend| spec_depend_of_create(c)));
        }
    }
    proof {
        assert(r@ =~= orig.map_values(|c: CreateDepend| spec_depend_of_create(c)));
    }
    r
}

/// Turn declared input names into input records.
pub fn inputs_of_names(ns: Vec<String>) -> (r: Vec<JobInput>)
    ensures
        r@ == ns@.map_values(|n: String| spec_input_of_name(n)),
{
    let ghost orig = ns@;
    let mut ns = ns;
    let mut r: Vec<JobInput> = Vec::new();
    while ns.len() > 0
        invariant
            r@ + ns@.map_values(|n: String| spec_input_of_name(n)) =~= orig.map_values(
                |n: String| spec_input_of_name(n),
            ),
        decreases ns@.len(),
    {
        let n = ns.remove(0);
        r.push(JobInput { name: n, file: None });
        proof {
            assert(r@ + ns@.map_values(|n: String| spec_input_of_name(n)) =~= orig.map_values(
                |n: String| spec_input_of_name(n),
            ));
        }
    }
    proof {
        assert(r@ =~= orig.map_values(|n: String| spec_input_of_name(n)));
    }
    r
}

/// Two event records carry the same data.
pub open spec fn spec_event_eqv(a: JobEvent, b: JobEvent) -> bool {
    &&& a.seq == b.seq
    &&& a.task == b.task
    &&& a.stream@ == b.stream@
    &&& a.time == b.time
    &&& a.time_remote == b.time_remote
    &&& a.payload@ == b.payload@
}

/// Two output records carry the same data.
pub open spec fn spec_output_eqv(a: JobOutput, b: JobOutput) -> bool {
    &&& a.path@ == b.path@
    &&& a.file.id@ == b.file.id@
    &&& a.size == b.size
    &&& match (a.published, b.published) {
        (Some(p), Some(q)) => p.0@ == q.0@ && p.1@ == q.1@ && p.2@ == q.2@,
        (None, None) => true,
        _ => false,
    }
}

/// Copy one event record.
pub fn clone_event(e: &JobEvent) -> (r: JobEvent)
    ensures
        spec_event_eqv(*e, r),
        spec_event_eqv(r, *e),
{
    JobEvent {
        task: e.task,
        seq: e.seq,
        stream: e.stream.clone(),
        time: e.time,
        time_remote: e.time_remote,
        payload: e.payload.clone(),
    }
}

/// Copy one output record.
pub fn clone_output(o: &JobOutput) -> (r: JobOutput)
    ensures
        spec_output_eqv(*o, r),
        spec_output_eqv(r, *o),
{
    JobOutput {
        path: o.path.clone(),
        file: JobFileId { id: o.file.id.clone() },
        size: o.size,
        published: match &o.published {
            Some(p) => Some((p.0.clone(), p.1.clone(), p.2.clone())),
            None => None,
        },
    }
}

/// Event sequence numbers of a well-formed job form the prefix
/// `0..N-1`: in order, without gaps, without duplicates.
pub proof fn lemma_event_seqs_dense(j: Job)
    requires
        j.wf(),
    ensures
        forall|i: int| 0 <= i < j.events@.len() ==> (#[trigger] j.events@[i]).seq == i,
        forall|i: int, k: int|
            0 <= i < j.events@.len() && 0 <= k < j.events@.len() && i != k ==> j.events@[i].seq
                != j.events@[k].seq,
{
    assert forall|i: int, k: int|
        0 <= i < j.events@.len() && 0 <= k < j.events@.len() && i != k implies j.events@[i].seq
        != j.events@[k].seq by {
        assert(j.events@[i].seq == i);
        assert(j.events@[k].seq == k);
    }
}

} // verus!

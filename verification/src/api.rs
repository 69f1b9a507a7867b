//! The user-facing representation of jobs: path parameter wrappers and
//! the functions that project stored records into the wire shapes.

use vstd::prelude::*;
use crate::error::{ApiError, ErrorKind};
use crate::ids::{JobId, JobFileId};
use crate::jobs;
use crate::rules::spec_render_output_rule;

verus! {

use vstd::string::StringExecFns;

/// Path parameters naming one job.
#[derive(Debug)]
pub struct JobPath {
    pub job: String,
}

/// Path parameters naming one value in a job's store.
#[derive(Debug)]
pub struct JobStorePath {
    pub job: String,
    pub name: String,
}

/// Path parameters naming one output of a job.
#[derive(Debug)]
pub struct JobsOutputsPath {
    pub job: String,
    pub output: String,
}

impl JobPath {
    /// Decode the job identifier from the path.
    pub fn job(&self) -> (r: Result<JobId, ApiError>)
        ensures
            r matches Ok(j) ==> j.wf() && crate::ids::ulid_canon_of(self.job@) == Some(j.id@),
            r matches Err(e) ==> crate::ids::ulid_canon_of(self.job@) is None && e.kind
                == ErrorKind::Internal,
    {
        match JobId::parse(self.job.as_str()) {
            Some(j) => Ok(j),
            None => Err(ApiError::new(ErrorKind::Internal, String::from_str("ID decode error"))),
        }
    }
}

impl JobStorePath {
    /// Decode the job identifier from the path.
    pub fn job(&self) -> (r: Result<JobId, ApiError>)
        ensures
            r matches Ok(j) ==> j.wf() && crate::ids::ulid_canon_of(self.job@) == Some(j.id@),
            r matches Err(e) ==> crate::ids::ulid_canon_of(self.job@) is None && e.kind
                == ErrorKind::Internal,
    {
        match JobId::parse(self.job.as_str()) {
            Some(j) => Ok(j),
            None => Err(ApiError::new(ErrorKind::Internal, String::from_str("ID decode error"))),
        }
    }
}

impl JobsOutputsPath {
    /// Decode the job identifier from the path.
    pub fn job(&self) -> (r: Result<JobId, ApiError>)
        ensures
            r matches Ok(j) ==> j.wf() && crate::ids::ulid_canon_of(self.job@) == Some(j.id@),
            r matches Err(e) ==> crate::ids::ulid_canon_of(self.job@) is None && e.kind
                == ErrorKind::Internal,
    {
        match JobId::parse(self.job.as_str()) {
            Some(j) => Ok(j),
            None => Err(ApiError::new(ErrorKind::Internal, String::from_str("ID decode error"))),
        }
    }

    /// Decode the output file identifier from the path.
    pub fn output(&self) -> (r: Result<JobFileId, ApiError>)
        ensures
            r matches Ok(f) ==> f.wf() && crate::ids::ulid_canon_of(self.output@) == Some(f.id@),
            r matches Err(e) ==> crate::ids::ulid_canon_of(self.output@) is None && e.kind
                == ErrorKind::Internal,
    {
        match JobFileId::parse(self.output.as_str()) {
            Some(f) => Ok(f),
            None => Err(ApiError::new(ErrorKind::Internal, String::from_str("ID decode error"))),
        }
    }
}

/// The wire shape of one task.
#[derive(Debug)]
pub struct Task {
    pub name: String,
    pub script: String,
    pub env_clear: bool,
    pub env: Vec<(String, String)>,
    pub uid: Option<u32>,
    pub gid: Option<u32>,
    pub workdir: Option<String>,
    pub state: String,
}

/// The wire shape of one job event.
#[derive(Debug)]
pub struct JobEvent {
    pub seq: usize,
    pub task: Option<u32>,
    pub stream: String,
    pub time: i64,
    pub time_remote: Option<i64>,
    pub payload: String,
}

/// The wire shape of one job output.
#[derive(Debug)]
pub struct JobOutput {
    pub id: String,
    pub size: u64,
    pub path: String,
}

/// The wire shape of one job.
#[derive(Debug)]
pub struct Job {
    pub id: String,
    pub owner: String,
    pub name: String,
    pub target: String,
    pub target_real: String,
    pub output_rules: Vec<String>,
    pub tasks: Vec<Task>,
    pub state: String,
    pub tags: Vec<(String, String)>,
    pub cancelled: bool,
    pub times: Vec<(String, i64)>,
}

/// The state string of a task: `failed` wins over `completed`, and a
/// task that is neither is still `pending`.
pub open spec fn spec_task_state(complete: bool, failed: bool) -> Seq<char> {
    if failed {
        "failed"@
    } else if complete {
        "completed"@
    } else {
        "pending"@
    }
}

/// Copy a list of string pairs.
pub fn clone_string_pairs(v: &Vec<(String, String)>) -> (r: Vec<(String, String)>)
    ensures
        r@.len() == v@.len(),
        forall|i: int|
            0 <= i < v@.len() ==> (#[trigger] r@[i]).0@ == v@[i].0@ && r@[i].1@ == v@[i].1@,
{
    let mut r: Vec<(String, String)> = Vec::new();
    let mut i: usize = 0;
    while i < v.len()
        invariant
            i <= v.len(),
            r@.len() == i,
            forall|k: int|
                0 <= k < i ==> (#[trigger] r@[k]).0@ == v@[k].0@ && r@[k].1@ == v@[k].1@,
        decreases v.len() - i,
    {
        r.push((v[i].0.clone(), v[i].1.clone()));
        i = i + 1;
    }
    r
}

/// Copy a list of recorded times.
pub fn clone_times(v: &Vec<(String, i64)>) -> (r: Vec<(String, i64)>)
    ensures
        r@.len() == v@.len(),
        forall|i: int|
            0 <= i < v@.len() ==> (#[trigger] r@[i]).0@ == v@[i].0@ && r@[i].1 == v@[i].1,
{
    let mut r: Vec<(String, i64)> = Vec::new();
    let mut i: usize = 0;
    while i < v.len()
        invariant
            i <= v.len(),
            r@.len() == i,
            forall|k: int| 0 <= k < i ==> (#[trigger] r@[k]).0@ == v@[k].0@ && r@[k].1 == v@[k].1,
        decreases v.len() - i,
    {
        r.push((v[i].0.clone(), v[i].1));
        i = i + 1;
    }
    r
}

/// Project a stored event into its wire shape.
pub fn format_event(e: &jobs::JobEvent) -> (r: JobEvent)
    ensures
        r.seq == e.seq,
        r.task == e.task,
        r.stream@ == e.stream@,
        r.time == e.time,
        r.time_remote == e.time_remote,
        r.payload@ == e.payload@,
{
    JobEvent {
        seq: e.seq,
        task: e.task,
        stream: e.stream.clone(),
        time: e.time,
        time_remote: e.time_remote,
        payload: e.payload.clone(),
    }
}

/// Project a stored output into its wire shape.
pub fn format_output(o: &jobs::JobOutput) -> (r: JobOutput)
    ensures
        r.id@ == o.file.id@,
        r.size == o.size,
        r.path@ == o.path@,
{
    JobOutput { id: o.file.render(), size: o.size, path: o.path.clone() }
}

/// Project a stored task into its wire shape.
pub fn format_task(t: &jobs::Task) -> (r: Task)
    ensures
        r.name@ == t.name@,
        r.script@ == t.script@,
        r.env_clear == t.env_clear,
        r.env@.len() == t.env@.len(),
        forall|i: int|
            0 <= i < t.env@.len() ==> (#[trigger] r.env@[i]).0@ == t.env@[i].0@ && r.env@[i].1@
                == t.env@[i].1@,
        r.uid == t.user_id,
        r.gid == t.group_id,
        match (r.workdir, t.workdir) {
            (Some(a), Some(b)) => a@ == b@,
            (None, None) => true,
            _ => false,
        },
        r.state@ == spec_task_state(t.complete, t.failed),
{
    let state = if t.failed {
        String::from_str("failed")
    } else if t.complete {
        String::from_str("completed")
    } else {
        String::from_str("pending")
    };

    Task {
        name: t.name.clone(),
        script: t.script.clone(),
        env_clear: t.env_clear,
        env: clone_string_pairs(&t.env),
        uid: t.user_id,
        gid: t.group_id,
        workdir: match &t.workdir {
            Some(w) => Some(w.clone()),
            None => None,
        },
        state,
    }
}

/// Project a job's state booleans into the user-visible state string.
pub fn format_job_state(j: &jobs::Job) -> (r: String)
    ensures
        r@ == j.spec_state(),
{
    if j.failed {
        String::from_str("failed")
    } else if j.complete {
        String::from_str("completed")
    } else if j.worker.is_some() {
        String::from_str("running")
    } else if j.waiting {
        String::from_str("waiting")
    } else {
        String::from_str("queued")
    }
}

/// Project a stored job into its wire shape.  The output rules are
/// reconstructed in their string form from the structured rules in the
/// store; `target_name` is the name of the resolved target.
pub fn format_job(j: &jobs::Job, target_name: &str) -> (r: Job)
    ensures
        r.id@ == j.id.id@,
        r.owner@ == j.owner@,
        r.name@ == j.name@,
        r.target@ == j.target@,
        r.target_real@ == target_name@,
        r.state@ == j.spec_state(),
        r.cancelled == j.cancelled,
        r.output_rules@.len() == j.output_rules@.len(),
        forall|i: int|
            0 <= i < j.output_rules@.len() ==> (#[trigger] r.output_rules@[i])@
                == spec_render_output_rule(
                j.output_rules@[i].rule@,
                j.output_rules@[i].ignore,
                j.output_rules@[i].require_match,
                j.output_rules@[i].size_change_ok,
            ),
        r.tasks@.len() == j.tasks@.len(),
        forall|i: int|
            0 <= i < j.tasks@.len() ==> ({
                let rt = #[trigger] r.tasks@[i];
                let jt = j.tasks@[i];
                &&& rt.state@ == spec_task_state(jt.complete, jt.failed)
                &&& rt.name@ == jt.name@
                &&& rt.script@ == jt.script@
                &&& rt.env_clear == jt.env_clear
                &&& rt.env@.len() == jt.env@.len()
                &&& (forall|k: int|
                    0 <= k < jt.env@.len() ==> (#[trigger] rt.env@[k]).0@ == jt.env@[k].0@
                        && rt.env@[k].1@ == jt.env@[k].1@)
                &&& rt.uid == jt.user_id
                &&& rt.gid == jt.group_id
                &&& match (rt.workdir, jt.workdir) {
                    (Some(a), Some(b)) => a@ == b@,
                    (None, None) => true,
                    _ => false,
                }
            }),
        r.tags@.len() == j.tags@.len(),
        forall|i: int|
            0 <= i < j.tags@.len() ==> (#[trigger] r.tags@[i]).0@ == j.tags@[i].0@ && r.tags@[i].1@
                == j.tags@[i].1@,
        r.times@.len() == j.times@.len(),
        forall|i: int|
            0 <= i < j.times@.len() ==> (#[trigger] r.times@[i]).0@ == j.times@[i].0@
                && r.times@[i].1 == j.times@[i].1,
{
    let mut output_rules: Vec<String> = Vec::new();
    let mut i: usize = 0;
    while i < j.output_rules.len()
        invariant
            i <= j.output_rules@.len(),
            output_rules@.len() == i,
            forall|k: int|
                0 <= k < i ==> (#[trigger] output_rules@[k])@ == spec_render_output_rule(
                    j.output_rules@[k].rule@,
                    j.output_rules@[k].ignore,
                    j.output_rules@[k].require_match,
                    j.output_rules@[k].size_change_ok,
                ),
        decreases j.output_rules@.len() - i,
    {
        output_rules.push(crate::rules::render_output_rule(&j.output_rules[i]));
        i = i + 1;
    }

    let mut tasks: Vec<Task> = Vec::new();
    let mut i: usize = 0;
    while i < j.tasks.len()
        invariant
            i <= j.tasks@.len(),
            tasks@.len() == i,
            forall|k: int|
                0 <= k < i ==> ({
                    let rt = #[trigger] tasks@[k];
                    let jt = j.tasks@[k];
                    &&& rt.state@ == spec_task_state(jt.complete, jt.failed)
                    &&& rt.name@ == jt.name@
                    &&& rt.script@ == jt.script@
                    &&& rt.env_clear == jt.env_clear
                    &&& rt.env@.len() == jt.env@.len()
                    &&& (forall|w: int|
                        0 <= w < jt.env@.len() ==> (#[trigger] rt.env@[w]).0@ == jt.env@[w].0@
                            && rt.env@[w].1@ == jt.env@[w].1@)
                    &&& rt.uid == jt.user_id
                    &&& rt.gid == jt.group_id
                    &&& match (rt.workdir, jt.workdir) {
                        (Some(a), Some(b)) => a@ == b@,
                        (None, None) => true,
                        _ => false,
                    }
                }),
        decreases j.tasks@.len() - i,
    {
        tasks.push(format_task(&j.tasks[i]));
        i = i + 1;
    }

    Job {
        id: j.id.render(),
        owner: j.owner.clone(),
        name: j.name.clone(),
        target: j.target.clone(),
        target_real: String::from_str(target_name),
        output_rules,
        tasks,
        state: format_job_state(j),
        tags: clone_string_pairs(&j.tags),
        cancelled: j.cancelled,
        times: clone_times(&j.times),
    }
}


/// The wire shape of one submitted task.
#[derive(Debug)]
pub struct TaskSubmit {
    pub name: String,
    pub script: String,
    pub env_clear: bool,
    pub env: Vec<(String, String)>,
    pub uid: Option<u32>,
    pub gid: Option<u32>,
    pub workdir: Option<String>,
}

/// The wire shape of one submitted dependency.
#[derive(Debug)]
pub struct DependSubmit {
    pub prior_job: String,
    pub copy_outputs: bool,
    pub on_failed: bool,
    pub on_completed: bool,
}

/// The wire shape of a job submission.
#[derive(Debug)]
pub struct JobSubmit {
    pub name: String,
    pub target: String,
    pub output_rules: Vec<String>,
    pub tasks: Vec<TaskSubmit>,
    pub inputs: Vec<String>,
    pub tags: Vec<(String, String)>,
    pub depends: Vec<(String, DependSubmit)>,
}

/// A character allowed in a tag name: an ASCII digit or lowercase
/// letter, `.`, `_` or `-`.
pub open spec fn spec_tag_char(c: char) -> bool {
    crate::text::spec_is_digit(c) || crate::text::spec_is_lower(c) || c == '.' || c == '_' || c
        == '-'
}

/// A valid tag name: non-empty, all characters allowed.
pub open spec fn spec_tag_name_ok(s: Seq<char>) -> bool {
    s.len() > 0 && (forall|i: int| 0 <= i < s.len() ==> spec_tag_char(s[i]))
}

/// The byte length of a string.
pub open spec fn spec_byte_len(s: Seq<char>) -> nat {
    vstd::utf8::encode_utf8(s).len()
}

/// The total byte size of tag names and values.
pub open spec fn spec_tags_bytes(tags: Seq<(String, String)>) -> int
    decreases tags.len(),
{
    if tags.len() == 0 {
        0
    } else {
        spec_tags_bytes(tags.drop_last()) + spec_byte_len(tags.last().0@) + spec_byte_len(
            tags.last().1@,
        )
    }
}

/// A prefix of the tag list never carries more bytes than the whole.
proof fn lemma_tags_bytes_mono(tags: Seq<(String, String)>, i: int)
    requires
        0 <= i <= tags.len(),
    ensures
        spec_tags_bytes(tags.subrange(0, i)) <= spec_tags_bytes(tags),
    decreases tags.len() - i,
{
    if i < tags.len() {
        assert(tags.subrange(0, i + 1).drop_last() =~= tags.subrange(0, i));
        lemma_tags_bytes_mono(tags, i + 1);
    } else {
        assert(tags.subrange(0, i) =~= tags);
    }
}

/// The submission is within the documented limits: at most 100 tasks,
/// 25 inputs and 100 tags, tag bytes under 128 KiB, every tag name
/// valid.
pub open spec fn spec_submit_limits_ok(s: JobSubmit) -> bool {
    &&& s.tasks@.len() <= 100
    &&& s.inputs@.len() <= 25
    &&& s.tags@.len() <= 100
    &&& spec_tags_bytes(s.tags@) <= 131072
    &&& forall|i: int| 0 <= i < s.tags@.len() ==> spec_tag_name_ok((#[trigger] s.tags@[i]).0@)
}

/// Every submitted output rule parses.
pub open spec fn spec_rules_ok(rules: Seq<String>) -> bool {
    forall|i: int|
        0 <= i < rules.len() ==> crate::rules::spec_parse_output_rule((#[trigger] rules[i])@)
            is Some
}

/// Every submitted dependency names a decodable prior job.
pub open spec fn spec_depends_ok(depends: Seq<(String, DependSubmit)>) -> bool {
    forall|i: int|
        0 <= i < depends.len() ==> crate::ids::ulid_canon_of((#[trigger] depends[i]).1.prior_job@)
            is Some
}

/// The stored task a submitted task gives rise to.
pub open spec fn spec_task_of_submit(t: TaskSubmit) -> jobs::Task {
    jobs::Task {
        name: t.name,
        script: t.script,
        env_clear: t.env_clear,
        env: t.env,
        user_id: t.uid,
        group_id: t.gid,
        workdir: t.workdir,
        complete: false,
        failed: false,
    }
}

/// Submit a job.  The submission is validated as the specification
/// demands, its target is resolved, the submitting user must hold the
/// target's required privilege if it has one, and the job is then
/// created in one transaction, queued, or waiting if it declares
/// inputs.
#[verifier::loop_isolation(false)]
pub fn job_submit(
    db: &mut crate::store::Database,
    owner: &crate::store::User,
    submit: JobSubmit,
    now: i64,
) -> (r: Result<JobId, ApiError>)
    requires
        old(db).wf(),
    ensures
        final(db).wf(),
        *final(db) == (crate::store::Database { jobs: final(db).jobs, ..*old(db) }),
        !spec_submit_limits_ok(submit) ==> *final(db) == *old(db) && (r matches Err(e) && e.kind
            == ErrorKind::Validation),
        spec_submit_limits_ok(submit) ==> ({
            match crate::store::spec_target_resolve(old(db).targets@, submit.target@) {
                None => *final(db) == *old(db) && (r matches Err(e) && e.kind
                    == ErrorKind::Validation),
                Some(ti) => {
                    let t = old(db).targets@[ti];
                    if t.privilege matches Some(p) && !crate::store::spec_has_privilege(
                        *owner,
                        p@,
                    ) {
                        *final(db) == *old(db) && (r matches Err(e) && e.kind
                            == ErrorKind::Authorization)
                    } else if !spec_depends_ok(submit.depends@) {
                        *final(db) == *old(db) && (r matches Err(e) && e.kind
                            == ErrorKind::Internal)
                    } else if !spec_rules_ok(submit.output_rules@) {
                        *final(db) == *old(db) && (r matches Err(e) && e.kind
                            == ErrorKind::Validation)
                    } else {
                        match r {
                            Err(e) => *final(db) == *old(db) && e.kind == ErrorKind::Internal
                                && old(db).jobs@.len() > 0,
                            Ok(id) => {
                        &&& final(db).jobs@.len() == old(db).jobs@.len() + 1
                        &&& final(db).jobs@.subrange(0, old(db).jobs@.len() as int) == old(
                            db,
                        ).jobs@
                        &&& ({
                            let j = final(db).jobs@.last();
                            &&& j.id.id@ == id.id@
                            &&& j.owner@ == owner.id@
                            &&& j.name@ == submit.name@
                            &&& j.target@ == submit.target@
                            &&& j.target_id@ == t.id@
                            &&& j.complete == false
                            &&& j.failed == false
                            &&& j.cancelled == false
                            &&& j.worker is None
                            &&& j.waiting == (submit.inputs@.len() > 0 || submit.depends@.len()
                                > 0)
                            &&& j.tasks@ == submit.tasks@.map_values(
                                |ts: TaskSubmit| spec_task_of_submit(ts),
                            )
                            &&& j.tags@ == submit.tags@
                            &&& j.events@.len() == 0
                            &&& j.output_rules@.len() == submit.output_rules@.len()
                            &&& (forall|i: int|
                                0 <= i < submit.output_rules@.len()
                                    ==> crate::rules::spec_parse_output_rule(
                                    submit.output_rules@[i]@,
                                ) == Some(
                                    (
                                        (#[trigger] j.output_rules@[i]).rule@,
                                        j.output_rules@[i].ignore,
                                        j.output_rules@[i].require_match,
                                        j.output_rules@[i].size_change_ok,
                                    ),
                                ))
                            &&& j.depends@.len() == submit.depends@.len()
                            &&& (forall|i: int|
                                0 <= i < submit.depends@.len() ==> ((#[trigger] j.depends@[i]).name
                                    == submit.depends@[i].0 && crate::ids::ulid_canon_of(
                                    submit.depends@[i].1.prior_job@,
                                ) == Some(j.depends@[i].prior_job.id@) && j.depends@[i].copy_outputs
                                    == submit.depends@[i].1.copy_outputs && j.depends@[i].on_failed
                                    == submit.depends@[i].1.on_failed && j.depends@[i].on_completed
                                    == submit.depends@[i].1.on_completed))
                            &&& j.inputs@ == submit.inputs@.map_values(
                                |n: String| jobs::spec_input_of_name(n),
                            )
                        })
                            },
                        }
                    }
                },
            }
        }),
{
    if submit.tasks.len() > 100 {
        return Err(ApiError::new(ErrorKind::Validation, String::from_str("too many tasks")));
    }
    if submit.inputs.len() > 25 {
        return Err(ApiError::new(ErrorKind::Validation, String::from_str("too many inputs")));
    }
    if submit.tags.len() > 100 {
        return Err(ApiError::new(ErrorKind::Validation, String::from_str("too many tags")));
    }
    let mut total: u128 = 0;
    let mut i: usize = 0;
    while i < submit.tags.len() && total <= 131072
        invariant
            i <= submit.tags@.len(),
            total == spec_tags_bytes(submit.tags@.subrange(0, i as int)),
            total <= 131072 + 2 * (u64::MAX as u128),
        decreases submit.tags@.len() - i,
    {
        let n = submit.tags[i].0.as_str().as_bytes().len();
        let v = submit.tags[i].1.as_str().as_bytes().len();
        proof {
            let sub = submit.tags@.subrange(0, i + 1 as int);
            assert(sub.drop_last() =~= submit.tags@.subrange(0, i as int));
            assert(sub.last() == submit.tags@[i as int]);
        }
        total = total + n as u128 + v as u128;
        i = i + 1;
    }
    proof {
        assert(submit.tags@.subrange(0, submit.tags@.len() as int) =~= submit.tags@);
        lemma_tags_bytes_mono(submit.tags@, i as int);
    }
    if total > 131072 {
        return Err(
            ApiError::new(
                ErrorKind::Validation,
                String::from_str("total size of all tags is larger than 128KB"),
            ),
        );
    }
    let mut i: usize = 0;
    while i < submit.tags.len()
        invariant
            i <= submit.tags@.len(),
            forall|k: int| 0 <= k < i ==> spec_tag_name_ok((#[trigger] submit.tags@[k]).0@),
        decreases submit.tags@.len() - i,
    {
        let name = crate::text::chars_of(submit.tags[i].0.as_str());
        if name.len() == 0 {
            return Err(
                ApiError::new(
                    ErrorKind::Validation,
                    String::from_str("tag names must not be empty"),
                ),
            );
        }
        let mut k: usize = 0;
        while k < name.len()
            invariant
                k <= name@.len(),
                name@ == submit.tags@[i as int].0@,
                i < submit.tags@.len(),
                forall|m: int| 0 <= m < k ==> spec_tag_char(name@[m]),
            decreases name@.len() - k,
        {
            let c = name[k];
            if !(crate::text::is_digit(c) || crate::text::is_lower(c) || c == '.' || c == '_' || c
                == '-') {
                return Err(
                    ApiError::new(
                        ErrorKind::Validation,
                        String::from_str("tag names must be lowercase letters, digits, periods, hyphens or underscores"),
                    ),
                );
            }
            k = k + 1;
        }
        i = i + 1;
    }
    let (target_id, required) = match db.target_resolve(submit.target.as_str()) {
        Some(t) => (
            t.id.clone(),
            match &t.privilege {
                Some(p) => Some(p.clone()),
                None => None,
            },
        ),
        None => {
            return Err(
                ApiError::new(
                    ErrorKind::Validation,
                    String::from_str("could not resolve target name"),
                ),
            );
        },
    };
    if let Some(p) = &required {
        if !crate::store::user_has_privilege(owner, p.as_str()) {
            return Err(
                ApiError::new(
                    ErrorKind::Authorization,
                    String::from_str("you are not allowed to use that target"),
                ),
            );
        }
    }
    let mut depends: Vec<jobs::CreateDepend> = Vec::new();
    let mut rest = submit.depends;
    let ghost dorig = rest@;
    while rest.len() > 0
        invariant
            depends@.len() + rest@.len() == dorig.len(),
            rest@ =~= dorig.subrange(depends@.len() as int, dorig.len() as int),
            forall|k: int|
                0 <= k < depends@.len() ==> ((#[trigger] depends@[k]).name == dorig[k].0
                    && crate::ids::ulid_canon_of(dorig[k].1.prior_job@) == Some(
                    depends@[k].prior_job.id@,
                ) && depends@[k].copy_outputs == dorig[k].1.copy_outputs && depends@[k].on_failed
                    == dorig[k].1.on_failed && depends@[k].on_completed
                    == dorig[k].1.on_completed),
        decreases rest@.len(),
    {
        let ghost pre = rest@;
        let (name, ds) = rest.remove(0);
        proof {
            assert(pre[0] == dorig[depends@.len() as int]);
            assert(pre.skip(1) =~= rest@);
            assert(rest@ =~= dorig.subrange(depends@.len() + 1 as int, dorig.len() as int));
        }
        let prior = match JobId::parse(ds.prior_job.as_str()) {
            Some(p) => p,
            None => {
                return Err(ApiError::new(ErrorKind::Internal, String::from_str("ID decode error")));
            },
        };
        depends.push(
            jobs::CreateDepend {
                name,
                prior_job: prior,
                copy_outputs: ds.copy_outputs,
                on_failed: ds.on_failed,
                on_completed: ds.on_completed,
            },
        );
    }
    let mut rules: Vec<crate::rules::CreateOutputRule> = Vec::new();
    let mut i: usize = 0;
    while i < submit.output_rules.len()
        invariant
            i <= submit.output_rules@.len(),
            rules@.len() == i,
            forall|k: int|
                0 <= k < i ==> crate::rules::spec_parse_output_rule(submit.output_rules@[k]@)
                    == Some(
                    (
                        (#[trigger] rules@[k]).rule@,
                        rules@[k].ignore,
                        rules@[k].require_match,
                        rules@[k].size_change_ok,
                    ),
                ),
        decreases submit.output_rules@.len() - i,
    {
        match crate::rules::parse_output_rule(submit.output_rules[i].as_str()) {
            Ok(cor) => {
                rules.push(cor);
            },
            Err(e) => {
                proof {
                    assert(crate::rules::spec_parse_output_rule(submit.output_rules@[i as int]@)
                        is None);
                    assert(!spec_rules_ok(submit.output_rules@));
                    assert forall|k: int|
                        0 <= k < dorig.len() implies crate::ids::ulid_canon_of(
                        (#[trigger] dorig[k]).1.prior_job@,
                    ) is Some by {
                        assert(depends@[k].name == dorig[k].0);
                    }
                    assert(spec_depends_ok(dorig));
                }
                return Err(e);
            },
        }
        i = i + 1;
    }
    let mut tasks: Vec<jobs::CreateTask> = Vec::new();
    let mut rest = submit.tasks;
    let ghost torig = rest@;
    while rest.len() > 0
        invariant
            tasks@.map_values(|c: jobs::CreateTask| jobs::spec_task_of_create(c)) + rest@.map_values(
                |ts: TaskSubmit| spec_task_of_submit(ts),
            ) =~= torig.map_values(|ts: TaskSubmit| spec_task_of_submit(ts)),
        decreases rest@.len(),
    {
        let ghost pre = rest@;
        let ts = rest.remove(0);
        proof {
            assert(pre[0] == ts);
            assert(pre.skip(1) =~= rest@);
        }
        tasks.push(
            jobs::CreateTask {
                name: ts.name,
                script: ts.script,
                env_clear: ts.env_clear,
                env: ts.env,
                user_id: ts.uid,
                group_id: ts.gid,
                workdir: ts.workdir,
            },
        );
        proof {
            assert(tasks@.map_values(|c: jobs::CreateTask| jobs::spec_task_of_create(c))
                + rest@.map_values(|ts2: TaskSubmit| spec_task_of_submit(ts2)) =~= torig.map_values(
                |ts2: TaskSubmit| spec_task_of_submit(ts2),
            ));
        }
    }
    proof {
        assert(tasks@.map_values(|c: jobs::CreateTask| jobs::spec_task_of_create(c)) =~= torig.map_values(
            |ts2: TaskSubmit| spec_task_of_submit(ts2),
        ));
        assert(spec_submit_limits_ok(submit));
        assert forall|k: int|
            0 <= k < dorig.len() implies crate::ids::ulid_canon_of(
            (#[trigger] dorig[k]).1.prior_job@,
        ) is Some by {
            assert(depends@[k].name == dorig[k].0);
        }
        assert(spec_depends_ok(dorig));
        assert forall|k: int|
            0 <= k < submit.output_rules@.len() implies crate::rules::spec_parse_output_rule(
            (#[trigger] submit.output_rules@[k])@,
        ) is Some by {
            assert(crate::rules::spec_parse_output_rule(submit.output_rules@[k]@) == Some(
                (
                    (rules@[k]).rule@,
                    rules@[k].ignore,
                    rules@[k].require_match,
                    rules@[k].size_change_ok,
                ),
            ));
        }
        assert(spec_rules_ok(submit.output_rules@));
    }
    db.job_create(
        owner.id.as_str(),
        submit.name.as_str(),
        submit.target.as_str(),
        target_id.as_str(),
        tasks,
        rules,
        submit.inputs,
        submit.tags,
        depends,
        now,
    )
}


/// Whether a string contains a path separator.
pub open spec fn spec_has_slash(s: Seq<char>) -> bool {
    exists|i: int| 0 <= i < s.len() && s[i] == '/'
}

/// Whether a name contains a path separator.
pub fn has_slash(name: &str) -> (r: bool)
    ensures
        r == spec_has_slash(name@),
{
    let cs = crate::text::chars_of(name);
    let mut i: usize = 0;
    while i < cs.len()
        invariant
            i <= cs@.len(),
            cs@ == name@,
            forall|k: int| 0 <= k < i ==> name@[k] != '/',
        decreases cs@.len() - i,
    {
        if cs[i] == '/' {
            return true;
        }
        i = i + 1;
    }
    false
}

/// The canonical forms of a list of identifier strings, where every
/// string decodes.
pub open spec fn spec_canon_ids(ids: Seq<String>) -> Seq<Seq<char>> {
    Seq::new(ids.len(), |k: int| crate::ids::ulid_canon_of(ids[k]@)->0)
}

/// Decode a list of identifier strings into their canonical forms.
pub fn decode_ids(ids: &Vec<String>) -> (r: Option<Vec<String>>)
    ensures
        match r {
            Some(canon) => canon@.len() == ids@.len() && forall|k: int|
                0 <= k < ids@.len() ==> crate::ids::ulid_canon_of((#[trigger] ids@[k])@) == Some(
                    canon@[k]@,
                ),
            None => exists|k: int|
                0 <= k < ids@.len() && crate::ids::ulid_canon_of((#[trigger] ids@[k])@) is None,
        },
{
    let mut canon: Vec<String> = Vec::new();
    let mut i: usize = 0;
    while i < ids.len()
        invariant
            i <= ids@.len(),
            canon@.len() == i,
            forall|k: int|
                0 <= k < i ==> crate::ids::ulid_canon_of((#[trigger] ids@[k])@) == Some(canon@[k]@),
        decreases ids@.len() - i,
    {
        match crate::ids::ulid_parse(ids[i].as_str()) {
            Some(c) => {
                canon.push(c);
            },
            None => {
                return None;
            },
        }
        i = i + 1;
    }
    Some(canon)
}

/// Accept one uploaded chunk for a job that is still collecting
/// inputs.
#[verifier::loop_isolation(false)]
pub fn job_upload_chunk(
    db: &crate::store::Database,
    files: &mut crate::staging::Staging,
    job: &JobId,
    payload: Vec<u8>,
) -> (r: Result<String, ApiError>)
    requires
        old(files).wf(),
    ensures
        final(files).wf(),
        match crate::store::spec_find_job(db.jobs@, job.id@) {
            None => *final(files) == *old(files) && (r matches Err(e) && e.kind
                == ErrorKind::NotFound),
            Some(i) => {
                if !db.jobs@[i].waiting {
                    *final(files) == *old(files) && (r matches Err(e) && e.kind
                        == ErrorKind::Conflict)
                } else {
                    match r {
                        Err(e) => *final(files) == *old(files) && e.kind == ErrorKind::Internal
                            && old(files).chunks@.len() > 0,
                        Ok(cid) => {
                            &&& *final(files) == (crate::staging::Staging {
                                chunks: final(files).chunks,
                                ..*old(files)
                            })
                            &&& final(files).chunks@.len() == old(files).chunks@.len() + 1
                            &&& final(files).chunks@.subrange(
                                0,
                                old(files).chunks@.len() as int,
                            ) == old(files).chunks@
                            &&& final(files).chunks@.last().job.id@ == job.id@
                            &&& final(files).chunks@.last().data == payload
                            &&& final(files).chunks@.last().id@ == cid@
                            &&& crate::staging::spec_find_chunk_from(
                                old(files).chunks@,
                                job.id@,
                                cid@,
                                0,
                            ) is None
                        },
                    }
                }
            },
        },
{
    let waiting = match db.job_by_id(job) {
        Some(j) => j.waiting,
        None => {
            return Err(ApiError::new(ErrorKind::NotFound, String::from_str("job not found")));
        },
    };
    if !waiting {
        return Err(
            ApiError::new(
                ErrorKind::Conflict,
                String::from_str("cannot upload chunks for job that is not waiting"),
            ),
        );
    }
    files.write_chunk(job, payload)
}

/// What the asynchronous input endpoint reports: whether the commit
/// has finished, and its error message if it finished badly.
#[derive(Debug)]
pub struct JobAddInputResult {
    pub complete: bool,
    pub error: Option<String>,
}

/// Attach an uploaded input to a job, asynchronously: the request is
/// validated and remembered under its commit identifier, and the
/// caller polls by repeating the identical request.  Size is capped by
/// the per-input quota.
#[verifier::loop_isolation(false)]
pub fn job_add_input(
    db: &crate::store::Database,
    files: &mut crate::staging::Staging,
    job: &JobId,
    name: &str,
    size: u64,
    chunks: Vec<String>,
    commit_id: &str,
    max_bytes: u64,
) -> (r: Result<JobAddInputResult, ApiError>)
    requires
        old(files).wf(),
    ensures
        final(files).wf(),
        *final(files) == (crate::staging::Staging { commits: final(files).commits, ..*old(files) }),
        spec_has_slash(name@) ==> *final(files) == *old(files) && (r matches Err(e) && e.kind
            == ErrorKind::Validation),
        !spec_has_slash(name@) && size > max_bytes ==> *final(files) == *old(files) && (r matches
            Err(e) && e.kind == ErrorKind::Validation),
        !spec_has_slash(name@) && size <= max_bytes && ((exists|k: int|
            0 <= k < chunks@.len() && crate::ids::ulid_canon_of((#[trigger] chunks@[k])@) is None)
            || crate::ids::ulid_canon_of(commit_id@) is None) ==> *final(files) == *old(files) && (
        r matches Err(e) && e.kind == ErrorKind::Internal),
        !spec_has_slash(name@) && size <= max_bytes && (forall|k: int|
            0 <= k < chunks@.len() ==> crate::ids::ulid_canon_of((#[trigger] chunks@[k])@) is Some)
            ==> (crate::ids::ulid_canon_of(commit_id@) matches Some(cid) ==> ({
            match crate::store::spec_find_job(db.jobs@, job.id@) {
                None => *final(files) == *old(files) && (r matches Err(e) && e.kind
                    == ErrorKind::NotFound),
                Some(ji) => {
                    if !db.jobs@[ji].waiting && crate::staging::spec_find_commit_from(
                        old(files).commits@,
                        job.id@,
                        cid,
                        0,
                    ) is None {
                        *final(files) == *old(files) && (r matches Err(e) && e.kind
                            == ErrorKind::Conflict)
                    } else {
                        match crate::staging::spec_find_commit_from(
                            old(files).commits@,
                            job.id@,
                            cid,
                            0,
                        ) {
                            Some(ci) => {
                                let c = old(files).commits@[ci];
                                let same = (c.kind matches crate::staging::FileKind::Input {
                                    name: x,
                                } && x@ == name@) && c.expected_size == size
                                    && crate::staging::spec_id_views(c.chunks@) == spec_canon_ids(
                                    chunks@,
                                );
                                if same {
                                    &&& *final(files) == *old(files)
                                    &&& r matches Ok(res) && res.complete == !(c.state is InFlight)
                                        && (match (res.error, c.state) {
                                        (None, crate::staging::CommitState::InFlight) => true,
                                        (None, crate::staging::CommitState::Done(e)) => e is None,
                                        (Some(m), crate::staging::CommitState::Done(e)) => (e
                                        matches Some(em) && em@ == m@),
                                        _ => false,
                                    })
                                } else {
                                    *final(files) == *old(files) && (r matches Err(e) && e.kind
                                        == ErrorKind::Validation)
                                }
                            },
                            None => {
                                &&& r matches Ok(res) && res.complete == false && res.error is None
                                &&& final(files).commits@.len() == old(files).commits@.len() + 1
                                &&& final(files).commits@.last().job.id@ == job.id@
                                &&& final(files).commits@.last().commit_id@ == cid
                                &&& final(files).commits@.last().state is InFlight
                            },
                        }
                    }
                },
            }
        })),
{
    if has_slash(name) {
        return Err(ApiError::new(ErrorKind::Validation, String::from_str("name must not be a path")));
    }
    if size > max_bytes {
        return Err(
            ApiError::new(
                ErrorKind::Validation,
                String::from_str("input file size bigger than allowed maximum"),
            ),
        );
    }
    let canon_chunks = match decode_ids(&chunks) {
        Some(c) => c,
        None => {
            return Err(ApiError::new(ErrorKind::Internal, String::from_str("ID decode error")));
        },
    };
    let cid = match crate::ids::ulid_parse(commit_id) {
        Some(c) => c,
        None => {
            return Err(ApiError::new(ErrorKind::Internal, String::from_str("ID decode error")));
        },
    };
    proof {
        assert(crate::staging::spec_id_views(canon_chunks@) =~= spec_canon_ids(chunks@));
    }
    let waiting = match db.job_by_id(job) {
        Some(j) => j.waiting,
        None => {
            return Err(ApiError::new(ErrorKind::NotFound, String::from_str("job not found")));
        },
    };
    if !waiting && !files.commit_file_exists(job, cid.as_str()) {
        return Err(
            ApiError::new(
                ErrorKind::Conflict,
                String::from_str("cannot add inputs to a job that is not waiting"),
            ),
        );
    }
    match files.commit_file(
        db,
        job,
        cid.as_str(),
        crate::staging::FileKind::Input { name: String::from_str(name) },
        size,
        canon_chunks,
    ) {
        Ok(crate::staging::CommitProgress::Pending) => Ok(
            JobAddInputResult { complete: false, error: None },
        ),
        Ok(crate::staging::CommitProgress::Done(e)) => Ok(
            JobAddInputResult { complete: true, error: e },
        ),
        Err(e) => Err(e),
    }
}

/// Attach an uploaded input to a job synchronously.  The legacy path:
/// the input is capped at exactly one gibibyte; a size of one gibibyte
/// is accepted and one byte more is rejected.
#[verifier::loop_isolation(false)]
pub fn job_add_input_sync(
    db: &mut crate::store::Database,
    files: &mut crate::staging::Staging,
    job: &JobId,
    name: &str,
    size: i64,
    chunks: Vec<String>,
) -> (r: Result<(), ApiError>)
    requires
        old(files).wf(),
        old(db).wf(),
    ensures
        final(files).wf(),
        final(db).wf(),
        *final(files) == (crate::staging::Staging { files: final(files).files, ..*old(files) }),
        *final(db) == (crate::store::Database { jobs: final(db).jobs, ..*old(db) }),
        match crate::store::spec_find_job(old(db).jobs@, job.id@) {
            None => *final(db) == *old(db) && *final(files) == *old(files) && (r matches Err(e)
                && e.kind == ErrorKind::NotFound),
            Some(ji) => {
                if !old(db).jobs@[ji].waiting {
                    *final(db) == *old(db) && *final(files) == *old(files) && (r matches Err(e)
                        && e.kind == ErrorKind::Conflict)
                } else if size < 0 || size > 1073741824 {
                    *final(db) == *old(db) && *final(files) == *old(files) && (r matches Err(e)
                        && e.kind == ErrorKind::Validation)
                } else if spec_has_slash(name@) {
                    *final(db) == *old(db) && *final(files) == *old(files) && (r matches Err(e)
                        && e.kind == ErrorKind::Validation)
                } else if exists|k: int|
                    0 <= k < chunks@.len() && crate::ids::ulid_canon_of((#[trigger] chunks@[k])@)
                        is None {
                    *final(db) == *old(db) && *final(files) == *old(files) && (r matches Err(e)
                        && e.kind == ErrorKind::Internal)
                } else {
                    match crate::staging::spec_assemble(
                        old(files).chunks@,
                        job.id@,
                        spec_canon_ids(chunks@),
                    ) {
                        None => *final(db) == *old(db) && *final(files) == *old(files) && (r
                        matches Err(e) && e.kind == ErrorKind::Validation),
                        Some(bytes) => {
                            if bytes.len() != size {
                                *final(db) == *old(db) && *final(files) == *old(files) && (r
                                matches Err(e) && e.kind == ErrorKind::Validation)
                            } else {
                                &&& r is Ok
                                &&& final(files).files@.len() == old(files).files@.len() + 1
                                &&& final(files).files@.last().job.id@ == job.id@
                                &&& final(files).files@.last().data@ == bytes
                                &&& final(db).jobs@.len() == old(db).jobs@.len()
                                &&& final(db).jobs@[ji] == (crate::jobs::Job {
                                    inputs: final(db).jobs@[ji].inputs,
                                    waiting: final(db).jobs@[ji].waiting,
                                    ..old(db).jobs@[ji]
                                })
                                &&& final(db).jobs@[ji].waiting == !(
                                crate::store::spec_all_inputs_attached(final(db).jobs@[ji].inputs@)
                                    && crate::store::spec_deps_ready(
                                    old(db).jobs@,
                                    old(db).jobs@[ji],
                                ))
                                &&& ({
                                    let fin = final(db).jobs@[ji];
                                    exists|m: int|
                                        0 <= m < fin.inputs@.len() && (
                                        #[trigger] fin.inputs@[m]).name@ == name@ && (
                                        fin.inputs@[m].file matches Some(f) && f.0.id@ == final(files).files@.last().id.id@ && f.1 == size)
                                })
                            }
                        },
                    }
                }
            },
        },
{
    let waiting = match db.job_by_id(job) {
        Some(j) => j.waiting,
        None => {
            return Err(ApiError::new(ErrorKind::NotFound, String::from_str("job not found")));
        },
    };
    if !waiting {
        return Err(
            ApiError::new(
                ErrorKind::Conflict,
                String::from_str("cannot add inputs to a job that is not waiting"),
            ),
        );
    }
    if size < 0 || size > 1073741824 {
        return Err(
            ApiError::new(
                ErrorKind::Validation,
                String::from_str("size must be between 0 and 1073741824"),
            ),
        );
    }
    if has_slash(name) {
        return Err(ApiError::new(ErrorKind::Validation, String::from_str("name must not be a path")));
    }
    let canon_chunks = match decode_ids(&chunks) {
        Some(c) => c,
        None => {
            return Err(ApiError::new(ErrorKind::Internal, String::from_str("ID decode error")));
        },
    };
    proof {
        assert(crate::staging::spec_id_views(canon_chunks@) =~= spec_canon_ids(chunks@));
    }
    let fid = match files.commit_file_sync(job, &canon_chunks, size as u64) {
        Ok(fid) => fid,
        Err(e) => {
            return Err(e);
        },
    };
    match db.job_input_add(job, name, &fid, size as u64) {
        Ok(()) => {
            proof {
                if let Some(ji) = crate::store::spec_find_job(old(db).jobs@, job.id@) {
                    match crate::store::spec_find_input_from(old(db).jobs@[ji].inputs@, name@, 0) {
                        Some(k) => {
                            crate::store::lemma_find_input_some(
                                old(db).jobs@[ji].inputs@,
                                name@,
                                0,
                            );
                            assert(db.jobs@[ji].inputs@[k].name@ == name@);
                        },
                        None => {
                            let m = db.jobs@[ji].inputs@.len() - 1;
                            assert(db.jobs@[ji].inputs@[m] == db.jobs@[ji].inputs@.last());
                            assert(db.jobs@[ji].inputs@[m].name@ == name@);
                        },
                    }
                }
            }
            Ok(())
        },
        Err(e) => Err(e),
    }
}

/// One value of a job's store as shown to a user: the value itself is
/// withheld when the entry is secret.
#[derive(Debug)]
pub struct JobStoreValueInfo {
    pub value: Option<String>,
    pub secret: bool,
    pub time_update: i64,
    pub source: String,
}

/// Project a job's store for a user: secret values never leave the
/// system.
pub fn format_store(store: &Vec<(String, jobs::StoreValue)>) -> (r: Vec<(String, JobStoreValueInfo)>)
    ensures
        r@.len() == store@.len(),
        forall|i: int|
            0 <= i < store@.len() ==> ({
                let (k, v) = #[trigger] store@[i];
                &&& r@[i].0@ == k@
                &&& r@[i].1.secret == v.secret
                &&& r@[i].1.time_update == v.time_update
                &&& r@[i].1.source@ == v.source@
                &&& (v.secret ==> r@[i].1.value is None)
                &&& (!v.secret ==> (r@[i].1.value matches Some(val) && val@ == v.value@))
            }),
{
    let mut r: Vec<(String, JobStoreValueInfo)> = Vec::new();
    let mut i: usize = 0;
    while i < store.len()
        invariant
            i <= store@.len(),
            r@.len() == i,
            forall|k: int|
                0 <= k < i ==> ({
                    let (key, v) = #[trigger] store@[k];
                    &&& r@[k].0@ == key@
                    &&& r@[k].1.secret == v.secret
                    &&& r@[k].1.time_update == v.time_update
                    &&& r@[k].1.source@ == v.source@
                    &&& (v.secret ==> r@[k].1.value is None)
                    &&& (!v.secret ==> (r@[k].1.value matches Some(val) && val@ == v.value@))
                }),
        decreases store@.len() - i,
    {
        let (k, v) = &store[i];
        let info = JobStoreValueInfo {
            value: if v.secret {
                None
            } else {
                Some(v.value.clone())
            },
            secret: v.secret,
            time_update: v.time_update,
            source: v.source.clone(),
        };
        r.push((k.clone(), info));
        i = i + 1;
    }
    r
}

} // verus!

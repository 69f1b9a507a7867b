//! Cold storage.  A completed job's whole read-model is captured into
//! a versioned archive document, uploaded to the blob store, cached
//! locally, and the job's heavyweight rows are purged; reads then serve
//! archived jobs from the archive, transparently and unchanged.

use vstd::prelude::*;
use crate::error::{ApiError, ErrorKind};
use crate::ids::JobId;
use crate::jobs::{self, Job};
use crate::rules::CreateOutputRule;
use crate::store::{Database, spec_find_job};
use crate::text::str_eq;

verus! {

use vstd::string::StringExecFns;

/// The archived read-model of one job: everything a reader may ask
/// for, frozen at archive time.
#[derive(Debug)]
pub struct ArchivedJob {
    pub version: u64,
    pub id: String,
    pub owner: String,
    pub name: String,
    pub target: String,
    pub target_id: String,
    pub failed: bool,
    pub cancelled: bool,
    pub tasks: Vec<jobs::Task>,
    pub output_rules: Vec<CreateOutputRule>,
    pub outputs: Vec<jobs::JobOutput>,
    pub tags: Vec<(String, String)>,
    pub times: Vec<(String, i64)>,
    pub events: Vec<jobs::JobEvent>,
    pub store: Vec<(String, jobs::StoreValue)>,
}

/// The document layout this crate writes.
pub const ARCHIVE_VERSION: u64 = 1;

/// Two task records carry the same data.
pub open spec fn spec_task_eqv(a: jobs::Task, b: jobs::Task) -> bool {
    &&& a.name@ == b.name@
    &&& a.script@ == b.script@
    &&& a.env_clear == b.env_clear
    &&& a.env@.len() == b.env@.len()
    &&& (forall|i: int|
        0 <= i < a.env@.len() ==> (#[trigger] a.env@[i]).0@ == b.env@[i].0@ && a.env@[i].1@
            == b.env@[i].1@)
    &&& a.user_id == b.user_id
    &&& a.group_id == b.group_id
    &&& match (a.workdir, b.workdir) {
        (Some(x), Some(y)) => x@ == y@,
        (None, None) => true,
        _ => false,
    }
    &&& a.complete == b.complete
    &&& a.failed == b.failed
}

/// Two rule records carry the same data.
pub open spec fn spec_rule_eqv(a: CreateOutputRule, b: CreateOutputRule) -> bool {
    &&& a.rule@ == b.rule@
    &&& a.ignore == b.ignore
    &&& a.require_match == b.require_match
    &&& a.size_change_ok == b.size_change_ok
}

/// Two store entries carry the same data.
pub open spec fn spec_store_eqv(a: (String, jobs::StoreValue), b: (String, jobs::StoreValue)) -> bool {
    &&& a.0@ == b.0@
    &&& a.1.value@ == b.1.value@
    &&& a.1.secret == b.1.secret
    &&& a.1.time_update == b.1.time_update
    &&& a.1.source@ == b.1.source@
}

/// An archive holds exactly the read-model of a job: the header
/// fields, and every task, output rule, output, tag, time, event and
/// store value, in order.
pub open spec fn spec_archive_matches_job(a: ArchivedJob, j: Job) -> bool {
    &&& a.version == ARCHIVE_VERSION
    &&& a.id@ == j.id.id@
    &&& a.owner@ == j.owner@
    &&& a.name@ == j.name@
    &&& a.target@ == j.target@
    &&& a.target_id@ == j.target_id@
    &&& a.failed == j.failed
    &&& a.cancelled == j.cancelled
    &&& a.tasks@.len() == j.tasks@.len()
    &&& (forall|i: int|
        0 <= i < j.tasks@.len() ==> spec_task_eqv(#[trigger] a.tasks@[i], j.tasks@[i]))
    &&& a.output_rules@.len() == j.output_rules@.len()
    &&& (forall|i: int|
        0 <= i < j.output_rules@.len() ==> spec_rule_eqv(
            #[trigger] a.output_rules@[i],
            j.output_rules@[i],
        ))
    &&& a.outputs@.len() == j.outputs@.len()
    &&& (forall|i: int|
        0 <= i < j.outputs@.len() ==> jobs::spec_output_eqv(#[trigger] a.outputs@[i], j.outputs@[i]))
    &&& a.tags@.len() == j.tags@.len()
    &&& (forall|i: int|
        0 <= i < j.tags@.len() ==> (#[trigger] a.tags@[i]).0@ == j.tags@[i].0@ && a.tags@[i].1@
            == j.tags@[i].1@)
    &&& a.times@.len() == j.times@.len()
    &&& (forall|i: int|
        0 <= i < j.times@.len() ==> (#[trigger] a.times@[i]).0@ == j.times@[i].0@ && a.times@[i].1
            == j.times@[i].1)
    &&& a.events@.len() == j.events@.len()
    &&& (forall|i: int|
        0 <= i < j.events@.len() ==> jobs::spec_event_eqv(#[trigger] a.events@[i], j.events@[i]))
    &&& a.store@.len() == j.store@.len()
    &&& (forall|i: int|
        0 <= i < j.store@.len() ==> spec_store_eqv(#[trigger] a.store@[i], j.store@[i]))
}

impl ArchivedJob {
    /// A reader accepts only layouts it knows; anything else is
    /// rejected rather than served wrong.
    pub fn is_valid(&self) -> (r: bool)
        ensures
            r == (self.version == ARCHIVE_VERSION),
    {
        self.version == 1
    }
}

/// Copy one task record.
fn clone_task(t: &jobs::Task) -> (r: jobs::Task)
    ensures
        spec_task_eqv(r, *t),
{
    jobs::Task {
        name: t.name.clone(),
        script: t.script.clone(),
        env_clear: t.env_clear,
        env: crate::api::clone_string_pairs(&t.env),
        user_id: t.user_id,
        group_id: t.group_id,
        workdir: match &t.workdir {
            Some(w) => Some(w.clone()),
            None => None,
        },
        complete: t.complete,
        failed: t.failed,
    }
}

/// Copy the task records of a job.
fn clone_tasks(ts: &Vec<jobs::Task>) -> (r: Vec<jobs::Task>)
    ensures
        r@.len() == ts@.len(),
        forall|i: int| 0 <= i < ts@.len() ==> spec_task_eqv(#[trigger] r@[i], ts@[i]),
{
    let mut r: Vec<jobs::Task> = Vec::new();
    let mut i: usize = 0;
    while i < ts.len()
        invariant
            i <= ts@.len(),
            r@.len() == i,
            forall|k: int| 0 <= k < i ==> spec_task_eqv(#[trigger] r@[k], ts@[k]),
        decreases ts@.len() - i,
    {
        r.push(clone_task(&ts[i]));
        i = i + 1;
    }
    r
}

/// Copy the output rule records of a job.
fn clone_rules(rs: &Vec<CreateOutputRule>) -> (r: Vec<CreateOutputRule>)
    ensures
        r@.len() == rs@.len(),
        forall|i: int| 0 <= i < rs@.len() ==> spec_rule_eqv(#[trigger] r@[i], rs@[i]),
{
    let mut r: Vec<CreateOutputRule> = Vec::new();
    let mut i: usize = 0;
    while i < rs.len()
        invariant
            i <= rs@.len(),
            r@.len() == i,
            forall|k: int| 0 <= k < i ==> spec_rule_eqv(#[trigger] r@[k], rs@[k]),
        decreases rs@.len() - i,
    {
        let c = &rs[i];
        r.push(
            CreateOutputRule {
                rule: c.rule.clone(),
                ignore: c.ignore,
                require_match: c.require_match,
                size_change_ok: c.size_change_ok,
            },
        );
        i = i + 1;
    }
    r
}

/// Copy the output records of a job.
fn clone_outputs(os: &Vec<jobs::JobOutput>) -> (r: Vec<jobs::JobOutput>)
    ensures
        r@.len() == os@.len(),
        forall|i: int| 0 <= i < os@.len() ==> jobs::spec_output_eqv(#[trigger] r@[i], os@[i]),
{
    let mut r: Vec<jobs::JobOutput> = Vec::new();
    let mut i: usize = 0;
    while i < os.len()
        invariant
            i <= os@.len(),
            r@.len() == i,
            forall|k: int| 0 <= k < i ==> jobs::spec_output_eqv(#[trigger] r@[k], os@[k]),
        decreases os@.len() - i,
    {
        r.push(jobs::clone_output(&os[i]));
        i = i + 1;
    }
    r
}

/// Copy the event records of a job.
fn clone_events(es: &Vec<jobs::JobEvent>) -> (r: Vec<jobs::JobEvent>)
    ensures
        r@.len() == es@.len(),
        forall|i: int| 0 <= i < es@.len() ==> jobs::spec_event_eqv(#[trigger] r@[i], es@[i]),
{
    let mut r: Vec<jobs::JobEvent> = Vec::new();
    let mut i: usize = 0;
    while i < es.len()
        invariant
            i <= es@.len(),
            r@.len() == i,
            forall|k: int| 0 <= k < i ==> jobs::spec_event_eqv(#[trigger] r@[k], es@[k]),
        decreases es@.len() - i,
    {
        r.push(jobs::clone_event(&es[i]));
        i = i + 1;
    }
    r
}

/// Copy the store entries of a job.
fn clone_store(st: &Vec<(String, jobs::StoreValue)>) -> (r: Vec<(String, jobs::StoreValue)>)
    ensures
        r@.len() == st@.len(),
        forall|i: int| 0 <= i < st@.len() ==> spec_store_eqv(#[trigger] r@[i], st@[i]),
{
    let mut r: Vec<(String, jobs::StoreValue)> = Vec::new();
    let mut i: usize = 0;
    while i < st.len()
        invariant
            i <= st@.len(),
            r@.len() == i,
            forall|k: int| 0 <= k < i ==> spec_store_eqv(#[trigger] r@[k], st@[k]),
        decreases st@.len() - i,
    {
        let (k, v) = &st[i];
        r.push(
            (
                k.clone(),
                jobs::StoreValue {
                    value: v.value.clone(),
                    secret: v.secret,
                    time_update: v.time_update,
                    source: v.source.clone(),
                },
            ),
        );
        i = i + 1;
    }
    r
}

/// Capture the whole read-model of a job into an archive document.
pub fn archive_capture(j: &Job) -> (r: ArchivedJob)
    ensures
        spec_archive_matches_job(r, *j),
{
    ArchivedJob {
        version: 1,
        id: j.id.render(),
        owner: j.owner.clone(),
        name: j.name.clone(),
        target: j.target.clone(),
        target_id: j.target_id.clone(),
        failed: j.failed,
        cancelled: j.cancelled,
        tasks: clone_tasks(&j.tasks),
        output_rules: clone_rules(&j.output_rules),
        outputs: clone_outputs(&j.outputs),
        tags: crate::api::clone_string_pairs(&j.tags),
        times: crate::api::clone_times(&j.times),
        events: clone_events(&j.events),
        store: clone_store(&j.store),
    }
}

/// The opaque blob store: object keys to archive documents, and object
/// keys to file bytes.  The real store is remote; this is the record
/// of what was put.
#[derive(Debug)]
pub struct BlobStore {
    pub documents: Vec<(String, String)>,
    pub files: Vec<(String, Vec<u8>)>,
}

/// The index of the object under the given key, searching from `i`.
pub open spec fn spec_find_doc_from(s: Seq<(String, String)>, key: Seq<char>, i: int) -> Option<int>
    decreases s.len() - i when 0 <= i <= s.len()
{
    if i >= s.len() {
        None
    } else if s[i].0@ == key {
        Some(i)
    } else {
        spec_find_doc_from(s, key, i + 1)
    }
}

/// Replacing the document at the position a search finds keeps it
/// findable there.
proof fn lemma_find_doc_update(s: Seq<(String, String)>, key: Seq<char>, k: int)
    requires
        0 <= k < s.len(),
        spec_find_doc_from(s, key, 0) == Some(k),
    ensures
        forall|e: (String, String)|
            e.0@ == key ==> spec_find_doc_from(#[trigger] s.update(k, e), key, 0) == Some(k),
{
    assert forall|e: (String, String)|
        e.0@ == key implies spec_find_doc_from(#[trigger] s.update(k, e), key, 0) == Some(k) by {
        lemma_find_doc_update_from(s, key, k, e, 0);
    }
}

proof fn lemma_find_doc_update_from(
    s: Seq<(String, String)>,
    key: Seq<char>,
    k: int,
    e: (String, String),
    i: int,
)
    requires
        0 <= i <= s.len(),
        i <= k < s.len(),
        e.0@ == key,
        spec_find_doc_from(s, key, i) == Some(k),
    ensures
        spec_find_doc_from(s.update(k, e), key, i) == Some(k),
    decreases s.len() - i,
{
    if i < s.len() {
        if i == k {
        } else {
            assert(s.update(k, e)[i] == s[i]);
            lemma_find_doc_update_from(s, key, k, e, i + 1);
        }
    }
}

/// A document pushed under a key that had none becomes the one a
/// search finds.
proof fn lemma_find_doc_push(s: Seq<(String, String)>, key: Seq<char>)
    requires
        spec_find_doc_from(s, key, 0) is None,
    ensures
        forall|e: (String, String)|
            e.0@ == key ==> spec_find_doc_from(#[trigger] s.push(e), key, 0) == Some(
                s.len() as int,
            ),
{
    assert forall|e: (String, String)|
        e.0@ == key implies spec_find_doc_from(#[trigger] s.push(e), key, 0) == Some(
        s.len() as int,
    ) by {
        lemma_find_doc_push_from(s, key, e, 0);
    }
}

proof fn lemma_find_doc_push_from(s: Seq<(String, String)>, key: Seq<char>, e: (String, String), i: int)
    requires
        0 <= i <= s.len(),
        e.0@ == key,
        spec_find_doc_from(s, key, i) is None,
    ensures
        spec_find_doc_from(s.push(e), key, i) == Some(s.len() as int),
    decreases s.len() - i,
{
    if i < s.len() {
        assert(s.push(e)[i] == s[i]);
        lemma_find_doc_push_from(s, key, e, i + 1);
    } else {
        assert(s.push(e)[i] == e);
    }
}

/// The index of the file object under the given key, searching from
/// `i`.
pub open spec fn spec_find_blob_from(s: Seq<(String, Vec<u8>)>, key: Seq<char>, i: int) -> Option<
    int,
>
    decreases s.len() - i when 0 <= i <= s.len()
{
    if i >= s.len() {
        None
    } else if s[i].0@ == key {
        Some(i)
    } else {
        spec_find_blob_from(s, key, i + 1)
    }
}

impl BlobStore {
    pub fn new() -> (r: BlobStore)
        ensures
            r.documents@.len() == 0,
            r.files@.len() == 0,
    {
        BlobStore { documents: Vec::new(), files: Vec::new() }
    }

    /// Put a document, replacing anything under the same key.  The
    /// document is afterwards what a read of the key yields.
    pub fn put_document(&mut self, key: String, body: String)
        ensures
            *final(self) == (BlobStore { documents: final(self).documents, ..*old(self) }),
            match spec_find_doc_from(old(self).documents@, key@, 0) {
                Some(i) => final(self).documents@ == old(self).documents@.update(i, (key, body)),
                None => final(self).documents@ == old(self).documents@.push((key, body)),
            },
            spec_find_doc_from(final(self).documents@, key@, 0) matches Some(d) && final(self).documents@[d].1 == body,
    {
        let mut i: usize = 0;
        let n = self.documents.len();
        loop
            invariant
                i <= n,
                n == self.documents@.len(),
                *self == *old(self),
                spec_find_doc_from(self.documents@, key@, 0) == spec_find_doc_from(
                    self.documents@,
                    key@,
                    i as int,
                ),
            ensures
                *self == *old(self),
                match spec_find_doc_from(self.documents@, key@, 0) {
                    Some(m) => m == i as int && i < n,
                    None => i == n,
                },
            decreases n - i,
        {
            if i >= n {
                break ;
            }
            if str_eq(self.documents[i].0.as_str(), key.as_str()) {
                break ;
            }
            i = i + 1;
        }
        let ghost pre = self.documents@;
        if i < n {
            self.documents.set(i, (key, body));
            proof {
                lemma_find_doc_update(pre, key@, i as int);
            }
        } else {
            self.documents.push((key, body));
            proof {
                lemma_find_doc_push(pre, key@);
            }
        }
    }

    /// Read a document back.
    pub fn get_document(&self, key: &str) -> (r: Option<&String>)
        ensures
            match r {
                Some(body) => spec_find_doc_from(self.documents@, key@, 0) matches Some(i)
                    && self.documents@[i].1 == *body,
                None => spec_find_doc_from(self.documents@, key@, 0) is None,
            },
    {
        let mut i: usize = 0;
        while i < self.documents.len()
            invariant
                i <= self.documents@.len(),
                spec_find_doc_from(self.documents@, key@, 0) == spec_find_doc_from(
                    self.documents@,
                    key@,
                    i as int,
                ),
            decreases self.documents@.len() - i,
        {
            if str_eq(self.documents[i].0.as_str(), key) {
                return Some(&self.documents[i].1);
            }
            i = i + 1;
        }
        None
    }

    /// Put a file object, replacing anything under the same key.
    pub fn put_file(&mut self, key: String, body: Vec<u8>)
        ensures
            *final(self) == (BlobStore { files: final(self).files, ..*old(self) }),
            match spec_find_blob_from(old(self).files@, key@, 0) {
                Some(i) => final(self).files@ == old(self).files@.update(i, (key, body)),
                None => final(self).files@ == old(self).files@.push((key, body)),
            },
    {
        let mut i: usize = 0;
        let n = self.files.len();
        loop
            invariant
                i <= n,
                n == self.files@.len(),
                *self == *old(self),
                spec_find_blob_from(self.files@, key@, 0) == spec_find_blob_from(
                    self.files@,
                    key@,
                    i as int,
                ),
            ensures
                *self == *old(self),
                match spec_find_blob_from(self.files@, key@, 0) {
                    Some(m) => m == i as int && i < n,
                    None => i == n,
                },
            decreases n - i,
        {
            if i >= n {
                break ;
            }
            if str_eq(self.files[i].0.as_str(), key.as_str()) {
                break ;
            }
            i = i + 1;
        }
        if i < n {
            self.files.set(i, (key, body));
        } else {
            self.files.push((key, body));
        }
    }

    /// Read a file object back.
    pub fn get_file(&self, key: &str) -> (r: Option<&Vec<u8>>)
        ensures
            match r {
                Some(body) => spec_find_blob_from(self.files@, key@, 0) matches Some(i)
                    && self.files@[i].1 == *body,
                None => spec_find_blob_from(self.files@, key@, 0) is None,
            },
    {
        let mut i: usize = 0;
        while i < self.files.len()
            invariant
                i <= self.files@.len(),
                spec_find_blob_from(self.files@, key@, 0) == spec_find_blob_from(
                    self.files@,
                    key@,
                    i as int,
                ),
            decreases self.files@.len() - i,
        {
            if str_eq(self.files[i].0.as_str(), key) {
                return Some(&self.files[i].1);
            }
            i = i + 1;
        }
        None
    }
}

/// The longest life a presigned URL may be given, in seconds.
pub const MAX_PRESIGN_SECONDS: u64 = 3600;

/// Whether a requested presigned URL life is acceptable.
pub fn presign_expiry_ok(expiry_seconds: u64) -> (r: bool)
    ensures
        r == (expiry_seconds <= 3600),
{
    expiry_seconds <= MAX_PRESIGN_SECONDS
}

/// An object key: the installation prefix, the collection, and the
/// suffix, separated by slashes, so that several installations can
/// share a bucket.
pub fn object_key(prefix: &str, collection: &str, suffix: &str) -> (r: String)
    ensures
        r@ == prefix@ + "/"@ + collection@ + "/"@ + suffix@,
{
    let mut out = String::new();
    out.append(prefix);
    out.append("/");
    out.append(collection);
    out.append("/");
    out.append(suffix);
    proof {
        assert(out@ =~= prefix@ + "/"@ + collection@ + "/"@ + suffix@);
    }
    out
}


/// The first field of a parsed object carrying the given name,
/// searching from `i`.
pub open spec fn spec_field_get_from(
    fs: Seq<(String, crate::json::Json)>,
    name: Seq<char>,
    i: int,
) -> Option<crate::json::Json>
    decreases fs.len() - i when 0 <= i <= fs.len()
{
    if i >= fs.len() {
        None
    } else if fs[i].0@ == name {
        Some(fs[i].1)
    } else {
        spec_field_get_from(fs, name, i + 1)
    }
}

/// The first field of a parsed object carrying the given name.
pub open spec fn spec_field_get(fs: Seq<(String, crate::json::Json)>, name: Seq<char>) -> Option<
    crate::json::Json,
> {
    spec_field_get_from(fs, name, 0)
}

/// Look a field up in a parsed object.
fn obj_get<'a>(fields: &'a Vec<(String, crate::json::Json)>, name: &str) -> (r: Option<
    &'a crate::json::Json,
>)
    ensures
        match r {
            Some(v) => spec_field_get(fields@, name@) == Some(*v),
            None => spec_field_get(fields@, name@) is None,
        },
{
    let mut i: usize = 0;
    while i < fields.len()
        invariant
            i <= fields@.len(),
            spec_field_get(fields@, name@) == spec_field_get_from(fields@, name@, i as int),
        decreases fields@.len() - i,
    {
        if str_eq(fields[i].0.as_str(), name) {
            return Some(&fields[i].1);
        }
        i = i + 1;
    }
    None
}

/// Read a string out of a parsed value.
fn as_string(v: &crate::json::Json) -> (r: Option<String>)
    ensures
        match r {
            Some(out) => v matches crate::json::Json::Str(s) && out@ == s@,
            None => !(v matches crate::json::Json::Str(_)),
        },
{
    match v {
        crate::json::Json::Str(s) => Some(s.clone()),
        _ => None,
    }
}

/// Read a boolean out of a parsed value.
fn as_bool(v: &crate::json::Json) -> (r: Option<bool>)
    ensures
        match r {
            Some(b) => *v == crate::json::Json::Bool(b),
            None => !(v matches crate::json::Json::Bool(_)),
        },
{
    match v {
        crate::json::Json::Bool(b) => Some(*b),
        _ => None,
    }
}

/// Read an unsigned number out of a parsed value.
fn as_u64(v: &crate::json::Json) -> (r: Option<u64>)
    ensures
        match r {
            Some(n) => *v == crate::json::Json::Num(n as i128),
            None => v matches crate::json::Json::Num(m) ==> !(0 <= *m <= u64::MAX as i128),
        },
{
    match v {
        crate::json::Json::Num(n) => {
            if 0 <= *n && *n <= u64::MAX as i128 {
                Some(*n as u64)
            } else {
                None
            }
        },
        _ => None,
    }
}

/// Read a signed number out of a parsed value.
fn as_i64(v: &crate::json::Json) -> (r: Option<i64>)
    ensures
        match r {
            Some(n) => *v == crate::json::Json::Num(n as i128),
            None => v matches crate::json::Json::Num(m) ==> !(i64::MIN as i128 <= *m
                <= i64::MAX as i128),
        },
{
    match v {
        crate::json::Json::Num(n) => {
            if i64::MIN as i128 <= *n && *n <= i64::MAX as i128 {
                Some(*n as i64)
            } else {
                None
            }
        },
        _ => None,
    }
}

/// Read an optional number out of a parsed value.
fn as_opt_u32(v: &crate::json::Json) -> (r: Option<Option<u32>>)
    ensures
        match r {
            Some(o) => match o {
                None => *v == crate::json::Json::Null,
                Some(n) => *v == crate::json::Json::Num(n as i128),
            },
            None => true,
        },
{
    match v {
        crate::json::Json::Null => Some(None),
        crate::json::Json::Num(n) => {
            if 0 <= *n && *n <= u32::MAX as i128 {
                Some(Some(*n as u32))
            } else {
                None
            }
        },
        _ => None,
    }
}

/// Render a list of name/value string pairs.
fn pairs_to_json(pairs: &Vec<(String, String)>) -> (r: crate::json::Json)
    ensures
        r matches crate::json::Json::Arr(items) && items@.len() == pairs@.len(),
{
    let mut items: Vec<crate::json::Json> = Vec::new();
    let mut i: usize = 0;
    while i < pairs.len()
        invariant
            i <= pairs@.len(),
            items@.len() == i,
        decreases pairs@.len() - i,
    {
        let mut kv: Vec<crate::json::Json> = Vec::new();
        kv.push(crate::json::Json::Str(pairs[i].0.clone()));
        kv.push(crate::json::Json::Str(pairs[i].1.clone()));
        items.push(crate::json::Json::Arr(kv));
        i = i + 1;
    }
    crate::json::Json::Arr(items)
}

/// Render an archive document into its JSON value: an object whose
/// first field names the layout version, followed by the header
/// fields, and then the record collections, one array element per
/// record.
pub fn archive_to_json(a: &ArchivedJob) -> (r: crate::json::Json)
    ensures
        crate::json::jview(r) matches crate::json::GJson::Obj(gfs) && ({
            &&& gfs.len() == 15
            &&& gfs[0].0 == "version"@ && gfs[0].1 == crate::json::GJson::Num(a.version as int)
            &&& gfs[1].0 == "id"@ && gfs[1].1 == crate::json::GJson::Str(a.id@)
            &&& gfs[2].0 == "owner"@ && gfs[2].1 == crate::json::GJson::Str(a.owner@)
            &&& gfs[3].0 == "name"@ && gfs[3].1 == crate::json::GJson::Str(a.name@)
            &&& gfs[4].0 == "target"@ && gfs[4].1 == crate::json::GJson::Str(a.target@)
            &&& gfs[5].0 == "target_id"@ && gfs[5].1 == crate::json::GJson::Str(a.target_id@)
            &&& gfs[6].0 == "failed"@ && gfs[6].1 == crate::json::GJson::Bool(a.failed)
            &&& gfs[7].0 == "cancelled"@ && gfs[7].1 == crate::json::GJson::Bool(a.cancelled)
            &&& gfs[8].0 == "tasks"@ && (gfs[8].1 matches crate::json::GJson::Arr(xs) && xs.len()
                == a.tasks@.len())
            &&& gfs[9].0 == "output_rules"@ && (gfs[9].1 matches crate::json::GJson::Arr(xs)
                && xs.len() == a.output_rules@.len())
            &&& gfs[10].0 == "outputs"@ && (gfs[10].1 matches crate::json::GJson::Arr(xs)
                && xs.len() == a.outputs@.len())
            &&& gfs[11].0 == "tags"@ && (gfs[11].1 matches crate::json::GJson::Arr(xs) && xs.len()
                == a.tags@.len())
            &&& gfs[12].0 == "times"@ && (gfs[12].1 matches crate::json::GJson::Arr(xs)
                && xs.len() == a.times@.len())
            &&& gfs[13].0 == "events"@ && (gfs[13].1 matches crate::json::GJson::Arr(xs)
                && xs.len() == a.events@.len())
            &&& gfs[14].0 == "store"@ && (gfs[14].1 matches crate::json::GJson::Arr(xs)
                && xs.len() == a.store@.len())
        }),
{
    let mut fields: Vec<(String, crate::json::Json)> = Vec::new();
    fields.push((String::from_str("version"), crate::json::Json::Num(a.version as i128)));
    fields.push((String::from_str("id"), crate::json::Json::Str(a.id.clone())));
    fields.push((String::from_str("owner"), crate::json::Json::Str(a.owner.clone())));
    fields.push((String::from_str("name"), crate::json::Json::Str(a.name.clone())));
    fields.push((String::from_str("target"), crate::json::Json::Str(a.target.clone())));
    fields.push((String::from_str("target_id"), crate::json::Json::Str(a.target_id.clone())));
    fields.push((String::from_str("failed"), crate::json::Json::Bool(a.failed)));
    fields.push((String::from_str("cancelled"), crate::json::Json::Bool(a.cancelled)));

    let mut tasks: Vec<crate::json::Json> = Vec::new();
    let mut i: usize = 0;
    while i < a.tasks.len()
        invariant
            i <= a.tasks@.len(),
            tasks@.len() == i,
        decreases a.tasks@.len() - i,
    {
        let t = &a.tasks[i];
        let mut tf: Vec<(String, crate::json::Json)> = Vec::new();
        tf.push((String::from_str("name"), crate::json::Json::Str(t.name.clone())));
        tf.push((String::from_str("script"), crate::json::Json::Str(t.script.clone())));
        tf.push((String::from_str("env_clear"), crate::json::Json::Bool(t.env_clear)));
        tf.push((String::from_str("env"), pairs_to_json(&t.env)));
        tf.push(
            (
                String::from_str("user_id"),
                match t.user_id {
                    Some(u) => crate::json::Json::Num(u as i128),
                    None => crate::json::Json::Null,
                },
            ),
        );
        tf.push(
            (
                String::from_str("group_id"),
                match t.group_id {
                    Some(g) => crate::json::Json::Num(g as i128),
                    None => crate::json::Json::Null,
                },
            ),
        );
        tf.push(
            (
                String::from_str("workdir"),
                match &t.workdir {
                    Some(w) => crate::json::Json::Str(w.clone()),
                    None => crate::json::Json::Null,
                },
            ),
        );
        tf.push((String::from_str("complete"), crate::json::Json::Bool(t.complete)));
        tf.push((String::from_str("failed"), crate::json::Json::Bool(t.failed)));
        tasks.push(crate::json::Json::Obj(tf));
        i = i + 1;
    }
    fields.push((String::from_str("tasks"), crate::json::Json::Arr(tasks)));

    let mut rules: Vec<crate::json::Json> = Vec::new();
    let mut i: usize = 0;
    while i < a.output_rules.len()
        invariant
            i <= a.output_rules@.len(),
            rules@.len() == i,
        decreases a.output_rules@.len() - i,
    {
        let c = &a.output_rules[i];
        let mut rf: Vec<(String, crate::json::Json)> = Vec::new();
        rf.push((String::from_str("rule"), crate::json::Json::Str(c.rule.clone())));
        rf.push((String::from_str("ignore"), crate::json::Json::Bool(c.ignore)));
        rf.push((String::from_str("require_match"), crate::json::Json::Bool(c.require_match)));
        rf.push((String::from_str("size_change_ok"), crate::json::Json::Bool(c.size_change_ok)));
        rules.push(crate::json::Json::Obj(rf));
        i = i + 1;
    }
    fields.push((String::from_str("output_rules"), crate::json::Json::Arr(rules)));

    let mut outs: Vec<crate::json::Json> = Vec::new();
    let mut i: usize = 0;
    while i < a.outputs.len()
        invariant
            i <= a.outputs@.len(),
            outs@.len() == i,
        decreases a.outputs@.len() - i,
    {
        let o = &a.outputs[i];
        let mut of: Vec<(String, crate::json::Json)> = Vec::new();
        of.push((String::from_str("path"), crate::json::Json::Str(o.path.clone())));
        of.push((String::from_str("file"), crate::json::Json::Str(o.file.render())));
        of.push((String::from_str("size"), crate::json::Json::Num(o.size as i128)));
        of.push(
            (
                String::from_str("published"),
                match &o.published {
                    Some(p) => {
                        let mut pv: Vec<crate::json::Json> = Vec::new();
                        pv.push(crate::json::Json::Str(p.0.clone()));
                        pv.push(crate::json::Json::Str(p.1.clone()));
                        pv.push(crate::json::Json::Str(p.2.clone()));
                        crate::json::Json::Arr(pv)
                    },
                    None => crate::json::Json::Null,
                },
            ),
        );
        outs.push(crate::json::Json::Obj(of));
        i = i + 1;
    }
    fields.push((String::from_str("outputs"), crate::json::Json::Arr(outs)));

    fields.push((String::from_str("tags"), pairs_to_json(&a.tags)));

    let mut times: Vec<crate::json::Json> = Vec::new();
    let mut i: usize = 0;
    while i < a.times.len()
        invariant
            i <= a.times@.len(),
            times@.len() == i,
        decreases a.times@.len() - i,
    {
        let mut kv: Vec<crate::json::Json> = Vec::new();
        kv.push(crate::json::Json::Str(a.times[i].0.clone()));
        kv.push(crate::json::Json::Num(a.times[i].1 as i128));
        times.push(crate::json::Json::Arr(kv));
        i = i + 1;
    }
    fields.push((String::from_str("times"), crate::json::Json::Arr(times)));

    let mut events: Vec<crate::json::Json> = Vec::new();
    let mut i: usize = 0;
    while i < a.events.len()
        invariant
            i <= a.events@.len(),
            events@.len() == i,
        decreases a.events@.len() - i,
    {
        let e = &a.events[i];
        let mut ef: Vec<(String, crate::json::Json)> = Vec::new();
        ef.push(
            (
                String::from_str("task"),
                match e.task {
                    Some(t) => crate::json::Json::Num(t as i128),
                    None => crate::json::Json::Null,
                },
            ),
        );
        ef.push((String::from_str("seq"), crate::json::Json::Num(e.seq as i128)));
        ef.push((String::from_str("stream"), crate::json::Json::Str(e.stream.clone())));
        ef.push((String::from_str("time"), crate::json::Json::Num(e.time as i128)));
        ef.push(
            (
                String::from_str("time_remote"),
                match e.time_remote {
                    Some(t) => crate::json::Json::Num(t as i128),
                    None => crate::json::Json::Null,
                },
            ),
        );
        ef.push((String::from_str("payload"), crate::json::Json::Str(e.payload.clone())));
        events.push(crate::json::Json::Obj(ef));
        i = i + 1;
    }
    fields.push((String::from_str("events"), crate::json::Json::Arr(events)));

    let mut store: Vec<crate::json::Json> = Vec::new();
    let mut i: usize = 0;
    while i < a.store.len()
        invariant
            i <= a.store@.len(),
            store@.len() == i,
        decreases a.store@.len() - i,
    {
        let (k, v) = &a.store[i];
        let mut sf: Vec<(String, crate::json::Json)> = Vec::new();
        sf.push((String::from_str("name"), crate::json::Json::Str(k.clone())));
        sf.push((String::from_str("value"), crate::json::Json::Str(v.value.clone())));
        sf.push((String::from_str("secret"), crate::json::Json::Bool(v.secret)));
        sf.push((String::from_str("time_update"), crate::json::Json::Num(v.time_update as i128)));
        sf.push((String::from_str("source"), crate::json::Json::Str(v.source.clone())));
        store.push(crate::json::Json::Obj(sf));
        i = i + 1;
    }
    fields.push((String::from_str("store"), crate::json::Json::Arr(store)));

    proof {
        crate::json::lemma_jview_fields_len(fields@, 0);
        assert forall|k: int|
            8 <= k < 15 implies crate::json::jview_fields(fields@, 0)[k] == (
            fields@[k].0@,
            crate::json::jview(fields@[k].1),
        ) by {}
        if let crate::json::Json::Arr(xs) = fields@[8].1 {
            crate::json::lemma_jview_items_len(xs@, 0);
        }
        if let crate::json::Json::Arr(xs) = fields@[9].1 {
            crate::json::lemma_jview_items_len(xs@, 0);
        }
        if let crate::json::Json::Arr(xs) = fields@[10].1 {
            crate::json::lemma_jview_items_len(xs@, 0);
        }
        if let crate::json::Json::Arr(xs) = fields@[11].1 {
            crate::json::lemma_jview_items_len(xs@, 0);
        }
        if let crate::json::Json::Arr(xs) = fields@[12].1 {
            crate::json::lemma_jview_items_len(xs@, 0);
        }
        if let crate::json::Json::Arr(xs) = fields@[13].1 {
            crate::json::lemma_jview_items_len(xs@, 0);
        }
        if let crate::json::Json::Arr(xs) = fields@[14].1 {
            crate::json::lemma_jview_items_len(xs@, 0);
        }
    }
    crate::json::Json::Obj(fields)
}

/// Read a list of name/value string pairs back.
fn pairs_of_json(v: &crate::json::Json) -> (r: Option<Vec<(String, String)>>)
    ensures
        r matches Some(out) ==> (v matches crate::json::Json::Arr(items) && out@.len()
            == items@.len()),
{
    let items = match v {
        crate::json::Json::Arr(items) => items,
        _ => {
            return None;
        },
    };
    let mut out: Vec<(String, String)> = Vec::new();
    let mut i: usize = 0;
    while i < items.len()
        invariant
            i <= items@.len(),
            out@.len() == i,
        decreases items@.len() - i,
    {
        let kv = match &items[i] {
            crate::json::Json::Arr(kv) => kv,
            _ => {
                return None;
            },
        };
        if kv.len() != 2 {
            return None;
        }
        let k = match as_string(&kv[0]) {
            Some(k) => k,
            None => {
                return None;
            },
        };
        let val = match as_string(&kv[1]) {
            Some(v) => v,
            None => {
                return None;
            },
        };
        out.push((k, val));
        i = i + 1;
    }
    Some(out)
}

/// Read an archive document back out of its JSON value.  A document
/// whose layout version is unknown is rejected, and what is returned
/// carries exactly the document's header fields and as many records as
/// its collections hold.
pub fn archive_of_json(v: &crate::json::Json) -> (r: Option<ArchivedJob>)
    ensures
        r matches Some(a) ==> (v matches crate::json::Json::Obj(fs) && ({
            &&& a.version == ARCHIVE_VERSION
            &&& spec_field_get(fs@, "version"@) == Some(
                crate::json::Json::Num(a.version as i128),
            )
            &&& (spec_field_get(fs@, "id"@) matches Some(x) && (x matches crate::json::Json::Str(
                sv,
            ) && sv@ == a.id@))
            &&& (spec_field_get(fs@, "owner"@) matches Some(x) && (x matches
            crate::json::Json::Str(sv) && sv@ == a.owner@))
            &&& (spec_field_get(fs@, "name"@) matches Some(x) && (x matches
            crate::json::Json::Str(sv) && sv@ == a.name@))
            &&& (spec_field_get(fs@, "target"@) matches Some(x) && (x matches
            crate::json::Json::Str(sv) && sv@ == a.target@))
            &&& (spec_field_get(fs@, "target_id"@) matches Some(x) && (x matches
            crate::json::Json::Str(sv) && sv@ == a.target_id@))
            &&& spec_field_get(fs@, "failed"@) == Some(crate::json::Json::Bool(a.failed))
            &&& spec_field_get(fs@, "cancelled"@) == Some(crate::json::Json::Bool(a.cancelled))
            &&& (spec_field_get(fs@, "tasks"@) matches Some(x) && (x matches
            crate::json::Json::Arr(items) && items@.len() == a.tasks@.len()))
            &&& (spec_field_get(fs@, "output_rules"@) matches Some(x) && (x matches
            crate::json::Json::Arr(items) && items@.len() == a.output_rules@.len()))
            &&& (spec_field_get(fs@, "outputs"@) matches Some(x) && (x matches
            crate::json::Json::Arr(items) && items@.len() == a.outputs@.len()))
            &&& (spec_field_get(fs@, "tags"@) matches Some(x) && (x matches
            crate::json::Json::Arr(items) && items@.len() == a.tags@.len()))
            &&& (spec_field_get(fs@, "times"@) matches Some(x) && (x matches
            crate::json::Json::Arr(items) && items@.len() == a.times@.len()))
            &&& (spec_field_get(fs@, "events"@) matches Some(x) && (x matches
            crate::json::Json::Arr(items) && items@.len() == a.events@.len()))
            &&& (spec_field_get(fs@, "store"@) matches Some(x) && (x matches
            crate::json::Json::Arr(items) && items@.len() == a.store@.len()))
        })),
{
    let fields = match v {
        crate::json::Json::Obj(fields) => fields,
        _ => {
            return None;
        },
    };
    let version = match obj_get(fields, "version") {
        Some(x) => match as_u64(x) {
            Some(v) => v,
            None => {
                return None;
            },
        },
        None => {
            return None;
        },
    };
    if version != 1 {
        return None;
    }
    let id = match obj_get(fields, "id") {
        Some(x) => match as_string(x) {
            Some(x) => x,
            None => {
                return None;
            },
        },
        None => {
            return None;
        },
    };
    let owner = match obj_get(fields, "owner") {
        Some(x) => match as_string(x) {
            Some(x) => x,
            None => {
                return None;
            },
        },
        None => {
            return None;
        },
    };
    let name = match obj_get(fields, "name") {
        Some(x) => match as_string(x) {
            Some(x) => x,
            None => {
                return None;
            },
        },
        None => {
            return None;
        },
    };
    let target = match obj_get(fields, "target") {
        Some(x) => match as_string(x) {
            Some(x) => x,
            None => {
                return None;
            },
        },
        None => {
            return None;
        },
    };
    let target_id = match obj_get(fields, "target_id") {
        Some(x) => match as_string(x) {
            Some(x) => x,
            None => {
                return None;
            },
        },
        None => {
            return None;
        },
    };
    let failed = match obj_get(fields, "failed") {
        Some(x) => match as_bool(x) {
            Some(x) => x,
            None => {
                return None;
            },
        },
        None => {
            return None;
        },
    };
    let cancelled = match obj_get(fields, "cancelled") {
        Some(x) => match as_bool(x) {
            Some(x) => x,
            None => {
                return None;
            },
        },
        None => {
            return None;
        },
    };

    let mut tasks: Vec<jobs::Task> = Vec::new();
    {
        let items = match obj_get(fields, "tasks") {
            Some(crate::json::Json::Arr(items)) => items,
            _ => {
                return None;
            },
        };
        let mut i: usize = 0;
        while i < items.len()
            invariant
                i <= items@.len(),
                tasks@.len() == i,
            decreases items@.len() - i,
        {
            let tf = match &items[i] {
                crate::json::Json::Obj(tf) => tf,
                _ => {
                    return None;
                },
            };
            let tname = match obj_get(tf, "name") {
                Some(x) => match as_string(x) {
                    Some(x) => x,
                    None => {
                        return None;
                    },
                },
                None => {
                    return None;
                },
            };
            let script = match obj_get(tf, "script") {
                Some(x) => match as_string(x) {
                    Some(x) => x,
                    None => {
                        return None;
                    },
                },
                None => {
                    return None;
                },
            };
            let env_clear = match obj_get(tf, "env_clear") {
                Some(x) => match as_bool(x) {
                    Some(x) => x,
                    None => {
                        return None;
                    },
                },
                None => {
                    return None;
                },
            };
            let env = match obj_get(tf, "env") {
                Some(x) => match pairs_of_json(x) {
                    Some(x) => x,
                    None => {
                        return None;
                    },
                },
                None => {
                    return None;
                },
            };
            let user_id = match obj_get(tf, "user_id") {
                Some(x) => match as_opt_u32(x) {
                    Some(x) => x,
                    None => {
                        return None;
                    },
                },
                None => {
                    return None;
                },
            };
            let group_id = match obj_get(tf, "group_id") {
                Some(x) => match as_opt_u32(x) {
                    Some(x) => x,
                    None => {
                        return None;
                    },
                },
                None => {
                    return None;
                },
            };
            let workdir = match obj_get(tf, "workdir") {
                Some(crate::json::Json::Null) => None,
                Some(crate::json::Json::Str(w)) => Some(w.clone()),
                _ => {
                    return None;
                },
            };
            let complete = match obj_get(tf, "complete") {
                Some(x) => match as_bool(x) {
                    Some(x) => x,
                    None => {
                        return None;
                    },
                },
                None => {
                    return None;
                },
            };
            let tfailed = match obj_get(tf, "failed") {
                Some(x) => match as_bool(x) {
                    Some(x) => x,
                    None => {
                        return None;
                    },
                },
                None => {
                    return None;
                },
            };
            tasks.push(
                jobs::Task {
                    name: tname,
                    script,
                    env_clear,
                    env,
                    user_id,
                    group_id,
                    workdir,
                    complete,
                    failed: tfailed,
                },
            );
            i = i + 1;
        }
    }

    let mut output_rules: Vec<CreateOutputRule> = Vec::new();
    {
        let items = match obj_get(fields, "output_rules") {
            Some(crate::json::Json::Arr(items)) => items,
            _ => {
                return None;
            },
        };
        let mut i: usize = 0;
        while i < items.len()
            invariant
                i <= items@.len(),
                output_rules@.len() == i,
            decreases items@.len() - i,
        {
            let rf = match &items[i] {
                crate::json::Json::Obj(rf) => rf,
                _ => {
                    return None;
                },
            };
            let rule = match obj_get(rf, "rule") {
                Some(x) => match as_string(x) {
                    Some(x) => x,
                    None => {
                        return None;
                    },
                },
                None => {
                    return None;
                },
            };
            let ignore = match obj_get(rf, "ignore") {
                Some(x) => match as_bool(x) {
                    Some(x) => x,
                    None => {
                        return None;
                    },
                },
                None => {
                    return None;
                },
            };
            let require_match = match obj_get(rf, "require_match") {
                Some(x) => match as_bool(x) {
                    Some(x) => x,
                    None => {
                        return None;
                    },
                },
                None => {
                    return None;
                },
            };
            let size_change_ok = match obj_get(rf, "size_change_ok") {
                Some(x) => match as_bool(x) {
                    Some(x) => x,
                    None => {
                        return None;
                    },
                },
                None => {
                    return None;
                },
            };
            output_rules.push(CreateOutputRule { rule, ignore, require_match, size_change_ok });
            i = i + 1;
        }
    }

    let mut outputs: Vec<jobs::JobOutput> = Vec::new();
    {
        let items = match obj_get(fields, "outputs") {
            Some(crate::json::Json::Arr(items)) => items,
            _ => {
                return None;
            },
        };
        let mut i: usize = 0;
        while i < items.len()
            invariant
                i <= items@.len(),
                outputs@.len() == i,
            decreases items@.len() - i,
        {
            let of = match &items[i] {
                crate::json::Json::Obj(of) => of,
                _ => {
                    return None;
                },
            };
            let path = match obj_get(of, "path") {
                Some(x) => match as_string(x) {
                    Some(x) => x,
                    None => {
                        return None;
                    },
                },
                None => {
                    return None;
                },
            };
            let file = match obj_get(of, "file") {
                Some(x) => match as_string(x) {
                    Some(x) => x,
                    None => {
                        return None;
                    },
                },
                None => {
                    return None;
                },
            };
            let size = match obj_get(of, "size") {
                Some(x) => match as_u64(x) {
                    Some(x) => x,
                    None => {
                        return None;
                    },
                },
                None => {
                    return None;
                },
            };
            let published = match obj_get(of, "published") {
                Some(crate::json::Json::Null) => None,
                Some(crate::json::Json::Arr(pv)) => {
                    if pv.len() != 3 {
                        return None;
                    }
                    let a0 = match as_string(&pv[0]) {
                        Some(x) => x,
                        None => {
                            return None;
                        },
                    };
                    let a1 = match as_string(&pv[1]) {
                        Some(x) => x,
                        None => {
                            return None;
                        },
                    };
                    let a2 = match as_string(&pv[2]) {
                        Some(x) => x,
                        None => {
                            return None;
                        },
                    };
                    Some((a0, a1, a2))
                },
                _ => {
                    return None;
                },
            };
            outputs.push(
                jobs::JobOutput {
                    path,
                    file: crate::ids::JobFileId { id: file },
                    size,
                    published,
                },
            );
            i = i + 1;
        }
    }

    let tags = match obj_get(fields, "tags") {
        Some(x) => match pairs_of_json(x) {
            Some(x) => x,
            None => {
                return None;
            },
        },
        None => {
            return None;
        },
    };

    let mut times: Vec<(String, i64)> = Vec::new();
    {
        let items = match obj_get(fields, "times") {
            Some(crate::json::Json::Arr(items)) => items,
            _ => {
                return None;
            },
        };
        let mut i: usize = 0;
        while i < items.len()
            invariant
                i <= items@.len(),
                times@.len() == i,
            decreases items@.len() - i,
        {
            let kv = match &items[i] {
                crate::json::Json::Arr(kv) => kv,
                _ => {
                    return None;
                },
            };
            if kv.len() != 2 {
                return None;
            }
            let k = match as_string(&kv[0]) {
                Some(x) => x,
                None => {
                    return None;
                },
            };
            let t = match as_i64(&kv[1]) {
                Some(x) => x,
                None => {
                    return None;
                },
            };
            times.push((k, t));
            i = i + 1;
        }
    }

    let mut events: Vec<jobs::JobEvent> = Vec::new();
    {
        let items = match obj_get(fields, "events") {
            Some(crate::json::Json::Arr(items)) => items,
            _ => {
                return None;
            },
        };
        let mut i: usize = 0;
        while i < items.len()
            invariant
                i <= items@.len(),
                events@.len() == i,
            decreases items@.len() - i,
        {
            let ef = match &items[i] {
                crate::json::Json::Obj(ef) => ef,
                _ => {
                    return None;
                },
            };
            let task = match obj_get(ef, "task") {
                Some(x) => match as_opt_u32(x) {
                    Some(x) => x,
                    None => {
                        return None;
                    },
                },
                None => {
                    return None;
                },
            };
            let seq = match obj_get(ef, "seq") {
                Some(x) => match as_u64(x) {
                    Some(x) => x,
                    None => {
                        return None;
                    },
                },
                None => {
                    return None;
                },
            };
            if seq > usize::MAX as u64 {
                return None;
            }
            let stream = match obj_get(ef, "stream") {
                Some(x) => match as_string(x) {
                    Some(x) => x,
                    None => {
                        return None;
                    },
                },
                None => {
                    return None;
                },
            };
            let time = match obj_get(ef, "time") {
                Some(x) => match as_i64(x) {
                    Some(x) => x,
                    None => {
                        return None;
                    },
                },
                None => {
                    return None;
                },
            };
            let time_remote = match obj_get(ef, "time_remote") {
                Some(crate::json::Json::Null) => None,
                Some(crate::json::Json::Num(n)) => {
                    if i64::MIN as i128 <= *n && *n <= i64::MAX as i128 {
                        Some(*n as i64)
                    } else {
                        return None;
                    }
                },
                _ => {
                    return None;
                },
            };
            let payload = match obj_get(ef, "payload") {
                Some(x) => match as_string(x) {
                    Some(x) => x,
                    None => {
                        return None;
                    },
                },
                None => {
                    return None;
                },
            };
            events.push(
                jobs::JobEvent {
                    task,
                    seq: seq as usize,
                    stream,
                    time,
                    time_remote,
                    payload,
                },
            );
            i = i + 1;
        }
    }

    let mut store: Vec<(String, jobs::StoreValue)> = Vec::new();
    {
        let items = match obj_get(fields, "store") {
            Some(crate::json::Json::Arr(items)) => items,
            _ => {
                return None;
            },
        };
        let mut i: usize = 0;
        while i < items.len()
            invariant
                i <= items@.len(),
                store@.len() == i,
            decreases items@.len() - i,
        {
            let sf = match &items[i] {
                crate::json::Json::Obj(sf) => sf,
                _ => {
                    return None;
                },
            };
            let k = match obj_get(sf, "name") {
                Some(x) => match as_string(x) {
                    Some(x) => x,
                    None => {
                        return None;
                    },
                },
                None => {
                    return None;
                },
            };
            let value = match obj_get(sf, "value") {
                Some(x) => match as_string(x) {
                    Some(x) => x,
                    None => {
                        return None;
                    },
                },
                None => {
                    return None;
                },
            };
            let secret = match obj_get(sf, "secret") {
                Some(x) => match as_bool(x) {
                    Some(x) => x,
                    None => {
                        return None;
                    },
                },
                None => {
                    return None;
                },
            };
            let time_update = match obj_get(sf, "time_update") {
                Some(x) => match as_i64(x) {
                    Some(x) => x,
                    None => {
                        return None;
                    },
                },
                None => {
                    return None;
                },
            };
            let source = match obj_get(sf, "source") {
                Some(x) => match as_string(x) {
                    Some(x) => x,
                    None => {
                        return None;
                    },
                },
                None => {
                    return None;
                },
            };
            store.push((k, jobs::StoreValue { value, secret, time_update, source }));
            i = i + 1;
        }
    }

    Some(
        ArchivedJob {
            version,
            id,
            owner,
            name,
            target,
            target_id,
            failed,
            cancelled,
            tasks,
            output_rules,
            outputs,
            tags,
            times,
            events,
            store,
        },
    )
}

} // verus!

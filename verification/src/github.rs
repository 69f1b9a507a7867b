//! The check-run front end: the verifiable heart of the service that
//! turns repository events into jobs and job progress into check-run
//! updates.  Webhook bodies are authenticated by an HMAC signature;
//! the progress view keeps a bounded tail of output lines, long lines
//! truncated; and the check-run state machine decides from its private
//! state alone.

use vstd::prelude::*;
use crate::text::{chars_of, spec_hex_of, hex_of, string_of, str_eq};

verus! {

use vstd::string::StringExecFns;

/// What the HMAC-SHA256 of a message under a key is.  The code depends
/// on the message and key bytes alone.
pub uninterp spec fn hmac_sha256_of(msg: Seq<u8>, key: Seq<u8>) -> Seq<u8>;

/// Relies on hmac_sha256::HMAC::mac: the HMAC-SHA256 of the message
/// under the key, thirty-two bytes.
#[verifier::external_body]
fn hmac_mac(msg: &Vec<u8>, key: &[u8]) -> (r: Vec<u8>)
    ensures
        r@ == hmac_sha256_of(msg@, key@),
        r@.len() == 32,
{
    hmac_sha256::HMAC::mac(msg.as_slice(), key).to_vec()
}

/// Whether a byte string is well-formed JSON.  Acceptance depends on
/// the bytes alone.
pub uninterp spec fn json_accepts(body: Seq<u8>) -> bool;

/// Relies on serde_json::from_slice::<Value>: whether the bytes parse
/// as a JSON document.
#[verifier::external_body]
fn json_ok(body: &Vec<u8>) -> (r: bool)
    ensures
        r == json_accepts(body@),
{
    serde_json::from_slice::<serde_json::Value>(body.as_slice()).is_ok()
}

/// The signature header value a webhook body must carry: the scheme
/// name and the digest in lowercase hexadecimal.
pub open spec fn spec_sign(body: Seq<u8>, secret: Seq<char>) -> Seq<char> {
    "sha256="@ + spec_hex_of(hmac_sha256_of(body, vstd::utf8::encode_utf8(secret)))
}

/// Compute the signature of a webhook body under the shared secret.
pub fn sign(body: &Vec<u8>, secret: &str) -> (r: String)
    ensures
        r@ == spec_sign(body@, secret@),
{
    let mac = hmac_mac(body, secret.as_bytes());
    let hex = hex_of(&mac);
    let mut out = String::from_str("sha256=");
    out.append(hex.as_str());
    proof {
        assert(out@ =~= spec_sign(body@, secret@));
    }
    out
}

/// What to do with a delivered webhook body.
#[derive(Debug, PartialEq, Eq, Structural)]
pub enum WebhookDecision {
    /// The signature does not match: reject the delivery.
    BadSignature,
    /// The body is not JSON: reject the delivery.
    BadJson,
    /// Authentic and well-formed: store the delivery.
    Store,
}

/// Decide a webhook delivery: the body must carry the signature
/// computed under the shared secret, and must be JSON.
pub fn webhook_check(body: &Vec<u8>, sig: &str, secret: &str) -> (r: WebhookDecision)
    ensures
        sig@ != spec_sign(body@, secret@) ==> r == WebhookDecision::BadSignature,
        sig@ == spec_sign(body@, secret@) && !json_accepts(body@) ==> r == WebhookDecision::BadJson,
        sig@ == spec_sign(body@, secret@) && json_accepts(body@) ==> r == WebhookDecision::Store,
{
    let ours = sign(body, secret);
    if !str_eq(sig, ours.as_str()) {
        return WebhookDecision::BadSignature;
    }
    if !json_ok(body) {
        return WebhookDecision::BadJson;
    }
    WebhookDecision::Store
}

/// The rendering of one output line in the bounded tail: a marker for
/// the stream, the first hundred characters, and an ellipsis when the
/// line was cut.
pub open spec fn spec_truncate_line(payload: Seq<char>, console: bool) -> Seq<char> {
    (if console {
        "|C| "@
    } else {
        "| "@
    }) + (if payload.len() <= 100 {
        payload
    } else {
        payload.take(100) + " [...]"@
    })
}

/// Render one output line for the tail view, truncating past one
/// hundred characters.
pub fn truncate_line(payload: &str, console: bool) -> (r: String)
    ensures
        r@ == spec_truncate_line(payload@, console),
{
    let cs = chars_of(payload);
    let mut out: Vec<char> = Vec::new();
    if console {
        out.push('|');
        out.push('C');
        out.push('|');
        out.push(' ');
    } else {
        out.push('|');
        out.push(' ');
    }
    let ghost pre = out@;
    proof {
        reveal_strlit("|C| ");
        reveal_strlit("| ");
        if console {
            assert(pre =~= "|C| "@);
        } else {
            assert(pre =~= "| "@);
        }
    }
    let n = if cs.len() <= 100 {
        cs.len()
    } else {
        100
    };
    let mut i: usize = 0;
    while i < n
        invariant
            i <= n,
            n <= cs@.len(),
            cs@ == payload@,
            out@ == pre + cs@.subrange(0, i as int),
        decreases n - i,
    {
        out.push(cs[i]);
        proof {
            assert(pre + cs@.subrange(0, i as int).push(cs@[i as int]) =~= pre + cs@.subrange(
                0,
                i + 1 as int,
            ));
        }
        i = i + 1;
    }
    if cs.len() > 100 {
        out.push(' ');
        out.push('[');
        out.push('.');
        out.push('.');
        out.push('.');
        out.push(']');
        proof {
            reveal_strlit(" [...]");
            assert(out@ =~= pre + (payload@.take(100) + " [...]"@));
        }
    } else {
        proof {
            assert(cs@.subrange(0, cs@.len() as int) =~= cs@);
        }
    }
    string_of(&out)
}

/// The private state a check run carries between polls.
#[derive(Debug)]
pub struct BasicPrivate {
    pub complete: bool,
    pub job_state: Option<String>,
    pub buildomat_id: Option<String>,
    pub error: Option<String>,
    pub cancelled: bool,
    pub events_tail: Vec<(Option<String>, String)>,
    pub event_tail_headers: Vec<(String, String)>,
    pub event_minseq: u32,
}

/// The outward state of a check-run update.
#[derive(Debug, PartialEq, Eq, Structural)]
pub enum FlushState {
    Queued,
    Running,
    Success,
    Failure,
}

/// The check-run state a private state flushes as: a complete run with
/// an error, or ending anywhere but success, failed; a complete clean
/// run succeeded; an incomplete run is queued while it waits and
/// running once the job runs.
pub open spec fn spec_flush_state(p: BasicPrivate) -> FlushState {
    if p.complete {
        if p.error is Some {
            FlushState::Failure
        } else if p.job_state matches Some(s) && s@ == "completed"@ {
            FlushState::Success
        } else {
            FlushState::Failure
        }
    } else {
        match p.job_state {
            Some(s) => if s@ == "queued"@ || s@ == "waiting"@ {
                FlushState::Queued
            } else {
                FlushState::Running
            },
            None => FlushState::Queued,
        }
    }
}

/// Project the private state into the check-run state.
pub fn flush_state(p: &BasicPrivate) -> (r: FlushState)
    ensures
        r == spec_flush_state(*p),
{
    if p.complete {
        if p.error.is_some() {
            FlushState::Failure
        } else {
            match &p.job_state {
                Some(s) => {
                    if str_eq(s.as_str(), "completed") {
                        FlushState::Success
                    } else {
                        FlushState::Failure
                    }
                },
                None => FlushState::Failure,
            }
        }
    } else {
        match &p.job_state {
            Some(s) => {
                if str_eq(s.as_str(), "queued") || str_eq(s.as_str(), "waiting") {
                    FlushState::Queued
                } else {
                    FlushState::Running
                }
            },
            None => FlushState::Queued,
        }
    }
}

/// A user may cancel a check run until it completes.
pub fn flush_offers_cancel(p: &BasicPrivate) -> (r: bool)
    ensures
        r == !p.complete,
{
    !p.complete
}

/// How many tail lines a check-run update shows at most.
pub const MAX_TAIL_LINES: usize = 25;

/// Push one line onto the bounded tail.  When the tail is full, the
/// oldest line falls off, and a tagged line is kept as a header so
/// the view shows where trimmed output came from.
pub fn tail_push(
    tail: &mut Vec<(Option<String>, String)>,
    headers: &mut Vec<(String, String)>,
    entry: (Option<String>, String),
)
    requires
        old(tail)@.len() <= 25,
    ensures
        final(tail)@.len() <= 25,
        old(tail)@.len() < 25 ==> final(tail)@ == old(tail)@.push(entry) && final(headers)@ == old(
            headers,
        )@,
        old(tail)@.len() == 25 ==> final(tail)@ == old(tail)@.push(entry).skip(1) && (match old(
            tail,
        )@[0].0 {
            Some(tag) => final(headers)@ == old(headers)@.push((tag, old(tail)@[0].1)),
            None => final(headers)@ == old(headers)@,
        }),
{
    tail.push(entry);
    if tail.len() > MAX_TAIL_LINES {
        let first = tail.remove(0);
        proof {
            assert(old(tail)@.push(entry).remove(0) =~= old(tail)@.push(entry).skip(1));
        }
        if let Some(tag) = first.0 {
            headers.push((tag, first.1));
        }
    }
}

/// Read a tag off a job's tag list.
pub fn tag_get<'a>(tags: &'a Vec<(String, String)>, name: &str) -> (r: Option<&'a String>)
    ensures
        match r {
            Some(v) => exists|i: int|
                0 <= i < tags@.len() && (#[trigger] tags@[i]).0@ == name@ && tags@[i].1 == *v,
            None => forall|i: int| 0 <= i < tags@.len() ==> (#[trigger] tags@[i]).0@ != name@,
        },
{
    let mut i: usize = 0;
    while i < tags.len()
        invariant
            i <= tags@.len(),
            forall|k: int| 0 <= k < i ==> (#[trigger] tags@[k]).0@ != name@,
        decreases tags@.len() - i,
    {
        if str_eq(tags[i].0.as_str(), name) {
            return Some(&tags[i].1);
        }
        i = i + 1;
    }
    None
}

/// The badge a finished job is shown with on the status page: its
/// colour and its word.  A cancelled failure reads differently from a
/// plain failure.
pub fn completed_badge(state: &str, cancelled: bool) -> (r: (String, String))
    ensures
        state@ == "failed"@ && cancelled ==> r.0@ == "dabea6"@ && r.1@ == "CANCEL"@,
        state@ == "failed"@ && !cancelled ==> r.0@ == "f29494"@ && r.1@ == "FAIL"@,
        state@ != "failed"@ ==> r.0@ == "97f294"@ && r.1@ == "OK"@,
{
    if str_eq(state, "failed") {
        if cancelled {
            (String::from_str("dabea6"), String::from_str("CANCEL"))
        } else {
            (String::from_str("f29494"), String::from_str("FAIL"))
        }
    } else {
        (String::from_str("97f294"), String::from_str("OK"))
    }
}

/// Whether the status page shows a job under the section for a given
/// state: finished jobs wait for their own section, a named section
/// takes exactly its state, and the catch-all section takes the rest.
pub fn status_display(job_state: &str, section: Option<&str>) -> (r: bool)
    ensures
        job_state@ == "completed"@ || job_state@ == "failed"@ ==> r == false,
        !(job_state@ == "completed"@ || job_state@ == "failed"@) ==> match section {
            Some(s) => r == (s@ == job_state@),
            None => r == true,
        },
{
    if str_eq(job_state, "completed") || str_eq(job_state, "failed") {
        return false;
    }
    match section {
        Some(s) => str_eq(s, job_state),
        None => true,
    }
}

/// The file name under which an output is offered for download: the
/// part of its path after the last slash, or the whole path if it has
/// none.
pub fn output_name(path: &str) -> (r: String)
    ensures
        match crate::cache::spec_last_index_of(path@, '/') {
            Some(i) => r@ == path@.subrange(i + 1, path@.len() as int),
            None => r@ == path@,
        },
{
    match crate::cache::rsplit_once(path, '/') {
        Some((_, suffix)) => {
            proof {
                let i = choose|i: int|
                    0 <= i < path@.len() && #[trigger] path@[i] == '/' && (forall|k: int|
                        i < k < path@.len() ==> path@[k] != '/');
            }
            suffix
        },
        None => String::from_str(path),
    }
}


/// How many artifacts a check-run summary lists at most.
pub const MAX_OUTPUTS: usize = 25;

/// Whether one more artifact is still listed, or only counted.
pub fn outputs_keep(listed: usize) -> (r: bool)
    ensures
        r == (listed < 25),
{
    listed < MAX_OUTPUTS
}

/// Ingest one job event into the private state: the cursor moves past
/// the event, output streams join the tail as truncated lines, and
/// other streams join it tagged with their origin, so trimmed lines
/// keep their context.
pub fn ingest_event(
    p: &mut BasicPrivate,
    seq: u32,
    stream: &str,
    task: Option<u32>,
    payload: &str,
)
    requires
        old(p).events_tail@.len() <= 25,
        seq < u32::MAX,
    ensures
        *final(p) == (BasicPrivate {
            event_minseq: final(p).event_minseq,
            events_tail: final(p).events_tail,
            event_tail_headers: final(p).event_tail_headers,
            ..*old(p)
        }),
        final(p).event_minseq == if seq + 1 > old(p).event_minseq {
            (seq + 1) as u32
        } else {
            old(p).event_minseq
        },
        final(p).events_tail@.len() <= 25,
        final(p).events_tail@.len() > 0,
        ({
            let entry = final(p).events_tail@.last();
            if stream@ == "stdout"@ || stream@ == "stderr"@ || stream@ == "console"@ {
                entry.0 is None && entry.1@ == spec_truncate_line(payload@, stream@ == "console"@)
            } else {
                &&& (entry.0 matches Some(tag) && tag@ == stream@ + "/"@ + (match task {
                    Some(t) => crate::json::spec_enc_nat(t as int),
                    None => "-"@,
                }))
                &&& entry.1@ == stream@ + ": "@ + payload@
            }
        }),
        old(p).events_tail@.len() < 25 ==> final(p).events_tail@ == old(p).events_tail@.push(
            final(p).events_tail@.last(),
        ) && final(p).event_tail_headers@ == old(p).event_tail_headers@,
        old(p).events_tail@.len() == 25 ==> final(p).events_tail@ == old(p).events_tail@.push(
            final(p).events_tail@.last(),
        ).skip(1) && (match old(p).events_tail@[0].0 {
            Some(tag) => final(p).event_tail_headers@ == old(p).event_tail_headers@.push(
                (tag, old(p).events_tail@[0].1),
            ),
            None => final(p).event_tail_headers@ == old(p).event_tail_headers@,
        }),
{
    if seq + 1 > p.event_minseq {
        p.event_minseq = seq + 1;
    }
    let stdio = str_eq(stream, "stdout") || str_eq(stream, "stderr");
    let console = str_eq(stream, "console");
    let entry: (Option<String>, String) = if stdio || console {
        (None, truncate_line(payload, console))
    } else {
        let mut tag: Vec<char> = chars_of(stream);
        tag.push('/');
        let ghost pre = tag@;
        match task {
            Some(t) => {
                crate::json::enc_u128(t as u128, &mut tag);
            },
            None => {
                tag.push('-');
                proof {
                    reveal_strlit("-");
                    assert(tag@ =~= pre + "-"@);
                }
            },
        }
        proof {
            reveal_strlit("/");
            assert(pre =~= stream@ + "/"@);
        }
        let tag = string_of(&tag);
        let mut line = String::from_str(stream);
        line.append(": ");
        line.append(payload);
        proof {
            reveal_strlit(": ");
            assert(line@ =~= stream@ + ": "@ + payload@);
        }
        (Some(tag), line)
    };
    let mut tail = Vec::new();
    core::mem::swap(&mut tail, &mut p.events_tail);
    let mut headers = Vec::new();
    core::mem::swap(&mut headers, &mut p.event_tail_headers);
    tail_push(&mut tail, &mut headers, entry);
    core::mem::swap(&mut tail, &mut p.events_tail);
    core::mem::swap(&mut headers, &mut p.event_tail_headers);
}

/// What to make of one dependency of a check run before submitting its
/// job, looking at the state of the check run it names.
#[derive(Debug, PartialEq, Eq, Structural)]
pub enum DependencyGate {
    /// The named run's job exists: depend on that job.
    UseJob,
    /// The named run is not of a kind that submits jobs: fail.
    WrongVariety,
    /// The named run finished without ever submitting a job: fail.
    FinishedWithoutJob,
    /// The named run has not submitted its job yet: come back later.
    Wait,
}

/// Gate one dependency of a check run: it can be depended on once its
/// job exists; a run of the wrong kind, or one that finished without a
/// job, fails the dependent run; anything else waits.
pub fn dependency_gate(
    variety_basic: bool,
    dep_job: Option<&String>,
    dep_complete: bool,
    dep_error: bool,
) -> (r: DependencyGate)
    ensures
        !variety_basic ==> r == DependencyGate::WrongVariety,
        variety_basic && dep_job is Some ==> r == DependencyGate::UseJob,
        variety_basic && dep_job is None && (dep_complete || dep_error) ==> r
            == DependencyGate::FinishedWithoutJob,
        variety_basic && dep_job is None && !dep_complete && !dep_error ==> r
            == DependencyGate::Wait,
{
    if !variety_basic {
        DependencyGate::WrongVariety
    } else if dep_job.is_some() {
        DependencyGate::UseJob
    } else if dep_complete || dep_error {
        DependencyGate::FinishedWithoutJob
    } else {
        DependencyGate::Wait
    }
}


/// The row colour the detail page gives each event stream.
pub fn stream_colour(stream: &str) -> (r: &'static str)
    ensures
        stream@ == "stdout"@ ==> r@ == "#ffffff"@,
        stream@ == "stderr"@ ==> r@ == "#ffd9da"@,
        stream@ == "task"@ ==> r@ == "#add8e6"@,
        stream@ == "worker"@ ==> r@ == "#fafad2"@,
        stream@ == "control"@ ==> r@ == "#90ee90"@,
        stream@ == "console"@ ==> r@ == "#e7d1ff"@,
{
    proof {
        reveal_strlit("stdout");
        reveal_strlit("stderr");
        reveal_strlit("task");
        reveal_strlit("worker");
        reveal_strlit("control");
        reveal_strlit("console");
        assert("stdout"@[3] == 'o' && "stderr"@[3] == 'e');
        assert("worker"@[0] == 'w' && "stdout"@[0] == 's' && "stderr"@[0] == 's');
        assert("control"@[3] == 't' && "console"@[3] == 's');
    }
    if str_eq(stream, "stdout") {
        "#ffffff"
    } else if str_eq(stream, "stderr") {
        "#ffd9da"
    } else if str_eq(stream, "task") {
        "#add8e6"
    } else if str_eq(stream, "worker") {
        "#fafad2"
    } else if str_eq(stream, "control") {
        "#90ee90"
    } else if str_eq(stream, "console") {
        "#e7d1ff"
    } else {
        "#dddddd"
    }
}

/// The repository page a job's tags point at, when the repository tags
/// are present.
pub fn repo_url(tags: &Vec<(String, String)>) -> (r: Option<String>)
    ensures
        r matches Some(u) ==> exists|i: int, k: int|
            0 <= i < tags@.len() && 0 <= k < tags@.len() && (#[trigger] tags@[i]).0@
                == "gong.repo.owner"@ && (#[trigger] tags@[k]).0@ == "gong.repo.name"@ && u@
                == "https://github.com/"@ + tags@[i].1@ + "/"@ + tags@[k].1@,
{
    let owner = match tag_get(tags, "gong.repo.owner") {
        Some(o) => o.clone(),
        None => {
            return None;
        },
    };
    let name = match tag_get(tags, "gong.repo.name") {
        Some(n) => n.clone(),
        None => {
            return None;
        },
    };
    let mut u = String::from_str("https://github.com/");
    u.append(owner.as_str());
    u.append("/");
    u.append(name.as_str());
    proof {
        let i = choose|i: int|
            0 <= i < tags@.len() && (#[trigger] tags@[i]).0@ == "gong.repo.owner"@ && tags@[i].1@
                == owner@;
        let k = choose|k: int|
            0 <= k < tags@.len() && (#[trigger] tags@[k]).0@ == "gong.repo.name"@ && tags@[k].1@
                == name@;
        assert(u@ =~= "https://github.com/"@ + tags@[i].1@ + "/"@ + tags@[k].1@);
    }
    Some(u)
}

/// The check-run page a job's tags point at, when the run tags are
/// present.
pub fn run_url(tags: &Vec<(String, String)>) -> (r: Option<String>)
    ensures
        r matches Some(u) ==> exists|i: int, k: int, m: int|
            0 <= i < tags@.len() && 0 <= k < tags@.len() && 0 <= m < tags@.len() && (
            #[trigger] tags@[i]).0@ == "gong.repo.owner"@ && (#[trigger] tags@[k]).0@
                == "gong.repo.name"@ && (#[trigger] tags@[m]).0@ == "gong.run.github_id"@ && u@
                == "https://github.com/"@ + tags@[i].1@ + "/"@ + tags@[k].1@ + "/runs/"@
                + tags@[m].1@,
{
    let owner = match tag_get(tags, "gong.repo.owner") {
        Some(o) => o.clone(),
        None => {
            return None;
        },
    };
    let name = match tag_get(tags, "gong.repo.name") {
        Some(n) => n.clone(),
        None => {
            return None;
        },
    };
    let run = match tag_get(tags, "gong.run.github_id") {
        Some(x) => x.clone(),
        None => {
            return None;
        },
    };
    let mut u = String::from_str("https://github.com/");
    u.append(owner.as_str());
    u.append("/");
    u.append(name.as_str());
    u.append("/runs/");
    u.append(run.as_str());
    proof {
        let i = choose|i: int|
            0 <= i < tags@.len() && (#[trigger] tags@[i]).0@ == "gong.repo.owner"@ && tags@[i].1@
                == owner@;
        let k = choose|k: int|
            0 <= k < tags@.len() && (#[trigger] tags@[k]).0@ == "gong.repo.name"@ && tags@[k].1@
                == name@;
        let m = choose|m: int|
            0 <= m < tags@.len() && (#[trigger] tags@[m]).0@ == "gong.run.github_id"@
                && tags@[m].1@ == run@;
        assert(u@ =~= "https://github.com/"@ + tags@[i].1@ + "/"@ + tags@[k].1@ + "/runs/"@
            + tags@[m].1@);
    }
    Some(u)
}

/// The commit page a job's tags point at, when the commit tags are
/// present.
pub fn commit_url(tags: &Vec<(String, String)>) -> (r: Option<String>)
    ensures
        r matches Some(u) ==> exists|i: int, k: int, m: int|
            0 <= i < tags@.len() && 0 <= k < tags@.len() && 0 <= m < tags@.len() && (
            #[trigger] tags@[i]).0@ == "gong.repo.owner"@ && (#[trigger] tags@[k]).0@
                == "gong.repo.name"@ && (#[trigger] tags@[m]).0@ == "gong.head.sha"@ && u@
                == "https://github.com/"@ + tags@[i].1@ + "/"@ + tags@[k].1@ + "/commit/"@
                + tags@[m].1@,
{
    let owner = match tag_get(tags, "gong.repo.owner") {
        Some(o) => o.clone(),
        None => {
            return None;
        },
    };
    let name = match tag_get(tags, "gong.repo.name") {
        Some(n) => n.clone(),
        None => {
            return None;
        },
    };
    let sha = match tag_get(tags, "gong.head.sha") {
        Some(x) => x.clone(),
        None => {
            return None;
        },
    };
    let mut u = String::from_str("https://github.com/");
    u.append(owner.as_str());
    u.append("/");
    u.append(name.as_str());
    u.append("/commit/");
    u.append(sha.as_str());
    proof {
        let i = choose|i: int|
            0 <= i < tags@.len() && (#[trigger] tags@[i]).0@ == "gong.repo.owner"@ && tags@[i].1@
                == owner@;
        let k = choose|k: int|
            0 <= k < tags@.len() && (#[trigger] tags@[k]).0@ == "gong.repo.name"@ && tags@[k].1@
                == name@;
        let m = choose|m: int|
            0 <= m < tags@.len() && (#[trigger] tags@[m]).0@ == "gong.head.sha"@ && tags@[m].1@
                == sha@;
        assert(u@ =~= "https://github.com/"@ + tags@[i].1@ + "/"@ + tags@[k].1@ + "/commit/"@
            + tags@[m].1@);
    }
    Some(u)
}

/// What cancelling a check run amounts to: nothing once it is over,
/// cancelling the submitted job if there is one, or failing the run
/// locally if it never submitted one.
#[derive(Debug, PartialEq, Eq, Structural)]
pub enum CancelStep {
    AlreadyOver,
    CancelJob,
    FailLocally,
}

/// Whether an observed job state string is terminal.
pub open spec fn spec_terminal_state(s: Seq<char>) -> bool {
    s == "complete"@ || s == "completed"@ || s == "failed"@
}

/// Decide a cancellation request against the private state and, for a
/// run with a submitted job, the job state just fetched: a run that is
/// over, or whose job already ended, needs nothing more.
pub fn cancel_step(p: &BasicPrivate, job_state: Option<&str>) -> (r: CancelStep)
    ensures
        p.complete || p.cancelled ==> r == CancelStep::AlreadyOver,
        !(p.complete || p.cancelled) && p.buildomat_id is Some ==> (match job_state {
            Some(s) => if spec_terminal_state(s@) {
                r == CancelStep::AlreadyOver
            } else {
                r == CancelStep::CancelJob
            },
            None => r == CancelStep::CancelJob,
        }),
        !(p.complete || p.cancelled) && p.buildomat_id is None ==> r == CancelStep::FailLocally,
{
    if p.complete || p.cancelled {
        CancelStep::AlreadyOver
    } else if p.buildomat_id.is_some() {
        match job_state {
            Some(s) => {
                if str_eq(s, "complete") || str_eq(s, "completed") || str_eq(s, "failed") {
                    CancelStep::AlreadyOver
                } else {
                    CancelStep::CancelJob
                }
            },
            None => CancelStep::CancelJob,
        }
    } else {
        CancelStep::FailLocally
    }
}

} // verus!

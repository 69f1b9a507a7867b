use buildomat::api;
use buildomat::assign;
use buildomat::auth::load_job_for_user;
use buildomat::central::FileSource;
use buildomat::client::ClientJobExt;
use buildomat::leases::Leases;
use buildomat::central::Central;
use buildomat::ids::JobId;
use buildomat::jobs::CreateDepend;
use buildomat::staging::{CommitProgress, FileKind, Staging};
use buildomat::store::{Database, User};

fn new_job(db: &mut Database, owner: &str, target_id: &str, now: i64) -> JobId {
    db.job_create(
        owner,
        "t",
        "default",
        target_id,
        Vec::new(),
        Vec::new(),
        Vec::new(),
        Vec::new(),
        Vec::new(),
        now,
    )
    .unwrap()
}

fn user_copy(db: &Database, i: usize) -> User {
    let u = &db.users[i];
    User {
        id: u.id.clone(),
        name: u.name.clone(),
        token: u.token.clone(),
        privileges: u.privileges.iter().cloned().collect(),
        time_create: u.time_create,
    }
}

#[test]
fn event_seqs_form_dense_prefix() {
    let mut db = Database::new();
    let t = db.target_create("default").unwrap();
    let j = new_job(&mut db, "u1", &t, 1000);
    for k in 0..4 {
        let seq = db
            .job_event_append(&j, None, "stdout", &format!("line {}", k), 1000 + k, None)
            .unwrap();
        assert_eq!(seq, k as usize);
    }
    let evs = db.job_events(&j, 0).unwrap();
    assert_eq!(evs.len(), 4);
    for (i, ev) in evs.iter().enumerate() {
        assert_eq!(ev.seq, i);
    }
    let later = db.job_events(&j, 2).unwrap();
    assert_eq!(later.len(), 2);
    assert_eq!(later[0].seq, 2);
    assert_eq!(later[1].seq, 3);
}

#[test]
fn completion_is_idempotent() {
    let mut db = Database::new();
    let t = db.target_create("default").unwrap();
    let j = new_job(&mut db, "u1", &t, 1000);
    assert_eq!(db.job_complete(&j, false, 2000).unwrap(), true);
    assert_eq!(db.job_complete(&j, false, 3000).unwrap(), false);
    assert_eq!(db.job_complete(&j, true, 4000).unwrap(), false);
    let job = db.job_by_id(&j).unwrap();
    assert!(job.complete);
    assert!(!job.failed);
}

#[test]
fn commit_is_idempotent_on_commit_id() {
    let mut db = Database::new();
    let t = db.target_create("default").unwrap();
    let j = db
        .job_create(
            "u1",
            "t",
            "default",
            &t,
            Vec::new(),
            Vec::new(),
            vec!["a.tgz".to_string()],
            Vec::new(),
            Vec::new(),
            1000,
        )
        .unwrap();
    let mut files = Staging::new();
    let c1 = files.write_chunk(&j, vec![1, 2, 3]).unwrap();
    let commit_id = "01ARZ3NDEKTSV4RRFFQ69G5FAV";

    let first = files
        .commit_file(
            &db,
            &j,
            commit_id,
            FileKind::Input { name: "a.tgz".to_string() },
            3,
            vec![c1.clone()],
        )
        .unwrap();
    assert!(matches!(first, CommitProgress::Pending));

    let again = files
        .commit_file(
            &db,
            &j,
            commit_id,
            FileKind::Input { name: "a.tgz".to_string() },
            3,
            vec![c1.clone()],
        )
        .unwrap();
    assert!(matches!(again, CommitProgress::Pending));

    files.commit_work(&mut db, &j, commit_id).unwrap();

    let done = files
        .commit_file(
            &db,
            &j,
            commit_id,
            FileKind::Input { name: "a.tgz".to_string() },
            3,
            vec![c1.clone()],
        )
        .unwrap();
    match done {
        CommitProgress::Done(e) => assert!(e.is_none()),
        _ => panic!("commit should have finished"),
    }
    let done_again = files
        .commit_file(
            &db,
            &j,
            commit_id,
            FileKind::Input { name: "a.tgz".to_string() },
            3,
            vec![c1.clone()],
        )
        .unwrap();
    match done_again {
        CommitProgress::Done(e) => assert!(e.is_none()),
        _ => panic!("repeated commit should report the same outcome"),
    }

    let mismatched = files.commit_file(
        &db,
        &j,
        commit_id,
        FileKind::Input { name: "a.tgz".to_string() },
        4,
        vec![c1.clone()],
    );
    let e = mismatched.unwrap_err();
    assert_eq!(e.status(), 400);
}

#[test]
fn chunks_commit_to_exact_concatenation() {
    let mut db = Database::new();
    let t = db.target_create("default").unwrap();
    let j = db
        .job_create(
            "u1",
            "t",
            "default",
            &t,
            Vec::new(),
            Vec::new(),
            vec!["in".to_string()],
            Vec::new(),
            Vec::new(),
            1000,
        )
        .unwrap();
    let mut files = Staging::new();
    let c1 = files.write_chunk(&j, vec![10, 20, 30]).unwrap();
    let c2 = files.write_chunk(&j, vec![40, 50]).unwrap();
    let fid = files.commit_file_sync(&j, &vec![c1, c2], 5).unwrap();
    let staged = files
        .files
        .iter()
        .find(|f| f.id.id == fid.id)
        .expect("committed file should be staged");
    assert_eq!(staged.data, vec![10, 20, 30, 40, 50]);

    let c3 = files.write_chunk(&j, vec![9]).unwrap();
    let bad = files.commit_file_sync(&j, &vec![c3], 2);
    assert_eq!(bad.unwrap_err().status(), 400);
}

#[test]
fn synchronous_input_size_boundary() {
    let mut db = Database::new();
    let t = db.target_create("default").unwrap();
    let j = db
        .job_create(
            "u1",
            "t",
            "default",
            &t,
            Vec::new(),
            Vec::new(),
            vec!["in".to_string()],
            Vec::new(),
            Vec::new(),
            1000,
        )
        .unwrap();
    let mut files = Staging::new();

    // One byte over the cap is rejected outright by the size rule.
    let over = api::job_add_input_sync(&mut db, &mut files, &j, "in", 1073741825, Vec::new());
    let e = over.unwrap_err();
    assert_eq!(e.status(), 400);
    assert!(e.msg.contains("1073741824"));

    // A negative size is rejected by the same rule.
    let neg = api::job_add_input_sync(&mut db, &mut files, &j, "in", -1, Vec::new());
    assert!(neg.unwrap_err().msg.contains("1073741824"));

    // Exactly the cap passes the size rule; with no uploaded bytes the
    // commit then fails on the size mismatch instead.
    let at = api::job_add_input_sync(&mut db, &mut files, &j, "in", 1073741824, Vec::new());
    let e = at.unwrap_err();
    assert_eq!(e.status(), 400);
    assert!(!e.msg.contains("1073741824"));

    // A small input goes all the way through.
    let c = files.write_chunk(&j, vec![1, 2, 3, 4, 5, 6]).unwrap();
    api::job_add_input_sync(&mut db, &mut files, &j, "in", 6, vec![c]).unwrap();
    let job = db.job_by_id(&j).unwrap();
    assert!(!job.waiting);
}

#[test]
fn target_resolution_follows_redirects_and_survives_cycles() {
    let mut db = Database::new();
    let a = db.target_create("old-name").unwrap();
    let b = db.target_create("new-name").unwrap();
    db.target_redirect(&a, &b).unwrap();
    let t = db.target_resolve("old-name").expect("redirect should resolve");
    assert_eq!(t.name, "new-name");

    db.target_redirect(&b, &a).unwrap();
    assert!(db.target_resolve("old-name").is_none());
    assert!(db.target_resolve("new-name").is_none());
}

#[test]
fn at_most_one_lease_per_job() {
    let mut db = Database::new();
    let t = db.target_create("default").unwrap();
    let j = new_job(&mut db, "u1", &t, 1000);
    let mut leases = Leases::new();
    assert!(leases.grant("f1", &j, 1000, 2000));
    assert!(!leases.grant("f2", &j, 1500, 2500));
    assert_eq!(leases.leases.len(), 1);
    assert!(leases.renew("f1", &j, 1600, 3000));
    assert!(!leases.renew("f2", &j, 1600, 3000));
    leases.expire(5000);
    assert_eq!(leases.leases.len(), 0);
    assert!(leases.grant("f2", &j, 5000, 6000));
    assert_eq!(leases.leases.len(), 1);
}

#[test]
fn archive_serves_identical_events_and_outputs() {
    let mut central = Central::new("bmat".to_string());
    let t = central.db.target_create("default").unwrap();
    let j = new_job(&mut central.db, "u1", &t, 1000);
    central.db.job_event_append(&j, None, "stdout", "hello", 1001, None).unwrap();
    central.db.job_event_append(&j, Some(0), "stderr", "oops", 1002, Some(999)).unwrap();
    let fid = buildomat::ids::JobFileId::generate();
    central.db.job_output_add(&j, "/out/a.bin", &fid, 77).unwrap();
    central
        .db
        .job_store_put(&j, "k", "secret value", true, "worker", 1003)
        .unwrap();
    central.complete_job(&j, false, 2000).unwrap();

    let before_events = central.load_job_events(&j, 0).unwrap();
    let before_outputs = central.load_job_outputs(&j).unwrap();

    central.archive_job(&j).unwrap();
    assert!(central.db.job_by_id(&j).unwrap().archived);
    assert_eq!(central.db.job_by_id(&j).unwrap().events.len(), 0);

    let after_events = central.load_job_events(&j, 0).unwrap();
    assert_eq!(before_events.len(), after_events.len());
    for (b, a) in before_events.iter().zip(after_events.iter()) {
        assert_eq!(b.seq, a.seq);
        assert_eq!(b.task, a.task);
        assert_eq!(b.stream, a.stream);
        assert_eq!(b.time, a.time);
        assert_eq!(b.time_remote, a.time_remote);
        assert_eq!(b.payload, a.payload);
    }
    let after_outputs = central.load_job_outputs(&j).unwrap();
    assert_eq!(before_outputs.len(), after_outputs.len());
    for (b, a) in before_outputs.iter().zip(after_outputs.iter()) {
        assert_eq!(b.path, a.path);
        assert_eq!(b.file.id, a.file.id);
        assert_eq!(b.size, a.size);
    }

    // Secret store values never leave the system.
    let shown = api::format_store(&central.archives[0].store);
    assert_eq!(shown.len(), 1);
    assert!(shown[0].1.secret);
    assert!(shown[0].1.value.is_none());
}

#[test]
fn dependency_dispatch_copies_outputs() {
    let mut db = Database::new();
    let t = db.target_create("default").unwrap();
    let a = new_job(&mut db, "u1", &t, 1000);
    let fid = buildomat::ids::JobFileId::generate();
    db.job_output_add(&a, "/out/result.tar", &fid, 123).unwrap();
    db.job_complete(&a, false, 2000).unwrap();

    let dep = CreateDepend {
        name: "prior".to_string(),
        prior_job: JobId { id: a.id.clone() },
        copy_outputs: true,
        on_failed: false,
        on_completed: true,
    };
    let b = db
        .job_create(
            "u1",
            "t2",
            "default",
            &t,
            Vec::new(),
            Vec::new(),
            Vec::new(),
            Vec::new(),
            vec![dep],
            3000,
        )
        .unwrap();
    assert!(db.job_by_id(&b).unwrap().waiting);

    let outcome = assign::dependency_step(&mut db, &b, 4000).unwrap();
    assert_eq!(outcome, assign::DependOutcome::Queued);
    let jb = db.job_by_id(&b).unwrap();
    assert!(!jb.waiting);
    assert_eq!(jb.inputs.len(), 1);
    assert_eq!(jb.inputs[0].name, "/out/result.tar");
    let (f, size) = jb.inputs[0].file.as_ref().unwrap();
    assert_eq!(f.id, fid.id);
    assert_eq!(*size, 123);
}

#[test]
fn forbidden_dependency_state_fails_the_job() {
    let mut db = Database::new();
    let t = db.target_create("default").unwrap();
    let a = new_job(&mut db, "u1", &t, 1000);
    db.job_complete(&a, true, 2000).unwrap();

    let dep = CreateDepend {
        name: "prior".to_string(),
        prior_job: JobId { id: a.id.clone() },
        copy_outputs: false,
        on_failed: false,
        on_completed: true,
    };
    let b = db
        .job_create(
            "u1", "t2", "default", &t, Vec::new(), Vec::new(), Vec::new(), Vec::new(),
            vec![dep], 3000,
        )
        .unwrap();
    let outcome = assign::dependency_step(&mut db, &b, 4000).unwrap();
    assert_eq!(outcome, assign::DependOutcome::FailedDependency);
    let jb = db.job_by_id(&b).unwrap();
    assert!(jb.complete);
    assert!(jb.failed);
}

#[test]
fn cancelled_queued_job_ends_failed() {
    let mut db = Database::new();
    let t = db.target_create("default").unwrap();
    let j = new_job(&mut db, "u1", &t, 1000);
    db.job_cancel(&j).unwrap();
    assert_eq!(assign::cancel_if_unassigned(&mut db, &j, 2000).unwrap(), true);
    let job = db.job_by_id(&j).unwrap();
    assert_eq!(api::format_job_state(job), "failed");
    assert!(job.cancelled);
    // Cancelling a complete job is refused.
    assert_eq!(db.job_cancel(&j).unwrap_err().status(), 409);
}

#[test]
fn target_privilege_gates_submission() {
    let mut db = Database::new();
    let gold = db.target_create("gold").unwrap();
    db.target_require_privilege(&gold, "use.gold").unwrap();
    let ui = db.user_create("alice", 500).unwrap();
    let alice = user_copy(&db, ui);

    let submit = || api::JobSubmit {
        name: "t".to_string(),
        target: "gold".to_string(),
        output_rules: vec!["/out/*".to_string()],
        tasks: Vec::new(),
        inputs: Vec::new(),
        tags: Vec::new(),
        depends: Vec::new(),
    };

    let denied = api::job_submit(&mut db, &alice, submit(), 1000);
    assert_eq!(denied.unwrap_err().status(), 403);

    let uid = alice.id.clone();
    db.user_privilege_grant(&uid, "use.gold").unwrap();
    let alice = user_copy(&db, ui);
    let created = api::job_submit(&mut db, &alice, submit(), 1000).unwrap();
    let job = db.job_by_id(&created).unwrap();
    assert_eq!(api::format_job_state(job), "queued");
    assert_eq!(job.output_rules.len(), 1);
    assert_eq!(job.output_rules[0].rule, "/out/*");
}

#[test]
fn assignment_runs_a_job_to_completion() {
    let mut db = Database::new();
    let t = db.target_create("default").unwrap();
    let j = new_job(&mut db, "u1", &t, 1000);
    assert_eq!(api::format_job_state(db.job_by_id(&j).unwrap()), "queued");

    let wid = db.worker_create("factory1", &t, None).unwrap();
    let bootstrap = db.workers[0].bootstrap.clone();
    let token = db.worker_bootstrap(&bootstrap).unwrap();
    assert!(db.worker_bootstrap(&bootstrap).is_err());
    assert!(db.worker_auth(&token).is_ok());

    let leases = Leases::new();
    let hold = true;
    assert_eq!(assign::assignment_step(&mut db, &leases, &j, hold, 2000).unwrap(), false);
    assert_eq!(assign::assignment_step(&mut db, &leases, &j, false, 2000).unwrap(), true);
    assert_eq!(api::format_job_state(db.job_by_id(&j).unwrap()), "running");
    assert_eq!(db.job_by_id(&j).unwrap().worker.as_deref(), Some(wid.as_str()));

    db.job_complete(&j, false, 3000).unwrap();
    assert_eq!(api::format_job_state(db.job_by_id(&j).unwrap()), "completed");
}

#[test]
fn job_duration_between_phases() {
    let mut db = Database::new();
    let t = db.target_create("default").unwrap();
    let j = new_job(&mut db, "u1", &t, 1000);
    db.job_complete(&j, false, 4500).unwrap();
    let job = db.job_by_id(&j).unwrap();
    let wire = api::format_job(job, "default");
    assert_eq!(wire.duration("submit", "complete"), Some(3500));
    assert_eq!(wire.duration("complete", "submit"), None);
    assert_eq!(wire.duration("submit", "assigned"), None);
}

#[test]
fn identifiers_decode_to_canonical_form() {
    let j = JobId::generate();
    assert_eq!(j.id.len(), 26);
    let reparsed = JobId::parse(&j.render()).unwrap();
    assert_eq!(reparsed.id, j.id);
    let lowered = j.id.to_lowercase();
    let canon = JobId::parse(&lowered).unwrap();
    assert_eq!(canon.id, j.id);
    assert!(JobId::parse("this is not an identifier").is_none());
}

#[test]
fn chunk_upload_needs_a_waiting_job() {
    let mut db = Database::new();
    let t = db.target_create("default").unwrap();
    let j = new_job(&mut db, "u1", &t, 1000);
    let mut files = Staging::new();
    // The job declared no inputs, so it is already queued.
    let denied = api::job_upload_chunk(&db, &mut files, &j, vec![1, 2, 3]);
    assert_eq!(denied.unwrap_err().status(), 409);

    let j2 = db
        .job_create(
            "u1", "t", "default", &t, Vec::new(), Vec::new(), vec!["in".to_string()],
            Vec::new(), Vec::new(), 1000,
        )
        .unwrap();
    let cid = api::job_upload_chunk(&db, &mut files, &j2, vec![1, 2, 3]).unwrap();
    assert_eq!(cid.len(), 26);
}

#[test]
fn archived_jobs_take_no_more_events() {
    let mut central = Central::new("bmat".to_string());
    let t = central.db.target_create("default").unwrap();
    let j = new_job(&mut central.db, "u1", &t, 1000);
    central.db.job_event_append(&j, None, "stdout", "x", 1001, None).unwrap();
    central.complete_job(&j, false, 2000).unwrap();
    central.archive_job(&j).unwrap();
    let refused = central.db.job_event_append(&j, None, "stdout", "late", 3000, None);
    assert_eq!(refused.unwrap_err().status(), 409);
    // A cursor past the end of the log yields nothing.
    assert_eq!(central.load_job_events(&j, 10).unwrap().len(), 0);
}

#[test]
fn completion_waits_for_uploads_in_flight() {
    let mut central = Central::new("bmat".to_string());
    let t = central.db.target_create("default").unwrap();
    let j = central
        .db
        .job_create(
            "u1", "t", "default", &t, Vec::new(), Vec::new(), vec!["in".to_string()],
            Vec::new(), Vec::new(), 1000,
        )
        .unwrap();
    let c = central.files.write_chunk(&j, vec![1]).unwrap();
    let commit_id = JobId::generate().render();
    central
        .files
        .commit_file(
            &central.db,
            &j,
            &commit_id,
            FileKind::Input { name: "in".to_string() },
            1,
            vec![c],
        )
        .unwrap();
    // The commit is still pending, so completion is refused.
    assert_eq!(central.complete_job(&j, false, 2000).unwrap_err().status(), 409);
    central.files.commit_work(&mut central.db, &j, &commit_id).unwrap();
    assert_eq!(central.complete_job(&j, false, 2000).unwrap(), true);
}

#[test]
fn factories_lease_one_queued_job() {
    let mut db = Database::new();
    let t = db.target_create("default").unwrap();
    let j = new_job(&mut db, "u1", &t, 1000);
    let mut leases = Leases::new();

    let pick = assign::lease_pick(&db, &leases, &t, 1000).expect("a queued job is leaseable");
    assert_eq!(db.jobs[pick].id.id, j.id);

    assert!(leases.grant("f1", &j, 1000, 5000));
    // Under an unexpired lease the job is not offered again.
    assert!(assign::lease_pick(&db, &leases, &t, 2000).is_none());
    // Once the lease lapses it is offered once more.
    assert!(assign::lease_pick(&db, &leases, &t, 6000).is_some());
}

#[test]
fn store_reads_survive_archival() {
    let mut central = Central::new("bmat".to_string());
    let t = central.db.target_create("default").unwrap();
    let j = new_job(&mut central.db, "u1", &t, 1000);
    central.db.job_store_put(&j, "k1", "v1", false, "user", 1100).unwrap();
    central.db.job_store_put(&j, "k2", "v2", true, "worker", 1200).unwrap();
    central.db.job_store_put(&j, "k1", "v1b", false, "worker", 1300).unwrap();
    central.complete_job(&j, false, 2000).unwrap();
    // The store of a complete job is read-only.
    assert_eq!(
        central.db.job_store_put(&j, "k3", "x", false, "user", 2100).unwrap_err().status(),
        409,
    );
    let before = central.load_job_store(&j).unwrap();
    central.archive_job(&j).unwrap();
    let after = central.load_job_store(&j).unwrap();
    assert_eq!(before.len(), 2);
    assert_eq!(after.len(), 2);
    for (b, a) in before.iter().zip(after.iter()) {
        assert_eq!(b.0, a.0);
        assert_eq!(b.1.value, a.1.value);
        assert_eq!(b.1.secret, a.1.secret);
        assert_eq!(b.1.time_update, a.1.time_update);
        assert_eq!(b.1.source, a.1.source);
    }
    assert_eq!(before[0].0, "k1");
    assert_eq!(before[0].1.value, "v1b");
}

#[test]
fn files_are_served_from_staging_then_the_blob_store() {
    let mut central = Central::new("bmat".to_string());
    let t = central.db.target_create("default").unwrap();
    let j = central
        .db
        .job_create(
            "u1", "t", "default", &t, Vec::new(), Vec::new(), vec!["in".to_string()],
            Vec::new(), Vec::new(), 1000,
        )
        .unwrap();
    let c = central.files.write_chunk(&j, vec![7, 8, 9]).unwrap();
    let fid = central.files.commit_file_sync(&j, &vec![c], 3).unwrap();
    match central.file_source(&j, &fid) {
        FileSource::Staged(i) => assert_eq!(central.files.files[i].data, vec![7, 8, 9]),
        FileSource::Blob(_) => panic!("a freshly committed file is still staged"),
    }
    let other = buildomat::ids::JobFileId::generate();
    match central.file_source(&j, &other) {
        FileSource::Staged(_) => panic!("an unknown file is not staged"),
        FileSource::Blob(key) => {
            assert_eq!(key, format!("bmat/output/{}/{}", j.id, other.id));
        },
    }
}

#[test]
fn jobs_are_visible_to_their_owner_and_to_readers() {
    let mut db = Database::new();
    let t = db.target_create("default").unwrap();
    let oi = db.user_create("owner1", 500).unwrap();
    let owner_id = db.users[oi].id.clone();
    let j = new_job(&mut db, &owner_id, &t, 1000);

    let owner = user_copy(&db, oi);
    assert!(load_job_for_user(&db, &owner, &j).is_ok());

    let si = db.user_create("stranger", 600).unwrap();
    let stranger = user_copy(&db, si);
    assert_eq!(load_job_for_user(&db, &stranger, &j).unwrap_err().status(), 403);

    let sid = db.users[si].id.clone();
    db.user_privilege_grant(&sid, "admin.job.read").unwrap();
    let reader = user_copy(&db, si);
    assert!(load_job_for_user(&db, &reader, &j).is_ok());
}

#[test]
fn prebound_worker_consumes_its_lease_at_bootstrap() {
    let mut central = Central::new("bmat".to_string());
    let t = central.db.target_create("default").unwrap();
    let j = new_job(&mut central.db, "u1", &t, 1000);

    // The factory leases the queued job and provisions a bound worker.
    assert!(central.leases.grant("f1", &j, 1000, 60000));
    central.db.worker_create("f1", &t, Some(&j)).unwrap();
    let bootstrap = central.db.workers[0].bootstrap.clone();

    let token = central.worker_bootstrap(&bootstrap, 2000).unwrap();
    assert_eq!(central.db.workers[0].token.as_deref(), Some(token.as_str()));
    // The lease was consumed and the job joined to the worker directly.
    assert_eq!(central.leases.leases.len(), 0);
    let job = central.db.job_by_id(&j).unwrap();
    assert_eq!(job.worker.as_deref(), Some(central.db.workers[0].id.as_str()));
    assert_eq!(api::format_job_state(job), "running");
}

#[test]
fn presigned_urls_are_capped_at_one_hour() {
    let central = Central::new("bmat".to_string());
    let j = JobId::generate();
    let f = buildomat::ids::JobFileId::generate();
    assert_eq!(central.presign_file(&j, &f, 3601).unwrap_err().status(), 400);
    let key = central.presign_file(&j, &f, 3600).unwrap();
    assert_eq!(key, format!("bmat/output/{}/{}", j.id, f.id));
}

#[test]
fn restore_serves_only_valid_archives() {
    // Archive a job in one instance, then read the document back in a
    // fresh one, as after a restart: the cache refills from the blob
    // store and reads are intact.
    let mut central = Central::new("bmat".to_string());
    let t = central.db.target_create("default").unwrap();
    let j = new_job(&mut central.db, "u1", &t, 1000);
    central.db.job_event_append(&j, None, "stdout", "hello", 1001, None).unwrap();
    central.complete_job(&j, false, 2000).unwrap();
    central.archive_job(&j).unwrap();

    let mut fresh = Central::new("bmat".to_string());
    fresh.db = central.db;
    fresh.blob = central.blob;
    fresh.archive_restore(&j).unwrap();
    let evs = fresh.load_job_events(&j, 0).unwrap();
    assert_eq!(evs.len(), 1);
    assert_eq!(evs[0].seq, 0);
    assert_eq!(evs[0].payload, "hello");

    // A document that is not an archive is rejected, not cached.
    let mut broken = Central::new("bmat".to_string());
    broken.db = fresh.db;
    let j2 = &j;
    let key = format!("bmat/job/1/{}.json", j2.id);
    broken.blob.put_document(key, "{\"version\":1}".to_string());
    assert!(broken.archive_restore(j2).is_err());
    assert_eq!(broken.archives.len(), 0);
}

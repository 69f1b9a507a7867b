use buildomat::auth::{parse_bearer, require_admin, require_user};
use buildomat::cache::{cache_key, hash_to_string, rsplit_once, should_delete};
use buildomat::github::{
    cancel_step, commit_url, completed_badge, dependency_gate, flush_offers_cancel, flush_state,
    ingest_event, output_name, repo_url, run_url, sign, status_display, stream_colour, tail_push,
    truncate_line, webhook_check, BasicPrivate, CancelStep, DependencyGate, FlushState,
    WebhookDecision,
};

#[test]
fn webhook_signature_gate() {
    let body: Vec<u8> = b"{\"action\":\"opened\"}".to_vec();
    let sig = sign(&body, "secret");
    assert!(sig.starts_with("sha256="));
    assert_eq!(sig.len(), 7 + 64);
    let other = sign(&body, "another secret");
    assert_ne!(sig, other);

    assert_eq!(webhook_check(&body, &sig, "secret"), WebhookDecision::Store);
    assert_eq!(webhook_check(&body, &other, "secret"), WebhookDecision::BadSignature);

    let junk: Vec<u8> = b"not json at all".to_vec();
    let junk_sig = sign(&junk, "secret");
    assert_eq!(webhook_check(&junk, &junk_sig, "secret"), WebhookDecision::BadJson);
}

#[test]
fn long_lines_are_truncated_for_the_tail() {
    let short = "a".repeat(100);
    let t = truncate_line(&short, false);
    assert_eq!(t, format!("| {}", short));

    let long = "b".repeat(101);
    let t = truncate_line(&long, true);
    assert_eq!(t, format!("|C| {} [...]", "b".repeat(100)));
}

#[test]
fn tail_keeps_a_bounded_window() {
    let mut tail: Vec<(Option<String>, String)> = Vec::new();
    let mut headers: Vec<(String, String)> = Vec::new();
    tail_push(&mut tail, &mut headers, (Some("task/0".to_string()), "first".to_string()));
    for i in 0..25 {
        tail_push(&mut tail, &mut headers, (None, format!("line {}", i)));
    }
    assert_eq!(tail.len(), 25);
    assert_eq!(headers.len(), 1);
    assert_eq!(headers[0].0, "task/0");
    assert_eq!(headers[0].1, "first");
    assert_eq!(tail[0].1, "line 0");
    assert_eq!(tail[24].1, "line 24");
}

fn private(complete: bool, job_state: Option<&str>, error: Option<&str>) -> BasicPrivate {
    BasicPrivate {
        complete,
        job_state: job_state.map(|s| s.to_string()),
        buildomat_id: None,
        error: error.map(|s| s.to_string()),
        cancelled: false,
        events_tail: Vec::new(),
        event_tail_headers: Vec::new(),
        event_minseq: 0,
    }
}

#[test]
fn check_run_state_projection() {
    assert_eq!(flush_state(&private(true, Some("completed"), None)), FlushState::Success);
    assert_eq!(flush_state(&private(true, Some("failed"), None)), FlushState::Failure);
    assert_eq!(flush_state(&private(true, Some("completed"), Some("boom"))), FlushState::Failure);
    assert_eq!(flush_state(&private(false, Some("queued"), None)), FlushState::Queued);
    assert_eq!(flush_state(&private(false, Some("waiting"), None)), FlushState::Queued);
    assert_eq!(flush_state(&private(false, Some("running"), None)), FlushState::Running);
    assert_eq!(flush_state(&private(false, None, None)), FlushState::Queued);
    assert!(flush_offers_cancel(&private(false, None, None)));
    assert!(!flush_offers_cancel(&private(true, Some("completed"), None)));
}

#[test]
fn status_page_decisions() {
    assert!(!status_display("completed", None));
    assert!(!status_display("failed", Some("failed")));
    assert!(status_display("queued", Some("queued")));
    assert!(!status_display("waiting", Some("queued")));
    assert!(status_display("running", None));

    let (colour, word) = completed_badge("failed", true);
    assert_eq!((colour.as_str(), word.as_str()), ("dabea6", "CANCEL"));
    let (colour, word) = completed_badge("failed", false);
    assert_eq!((colour.as_str(), word.as_str()), ("f29494", "FAIL"));
    let (colour, word) = completed_badge("completed", false);
    assert_eq!((colour.as_str(), word.as_str()), ("97f294", "OK"));
}

#[test]
fn artifact_names_split_on_the_last_dash() {
    let (stem, suffix) = rsplit_once("xtask-ca8ab49bcd07610e.d", '-').unwrap();
    assert_eq!(stem, "xtask");
    assert_eq!(suffix, "ca8ab49bcd07610e.d");
    assert!(rsplit_once("nodash", '-').is_none());

    let packages = vec!["my_tool".to_string(), "helper_lib".to_string()];
    assert!(should_delete("my-tool-ca8ab49bcd07610e.d", &packages));
    assert!(should_delete("helper_lib-b6a1d8acea55233f", &packages));
    assert!(!should_delete("serde-9f8c2a", &packages));
    assert!(should_delete("no_dash_name", &packages));
}

#[test]
fn cache_key_digests_the_material() {
    // The digest of no material at all is the well-known empty digest.
    let empty: Vec<Vec<u8>> = Vec::new();
    assert_eq!(
        cache_key(&empty),
        "e3b0c44298fc1c149afbf4c8996fb92427ae41e4649b934ca495991b7852b855"
    );
    // Splitting the same bytes differently changes nothing.
    let one: Vec<Vec<u8>> = vec![b"release: 1.74".to_vec()];
    let two: Vec<Vec<u8>> = vec![b"release".to_vec(), b": 1.74".to_vec()];
    assert_eq!(cache_key(&one), cache_key(&two));
    assert_ne!(cache_key(&one), cache_key(&empty));
}

#[test]
fn digest_text_drops_leading_zero_of_small_bytes() {
    assert_eq!(hash_to_string(&vec![0x05, 0xab, 0x00, 0x10]), "5ab010");
}

#[test]
fn bearer_realms() {
    let mut db = buildomat::store::Database::new();
    let ui = db.user_create("alice", 500).unwrap();
    let token = db.users[ui].token.clone();

    assert!(require_user(&mut db, "wrong", None, 1000).is_err());
    assert_eq!(require_user(&mut db, &token, None, 1000).unwrap(), ui);

    // Delegation needs the privilege, and creates the named user.
    assert!(require_user(&mut db, &token, Some("repo.octo"), 1000).is_err());
    let uid = db.users[ui].id.clone();
    db.user_privilege_grant(&uid, "delegate").unwrap();
    let di = require_user(&mut db, &token, Some("repo.octo"), 1000).unwrap();
    assert_eq!(db.users[di].name, "repo.octo");

    // Admin: the configured token, or a delegated admin privilege.
    assert!(require_admin(&db, "admintok123", "admintok123", "job.read").is_ok());
    assert!(require_admin(&db, &token, "admintok123", "job.read").is_err());
    db.user_privilege_grant(&uid, "admin.job.read").unwrap();
    assert!(require_admin(&db, &token, "admintok123", "job.read").is_ok());
}

#[test]
fn event_ingestion_advances_the_cursor() {
    let mut p = private(false, Some("running"), None);
    ingest_event(&mut p, 0, "stdout", None, "hello");
    assert_eq!(p.event_minseq, 1);
    assert_eq!(p.events_tail.len(), 1);
    assert_eq!(p.events_tail[0], (None, "| hello".to_string()));

    ingest_event(&mut p, 1, "worker", Some(2), "booting");
    assert_eq!(p.event_minseq, 2);
    assert_eq!(
        p.events_tail[1],
        (Some("worker/2".to_string()), "worker: booting".to_string())
    );

    // A replayed older event never moves the cursor backwards.
    ingest_event(&mut p, 0, "stdout", None, "again");
    assert_eq!(p.event_minseq, 2);
}

#[test]
fn dependency_gate_decisions() {
    let id = "01ARZ3NDEKTSV4RRFFQ69G5FAV".to_string();
    assert_eq!(dependency_gate(true, Some(&id), false, false), DependencyGate::UseJob);
    assert_eq!(dependency_gate(false, None, false, false), DependencyGate::WrongVariety);
    assert_eq!(dependency_gate(true, None, true, false), DependencyGate::FinishedWithoutJob);
    assert_eq!(dependency_gate(true, None, false, true), DependencyGate::FinishedWithoutJob);
    assert_eq!(dependency_gate(true, None, false, false), DependencyGate::Wait);
}

#[test]
fn bearer_header_forms() {
    assert_eq!(parse_bearer("Bearer tok123"), Some("tok123".to_string()));
    assert_eq!(parse_bearer("bearer  tok123"), Some("tok123".to_string()));
    assert_eq!(parse_bearer("BEARER\ttok123"), Some("tok123".to_string()));
    assert_eq!(parse_bearer("  Bearer tok123  "), Some("tok123".to_string()));
    assert_eq!(parse_bearer("Bearer"), None);
    assert_eq!(parse_bearer("Bearer ab"), None);
    assert_eq!(parse_bearer("Basic tok123"), None);
    assert_eq!(parse_bearer("Bearer tok 123"), None);
    assert_eq!(parse_bearer(""), None);
}

#[test]
fn detail_rows_are_coloured_by_stream() {
    assert_eq!(stream_colour("stdout"), "#ffffff");
    assert_eq!(stream_colour("stderr"), "#ffd9da");
    assert_eq!(stream_colour("task"), "#add8e6");
    assert_eq!(stream_colour("worker"), "#fafad2");
    assert_eq!(stream_colour("control"), "#90ee90");
    assert_eq!(stream_colour("console"), "#e7d1ff");
    assert_eq!(stream_colour("odd"), "#dddddd");
}

#[test]
fn tag_urls() {
    let tags = vec![
        ("gong.repo.owner".to_string(), "acme".to_string()),
        ("gong.repo.name".to_string(), "widget".to_string()),
        ("gong.run.github_id".to_string(), "991".to_string()),
        ("gong.head.sha".to_string(), "abc123".to_string()),
    ];
    assert_eq!(repo_url(&tags), Some("https://github.com/acme/widget".to_string()));
    assert_eq!(run_url(&tags), Some("https://github.com/acme/widget/runs/991".to_string()));
    assert_eq!(
        commit_url(&tags),
        Some("https://github.com/acme/widget/commit/abc123".to_string())
    );
    let none: Vec<(String, String)> = Vec::new();
    assert_eq!(repo_url(&none), None);
    assert_eq!(run_url(&tags[..2].to_vec()), None);
}

#[test]
fn cancellation_decisions() {
    let mut p = private(false, Some("running"), None);
    p.buildomat_id = Some("01ARZ3NDEKTSV4RRFFQ69G5FAV".to_string());
    assert_eq!(cancel_step(&p, Some("running")), CancelStep::CancelJob);
    assert_eq!(cancel_step(&p, None), CancelStep::CancelJob);
    // A job that already ended needs no cancel call.
    assert_eq!(cancel_step(&p, Some("complete")), CancelStep::AlreadyOver);
    assert_eq!(cancel_step(&p, Some("completed")), CancelStep::AlreadyOver);
    assert_eq!(cancel_step(&p, Some("failed")), CancelStep::AlreadyOver);
    p.buildomat_id = None;
    assert_eq!(cancel_step(&p, None), CancelStep::FailLocally);
    p.complete = true;
    assert_eq!(cancel_step(&p, None), CancelStep::AlreadyOver);
}

#[test]
fn output_names_come_from_the_path_tail() {
    assert_eq!(output_name("/out/sub/image.gz"), "image.gz");
    assert_eq!(output_name("plain"), "plain");
}

#[test]
fn ingest_event_tags_carry_stream_and_task() {
    let mut p = private(false, Some("running"), None);
    ingest_event(&mut p, 0, "task", None, "starting");
    assert_eq!(p.events_tail[0], (Some("task/-".to_string()), "task: starting".to_string()));
    ingest_event(&mut p, 1, "worker", Some(12), "boot");
    assert_eq!(p.events_tail[1], (Some("worker/12".to_string()), "worker: boot".to_string()));
}

use buildomat::archive::{archive_capture, archive_of_json, archive_to_json, ArchivedJob};
use buildomat::ids::JobFileId;
use buildomat::jobs::{JobEvent, JobOutput, StoreValue, Task};
use buildomat::json::{parse_document, render_json, Json};
use buildomat::rules::CreateOutputRule;

fn rt(v: Json) -> Json {
    let text = render_json(&v);
    parse_document(&text).expect("a rendered document should parse")
}

#[test]
fn json_round_trip_scalars() {
    for v in [
        Json::Null,
        Json::Bool(true),
        Json::Bool(false),
        Json::Num(0),
        Json::Num(42),
        Json::Num(-7),
        Json::Num(i128::MAX),
        Json::Num(i128::MIN),
        Json::Str("".to_string()),
        Json::Str("plain".to_string()),
        Json::Str("he said \"no\\never\"\n\tok\r".to_string()),
        Json::Str("control \u{1} and \u{1f} chars".to_string()),
    ] {
        let text = render_json(&v);
        let back = rt(v);
        assert_eq!(render_json(&back), text);
    }
}

#[test]
fn json_round_trip_structures() {
    let mut inner: Vec<(String, Json)> = Vec::new();
    inner.push(("a".to_string(), Json::Num(1)));
    inner.push(("b".to_string(), Json::Arr(vec![Json::Null, Json::Bool(true)])));
    let v = Json::Obj(vec![
        ("empty_arr".to_string(), Json::Arr(Vec::new())),
        ("empty_obj".to_string(), Json::Obj(Vec::new())),
        ("nested".to_string(), Json::Obj(inner)),
        ("text".to_string(), Json::Str("x,y:[z]".to_string())),
    ]);
    let text = render_json(&v);
    assert_eq!(
        text,
        "{\"empty_arr\":[],\"empty_obj\":{},\"nested\":{\"a\":1,\"b\":[null,true]},\"text\":\"x,y:[z]\"}"
    );
    let back = rt(v);
    assert_eq!(render_json(&back), text);
}

#[test]
fn json_rejects_trailing_garbage() {
    assert!(parse_document("42 ").is_none());
    assert!(parse_document("[1,2]x").is_none());
    assert!(parse_document("").is_none());
    assert!(parse_document("{\"a\"}").is_none());
}

fn sample_archive() -> ArchivedJob {
    ArchivedJob {
        version: 1,
        id: "01ARZ3NDEKTSV4RRFFQ69G5FAV".to_string(),
        owner: "owner1".to_string(),
        name: "build".to_string(),
        target: "default".to_string(),
        target_id: "01BX5ZZKBKACTAV9WEVGEMMVRY".to_string(),
        failed: false,
        cancelled: false,
        tasks: vec![Task {
            name: "setup".to_string(),
            script: "echo \"hi\"\nexit 0".to_string(),
            env_clear: false,
            env: vec![("PATH".to_string(), "/bin:/usr/bin".to_string())],
            user_id: Some(12345),
            group_id: None,
            workdir: Some("/work".to_string()),
            complete: true,
            failed: false,
        }],
        output_rules: vec![CreateOutputRule {
            rule: "/out/*".to_string(),
            ignore: false,
            require_match: true,
            size_change_ok: false,
        }],
        outputs: vec![JobOutput {
            path: "/out/a.bin".to_string(),
            file: JobFileId { id: "01BX5ZZKBKACTAV9WEVGEMMVS0".to_string() },
            size: 77,
            published: Some(("series".to_string(), "v1".to_string(), "a.bin".to_string())),
        }],
        tags: vec![("gong.name".to_string(), "check".to_string())],
        times: vec![("submit".to_string(), 1000), ("complete".to_string(), -5)],
        events: vec![JobEvent {
            task: Some(0),
            seq: 0,
            stream: "stdout".to_string(),
            time: 1001,
            time_remote: None,
            payload: "hello \"world\"".to_string(),
        }],
        store: vec![(
            "k".to_string(),
            StoreValue {
                value: "v".to_string(),
                secret: true,
                time_update: 1003,
                source: "worker".to_string(),
            },
        )],
    }
}

#[test]
fn archive_document_round_trip_reproduces_all_fields() {
    let a = sample_archive();
    let text = render_json(&archive_to_json(&a));
    let parsed = parse_document(&text).expect("archive documents are well-formed");
    let b = archive_of_json(&parsed).expect("a written archive reads back");

    assert_eq!(b.version, a.version);
    assert_eq!(b.id, a.id);
    assert_eq!(b.owner, a.owner);
    assert_eq!(b.name, a.name);
    assert_eq!(b.target, a.target);
    assert_eq!(b.target_id, a.target_id);
    assert_eq!(b.failed, a.failed);
    assert_eq!(b.cancelled, a.cancelled);

    assert_eq!(b.tasks.len(), 1);
    assert_eq!(b.tasks[0].name, a.tasks[0].name);
    assert_eq!(b.tasks[0].script, a.tasks[0].script);
    assert_eq!(b.tasks[0].env_clear, a.tasks[0].env_clear);
    assert_eq!(b.tasks[0].env, a.tasks[0].env);
    assert_eq!(b.tasks[0].user_id, a.tasks[0].user_id);
    assert_eq!(b.tasks[0].group_id, a.tasks[0].group_id);
    assert_eq!(b.tasks[0].workdir, a.tasks[0].workdir);
    assert_eq!(b.tasks[0].complete, a.tasks[0].complete);
    assert_eq!(b.tasks[0].failed, a.tasks[0].failed);

    assert_eq!(b.output_rules.len(), 1);
    assert_eq!(b.output_rules[0], a.output_rules[0]);

    assert_eq!(b.outputs.len(), 1);
    assert_eq!(b.outputs[0].path, a.outputs[0].path);
    assert_eq!(b.outputs[0].file.id, a.outputs[0].file.id);
    assert_eq!(b.outputs[0].size, a.outputs[0].size);
    assert_eq!(b.outputs[0].published, a.outputs[0].published);

    assert_eq!(b.tags, a.tags);
    assert_eq!(b.times, a.times);

    assert_eq!(b.events.len(), 1);
    assert_eq!(b.events[0].task, a.events[0].task);
    assert_eq!(b.events[0].seq, a.events[0].seq);
    assert_eq!(b.events[0].stream, a.events[0].stream);
    assert_eq!(b.events[0].time, a.events[0].time);
    assert_eq!(b.events[0].time_remote, a.events[0].time_remote);
    assert_eq!(b.events[0].payload, a.events[0].payload);

    assert_eq!(b.store.len(), 1);
    assert_eq!(b.store[0].0, a.store[0].0);
    assert_eq!(b.store[0].1.value, a.store[0].1.value);
    assert_eq!(b.store[0].1.secret, a.store[0].1.secret);
    assert_eq!(b.store[0].1.time_update, a.store[0].1.time_update);
    assert_eq!(b.store[0].1.source, a.store[0].1.source);

    // An unknown layout version is rejected rather than served.
    let mut c = sample_archive();
    c.version = 2;
    let text2 = render_json(&archive_to_json(&c));
    let parsed2 = parse_document(&text2).unwrap();
    assert!(archive_of_json(&parsed2).is_none());
}

#[test]
fn captured_archive_is_valid() {
    let mut db = buildomat::store::Database::new();
    let t = db.target_create("default").unwrap();
    let j = db
        .job_create(
            "u1",
            "t",
            "default",
            &t,
            Vec::new(),
            Vec::new(),
            Vec::new(),
            Vec::new(),
            Vec::new(),
            1000,
        )
        .unwrap();
    let job = db.job_by_id(&j).unwrap();
    let a = archive_capture(job);
    assert!(a.is_valid());
    assert_eq!(a.id, j.id);
}

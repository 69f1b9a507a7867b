use buildomat::publish::JobOutputPublish;
use buildomat::rules::{parse_output_rule, render_output_rule, CreateOutputRule};

#[test]
fn test_parse_output_rule() {
    let cases = vec![
        (
            "/var/log/*.log",
            CreateOutputRule {
                rule: "/var/log/*.log".into(),
                ignore: false,
                size_change_ok: false,
                require_match: false,
            },
        ),
        (
            "!/var/log/*.log",
            CreateOutputRule {
                rule: "/var/log/*.log".into(),
                ignore: true,
                size_change_ok: false,
                require_match: false,
            },
        ),
        (
            "=/var/log/*.log",
            CreateOutputRule {
                rule: "/var/log/*.log".into(),
                ignore: false,
                size_change_ok: false,
                require_match: true,
            },
        ),
        (
            "%/var/log/*.log",
            CreateOutputRule {
                rule: "/var/log/*.log".into(),
                ignore: false,
                size_change_ok: true,
                require_match: false,
            },
        ),
        (
            "=%/var/log/*.log",
            CreateOutputRule {
                rule: "/var/log/*.log".into(),
                ignore: false,
                size_change_ok: true,
                require_match: true,
            },
        ),
        (
            "%=/var/log/*.log",
            CreateOutputRule {
                rule: "/var/log/*.log".into(),
                ignore: false,
                size_change_ok: true,
                require_match: true,
            },
        ),
    ];

    for (rule, want) in cases {
        println!("case {:?} -> {:?}", rule, want);
        let got = parse_output_rule(rule).unwrap();
        assert_eq!(got, want);
    }
}

#[test]
fn test_parse_output_rule_failures() {
    let cases = vec![
        "",
        "target/some/file",
        "!var/log/*.log",
        "%var/log/*.log",
        "=var/log/*.log",
        "!!/var/log/*.log",
        "!=/var/log/*.log",
        "!%/var/log/*.log",
        "%!/var/log/*.log",
        "=!/var/log/*.log",
        "==/var/log/*.log",
        "%%/var/log/*.log",
        "=%=/var/log/*.log",
        "%=%/var/log/*.log",
        "=%!/var/log/*.log",
        "%=!/var/log/*.log",
    ];

    for should_fail in cases {
        println!();
        println!("should fail {:?}", should_fail);
        match parse_output_rule(should_fail) {
            Err(e) => println!("  yes, fail! {:?}", e.msg),
            Ok(res) => panic!("  wanted failure, got {:?}", res),
        }
    }
}

#[test]
fn output_rule_survives_reconstruction() {
    for s in ["/out/*", "!/tmp/x", "=%/a/b", "%=/a/b", "%/y", "=/z"] {
        let parsed = parse_output_rule(s).unwrap();
        let rendered = render_output_rule(&parsed);
        let reparsed = parse_output_rule(&rendered).unwrap();
        assert_eq!(parsed, reparsed);
    }
}

#[test]
fn publish_identifier_bounds() {
    assert!(JobOutputPublish::one_safe("a").is_err());
    assert!(JobOutputPublish::one_safe("ab").is_ok());
    let ok48: String = "a".repeat(48);
    assert!(JobOutputPublish::one_safe(&ok48).is_ok());
    let bad49: String = "a".repeat(49);
    assert!(JobOutputPublish::one_safe(&bad49).is_err());
    assert!(JobOutputPublish::one_safe("a/b").is_err());
    let p = JobOutputPublish {
        series: "linux".into(),
        version: "2.0".into(),
        name: "image_gz".into(),
    };
    assert!(p.safe().is_ok());
}

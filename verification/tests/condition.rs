use indexmap::IndexMap;
use zenops::condition::{
    check_single_kind, condition_kind, Condition, ConditionKind, ConditionOrRef, Conditions, Error, Evaluation,
    FileProbe, HostContext, HostnameRegex,
};
use zenops::expand::ExpandStr;
use zenops::pkg::{Os, Shell};

/// Evaluate `cor`, answering `file_exists` probes from `existing`.
fn eval_with(
    regs: &Conditions,
    cor: &ConditionOrRef,
    os: Os,
    shell: Option<Shell>,
    hostname: &str,
    home: &str,
    sys: &IndexMap<String, String>,
    existing: &[&str],
) -> Result<bool, Error> {
    let mut probes: Vec<FileProbe> = Vec::new();
    loop {
        let ctx = HostContext { os, shell, hostname, home, system_inputs: sys, probes: &probes };
        match regs.evaluate(cor, &ctx)? {
            Evaluation::Value(b) => return Ok(b),
            Evaluation::NeedsProbe(p) => {
                assert!(!probes.iter().any(|q| q.path == p), "probe asked twice: {p}");
                let exists = existing.contains(&p.as_str());
                probes.push(FileProbe { path: p, exists: Ok(exists) });
            }
        }
    }
}

fn eval(regs: &Conditions, cor: &ConditionOrRef, os: Os, shell: Option<Shell>, hostname: &str) -> bool {
    let sys = IndexMap::new();
    eval_with(regs, cor, os, shell, hostname, "/home/u", &sys, &[]).unwrap()
}

fn named(name: &str) -> ConditionOrRef {
    ConditionOrRef::Ref(name.to_string())
}

fn registry(entries: Vec<(&str, Condition)>) -> IndexMap<String, Condition> {
    let mut m = IndexMap::new();
    for (k, c) in entries {
        m.insert(k.to_string(), c);
    }
    m
}

#[test]
fn os_variant_round_trips_and_evaluates() {
    let regs = Conditions::compile(registry(vec![("linux", Condition::Os { os: Os::Linux })])).unwrap();
    let c = named("linux");
    assert!(eval(&regs, &c, Os::Linux, None, ""));
    assert!(!eval(&regs, &c, Os::Macos, None, ""));
}

#[test]
fn shell_variant_treats_unset_shell_as_no_match() {
    let regs = Conditions::compile(registry(vec![("zsh", Condition::Shell { shell: Shell::Zsh })])).unwrap();
    let c = named("zsh");
    assert!(eval(&regs, &c, Os::Linux, Some(Shell::Zsh), ""));
    assert!(!eval(&regs, &c, Os::Linux, Some(Shell::Bash), ""));
    assert!(!eval(&regs, &c, Os::Linux, None, ""));
}

#[test]
fn hostname_regex_matches_anchored_pattern() {
    let hostname = HostnameRegex::new("^work-.*").unwrap();
    let regs = Conditions::compile(registry(vec![("work", Condition::Hostname { hostname })])).unwrap();
    let c = named("work");
    assert!(eval(&regs, &c, Os::Linux, None, "work-laptop"));
    assert!(!eval(&regs, &c, Os::Linux, None, "dev-box"));
}

#[test]
fn hostname_regex_rejects_a_bad_pattern() {
    assert!(HostnameRegex::new("(unclosed").is_err());
    assert_eq!(HostnameRegex::new("^a$").unwrap().as_str(), "^a$");
}

#[test]
fn file_exists_expands_tilde_and_inputs() {
    let regs = Conditions::compile(registry(vec![(
        "has",
        Condition::FileExists { file_exists: ExpandStr::new("~/.marker".to_string()) },
    )]))
    .unwrap();
    let sys = IndexMap::new();
    let c = named("has");
    assert!(eval_with(&regs, &c, Os::Linux, None, "", "/tmp/t", &sys, &["/tmp/t/.marker"]).unwrap());
    assert!(!eval_with(&regs, &c, Os::Linux, None, "", "/tmp/t", &sys, &[]).unwrap());
}

#[test]
fn file_exists_resolves_system_inputs_and_reports_expansion_failure() {
    let regs = Conditions::compile(registry(vec![(
        "has",
        Condition::FileExists { file_exists: ExpandStr::new("${root}/x".to_string()) },
    )]))
    .unwrap();
    let mut sys = IndexMap::new();
    let c = named("has");
    assert!(matches!(
        eval_with(&regs, &c, Os::Linux, None, "", "/h", &sys, &[]),
        Err(Error::Expand(_))
    ));
    sys.insert("root".to_string(), "/opt".to_string());
    assert!(eval_with(&regs, &c, Os::Linux, None, "", "/h", &sys, &["/opt/x"]).unwrap());
}

#[test]
fn file_exists_probe_failure_is_reported_with_the_path() {
    let regs = Conditions::compile(IndexMap::new()).unwrap();
    let cor = ConditionOrRef::Inline(Condition::FileExists { file_exists: ExpandStr::new("~/f".to_string()) });
    let sys = IndexMap::new();
    let probes = vec![FileProbe { path: "/h/f".to_string(), exists: Err("denied".to_string()) }];
    let ctx = HostContext { os: Os::Linux, shell: None, hostname: "", home: "/h", system_inputs: &sys, probes: &probes };
    assert_eq!(
        regs.evaluate(&cor, &ctx),
        Err(Error::ExistsFailed("/h/f".to_string(), "denied".to_string()))
    );
    let none: Vec<FileProbe> = Vec::new();
    let ctx = HostContext { os: Os::Linux, shell: None, hostname: "", home: "/h", system_inputs: &sys, probes: &none };
    assert_eq!(regs.evaluate(&cor, &ctx), Ok(Evaluation::NeedsProbe("/h/f".to_string())));
}

#[test]
fn all_combinator_uses_named_refs() {
    let regs = Conditions::compile(registry(vec![
        ("linux", Condition::Os { os: Os::Linux }),
        ("bash", Condition::Shell { shell: Shell::Bash }),
        ("linux_bash", Condition::All { all: vec![named("linux"), named("bash")] }),
    ]))
    .unwrap();
    let c = named("linux_bash");
    assert!(eval(&regs, &c, Os::Linux, Some(Shell::Bash), ""));
    assert!(!eval(&regs, &c, Os::Linux, Some(Shell::Zsh), ""));
    assert!(!eval(&regs, &c, Os::Macos, Some(Shell::Bash), ""));
}

#[test]
fn any_combinator_uses_inline_and_ref_mix() {
    let regs = Conditions::compile(registry(vec![
        ("linux", Condition::Os { os: Os::Linux }),
        (
            "either",
            Condition::Any {
                any: vec![named("linux"), ConditionOrRef::Inline(Condition::Shell { shell: Shell::Zsh })],
            },
        ),
    ]))
    .unwrap();
    let c = named("either");
    assert!(eval(&regs, &c, Os::Linux, None, ""));
    assert!(eval(&regs, &c, Os::Macos, Some(Shell::Zsh), ""));
    assert!(!eval(&regs, &c, Os::Macos, Some(Shell::Bash), ""));
}

#[test]
fn not_combinator_inverts() {
    let regs = Conditions::compile(registry(vec![
        ("zsh", Condition::Shell { shell: Shell::Zsh }),
        ("not_zsh", Condition::Not { not: Box::new(named("zsh")) }),
    ]))
    .unwrap();
    let c = named("not_zsh");
    assert!(eval(&regs, &c, Os::Linux, Some(Shell::Bash), ""));
    assert!(!eval(&regs, &c, Os::Linux, Some(Shell::Zsh), ""));
}

#[test]
fn any_stops_at_the_first_match_without_probing_later_children() {
    let regs = Conditions::compile(IndexMap::new()).unwrap();
    let cor = ConditionOrRef::Inline(Condition::Any {
        any: vec![
            ConditionOrRef::Inline(Condition::Os { os: Os::Linux }),
            ConditionOrRef::Inline(Condition::FileExists { file_exists: ExpandStr::new("/never".to_string()) }),
        ],
    });
    let sys = IndexMap::new();
    let none: Vec<FileProbe> = Vec::new();
    let ctx = HostContext { os: Os::Linux, shell: None, hostname: "", home: "/h", system_inputs: &sys, probes: &none };
    assert_eq!(regs.evaluate(&cor, &ctx), Ok(Evaluation::Value(true)));
}

#[test]
fn unknown_kind_errors_with_helpful_message() {
    let err = condition_kind(Some("oops")).unwrap_err();
    assert!(err.contains("unknown condition kind 'oops'"), "expected message about unknown kind, got: {err}");
    assert!(err.contains("os, shell, hostname, file_exists, all, any, not"), "expected list of valid kinds, got: {err}");
}

#[test]
fn empty_kind_table_errors() {
    let err = condition_kind(None).unwrap_err();
    assert!(err.contains("empty condition table"), "expected empty-table error, got: {err}");
}

#[test]
fn multiple_kinds_error() {
    assert_eq!(condition_kind(Some("os")), Ok(ConditionKind::Os));
    let err = check_single_kind("os", Some("shell")).unwrap_err();
    assert!(err.contains("exactly one kind"), "expected multiple-kinds error, got: {err}");
    assert_eq!(err, "condition must have exactly one kind, found 'os' and 'shell'");
    assert!(check_single_kind("os", None).is_ok());
}

#[test]
fn unknown_ref_caught_at_compile() {
    let err = Conditions::compile(registry(vec![("a", Condition::All { all: vec![named("nope")] })])).unwrap_err();
    assert!(
        matches!(err, Error::UnknownRef { ref name, ref from } if name.as_str() == "nope" && from.as_str() == "a"),
        "expected UnknownRef(nope), got: {err:?}"
    );
}

#[test]
fn cycle_caught_at_compile() {
    let err = Conditions::compile(registry(vec![
        ("a", Condition::All { all: vec![named("b")] }),
        ("b", Condition::All { all: vec![named("a")] }),
    ]))
    .unwrap_err();
    match err {
        Error::Cycle { ref path } => {
            assert!(path.contains("a") && path.contains("b"), "got: {path}");
            assert_eq!(path, "a -> b -> a");
        }
        other => panic!("expected Cycle, got: {other:?}"),
    }
}

#[test]
fn self_reference_is_a_cycle() {
    let err = Conditions::compile(registry(vec![("a", Condition::Not { not: Box::new(named("a")) })])).unwrap_err();
    assert_eq!(err, Error::Cycle { path: "a -> a".to_string() });
}

#[test]
fn shared_dependencies_are_not_cycles() {
    let regs = Conditions::compile(registry(vec![
        ("base", Condition::Os { os: Os::Linux }),
        ("x", Condition::All { all: vec![named("base"), named("base")] }),
        ("y", Condition::Any { any: vec![named("x"), named("base")] }),
    ]));
    assert!(regs.is_ok());
    assert!(regs.unwrap().get("y").is_some());
}

#[test]
fn inline_when_with_no_registry_entry_works() {
    let regs = Conditions::compile(IndexMap::new()).unwrap();
    let cor = ConditionOrRef::Inline(Condition::Os { os: Os::Linux });
    assert!(eval(&regs, &cor, Os::Linux, None, ""));
    assert!(!eval(&regs, &cor, Os::Macos, None, ""));
}

#[test]
fn evaluating_an_unknown_name_reports_runtime_origin() {
    let regs = Conditions::compile(IndexMap::new()).unwrap();
    let sys = IndexMap::new();
    let err = eval_with(&regs, &named("ghost"), Os::Linux, None, "", "/h", &sys, &[]).unwrap_err();
    assert_eq!(err, Error::UnknownRef { name: "ghost".to_string(), from: "<runtime>".to_string() });
    assert!(regs.get("ghost").is_none());
}

use indexmap::IndexMap;
use zenops::expand::ExpandStr;
use zenops::pkg::{
    DetectHost, DetectKind, DetectStrategy, HostAnswer, HostQuery, InstallHint, Os, PerShellActions, PkgConfig,
    PkgEnable, PkgShellConfig, Probed, Shell,
};

const HOME: &str = "/home/t";

/// Run `f` against a host where exactly `files` exist and `bins` are on
/// `PATH`, answering each question it asks.
fn on_host<T>(os: Option<Os>, files: &[&str], bins: &[&str], f: impl Fn(&DetectHost) -> Probed<T>) -> T {
    let mut answers: Vec<HostAnswer> = Vec::new();
    loop {
        let host = DetectHost { os, home: HOME, answers: &answers };
        match f(&host) {
            Probed::Known(v) => return v,
            Probed::Needs(q) => {
                assert!(!answers.iter().any(|a| a.query == q), "asked twice: {q:?}");
                let found = match &q {
                    HostQuery::File(p) => files.contains(&p.as_str()),
                    HostQuery::Which(b) => bins.contains(&b.as_str()),
                };
                answers.push(HostAnswer { query: q, found });
            }
        }
    }
}

fn no_actions() -> PerShellActions {
    PerShellActions { bash: Vec::new(), zsh: Vec::new() }
}

fn pkg(enable: PkgEnable, detect: Option<DetectStrategy>) -> PkgConfig {
    PkgConfig {
        enable,
        detect,
        inputs: IndexMap::new(),
        supported_os: Vec::new(),
        supported_shells: Vec::new(),
        name: None,
        description: None,
        install_hint: InstallHint::default(),
        shell: PkgShellConfig { env_init: no_actions(), login_init: no_actions(), interactive_init: no_actions() },
        configs: Vec::new(),
    }
}

fn file(path: &str) -> DetectStrategy {
    DetectStrategy { os: Vec::new(), kind: DetectKind::File { path: ExpandStr::new(path.to_string()) } }
}

fn which(binary: &str) -> DetectStrategy {
    DetectStrategy { os: Vec::new(), kind: DetectKind::Which { binary: ExpandStr::new(binary.to_string()) } }
}

fn installed(p: &PkgConfig, sys: &IndexMap<String, String>, files: &[&str]) -> bool {
    on_host(Some(Os::Linux), files, &[], |h| p.is_installed(h, sys))
}

fn missing_signal(p: &PkgConfig, files: &[&str]) -> bool {
    let sys = IndexMap::new();
    on_host(Some(Os::Linux), files, &[], |h| p.enable_on_but_detect_missing(h, &sys))
}

#[test]
fn pkg_detect_strategy_with_unresolved_input_reports_not_installed() {
    let p = pkg(PkgEnable::Detect, Some(file("${brew_prefix}/opt/x")));
    let sys = IndexMap::new();
    assert!(!installed(&p, &sys, &[]));
    assert!(on_host(Some(Os::Linux), &[], &[], |h| p.matched_detect(h, &sys)).is_none());
}

#[test]
fn tests_detect_strategy_with_unresolved_input_reports_not_installed() {
    let p = pkg(PkgEnable::Detect, Some(file("${brew_prefix}/opt/x")));
    let sys = IndexMap::new();
    assert!(!installed(&p, &sys, &[]));
    assert!(on_host(Some(Os::Linux), &[], &[], |h| p.matched_detect(h, &sys)).is_none());
}

#[test]
fn pkg_detect_strategy_resolves_system_input_and_checks_file() {
    let p = pkg(PkgEnable::Detect, Some(file("${root}/opt/x")));
    let mut sys = IndexMap::new();
    sys.insert("root".to_string(), "/tmp/r".to_string());
    assert!(installed(&p, &sys, &["/tmp/r/opt/x"]));
}

#[test]
fn tests_detect_strategy_resolves_system_input_and_checks_file() {
    let p = pkg(PkgEnable::Detect, Some(file("${root}/opt/x")));
    let mut sys = IndexMap::new();
    sys.insert("root".to_string(), "/tmp/r".to_string());
    assert!(installed(&p, &sys, &["/tmp/r/opt/x"]));
}

#[test]
fn pkg_pkg_inputs_shadow_system_inputs_at_detect() {
    let mut p = pkg(PkgEnable::Detect, Some(file("/tmp/r/${name}")));
    p.inputs.insert("name".to_string(), "a".to_string());
    let mut sys = IndexMap::new();
    sys.insert("name".to_string(), "b".to_string());
    assert!(installed(&p, &sys, &["/tmp/r/a"]));
    assert!(!installed(&p, &sys, &["/tmp/r/b"]));
}

#[test]
fn tests_pkg_inputs_shadow_system_inputs_at_detect() {
    let mut p = pkg(PkgEnable::Detect, Some(file("/tmp/r/${name}")));
    p.inputs.insert("name".to_string(), "a".to_string());
    let mut sys = IndexMap::new();
    sys.insert("name".to_string(), "b".to_string());
    assert!(installed(&p, &sys, &["/tmp/r/a"]));
    assert!(!installed(&p, &sys, &["/tmp/r/b"]));
}

#[test]
fn file_detect_puts_home_in_place_of_tilde() {
    let p = pkg(PkgEnable::Detect, Some(file("~/.marker")));
    let sys = IndexMap::new();
    assert!(installed(&p, &sys, &["/home/t/.marker"]));
}

#[test]
fn pkg_enable_on_with_matching_detect_is_silent() {
    let p = pkg(PkgEnable::On, Some(file("/m")));
    assert!(!missing_signal(&p, &["/m"]));
}

#[test]
fn tests_enable_on_with_matching_detect_is_silent() {
    let p = pkg(PkgEnable::On, Some(file("/m")));
    assert!(!missing_signal(&p, &["/m"]));
}

#[test]
fn pkg_enable_on_with_missing_detect_flags_health_signal() {
    let p = pkg(PkgEnable::On, Some(file("/definitely/does/not/exist/zenops-test")));
    assert!(missing_signal(&p, &[]));
}

#[test]
fn tests_enable_on_with_missing_detect_flags_health_signal() {
    let p = pkg(PkgEnable::On, Some(file("/definitely/does/not/exist/zenops-test")));
    assert!(missing_signal(&p, &[]));
}

#[test]
fn pkg_enable_on_with_empty_detect_is_silent() {
    let p = pkg(PkgEnable::On, None);
    assert!(!missing_signal(&p, &[]));
}

#[test]
fn tests_enable_on_with_empty_detect_is_silent() {
    let p = pkg(PkgEnable::On, None);
    assert!(!missing_signal(&p, &[]));
}

#[test]
fn pkg_enable_detect_miss_is_silent() {
    let p = pkg(PkgEnable::Detect, Some(file("/definitely/does/not/exist/zenops-test")));
    assert!(!missing_signal(&p, &[]));
}

#[test]
fn tests_enable_detect_miss_is_silent() {
    let p = pkg(PkgEnable::Detect, Some(file("/definitely/does/not/exist/zenops-test")));
    assert!(!missing_signal(&p, &[]));
}

#[test]
fn pkg_enable_on_with_matching_detect_is_installed() {
    let p = pkg(PkgEnable::On, Some(file("/m")));
    let sys = IndexMap::new();
    assert!(installed(&p, &sys, &["/m"]));
    assert!(on_host(Some(Os::Linux), &["/m"], &[], |h| p.enable_on_and_detect_matches(h, &sys)));
}

#[test]
fn tests_enable_on_with_matching_detect_is_installed() {
    let p = pkg(PkgEnable::On, Some(file("/m")));
    let sys = IndexMap::new();
    assert!(installed(&p, &sys, &["/m"]));
    assert!(on_host(Some(Os::Linux), &["/m"], &[], |h| p.enable_on_and_detect_matches(h, &sys)));
}

#[test]
fn pkg_enable_on_with_missing_detect_is_not_installed() {
    let p = pkg(PkgEnable::On, Some(file("/definitely/does/not/exist/zenops-test")));
    let sys = IndexMap::new();
    assert!(!installed(&p, &sys, &[]));
    assert!(!on_host(Some(Os::Linux), &[], &[], |h| p.enable_on_and_detect_matches(h, &sys)));
}

#[test]
fn tests_enable_on_with_missing_detect_is_not_installed() {
    let p = pkg(PkgEnable::On, Some(file("/definitely/does/not/exist/zenops-test")));
    let sys = IndexMap::new();
    assert!(!installed(&p, &sys, &[]));
    assert!(!on_host(Some(Os::Linux), &[], &[], |h| p.enable_on_and_detect_matches(h, &sys)));
}

#[test]
fn pkg_enable_on_with_empty_detect_is_installed() {
    let p = pkg(PkgEnable::On, None);
    assert!(installed(&p, &IndexMap::new(), &[]));
}

#[test]
fn tests_enable_on_with_empty_detect_is_installed() {
    let p = pkg(PkgEnable::On, None);
    assert!(installed(&p, &IndexMap::new(), &[]));
}

#[test]
fn pkg_empty_detect_with_enable_detect_means_installed() {
    let p = pkg(PkgEnable::Detect, None);
    let sys = IndexMap::new();
    assert!(installed(&p, &sys, &[]));
    assert!(on_host(Some(Os::Linux), &[], &[], |h| p.matched_detect(h, &sys)).is_none());
}

#[test]
fn tests_empty_detect_with_enable_detect_means_installed() {
    let p = pkg(PkgEnable::Detect, None);
    let sys = IndexMap::new();
    assert!(installed(&p, &sys, &[]));
    assert!(on_host(Some(Os::Linux), &[], &[], |h| p.matched_detect(h, &sys)).is_none());
}

#[test]
fn pkg_disabled_pkg_is_never_installed() {
    let p = pkg(PkgEnable::Disabled, None);
    assert!(!installed(&p, &IndexMap::new(), &[]));
    assert!(p.is_disabled());
}

#[test]
fn tests_disabled_pkg_is_never_installed() {
    let p = pkg(PkgEnable::Disabled, None);
    assert!(!installed(&p, &IndexMap::new(), &[]));
    assert!(p.is_disabled());
}

#[test]
fn supported_os_gates_installation() {
    let mut p = pkg(PkgEnable::On, None);
    p.supported_os = vec![Os::Macos];
    let sys = IndexMap::new();
    assert!(!installed(&p, &sys, &[]));
    assert!(on_host(Some(Os::Linux), &[], &[], |h| p.matched_detect(h, &sys)).is_none());
    assert!(!on_host(None, &[], &[], |h| p.is_installed(h, &sys)));
}

#[test]
fn supported_os_allows_installation_when_current_os_listed() {
    let mut p = pkg(PkgEnable::On, None);
    p.supported_os = vec![Os::Linux];
    assert!(installed(&p, &IndexMap::new(), &[]));
}

#[test]
fn empty_supported_os_means_any_os() {
    let p = pkg(PkgEnable::On, None);
    let sys = IndexMap::new();
    assert!(on_host(Some(Os::Macos), &[], &[], |h| p.is_installed(h, &sys)));
    assert!(on_host(None, &[], &[], |h| p.is_installed(h, &sys)));
}

#[test]
fn supports_shell_empty_list_means_any() {
    let p = pkg(PkgEnable::On, None);
    assert!(p.supports_shell(Some(Shell::Bash)));
    assert!(p.supports_shell(Some(Shell::Zsh)));
    assert!(p.supports_shell(None));
}

#[test]
fn supports_shell_filters_by_list() {
    let mut p = pkg(PkgEnable::On, None);
    p.supported_shells = vec![Shell::Bash];
    assert!(p.supports_shell(Some(Shell::Bash)));
    assert!(!p.supports_shell(Some(Shell::Zsh)));
    assert!(!p.supports_shell(None));
}

#[test]
fn pkg_any_combinator_matches_when_any_child_matches() {
    let d = DetectStrategy {
        os: Vec::new(),
        kind: DetectKind::Any { of: vec![file("/definitely/does/not/exist/zenops-test"), file("/m")] },
    };
    let p = pkg(PkgEnable::Detect, Some(d));
    assert!(installed(&p, &IndexMap::new(), &["/m"]));
}

#[test]
fn tests_any_combinator_matches_when_any_child_matches() {
    let d = DetectStrategy {
        os: Vec::new(),
        kind: DetectKind::Any { of: vec![file("/definitely/does/not/exist/zenops-test"), file("/m")] },
    };
    let p = pkg(PkgEnable::Detect, Some(d));
    assert!(installed(&p, &IndexMap::new(), &["/m"]));
}

#[test]
fn pkg_all_combinator_requires_every_child() {
    let d = DetectStrategy { os: Vec::new(), kind: DetectKind::All { of: vec![file("/a"), file("/b")] } };
    let p = pkg(PkgEnable::Detect, Some(d));
    assert!(!installed(&p, &IndexMap::new(), &["/a"]));
    assert!(installed(&p, &IndexMap::new(), &["/a", "/b"]));
}

#[test]
fn tests_all_combinator_requires_every_child() {
    let d = DetectStrategy { os: Vec::new(), kind: DetectKind::All { of: vec![file("/a"), file("/b")] } };
    let p = pkg(PkgEnable::Detect, Some(d));
    assert!(!installed(&p, &IndexMap::new(), &["/a"]));
    assert!(installed(&p, &IndexMap::new(), &["/a", "/b"]));
}

#[test]
fn pkg_nested_combinators_compose() {
    let inner = DetectStrategy { os: Vec::new(), kind: DetectKind::All { of: vec![file("/a"), file("/b")] } };
    let d = DetectStrategy {
        os: Vec::new(),
        kind: DetectKind::Any { of: vec![inner, which("definitely-not-on-path-zenops-test")] },
    };
    let p = pkg(PkgEnable::Detect, Some(d));
    assert!(installed(&p, &IndexMap::new(), &["/a", "/b"]));
    let sys = IndexMap::new();
    assert!(on_host(Some(Os::Linux), &[], &["definitely-not-on-path-zenops-test"], |h| p.is_installed(h, &sys)));
}

#[test]
fn tests_nested_combinators_compose() {
    let inner = DetectStrategy { os: Vec::new(), kind: DetectKind::All { of: vec![file("/a"), file("/b")] } };
    let d = DetectStrategy {
        os: Vec::new(),
        kind: DetectKind::Any { of: vec![inner, which("definitely-not-on-path-zenops-test")] },
    };
    let p = pkg(PkgEnable::Detect, Some(d));
    assert!(installed(&p, &IndexMap::new(), &["/a", "/b"]));
    let sys = IndexMap::new();
    assert!(on_host(Some(Os::Linux), &[], &["definitely-not-on-path-zenops-test"], |h| p.is_installed(h, &sys)));
}

#[test]
fn per_strategy_os_skips_when_os_mismatches() {
    let mut d = file("/m");
    d.os = vec![Os::Macos];
    let p = pkg(PkgEnable::Detect, Some(d));
    assert!(!installed(&p, &IndexMap::new(), &["/m"]));
}

#[test]
fn per_strategy_os_allows_when_os_matches() {
    let mut d = file("/m");
    d.os = vec![Os::Linux];
    let p = pkg(PkgEnable::Detect, Some(d));
    assert!(installed(&p, &IndexMap::new(), &["/m"]));
}

#[test]
fn empty_os_list_means_any_os() {
    let p = pkg(PkgEnable::Detect, Some(file("/m")));
    assert!(installed(&p, &IndexMap::new(), &["/m"]));
}

#[test]
fn absent_detect_field_is_installed_and_silent() {
    let p = pkg(PkgEnable::On, None);
    assert!(installed(&p, &IndexMap::new(), &[]));
    assert!(!missing_signal(&p, &[]));
}

#[test]
fn all_with_empty_of_matches_vacuously() {
    let d = DetectStrategy { os: Vec::new(), kind: DetectKind::All { of: Vec::new() } };
    let p = pkg(PkgEnable::Detect, Some(d));
    assert!(installed(&p, &IndexMap::new(), &[]));
}

#[test]
fn matched_detect_returns_the_top_level_strategy() {
    let p = pkg(PkgEnable::On, Some(file("/m")));
    let sys = IndexMap::new();
    let got = on_host(Some(Os::Linux), &["/m"], &[], |h| p.matched_detect(h, &sys));
    assert_eq!(got.unwrap().describe(), "/m");
}

#[test]
fn detect_strategy_describes_gate_and_combinators() {
    let mut d = DetectStrategy {
        os: Vec::new(),
        kind: DetectKind::Any { of: vec![file("~/.x"), which("rg"), DetectStrategy { os: Vec::new(), kind: DetectKind::All { of: Vec::new() } }] },
    };
    assert_eq!(d.describe(), "any(~/.x, which rg, all())");
    d.os = vec![Os::Linux, Os::Macos];
    assert_eq!(d.describe(), "[os=linux,macos] any(~/.x, which rg, all())");
}

#[test]
fn per_shell_actions_route_by_shell() {
    let a = PerShellActions { bash: Vec::new(), zsh: Vec::new() };
    assert!(a.for_shell(Shell::Bash).is_empty());
    assert!(a.for_shell(Shell::Zsh).is_empty());
    assert_eq!(PkgEnable::default(), PkgEnable::On);
}

fn any(of: Vec<DetectStrategy>) -> DetectStrategy {
    DetectStrategy { os: Vec::new(), kind: DetectKind::Any { of } }
}

fn all(of: Vec<DetectStrategy>) -> DetectStrategy {
    DetectStrategy { os: Vec::new(), kind: DetectKind::All { of } }
}

#[test]
fn detect_strategy_displays_file_leaf() {
    assert_eq!(file("/opt/x").describe(), "/opt/x");
}

#[test]
fn detect_strategy_displays_which_leaf() {
    assert_eq!(which("rg").describe(), "which rg");
}

#[test]
fn detect_strategy_displays_any_combinator_with_nested_leaves() {
    assert_eq!(any(vec![file("/a"), which("b")]).describe(), "any(/a, which b)");
}

#[test]
fn detect_strategy_displays_all_combinator_empty() {
    assert_eq!(all(Vec::new()).describe(), "all()");
}

#[test]
fn detect_strategy_displays_nested_combinators() {
    assert_eq!(all(vec![file("/x"), any(vec![which("rg")])]).describe(), "all(/x, any(which rg))");
}

use indexmap::IndexMap;
use zenops::expand::ExpandStr;
use zenops::output::{PkgEntry, PkgEntryState, PkgInstallHints};
use zenops::pkg::{
    BrewHint, DetectHost, DetectKind, DetectStrategy, HostAnswer, HostQuery, InstallHint, Os, PerShellActions,
    PkgConfig, PkgEnable, PkgShellConfig, Probed, Shell,
};
use zenops::pkg_list::{entries, Options};
use zenops::pkg_manager::DetectedPackageManager;

fn no_actions() -> PerShellActions {
    PerShellActions { bash: Vec::new(), zsh: Vec::new() }
}

fn pkg(enable: PkgEnable, marker: Option<&str>, brew: &[&str]) -> PkgConfig {
    PkgConfig {
        enable,
        detect: marker.map(|m| DetectStrategy { os: Vec::new(), kind: DetectKind::File { path: ExpandStr::new(m.to_string()) } }),
        inputs: IndexMap::new(),
        supported_os: Vec::new(),
        supported_shells: Vec::new(),
        name: None,
        description: None,
        install_hint: InstallHint { brew: BrewHint { packages: brew.iter().map(|s| s.to_string()).collect() } },
        shell: PkgShellConfig { env_init: no_actions(), login_init: no_actions(), interactive_init: no_actions() },
        configs: Vec::new(),
    }
}

fn run(pkgs: &IndexMap<String, PkgConfig>, opts: &Options, manager: Option<DetectedPackageManager>, files: &[&str]) -> Vec<PkgEntry> {
    let sys = IndexMap::new();
    let mut answers: Vec<HostAnswer> = Vec::new();
    loop {
        let host = DetectHost { os: Some(Os::Linux), home: "/h", answers: &answers };
        match entries(pkgs, opts, manager, Some(Shell::Bash), &host, &sys) {
            Probed::Known(v) => return v,
            Probed::Needs(q) => {
                let found = match &q {
                    HostQuery::File(p) => files.contains(&p.as_str()),
                    HostQuery::Which(_) => false,
                };
                answers.push(HostAnswer { query: q, found });
            }
        }
    }
}

fn names(rows: &[PkgEntry]) -> Vec<String> {
    rows.iter()
        .filter_map(|e| match e {
            PkgEntry::Pkg { name, .. } => Some(name.clone()),
            _ => None,
        })
        .collect()
}

#[test]
fn rows_are_sorted_by_label_and_disabled_pkgs_hidden() {
    let mut pkgs = IndexMap::new();
    pkgs.insert("zsh".to_string(), pkg(PkgEnable::On, None, &[]));
    pkgs.insert("off".to_string(), pkg(PkgEnable::Disabled, None, &[]));
    let mut labelled = pkg(PkgEnable::On, None, &[]);
    labelled.name = Some("alpha".to_string());
    pkgs.insert("key-z".to_string(), labelled);
    let rows = run(&pkgs, &Options::default(), Some(DetectedPackageManager::Brew), &[]);
    assert_eq!(names(&rows), vec!["alpha".to_string(), "zsh".to_string()]);
    match &rows[0] {
        PkgEntry::Pkg { key, state, .. } => {
            assert_eq!(key, "key-z");
            assert_eq!(*state, PkgEntryState::Installed);
        }
        other => panic!("unexpected {other:?}"),
    }
    let all = Options { all: true, ..Options::default() };
    let rows = run(&pkgs, &all, Some(DetectedPackageManager::Brew), &[]);
    assert_eq!(names(&rows), vec!["alpha".to_string(), "off".to_string(), "zsh".to_string()]);
}

#[test]
fn missing_pkgs_get_hints_and_an_aggregate_footer() {
    let mut pkgs = IndexMap::new();
    pkgs.insert("rg".to_string(), pkg(PkgEnable::On, Some("/bin/rg"), &["ripgrep"]));
    pkgs.insert("fd".to_string(), pkg(PkgEnable::On, Some("/bin/fd"), &["fd"]));
    pkgs.insert("jq".to_string(), pkg(PkgEnable::On, Some("/bin/jq"), &["jq"]));
    let rows = run(&pkgs, &Options::default(), Some(DetectedPackageManager::Brew), &["/bin/jq"]);
    assert_eq!(rows.len(), 4);
    assert_eq!(
        rows[0],
        PkgEntry::Pkg {
            name: "fd".to_string(),
            key: "fd".to_string(),
            description: None,
            state: PkgEntryState::Missing,
            matched_detect: None,
            install_hints: PkgInstallHints { brew: vec!["fd".to_string()] },
        }
    );
    assert!(matches!(&rows[1], PkgEntry::Pkg { state: PkgEntryState::Installed, install_hints, .. } if install_hints.brew.is_empty()));
    assert_eq!(
        rows[3],
        PkgEntry::AggregateInstall {
            pkg_manager: "brew".to_string(),
            command: "brew install fd ripgrep".to_string(),
            packages: vec!["fd".to_string(), "ripgrep".to_string()],
        }
    );
}

#[test]
fn no_manager_warns_first_and_hides_hints() {
    let mut pkgs = IndexMap::new();
    pkgs.insert("rg".to_string(), pkg(PkgEnable::On, Some("/bin/rg"), &["ripgrep"]));
    let rows = run(&pkgs, &Options::default(), None, &[]);
    assert_eq!(rows[0], PkgEntry::NoPackageManagerDetected { supported: vec!["brew".to_string()] });
    assert!(matches!(&rows[1], PkgEntry::Pkg { install_hints, .. } if install_hints.brew.is_empty()));
    assert_eq!(rows.len(), 2);
    let all_hints = Options { all_hints: true, ..Options::default() };
    let rows = run(&pkgs, &all_hints, None, &[]);
    assert!(matches!(&rows[1], PkgEntry::Pkg { install_hints, .. } if install_hints.brew == vec!["ripgrep".to_string()]));
}

#[test]
fn patterns_match_label_or_key_case_insensitively() {
    let mut pkgs = IndexMap::new();
    pkgs.insert("ripgrep".to_string(), pkg(PkgEnable::On, None, &[]));
    pkgs.insert("fd".to_string(), pkg(PkgEnable::On, None, &[]));
    let opts = Options { pattern: vec!["GREP".to_string()], ..Options::default() };
    let rows = run(&pkgs, &opts, Some(DetectedPackageManager::Brew), &[]);
    assert_eq!(names(&rows), vec!["ripgrep".to_string()]);
}

#[test]
fn verbose_shows_the_matching_strategy() {
    let mut pkgs = IndexMap::new();
    pkgs.insert("jq".to_string(), pkg(PkgEnable::On, Some("/bin/jq"), &["jq"]));
    let opts = Options { verbose: true, ..Options::default() };
    let rows = run(&pkgs, &opts, Some(DetectedPackageManager::Brew), &["/bin/jq"]);
    assert!(matches!(&rows[0], PkgEntry::Pkg { matched_detect: Some(m), .. } if m == "/bin/jq"));
}

use indexmap::IndexMap;
use zenops::config::{build_system_inputs, own_status, pkg_health, pkg_inits, InitStage};
use zenops::config_files::ConfigFilePath;
use zenops::expand::ExpandStr;
use zenops::git::GitFileStatus;
use zenops::output::{PkgStatus, ResolvedConfigFilePath, Status};
use zenops::pkg::{
    BrewHint, DetectHost, DetectKind, DetectStrategy, HostAnswer, HostQuery, InstallHint, Os, PerShellActions,
    PkgConfig, PkgEnable, PkgShellConfig, Probed, Shell,
};
use zenops::pkg_manager::DetectedPackageManager;
use zenops::safe_path::SafeRelativePath;
use zenops::shell::{ActionKind, ShellInitAction};

fn answer<T>(files: &[&str], f: impl Fn(&DetectHost) -> Probed<T>) -> T {
    let mut answers: Vec<HostAnswer> = Vec::new();
    loop {
        let host = DetectHost { os: Some(Os::Linux), home: "/h", answers: &answers };
        match f(&host) {
            Probed::Known(v) => return v,
            Probed::Needs(q) => {
                let found = matches!(&q, HostQuery::File(p) if files.contains(&p.as_str()));
                answers.push(HostAnswer { query: q, found });
            }
        }
    }
}

fn comment(text: &str) -> ShellInitAction {
    ShellInitAction { optional: false, kind: ActionKind::Comment { text: ExpandStr::new(text.to_string()) } }
}

fn pkg(enable: PkgEnable, marker: Option<&str>, brew: &[&str], bash_env: Vec<ShellInitAction>) -> PkgConfig {
    PkgConfig {
        enable,
        detect: marker.map(|m| DetectStrategy { os: Vec::new(), kind: DetectKind::File { path: ExpandStr::new(m.to_string()) } }),
        inputs: IndexMap::new(),
        supported_os: Vec::new(),
        supported_shells: Vec::new(),
        name: None,
        description: None,
        install_hint: InstallHint { brew: BrewHint { packages: brew.iter().map(|s| s.to_string()).collect() } },
        shell: PkgShellConfig {
            env_init: PerShellActions { bash: bash_env, zsh: Vec::new() },
            login_init: PerShellActions { bash: Vec::new(), zsh: Vec::new() },
            interactive_init: PerShellActions { bash: Vec::new(), zsh: Vec::new() },
        },
        configs: Vec::new(),
    }
}

#[test]
fn system_inputs_hold_what_is_known() {
    let m = build_system_inputs(Some("/opt/homebrew"), "macos", Some("Ada"), None);
    let got: Vec<(&str, &str)> = m.iter().map(|(k, v)| (k.as_str(), v.as_str())).collect();
    assert_eq!(got, vec![("brew_prefix", "/opt/homebrew"), ("os", "macos"), ("user.name", "Ada")]);
    let m = build_system_inputs(None, "linux", None, Some("a@b"));
    let got: Vec<(&str, &str)> = m.iter().map(|(k, v)| (k.as_str(), v.as_str())).collect();
    assert_eq!(got, vec![("os", "linux"), ("user.email", "a@b")]);
}

#[test]
fn health_reports_on_pkgs_with_a_detect_strategy() {
    let mut pkgs = IndexMap::new();
    pkgs.insert("rg".to_string(), pkg(PkgEnable::On, Some("/bin/rg"), &["ripgrep"], Vec::new()));
    pkgs.insert("jq".to_string(), pkg(PkgEnable::On, Some("/bin/jq"), &["jq"], Vec::new()));
    pkgs.insert("meta".to_string(), pkg(PkgEnable::On, None, &[], Vec::new()));
    pkgs.insert("opt".to_string(), pkg(PkgEnable::Detect, Some("/bin/opt"), &[], Vec::new()));
    let sys = IndexMap::new();
    let rows = answer(&["/bin/jq"], |h| pkg_health(&pkgs, Some(DetectedPackageManager::Brew), h, &sys));
    assert_eq!(
        rows,
        vec![
            Status::Pkg { pkg: "rg".to_string(), status: PkgStatus::Missing { install_command: Some("brew install ripgrep".to_string()) } },
            Status::Pkg { pkg: "jq".to_string(), status: PkgStatus::Okay },
        ]
    );
    let rows = answer(&[], |h| pkg_health(&pkgs, None, h, &sys));
    assert_eq!(rows[1], Status::Pkg { pkg: "jq".to_string(), status: PkgStatus::Missing { install_command: None } });
}

#[test]
fn init_actions_come_from_installed_pkgs_in_order() {
    let mut pkgs = IndexMap::new();
    pkgs.insert("a".to_string(), pkg(PkgEnable::On, None, &[], vec![comment("a1"), comment("a2")]));
    pkgs.insert("off".to_string(), pkg(PkgEnable::Disabled, None, &[], vec![comment("x")]));
    pkgs.insert("b".to_string(), pkg(PkgEnable::Detect, Some("/bin/b"), &[], vec![comment("b1")]));
    let sys = IndexMap::new();
    let got = answer(&["/bin/b"], |h| pkg_inits(&pkgs, InitStage::Env, Shell::Bash, h, &sys));
    let keys: Vec<&str> = got.iter().map(|(k, _, _)| *k).collect();
    assert_eq!(keys, vec!["a", "a", "b"]);
    assert_eq!(*got[1].2, comment("a2"));
    let got = answer(&[], |h| pkg_inits(&pkgs, InitStage::Env, Shell::Bash, h, &sys));
    assert_eq!(got.len(), 2);
    let none = answer(&["/bin/b"], |h| pkg_inits(&pkgs, InitStage::Login, Shell::Bash, h, &sys));
    assert!(none.is_empty());
}

#[test]
fn own_status_is_clean_or_one_row_per_file() {
    let repo = ResolvedConfigFilePath {
        path: ConfigFilePath::Zenops(SafeRelativePath::from_relative_path("").unwrap()),
        full: "/h/.config/zenops".to_string(),
    };
    let rows = own_status(&repo, Vec::new());
    assert!(matches!(&rows[..], [Status::GitRepoClean { repo: r }] if r.full == "/h/.config/zenops"));
    let f = SafeRelativePath::from_relative_path("config.toml").unwrap().to_safe_relative_path_buf();
    let rows = own_status(&repo, vec![GitFileStatus::Modified(f)]);
    assert!(matches!(&rows[..], [Status::Git { status: GitFileStatus::Modified(_), .. }]));
}

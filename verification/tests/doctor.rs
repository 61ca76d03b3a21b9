use zenops::doctor::{run, ConfigLoad, DoctorFacts, LoadedFacts, RepoFacts};
use zenops::output::{DoctorCheck, DoctorSection, DoctorSeverity};
use zenops::pkg::Shell;
use zenops::pkg_manager::DetectedPackageManager;

fn repo(exists: bool) -> RepoFacts {
    RepoFacts {
        path: "/home/u/.config/zenops".to_string(),
        exists,
        is_git_repo: true,
        remote: Some("git@example.com:cfg.git\n".to_string()),
        branch: Some("main\n".to_string()),
        uncommitted: false,
    }
}

fn facts(config: ConfigLoad, loaded: Option<LoadedFacts>) -> DoctorFacts {
    DoctorFacts {
        os: "linux".to_string(),
        git_found: true,
        zenops_found: false,
        repo: repo(true),
        config,
        manager: Some(DetectedPackageManager::Brew),
        loaded,
    }
}

/// (section, label, severity, value, hint) of each check row; `None` for headers.
fn rows(checks: &[DoctorCheck]) -> Vec<Option<(DoctorSection, String, DoctorSeverity, String, Option<String>)>> {
    checks
        .iter()
        .map(|c| match c {
            DoctorCheck::Check { section, label, severity, value, hint, .. } => {
                Some((*section, label.clone(), *severity, value.clone(), hint.clone()))
            }
            DoctorCheck::SectionHeader { .. } => None,
        })
        .collect()
}

fn find<'a>(checks: &'a [DoctorCheck], section: DoctorSection, label: &str) -> &'a DoctorCheck {
    checks
        .iter()
        .find(|c| matches!(c, DoctorCheck::Check { section: s, label: l, .. } if *s == section && l == label))
        .unwrap_or_else(|| panic!("no {label} row in {section:?}"))
}

#[test]
fn doctor_without_loaded_config_stops_after_package_manager() {
    let out = run(&facts(ConfigLoad::Missing("/home/u/.config/zenops/config.toml".to_string()), None));
    let sections: Vec<DoctorSection> = out
        .iter()
        .filter_map(|c| match c {
            DoctorCheck::SectionHeader { section } => Some(*section),
            _ => None,
        })
        .collect();
    assert_eq!(
        sections,
        vec![DoctorSection::System, DoctorSection::Repo, DoctorSection::Config, DoctorSection::PkgManager]
    );
    let r = rows(&out);
    assert_eq!(
        r[1],
        Some((DoctorSection::System, "os:".to_string(), DoctorSeverity::Info, "linux".to_string(), None))
    );
    assert_eq!(
        r[3],
        Some((
            DoctorSection::System,
            "zenops:".to_string(),
            DoctorSeverity::Bad,
            "not found on PATH".to_string(),
            Some("not on PATH — the install may be incomplete".to_string())
        ))
    );
    match find(&out, DoctorSection::Config, "status:") {
        DoctorCheck::Check { severity, value, hint, .. } => {
            assert_eq!(*severity, DoctorSeverity::Bad);
            assert_eq!(value, "missing");
            assert_eq!(
                hint.as_deref(),
                Some("no config.toml at /home/u/.config/zenops/config.toml. Run `zenops init <url>` to clone one.")
            );
        }
        _ => unreachable!(),
    }
}

#[test]
fn doctor_repo_rows_trim_remote_and_branch() {
    let out = run(&facts(ConfigLoad::Loaded, None));
    match find(&out, DoctorSection::Repo, "remote:") {
        DoctorCheck::Check { value, .. } => assert_eq!(value, "git@example.com:cfg.git"),
        _ => unreachable!(),
    }
    match find(&out, DoctorSection::Repo, "branch:") {
        DoctorCheck::Check { value, .. } => assert_eq!(value, "main"),
        _ => unreachable!(),
    }
}

#[test]
fn doctor_missing_repo_reports_only_the_path() {
    let mut f = facts(ConfigLoad::Loaded, None);
    f.repo = repo(false);
    let out = run(&f);
    let repo_rows: Vec<_> = rows(&out)
        .into_iter()
        .flatten()
        .filter(|r| r.0 == DoctorSection::Repo)
        .collect();
    assert_eq!(repo_rows.len(), 1);
    assert_eq!(repo_rows[0].3, "missing");
}

#[test]
fn doctor_parse_error_lists_path_message_lines_and_hint() {
    let out = run(&facts(
        ConfigLoad::ParseError("/c/config.toml".to_string(), "line 3\nunknown field `foo`".to_string()),
        None,
    ));
    match find(&out, DoctorSection::Config, "status:") {
        DoctorCheck::Check { value, detail, hint, .. } => {
            assert_eq!(value, "parse error");
            assert_eq!(*hint, None);
            assert_eq!(
                detail,
                &vec![
                    "/c/config.toml".to_string(),
                    "line 3".to_string(),
                    "unknown field `foo`".to_string(),
                    "hint: check CHANGELOG.md for recent field renames.".to_string(),
                ]
            );
        }
        _ => unreachable!(),
    }
}

#[test]
fn doctor_loaded_config_reports_user_shell_mismatch_and_packages_header() {
    let loaded = LoadedFacts {
        user_name: Some("Ada".to_string()),
        user_email: None,
        env_shell: Some("/usr/bin/bash".to_string()),
        shell: Some(Shell::Zsh),
    };
    let out = run(&facts(ConfigLoad::Loaded, Some(loaded)));
    assert_eq!(out.last(), Some(&DoctorCheck::SectionHeader { section: DoctorSection::Packages }));
    match find(&out, DoctorSection::User, "email:") {
        DoctorCheck::Check { severity, value, .. } => {
            assert_eq!(*severity, DoctorSeverity::Warn);
            assert_eq!(value, "unset");
        }
        _ => unreachable!(),
    }
    match find(&out, DoctorSection::Shell, "match:") {
        DoctorCheck::Check { severity, value, hint, .. } => {
            assert_eq!(*severity, DoctorSeverity::Warn);
            assert_eq!(value, "no");
            assert_eq!(
                hint.as_deref(),
                Some("running bash but config targets zsh. Change shell with `chsh -s $(which zsh)` or update [shell].type")
            );
        }
        _ => unreachable!(),
    }
}

#[test]
fn doctor_matching_shell_is_ok() {
    let loaded = LoadedFacts {
        user_name: None,
        user_email: None,
        env_shell: Some("/bin/zsh".to_string()),
        shell: Some(Shell::Zsh),
    };
    let out = run(&facts(ConfigLoad::Loaded, Some(loaded)));
    match find(&out, DoctorSection::Shell, "match:") {
        DoctorCheck::Check { severity, value, .. } => {
            assert_eq!(*severity, DoctorSeverity::Okay);
            assert_eq!(value, "yes");
        }
        _ => unreachable!(),
    }
}

//! `zenops doctor`: the rows of the environment diagnostic, decided from
//! what was found about the host, the repo and the configuration.

use vstd::prelude::*;

use crate::init::{file_name_of, path_file_name};
use crate::output::{DoctorCheck, DoctorSection, DoctorSeverity};
use crate::pkg::Shell;
use crate::pkg_list::{contains_str, has_sub};
use crate::pkg_manager::DetectedPackageManager;
use crate::text::{lines_of, owned, split_lines, str_eq, trim, trim_spec, views};

verus! {

/// A `doctor` row, at the level of specifications.
pub ghost enum RowView {
    Check(DoctorSection, Seq<char>, DoctorSeverity, Seq<char>, Option<Seq<char>>, Seq<Seq<char>>),
    Header(DoctorSection),
}

pub open spec fn row_view(c: DoctorCheck) -> RowView {
    match c {
        DoctorCheck::Check { section, label, severity, value, hint, detail } => RowView::Check(
            section,
            label@,
            severity,
            value@,
            match hint {
                Some(h) => Some(h@),
                None => None,
            },
            views(detail@),
        ),
        DoctorCheck::SectionHeader { section } => RowView::Header(section),
    }
}

pub open spec fn rows_view(cs: Seq<DoctorCheck>) -> Seq<RowView> {
    Seq::new(cs.len(), |i: int| row_view(cs[i]))
}

/// A row without detail lines.
pub open spec fn ck(s: DoctorSection, label: Seq<char>, sev: DoctorSeverity, value: Seq<char>, hint: Option<Seq<char>>) -> RowView {
    RowView::Check(s, label, sev, value, hint, Seq::empty())
}

fn push_row(out: &mut Vec<DoctorCheck>, section: DoctorSection, label: &str, severity: DoctorSeverity, value: &str, hint: Option<&str>)
    ensures
        rows_view(final(out)@) == rows_view(old(out)@).push(
            ck(
                section,
                label@,
                severity,
                value@,
                match hint {
                    Some(h) => Some(h@),
                    None => None,
                },
            ),
        ),
{
    let ghost prev = out@;
    let detail: Vec<String> = Vec::new();
    out.push(DoctorCheck::Check {
        section,
        label: owned(label),
        severity,
        value: owned(value),
        hint: match hint {
            Some(h) => Some(owned(h)),
            None => None,
        },
        detail,
    });
    assert(views(detail@) =~= Seq::<Seq<char>>::empty());
    assert(rows_view(out@) =~= rows_view(prev).push(row_view(out@.last())));
}

fn push_header(out: &mut Vec<DoctorCheck>, section: DoctorSection)
    ensures
        rows_view(final(out)@) == rows_view(old(out)@).push(RowView::Header(section)),
{
    let ghost prev = out@;
    out.push(DoctorCheck::SectionHeader { section });
    assert(rows_view(out@) =~= rows_view(prev).push(RowView::Header(section)));
}

/// Whether a binary is on `PATH`.
pub open spec fn bin_row(label: Seq<char>, found: bool, missing_hint: Seq<char>) -> RowView {
    if found {
        ck(DoctorSection::System, label, DoctorSeverity::Okay, "found on PATH"@, None)
    } else {
        ck(DoctorSection::System, label, DoctorSeverity::Bad, "not found on PATH"@, Some(missing_hint))
    }
}

/// The system section: the operating system, and whether `git` and
/// `zenops` are on `PATH`.
pub open spec fn system_rows(os: Seq<char>, git_found: bool, zenops_found: bool) -> Seq<RowView> {
    seq![
        RowView::Header(DoctorSection::System),
        ck(DoctorSection::System, "os:"@, DoctorSeverity::Info, os, None),
        bin_row("git:"@, git_found, "required by zenops — install git"@),
        bin_row("zenops:"@, zenops_found, "not on PATH — the install may be incomplete"@),
    ]
}

fn push_bin(out: &mut Vec<DoctorCheck>, label: &str, found: bool, missing_hint: &str)
    ensures
        rows_view(final(out)@) == rows_view(old(out)@).push(bin_row(label@, found, missing_hint@)),
{
    if found {
        push_row(out, DoctorSection::System, label, DoctorSeverity::Okay, "found on PATH", None);
    } else {
        push_row(out, DoctorSection::System, label, DoctorSeverity::Bad, "not found on PATH", Some(missing_hint));
    }
}

/// Append the system section.
pub fn system_block(out: &mut Vec<DoctorCheck>, os: &str, git_found: bool, zenops_found: bool)
    ensures
        rows_view(final(out)@) == rows_view(old(out)@) + system_rows(os@, git_found, zenops_found),
{
    let ghost start = rows_view(out@);
    push_header(out, DoctorSection::System);
    push_row(out, DoctorSection::System, "os:", DoctorSeverity::Info, os, None);
    push_bin(out, "git:", git_found, "required by zenops — install git");
    push_bin(out, "zenops:", zenops_found, "not on PATH — the install may be incomplete");
    assert(rows_view(out@) =~= start + system_rows(os@, git_found, zenops_found));
}

/// What was found about the zenops repo. `remote` and `branch` are the
/// raw outputs of `git remote get-url origin` and `git rev-parse
/// --abbrev-ref HEAD`, when those ran.
pub struct RepoFacts {
    pub path: String,
    pub exists: bool,
    pub is_git_repo: bool,
    pub remote: Option<String>,
    pub branch: Option<String>,
    pub uncommitted: bool,
}

/// The remote worth showing: the trimmed output, unless empty.
pub open spec fn shown_remote(raw: Option<Seq<char>>) -> Option<Seq<char>> {
    match raw {
        Some(r) => if trim_spec(r).len() > 0 {
            Some(trim_spec(r))
        } else {
            None
        },
        None => None,
    }
}

/// The branch worth showing: the trimmed output, unless empty or a
/// detached `HEAD`.
pub open spec fn shown_branch(raw: Option<Seq<char>>) -> Option<Seq<char>> {
    match raw {
        Some(r) => if trim_spec(r).len() > 0 && trim_spec(r) != "HEAD"@ {
            Some(trim_spec(r))
        } else {
            None
        },
        None => None,
    }
}

pub open spec fn opt_seq(o: Option<String>) -> Option<Seq<char>> {
    match o {
        Some(s) => Some(s@),
        None => None,
    }
}

/// The repo section.
pub open spec fn repo_rows(f: RepoFacts) -> Seq<RowView> {
    let s = DoctorSection::Repo;
    let head = seq![RowView::Header(s)];
    if !f.exists {
        head.push(ck(s, "path:"@, DoctorSeverity::Bad, "missing"@, Some("run `zenops init <url>` to clone a config repo"@)))
    } else {
        let with_path = head.push(ck(s, "path:"@, DoctorSeverity::Info, f.path@, None));
        if !f.is_git_repo {
            with_path.push(ck(s, "git repo:"@, DoctorSeverity::Warn, "no"@, Some("not a git repo — `zenops repo` commands will fail"@)))
        } else {
            let a = with_path.push(ck(s, "git repo:"@, DoctorSeverity::Okay, "yes"@, None));
            let b = match shown_remote(opt_seq(f.remote)) {
                Some(url) => a.push(ck(s, "remote:"@, DoctorSeverity::Info, url, None)),
                None => a.push(ck(s, "remote:"@, DoctorSeverity::Warn, "none"@, Some("add one with `git -C ~/.config/zenops remote add origin <url>`"@))),
            };
            let c = match shown_branch(opt_seq(f.branch)) {
                Some(br) => b.push(ck(s, "branch:"@, DoctorSeverity::Info, br, None)),
                None => b,
            };
            if f.uncommitted {
                c.push(ck(s, "uncommitted:"@, DoctorSeverity::Warn, "yes"@, Some("`zenops apply` will offer to commit; `zenops repo diff` to review"@)))
            } else {
                c.push(ck(s, "uncommitted:"@, DoctorSeverity::Okay, "none"@, None))
            }
        }
    }
}

/// Append the repo section.
pub fn repo_block(out: &mut Vec<DoctorCheck>, f: &RepoFacts)
    ensures
        rows_view(final(out)@) == rows_view(old(out)@) + repo_rows(*f),
{
    let ghost start = rows_view(out@);
    let s = DoctorSection::Repo;
    push_header(out, s);
    if !f.exists {
        push_row(out, s, "path:", DoctorSeverity::Bad, "missing", Some("run `zenops init <url>` to clone a config repo"));
        assert(rows_view(out@) =~= start + repo_rows(*f));
        return;
    }
    push_row(out, s, "path:", DoctorSeverity::Info, f.path.as_str(), None);
    if !f.is_git_repo {
        push_row(out, s, "git repo:", DoctorSeverity::Warn, "no", Some("not a git repo — `zenops repo` commands will fail"));
        assert(rows_view(out@) =~= start + repo_rows(*f));
        return;
    }
    push_row(out, s, "git repo:", DoctorSeverity::Okay, "yes", None);
    let remote = match &f.remote {
        Some(r) => {
            let t = trim(r.as_str());
            if t.unicode_len() > 0 {
                Some(t)
            } else {
                None
            }
        },
        None => None,
    };
    match remote {
        Some(url) => push_row(out, s, "remote:", DoctorSeverity::Info, url.as_str(), None),
        None => push_row(out, s, "remote:", DoctorSeverity::Warn, "none", Some("add one with `git -C ~/.config/zenops remote add origin <url>`")),
    }
    match &f.branch {
        Some(r) => {
            let t = trim(r.as_str());
            if t.unicode_len() > 0 && !str_eq(t.as_str(), "HEAD") {
                push_row(out, s, "branch:", DoctorSeverity::Info, t.as_str(), None);
            }
        },
        None => {},
    }
    if f.uncommitted {
        push_row(out, s, "uncommitted:", DoctorSeverity::Warn, "yes", Some("`zenops apply` will offer to commit; `zenops repo diff` to review"));
    } else {
        push_row(out, s, "uncommitted:", DoctorSeverity::Okay, "none", None);
    }
    assert(rows_view(out@) =~= start + repo_rows(*f));
}

/// How loading `config.toml` went.
pub enum ConfigLoad {
    Loaded,
    /// No file at this path.
    Missing(String),
    /// The file at this path could not be read, with the reason.
    Unreadable(String, String),
    /// The file at this path did not parse, with the parser's message.
    ParseError(String, String),
    /// Loading failed for another reason, with its message.
    Failed(String),
}

/// The detail lines of a parse error: the path, the message's lines, and a
/// hint for the common mistakes.
pub open spec fn parse_detail(path: Seq<char>, msg: Seq<char>) -> Seq<Seq<char>> {
    let base = seq![path] + lines_of(msg);
    if has_sub(msg, "unknown field"@) {
        base.push("hint: check CHANGELOG.md for recent field renames."@)
    } else if has_sub(msg, "invalid type"@) || has_sub(msg, "missing field"@) {
        base.push("hint: see README.md for the expected shape of [shell], [[pkg.*.configs]], and friends."@)
    } else {
        base
    }
}

/// The config section.
pub open spec fn config_rows(c: ConfigLoad) -> Seq<RowView> {
    let s = DoctorSection::Config;
    seq![RowView::Header(s)] + seq![
        match c {
            ConfigLoad::Loaded => ck(s, "status:"@, DoctorSeverity::Okay, "loaded"@, None),
            ConfigLoad::Missing(p) => ck(s, "status:"@, DoctorSeverity::Bad, "missing"@, Some("no config.toml at "@ + p@ + ". Run `zenops init <url>` to clone one."@)),
            ConfigLoad::Unreadable(p, why) => ck(s, "status:"@, DoctorSeverity::Bad, "unreadable"@, Some(p@ + ": "@ + why@ + ". Check permissions."@)),
            ConfigLoad::ParseError(p, msg) => RowView::Check(s, "status:"@, DoctorSeverity::Bad, "parse error"@, None, parse_detail(p@, msg@)),
            ConfigLoad::Failed(msg) => RowView::Check(s, "status:"@, DoctorSeverity::Bad, "config failed to load"@, None, seq![msg@]),
        },
    ]
}

/// Append the config section.
pub fn config_block(out: &mut Vec<DoctorCheck>, c: &ConfigLoad)
    ensures
        rows_view(final(out)@) == rows_view(old(out)@) + config_rows(*c),
{
    let ghost start = rows_view(out@);
    let s = DoctorSection::Config;
    push_header(out, s);
    match c {
        ConfigLoad::Loaded => {
            push_row(out, s, "status:", DoctorSeverity::Okay, "loaded", None);
            assert(rows_view(out@) =~= start + config_rows(*c));
        },
        ConfigLoad::Missing(p) => {
            let mut hint = owned("no config.toml at ");
            hint.append(p.as_str());
            hint.append(". Run `zenops init <url>` to clone one.");
            push_row(out, s, "status:", DoctorSeverity::Bad, "missing", Some(hint.as_str()));
            assert(rows_view(out@) =~= start + config_rows(*c));
        },
        ConfigLoad::Unreadable(p, why) => {
            let mut hint = owned(p.as_str());
            hint.append(": ");
            hint.append(why.as_str());
            hint.append(". Check permissions.");
            push_row(out, s, "status:", DoctorSeverity::Bad, "unreadable", Some(hint.as_str()));
            assert(rows_view(out@) =~= start + config_rows(*c));
        },
        ConfigLoad::ParseError(p, msg) => {
            let mut detail: Vec<String> = Vec::new();
            detail.push(owned(p.as_str()));
            let mut lines = split_lines(msg.as_str());
            let ghost l0 = views(lines@);
            let ghost d0 = views(detail@);
            detail.append(&mut lines);
            assert(views(detail@) =~= d0 + l0);
            let ghost d1 = views(detail@);
            if contains_str(msg.as_str(), "unknown field") {
                detail.push(owned("hint: check CHANGELOG.md for recent field renames."));
                assert(views(detail@) =~= d1.push("hint: check CHANGELOG.md for recent field renames."@));
            } else if contains_str(msg.as_str(), "invalid type") || contains_str(msg.as_str(), "missing field") {
                detail.push(owned("hint: see README.md for the expected shape of [shell], [[pkg.*.configs]], and friends."));
                assert(views(detail@) =~= d1.push("hint: see README.md for the expected shape of [shell], [[pkg.*.configs]], and friends."@));
            }
            let ghost prev = out@;
            out.push(DoctorCheck::Check {
                section: s,
                label: owned("status:"),
                severity: DoctorSeverity::Bad,
                value: owned("parse error"),
                hint: None,
                detail,
            });
            assert(views(detail@) == parse_detail(p@, msg@));
            assert(rows_view(out@) =~= rows_view(prev).push(row_view(out@.last())));
            assert(rows_view(out@) =~= start + config_rows(*c));
        },
        ConfigLoad::Failed(msg) => {
            let mut detail: Vec<String> = Vec::new();
            detail.push(owned(msg.as_str()));
            let ghost prev = out@;
            out.push(DoctorCheck::Check {
                section: s,
                label: owned("status:"),
                severity: DoctorSeverity::Bad,
                value: owned("config failed to load"),
                hint: None,
                detail,
            });
            assert(views(detail@) =~= seq![msg@]);
            assert(rows_view(out@) =~= rows_view(prev).push(row_view(out@.last())));
            assert(rows_view(out@) =~= start + config_rows(*c));
        },
    }
}

/// The package-manager section.
pub open spec fn manager_rows(m: Option<DetectedPackageManager>) -> Seq<RowView> {
    let s = DoctorSection::PkgManager;
    seq![
        RowView::Header(s),
        match m {
            Some(_) => ck(s, "detected:"@, DoctorSeverity::Okay, "brew"@, None),
            None => ck(s, "detected:"@, DoctorSeverity::Warn, "none"@, Some("install hints won't render; supported managers: brew"@)),
        },
    ]
}

/// Append the package-manager section.
pub fn manager_block(out: &mut Vec<DoctorCheck>, m: Option<DetectedPackageManager>)
    ensures
        rows_view(final(out)@) == rows_view(old(out)@) + manager_rows(m),
{
    let ghost start = rows_view(out@);
    let s = DoctorSection::PkgManager;
    push_header(out, s);
    match m {
        Some(mgr) => push_row(out, s, "detected:", DoctorSeverity::Okay, mgr.name(), None),
        None => push_row(out, s, "detected:", DoctorSeverity::Warn, "none", Some("install hints won't render; supported managers: brew")),
    }
    assert(rows_view(out@) =~= start + manager_rows(m));
}

/// The user section, from the `user.name` and `user.email` inputs.
pub open spec fn user_rows(name: Option<Seq<char>>, email: Option<Seq<char>>) -> Seq<RowView> {
    let s = DoctorSection::User;
    seq![
        RowView::Header(s),
        match name {
            Some(n) => ck(s, "name:"@, DoctorSeverity::Info, n, None),
            None => ck(s, "name:"@, DoctorSeverity::Warn, "unset"@, Some("set [user].name in config.toml (used by the generated gitconfig)"@)),
        },
        match email {
            Some(e) => ck(s, "email:"@, DoctorSeverity::Info, e, None),
            None => ck(s, "email:"@, DoctorSeverity::Warn, "unset"@, Some("set [user].email in config.toml (used by the generated gitconfig)"@)),
        },
    ]
}

/// Append the user section.
pub fn user_block(out: &mut Vec<DoctorCheck>, name: Option<&str>, email: Option<&str>)
    ensures
        rows_view(final(out)@) == rows_view(old(out)@) + user_rows(
            match name {
                Some(n) => Some(n@),
                None => None,
            },
            match email {
                Some(e) => Some(e@),
                None => None,
            },
        ),
{
    let ghost start = rows_view(out@);
    let s = DoctorSection::User;
    push_header(out, s);
    match name {
        Some(n) => push_row(out, s, "name:", DoctorSeverity::Info, n, None),
        None => push_row(out, s, "name:", DoctorSeverity::Warn, "unset", Some("set [user].name in config.toml (used by the generated gitconfig)")),
    }
    match email {
        Some(e) => push_row(out, s, "email:", DoctorSeverity::Info, e, None),
        None => push_row(out, s, "email:", DoctorSeverity::Warn, "unset", Some("set [user].email in config.toml (used by the generated gitconfig)")),
    }
    assert(rows_view(out@) =~= start + user_rows(
        match name {
            Some(n) => Some(n@),
            None => None,
        },
        match email {
            Some(e) => Some(e@),
            None => None,
        },
    ));
}

pub open spec fn shell_name(s: Shell) -> Seq<char> {
    match s {
        Shell::Bash => "bash"@,
        Shell::Zsh => "zsh"@,
    }
}

/// The shell section: `$SHELL` (when set), the configured shell, and
/// whether they agree.
pub open spec fn shell_rows(env_shell: Option<Seq<char>>, configured: Option<Shell>) -> Seq<RowView> {
    let s = DoctorSection::Shell;
    let a = seq![RowView::Header(s)].push(
        match env_shell {
            Some(full) => ck(s, "$SHELL:"@, DoctorSeverity::Info, full, None),
            None => ck(s, "$SHELL:"@, DoctorSeverity::Warn, "unset"@, Some("the OS should set $SHELL from /etc/passwd; check your user record"@)),
        },
    );
    let b = a.push(
        match configured {
            Some(c) => ck(s, "config:"@, DoctorSeverity::Info, shell_name(c), None),
            None => ck(s, "config:"@, DoctorSeverity::Info, "(none)"@, None),
        },
    );
    let env_base = match env_shell {
        Some(full) => path_file_name(full),
        None => None,
    };
    match (env_base, configured) {
        (Some(env), Some(c)) => if env == shell_name(c) {
            b.push(ck(s, "match:"@, DoctorSeverity::Okay, "yes"@, None))
        } else {
            b.push(ck(s, "match:"@, DoctorSeverity::Warn, "no"@, Some(
                "running "@ + env + " but config targets "@ + shell_name(c) + ". Change shell with `chsh -s $(which "@
                    + shell_name(c) + ")` or update [shell].type"@,
            )))
        },
        (Some(_), None) => b.push(ck(s, "match:"@, DoctorSeverity::Info, "n/a (no shell configured)"@, None)),
        (None, _) => b,
    }
}

/// Append the shell section; `env_shell` is the value of `$SHELL`.
pub fn shell_block(out: &mut Vec<DoctorCheck>, env_shell: Option<&str>, configured: Option<Shell>)
    ensures
        rows_view(final(out)@) == rows_view(old(out)@) + shell_rows(
            match env_shell {
                Some(e) => Some(e@),
                None => None,
            },
            configured,
        ),
{
    let ghost start = rows_view(out@);
    let s = DoctorSection::Shell;
    push_header(out, s);
    match env_shell {
        Some(full) => push_row(out, s, "$SHELL:", DoctorSeverity::Info, full, None),
        None => push_row(out, s, "$SHELL:", DoctorSeverity::Warn, "unset", Some("the OS should set $SHELL from /etc/passwd; check your user record")),
    }
    let cfg_name: Option<&str> = match configured {
        Some(Shell::Bash) => Some("bash"),
        Some(Shell::Zsh) => Some("zsh"),
        None => None,
    };
    match cfg_name {
        Some(n) => push_row(out, s, "config:", DoctorSeverity::Info, n, None),
        None => push_row(out, s, "config:", DoctorSeverity::Info, "(none)", None),
    }
    let env_base = match env_shell {
        Some(full) => file_name_of(full),
        None => None,
    };
    match (env_base, cfg_name) {
        (Some(env), Some(cfg)) => {
            if str_eq(env.as_str(), cfg) {
                push_row(out, s, "match:", DoctorSeverity::Okay, "yes", None);
            } else {
                let mut hint = owned("running ");
                hint.append(env.as_str());
                hint.append(" but config targets ");
                hint.append(cfg);
                hint.append(". Change shell with `chsh -s $(which ");
                hint.append(cfg);
                hint.append(")` or update [shell].type");
                push_row(out, s, "match:", DoctorSeverity::Warn, "no", Some(hint.as_str()));
            }
        },
        (Some(_), None) => push_row(out, s, "match:", DoctorSeverity::Info, "n/a (no shell configured)", None),
        (None, _) => {},
    }
    assert(rows_view(out@) =~= start + shell_rows(
        match env_shell {
            Some(e) => Some(e@),
            None => None,
        },
        configured,
    ));
}

/// Append the packages section's header; its rows are the pkg health
/// statuses.
pub fn packages_header(out: &mut Vec<DoctorCheck>)
    ensures
        rows_view(final(out)@) == rows_view(old(out)@).push(RowView::Header(DoctorSection::Packages)),
{
    push_header(out, DoctorSection::Packages);
}

/// What `doctor` learned of a configuration that loaded.
pub struct LoadedFacts {
    pub user_name: Option<String>,
    pub user_email: Option<String>,
    /// The value of `$SHELL`, when set.
    pub env_shell: Option<String>,
    /// The configured shell.
    pub shell: Option<Shell>,
}

/// Everything `doctor` reports on, gathered from the host.
pub struct DoctorFacts {
    pub os: String,
    pub git_found: bool,
    pub zenops_found: bool,
    pub repo: RepoFacts,
    pub config: ConfigLoad,
    pub manager: Option<DetectedPackageManager>,
    /// Present exactly when the configuration loaded.
    pub loaded: Option<LoadedFacts>,
}

pub open spec fn loaded_rows(l: LoadedFacts) -> Seq<RowView> {
    user_rows(opt_seq(l.user_name), opt_seq(l.user_email)) + shell_rows(opt_seq(l.env_shell), l.shell)
        + seq![RowView::Header(DoctorSection::Packages)]
}

/// All `doctor` rows, in order: system, repo, config, package manager,
/// and, when the configuration loaded, user, shell and the packages
/// header (the package health rows follow it).
pub open spec fn doctor_rows(f: DoctorFacts) -> Seq<RowView> {
    let base = system_rows(f.os@, f.git_found, f.zenops_found) + repo_rows(f.repo) + config_rows(f.config)
        + manager_rows(f.manager);
    match f.loaded {
        Some(l) => base + loaded_rows(l),
        None => base,
    }
}

fn opt_str(o: &Option<String>) -> (r: Option<&str>)
    ensures
        match r {
            Some(s) => o.is_some() && s@ == o.unwrap()@,
            None => o.is_none(),
        },
{
    match o {
        Some(s) => Some(s.as_str()),
        None => None,
    }
}

/// The `doctor` report, section by section.
pub fn run(f: &DoctorFacts) -> (rows: Vec<DoctorCheck>)
    ensures
        rows_view(rows@) == doctor_rows(*f),
{
    let mut out: Vec<DoctorCheck> = Vec::new();
    assert(rows_view(out@) =~= Seq::<RowView>::empty());
    system_block(&mut out, f.os.as_str(), f.git_found, f.zenops_found);
    repo_block(&mut out, &f.repo);
    config_block(&mut out, &f.config);
    manager_block(&mut out, f.manager);
    let ghost base = rows_view(out@);
    match &f.loaded {
        Some(l) => {
            user_block(&mut out, opt_str(&l.user_name), opt_str(&l.user_email));
            shell_block(&mut out, opt_str(&l.env_shell), l.shell);
            packages_header(&mut out);
            assert(rows_view(out@) =~= base + loaded_rows(*l));
        },
        None => {},
    }
    assert(rows_view(out@) =~= doctor_rows(*f));
    out
}

} // verus!

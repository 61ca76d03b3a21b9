//! Decisions the loaded configuration makes about the host: the inputs
//! every template can use, the health signal of each pkg, and which pkg
//! init actions go into the shell start-up files.

use indexmap::IndexMap;
use vstd::prelude::*;

use crate::input_map::{entries_insert, index_map_entries, input_map_insert, input_map_new};
use crate::output::{PkgStatus, ResolvedConfigFilePath, Status};
use crate::git::GitFileStatus;
use crate::pkg::{answer_index, on_and_detected, installed, DetectHost, Detected, PkgConfig, Probed, Shell};
use crate::pkg_list::{pkg_map_entries, label_of};
use crate::pkg_manager::DetectedPackageManager;
use crate::shell::ShellInitAction;
use crate::text::{owned, seq_join, views};

verus! {

/// The inputs every template can use: `brew_prefix` when Homebrew was
/// found, `os`, and the user's `user.name` and `user.email` when set.
pub open spec fn system_inputs_spec(
    brew_prefix: Option<Seq<char>>,
    os: Seq<char>,
    name: Option<Seq<char>>,
    email: Option<Seq<char>>,
) -> Seq<(Seq<char>, Seq<char>)> {
    let e0 = Seq::<(Seq<char>, Seq<char>)>::empty();
    let e1 = match brew_prefix {
        Some(p) => entries_insert(e0, "brew_prefix"@, p),
        None => e0,
    };
    let e2 = entries_insert(e1, "os"@, os);
    let e3 = match name {
        Some(n) => entries_insert(e2, "user.name"@, n),
        None => e2,
    };
    match email {
        Some(m) => entries_insert(e3, "user.email"@, m),
        None => e3,
    }
}

/// Build the inputs every template can use. `os` is the running system's
/// name as `std::env::consts::OS` gives it.
pub fn build_system_inputs(
    brew_prefix: Option<&str>,
    os: &str,
    name: Option<&str>,
    email: Option<&str>,
) -> (r: IndexMap<String, String>)
    ensures
        index_map_entries(r) == system_inputs_spec(
            match brew_prefix {
                Some(p) => Some(p@),
                None => None,
            },
            os@,
            match name {
                Some(n) => Some(n@),
                None => None,
            },
            match email {
                Some(m) => Some(m@),
                None => None,
            },
        ),
{
    let mut m = input_map_new();
    match brew_prefix {
        Some(p) => input_map_insert(&mut m, owned("brew_prefix"), owned(p)),
        None => {},
    }
    input_map_insert(&mut m, owned("os"), owned(os));
    match name {
        Some(n) => input_map_insert(&mut m, owned("user.name"), owned(n)),
        None => {},
    }
    match email {
        Some(e) => input_map_insert(&mut m, owned("user.email"), owned(e)),
        None => {},
    }
    m
}

/// A `zenops status` row about one pkg, at the level of specifications:
/// the label, and `None` for installed or the install command (if any)
/// for missing.
pub type HealthView = (Seq<char>, Option<Option<Seq<char>>>);

/// The health row a pkg gets under `enable = "on"` with a detect
/// strategy on a supported host: missing (with the manager's install
/// command when it names packages) or installed. Other pkgs get none.
pub open spec fn health_of(
    key: Seq<char>,
    p: PkgConfig,
    manager: Option<DetectedPackageManager>,
    host: &DetectHost,
    sys: &IndexMap<String, String>,
) -> Option<HealthView> {
    match on_and_detected(&p, host, sys) {
        Some(Detected::Known(false)) => Some((
            label_of(key, p),
            Some(
                match manager {
                    Some(_) => if p.install_hint.brew.packages@.len() > 0 {
                        Some("brew install "@ + seq_join(views(p.install_hint.brew.packages@), " "@))
                    } else {
                        None
                    },
                    None => None,
                },
            ),
        )),
        Some(Detected::Known(true)) => Some((label_of(key, p), None)),
        _ => None,
    }
}

/// The health rows of the pkgs, in table order.
pub open spec fn health_rows(
    es: Seq<(Seq<char>, PkgConfig)>,
    manager: Option<DetectedPackageManager>,
    host: &DetectHost,
    sys: &IndexMap<String, String>,
) -> Seq<HealthView>
    decreases es.len(),
{
    if es.len() == 0 {
        Seq::empty()
    } else {
        health_rows(es.drop_last(), manager, host, sys) + match health_of(es.last().0, es.last().1, manager, host, sys) {
            Some(h) => seq![h],
            None => Seq::empty(),
        }
    }
}

pub open spec fn health_view(s: Status) -> HealthView {
    match s {
        Status::Pkg { pkg, status: PkgStatus::Okay } => (pkg@, None),
        Status::Pkg { pkg, status: PkgStatus::Missing { install_command } } => (
            pkg@,
            Some(
                match install_command {
                    Some(c) => Some(c@),
                    None => None,
                },
            ),
        ),
        _ => (Seq::empty(), None),
    }
}

pub open spec fn health_views(ss: Seq<Status>) -> Seq<HealthView> {
    Seq::new(ss.len(), |i: int| health_view(ss[i]))
}

/// The health signal of every pkg under `enable = "on"`: missing when its
/// detect strategy misses on the host, installed when it matches; or the
/// question the host must answer first.
pub fn pkg_health(
    pkgs: &IndexMap<String, PkgConfig>,
    manager: Option<DetectedPackageManager>,
    host: &DetectHost,
    system_inputs: &IndexMap<String, String>,
) -> (r: Probed<Vec<Status>>)
    ensures
        r matches Probed::Needs(q) ==> answer_index(host.answers@, q@) is None,
        r matches Probed::Known(v) ==> (forall|i: int| 0 <= i < v@.len() ==> #[trigger] v@[i] is Pkg) && health_views(v@)
            == health_rows(pkg_map_entries(*pkgs), manager, host, system_inputs),
{
    let ghost es = pkg_map_entries(*pkgs);
    let n = crate::pkg_list::pkg_map_len_pub(pkgs);
    let mut out: Vec<Status> = Vec::new();
    let mut i: usize = 0;
    while i < n
        invariant
            es == pkg_map_entries(*pkgs),
            n == es.len(),
            i <= n,
            forall|k: int| 0 <= k < out@.len() ==> #[trigger] out@[k] is Pkg,
            health_views(out@) == health_rows(es.take(i as int), manager, host, system_inputs),
        decreases n - i,
    {
        let (key, p) = crate::pkg_list::pkg_map_entry_pub(pkgs, i);
        proof {
            let t = es.take(i + 1);
            assert(t.drop_last() =~= es.take(i as int));
            assert(t.last() == es[i as int]);
        }
        let label = match &p.name {
            Some(nm) => owned(nm.as_str()),
            None => owned(key.as_str()),
        };
        let ghost prev = out@;
        match p.enable_on_but_detect_missing(host, system_inputs) {
            Probed::Needs(q) => {
                return Probed::Needs(q);
            },
            Probed::Known(true) => {
                let install_command = match manager {
                    Some(m) => {
                        let pkgs_for = m.packages_for(&p.install_hint);
                        if pkgs_for.len() > 0 {
                            Some(m.install_command(pkgs_for))
                        } else {
                            None
                        }
                    },
                    None => None,
                };
                out.push(Status::Pkg { pkg: label, status: PkgStatus::Missing { install_command } });
                assert(health_views(out@) =~= health_views(prev).push(health_view(out@.last())));
            },
            Probed::Known(false) => match p.enable_on_and_detect_matches(host, system_inputs) {
                Probed::Needs(q) => {
                    return Probed::Needs(q);
                },
                Probed::Known(true) => {
                    out.push(Status::Pkg { pkg: label, status: PkgStatus::Okay });
                    assert(health_views(out@) =~= health_views(prev).push(health_view(out@.last())));
                },
                Probed::Known(false) => {},
            },
        }
        i = i + 1;
    }
    assert(es.take(n as int) =~= es);
    Probed::Known(out)
}

/// The stage of shell start-up a pkg's init actions belong to.
#[derive(Debug, Clone, Copy, PartialEq, Eq, Structural)]
pub enum InitStage {
    Env,
    Login,
    Interactive,
}

/// The actions of `p` for `stage` and `shell`.
pub open spec fn stage_actions(p: PkgConfig, stage: InitStage, shell: Shell) -> Seq<ShellInitAction> {
    let per = match stage {
        InitStage::Env => p.shell.env_init,
        InitStage::Login => p.shell.login_init,
        InitStage::Interactive => p.shell.interactive_init,
    };
    match shell {
        Shell::Bash => per.bash@,
        Shell::Zsh => per.zsh@,
    }
}

/// An init action to emit: the pkg's key, its position in the table, and
/// the action's position in the pkg's list for the stage.
pub type InitRef = (Seq<char>, int, int);

/// The init actions of every installed pkg that supports `shell`, in
/// table order and, within a pkg, in list order.
pub open spec fn init_refs(
    es: Seq<(Seq<char>, PkgConfig)>,
    stage: InitStage,
    shell: Shell,
    host: &DetectHost,
    sys: &IndexMap<String, String>,
) -> Seq<InitRef>
    decreases es.len(),
{
    if es.len() == 0 {
        Seq::empty()
    } else {
        let k = es.len() - 1;
        let p = es[k].1;
        init_refs(es.drop_last(), stage, shell, host, sys) + if installed(&p, host, sys) == Detected::Known(true)
            && (p.supported_shells@.len() == 0 || p.supported_shells@.contains(shell)) {
            Seq::new(stage_actions(p, stage, shell).len(), |j: int| (es[k].0, k, j))
        } else {
            Seq::empty()
        }
    }
}

/// An emitted init action is the action of the pkg keyed `key` with
/// inputs `inputs`.
pub open spec fn init_item_ok(x: (&str, &IndexMap<String, String>, &ShellInitAction), key: Seq<char>, inputs: IndexMap<String, String>, a: ShellInitAction) -> bool {
    x.0@ == key && *x.1 == inputs && *x.2 == a
}

/// The init actions for `stage` of the pkgs installed on the host that
/// support `shell`: each with its pkg's key, the pkg's inputs and the
/// action; or the question the host must answer first.
pub fn pkg_inits<'a>(
    pkgs: &'a IndexMap<String, PkgConfig>,
    stage: InitStage,
    shell: Shell,
    host: &DetectHost,
    system_inputs: &IndexMap<String, String>,
) -> (r: Probed<Vec<(&'a str, &'a IndexMap<String, String>, &'a ShellInitAction)>>)
    ensures
        r matches Probed::Needs(q) ==> answer_index(host.answers@, q@) is None,
        r matches Probed::Known(v) ==> ({
            let refs = init_refs(pkg_map_entries(*pkgs), stage, shell, host, system_inputs);
            &&& v@.len() == refs.len()
            &&& forall|t: int| 0 <= t < v@.len() ==> {
                let (key, pi, ai) = #[trigger] refs[t];
                let p = pkg_map_entries(*pkgs)[pi].1;
                &&& v@[t].0@ == key
                &&& *v@[t].1 == p.inputs
                &&& *v@[t].2 == stage_actions(p, stage, shell)[ai]
            }
        }),
{
    let ghost es = pkg_map_entries(*pkgs);
    let n = crate::pkg_list::pkg_map_len_pub(pkgs);
    let mut out: Vec<(&'a str, &'a IndexMap<String, String>, &'a ShellInitAction)> = Vec::new();
    let mut i: usize = 0;
    while i < n
        invariant
            es == pkg_map_entries(*pkgs),
            n == es.len(),
            i <= n,
            out@.len() == init_refs(es.take(i as int), stage, shell, host, system_inputs).len(),
            forall|t: int| 0 <= t < out@.len() ==> {
                let (key, pi, ai) = #[trigger] init_refs(es.take(i as int), stage, shell, host, system_inputs)[t];
                &&& 0 <= pi < n
                &&& out@[t].0@ == key
                &&& *out@[t].1 == es[pi].1.inputs
                &&& *out@[t].2 == stage_actions(es[pi].1, stage, shell)[ai]
            },
        decreases n - i,
    {
        let (key, p) = crate::pkg_list::pkg_map_entry_pub(pkgs, i);
        let ghost before = init_refs(es.take(i as int), stage, shell, host, system_inputs);
        proof {
            let t = es.take(i + 1);
            assert(t.drop_last() =~= es.take(i as int));
            assert(t[i as int] == es[i as int]);
        }
        let take = match p.is_installed(host, system_inputs) {
            Probed::Needs(q) => {
                return Probed::Needs(q);
            },
            Probed::Known(b) => b && p.supports_shell(Some(shell)),
        };
        if take {
            let per = match stage {
                InitStage::Env => &p.shell.env_init,
                InitStage::Login => &p.shell.login_init,
                InitStage::Interactive => &p.shell.interactive_init,
            };
            let actions = per.for_shell(shell);
            let ghost base = out@;
            let mut j: usize = 0;
            while j < actions.len()
                invariant
                    base.len() == before.len(),
                    forall|t: int| 0 <= t < base.len() ==> {
                        let (key, pi, ai) = #[trigger] before[t];
                        &&& 0 <= pi < n
                        &&& base[t].0@ == key
                        &&& *base[t].1 == es[pi].1.inputs
                        &&& *base[t].2 == stage_actions(es[pi].1, stage, shell)[ai]
                    },
                    j <= actions@.len(),
                    actions@ == stage_actions(*p, stage, shell),
                    out@.len() == base.len() + j,
                    forall|t: int| 0 <= t < base.len() ==> out@[t] == base[t],
                    forall|t: int| 0 <= t < j ==> #[trigger] init_item_ok(out@[base.len() + t], key@, p.inputs, actions@[t]),
                decreases actions@.len() - j,
            {
                let ghost prev = out@;
                let item = (key.as_str(), &p.inputs, &actions[j]);
                out.push(item);
                assert(out@ == prev.push(item));
                assert(item.0@ == key@);
                assert(*item.1 == p.inputs);
                assert(*item.2 == actions@[j as int]);
                assert(out@[base.len() + j] == item);
                assert forall|t: int| 0 <= t < j + 1 implies #[trigger] init_item_ok(out@[base.len() + t], key@, p.inputs, actions@[t]) by {
                    if t < j {
                        assert(out@[base.len() + t] == prev[base.len() + t]);
                        assert(init_item_ok(prev[base.len() + t], key@, p.inputs, actions@[t]));
                    } else {
                        assert(out@[base.len() + t] == item);
                    }
                }
                j = j + 1;
            }
            proof {
                let refs = init_refs(es.take(i + 1), stage, shell, host, system_inputs);
                assert(stage_actions(es[i as int].1, stage, shell) == actions@);
                assert(refs =~= before + Seq::new(actions@.len(), |jj: int| (es[i as int].0, i as int, jj)));
                assert forall|t: int| 0 <= t < out@.len() implies {
                    let (k2, pi, ai) = #[trigger] refs[t];
                    &&& 0 <= pi < n
                    &&& out@[t].0@ == k2
                    &&& *out@[t].1 == es[pi].1.inputs
                    &&& *out@[t].2 == stage_actions(es[pi].1, stage, shell)[ai]
                } by {
                    if t < base.len() {
                        assert(refs[t] == before[t]);
                        assert(out@[t] == base[t]);
                    } else {
                        let jj = t - base.len();
                        assert(refs[t] == (es[i as int].0, i as int, jj));
                        assert(init_item_ok(out@[base.len() + jj], key@, p.inputs, actions@[jj]));
                    }
                }
            }
        } else {
            proof {
                let refs = init_refs(es.take(i + 1), stage, shell, host, system_inputs);
                assert(refs =~= before);
            }
        }
        i = i + 1;
    }
    assert(es.take(n as int) =~= es);
    Probed::Known(out)
}

/// What `zenops status` reports about the zenops repo itself: clean, or
/// one row per file git lists.
pub fn own_status(repo: &ResolvedConfigFilePath, statuses: Vec<GitFileStatus>) -> (r: Vec<Status>)
    ensures
        statuses@.len() == 0 ==> r@.len() == 1,
        statuses@.len() == 0 ==> (r@[0] matches Status::GitRepoClean { repo: x } && x.full@ == repo.full@),
        statuses@.len() > 0 ==> (r@.len() == statuses@.len()) && forall|i: int| 0 <= i < r@.len() ==> (#[trigger] r@[i] matches Status::Git { repo: x, status }
            && x.full@ == repo.full@ && status == statuses@[i]),
{
    let mut out: Vec<Status> = Vec::new();
    if statuses.len() == 0 {
        out.push(Status::GitRepoClean { repo: ResolvedConfigFilePath { path: repo.path.duplicate(), full: owned(repo.full.as_str()) } });
        return out;
    }
    let mut statuses = statuses;
    let ghost orig = statuses@;
    let mut i: usize = 0;
    let n = statuses.len();
    while i < n
        invariant
            orig.len() == n,
            i <= n,
            statuses@ == orig.skip(i as int),
            out@.len() == i,
            forall|k: int| 0 <= k < i ==> (#[trigger] out@[k] matches Status::Git { repo: x, status }
                && x.full@ == repo.full@ && status == orig[k]),
        decreases n - i,
    {
        let s = statuses.remove(0);
        assert(s == orig[i as int]);
        assert(statuses@ =~= orig.skip(i + 1));
        out.push(Status::Git { repo: ResolvedConfigFilePath { path: repo.path.duplicate(), full: owned(repo.full.as_str()) }, status: s });
        i = i + 1;
    }
    out
}

} // verus!

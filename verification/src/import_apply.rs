//! The filesystem side of `zenops import`: what the walk of a source does
//! with each entry it meets, the ordered steps that carry a plan out, and
//! the events that report them.

use vstd::prelude::*;

use crate::config_files::{join_path, path_join, resolved_text, ConfigFileDirs, ConfigFilePath};
use crate::error::Error;
use crate::import::path_to_forward_slash;
use crate::import_plan::{fwd, path_rest, strip_path_prefix, Plan};
use crate::output::{AppliedAction, ResolvedConfigFilePath};
use crate::safe_path::{is_safe, SafeRelativePath};
use crate::text::{owned, str_eq};

verus! {

// ---------- walking a source ----------

/// What the walk found at a directory entry.
#[derive(Debug, Clone, Copy, PartialEq, Eq, Structural)]
pub enum EntryKind {
    Symlink,
    File,
    Dir,
    Other,
}

/// What the walk does with an entry: import the file, descend into the
/// directory, or leave it alone for a reason.
#[derive(Debug, Clone, Copy, PartialEq, Eq)]
pub enum WalkStep {
    Collect,
    Descend,
    Skip(&'static str),
}

/// A version-control metadata directory.
pub open spec fn is_vcs_dir(name: Seq<char>) -> bool {
    name == ".git"@ || name == ".hg"@ || name == ".svn"@
}

/// Symlinks are skipped (`symlink`), regular files collected, directories
/// descended into unless they hold version-control metadata (`vcs`), and
/// anything else skipped (`other`).
pub fn walk_step(name: &str, kind: EntryKind) -> (r: WalkStep)
    ensures
        match kind {
            EntryKind::Symlink => r matches WalkStep::Skip(s) && s@ == "symlink"@,
            EntryKind::File => r == WalkStep::Collect,
            EntryKind::Dir => if is_vcs_dir(name@) {
                r matches WalkStep::Skip(s) && s@ == "vcs"@
            } else {
                r == WalkStep::Descend
            },
            EntryKind::Other => r matches WalkStep::Skip(s) && s@ == "other"@,
        },
{
    match kind {
        EntryKind::Symlink => WalkStep::Skip("symlink"),
        EntryKind::File => WalkStep::Collect,
        EntryKind::Dir => {
            if str_eq(name, ".git") || str_eq(name, ".hg") || str_eq(name, ".svn") {
                WalkStep::Skip("vcs")
            } else {
                WalkStep::Descend
            }
        },
        EntryKind::Other => WalkStep::Skip("other"),
    }
}

// ---------- carrying a plan out ----------

/// One filesystem step of an import.
#[derive(Debug, Clone, PartialEq, Eq)]
pub enum ImportStep {
    /// Copy `src` into the repo at `dst`, creating `dst`'s parents.
    Copy { src: String, dst: String },
    /// Replace the original at `symlink` with a symlink to `target`.
    Link { symlink: String, target: String },
    /// Move the repo file `from` to `to` and re-point the home-side
    /// symlink `link` at it.
    Rename { from: String, to: String, link: String },
    /// Delete the repo file `path` when present, then its emptied parents.
    Remove { path: String },
}

/// An [`ImportStep`] at the level of specifications.
pub ghost enum StepView {
    Copy(Seq<char>, Seq<char>),
    Link(Seq<char>, Seq<char>),
    Rename(Seq<char>, Seq<char>, Seq<char>),
    Remove(Seq<char>),
}

pub open spec fn step_view(s: ImportStep) -> StepView {
    match s {
        ImportStep::Copy { src, dst } => StepView::Copy(src@, dst@),
        ImportStep::Link { symlink, target } => StepView::Link(symlink@, target@),
        ImportStep::Rename { from, to, link } => StepView::Rename(from@, to@, link@),
        ImportStep::Remove { path } => StepView::Remove(path@),
    }
}

pub open spec fn step_views(ss: Seq<ImportStep>) -> Seq<StepView> {
    Seq::new(ss.len(), |i: int| step_view(ss[i]))
}

/// Copying each planned file into the repo.
pub open spec fn copy_steps(plan: Plan) -> Seq<StepView> {
    let fs = plan.files@;
    Seq::new(
        fs.len(),
        |i: int| StepView::Copy(path_join(plan.source_root@, fs[i].rel@), path_join(plan.repo_dest@, fs[i].repo_rel@)),
    )
}

/// Replacing each planned file's original with its symlink.
pub open spec fn link_steps(plan: Plan) -> Seq<StepView> {
    let fs = plan.files@;
    Seq::new(
        fs.len(),
        |i: int| StepView::Link(path_join(plan.source_root@, fs[i].rel@), path_join(plan.repo_dest@, fs[i].repo_rel@)),
    )
}

/// Moving each renamed file.
pub open spec fn rename_steps(plan: Plan) -> Seq<StepView> {
    let rs = plan.renamed_files@;
    Seq::new(
        rs.len(),
        |i: int|
            StepView::Rename(
                path_join(plan.repo_dest@, rs[i].from@),
                path_join(plan.repo_dest@, rs[i].to@),
                path_join(plan.source_root@, rs[i].to@),
            ),
    )
}

/// Deleting each removed file.
pub open spec fn remove_steps(plan: Plan) -> Seq<StepView> {
    let rs = plan.removed_files@;
    Seq::new(rs.len(), |i: int| StepView::Remove(path_join(plan.repo_dest@, rs[i].repo_rel@)))
}

/// The steps that carry `plan` out, in order: every file is copied into
/// the repo before any original is replaced by its symlink; then the
/// renames, then the removals.
pub open spec fn plan_steps(plan: Plan) -> Seq<StepView> {
    copy_steps(plan) + link_steps(plan) + rename_steps(plan) + remove_steps(plan)
}

/// The filesystem steps of `plan`, in the order they run.
pub fn import_steps(plan: &Plan) -> (r: Vec<ImportStep>)
    ensures
        step_views(r@) == plan_steps(*plan),
{
    let home = plan.source_root.as_str();
    let repo = plan.repo_dest.as_str();
    let ghost a = copy_steps(*plan);
    let ghost b = link_steps(*plan);
    let ghost c = rename_steps(*plan);
    let ghost d = remove_steps(*plan);
    let mut out: Vec<ImportStep> = Vec::new();
    let mut i: usize = 0;
    assert(step_views(out@) =~= a.take(0));
    while i < plan.files.len()
        invariant
            i <= plan.files@.len(),
            home@ == plan.source_root@,
            repo@ == plan.repo_dest@,
            a == copy_steps(*plan),
            step_views(out@) == a.take(i as int),
        decreases plan.files@.len() - i,
    {
        let f = &plan.files[i];
        let ghost prev = out@;
        out.push(ImportStep::Copy { src: join_path(home, f.rel.as_str()), dst: join_path(repo, f.repo_rel.as_str()) });
        assert(step_views(out@) =~= step_views(prev).push(step_view(out@.last())));
        assert(a.take(i + 1) =~= a.take(i as int).push(a[i as int]));
        i = i + 1;
    }
    assert(a.take(a.len() as int) =~= a);
    let mut j: usize = 0;
    assert(a + b.take(0) =~= a);
    while j < plan.files.len()
        invariant
            j <= plan.files@.len(),
            home@ == plan.source_root@,
            repo@ == plan.repo_dest@,
            b == link_steps(*plan),
            step_views(out@) == a + b.take(j as int),
        decreases plan.files@.len() - j,
    {
        let f = &plan.files[j];
        let ghost prev = out@;
        out.push(ImportStep::Link { symlink: join_path(home, f.rel.as_str()), target: join_path(repo, f.repo_rel.as_str()) });
        assert(step_views(out@) =~= step_views(prev).push(step_view(out@.last())));
        assert(a + b.take(j + 1) =~= (a + b.take(j as int)).push(b[j as int]));
        j = j + 1;
    }
    assert(b.take(b.len() as int) =~= b);
    let mut k: usize = 0;
    assert(a + b + c.take(0) =~= a + b);
    while k < plan.renamed_files.len()
        invariant
            k <= plan.renamed_files@.len(),
            home@ == plan.source_root@,
            repo@ == plan.repo_dest@,
            c == rename_steps(*plan),
            step_views(out@) == a + b + c.take(k as int),
        decreases plan.renamed_files@.len() - k,
    {
        let r = &plan.renamed_files[k];
        let ghost prev = out@;
        out.push(
            ImportStep::Rename {
                from: join_path(repo, r.from.as_str()),
                to: join_path(repo, r.to.as_str()),
                link: join_path(home, r.to.as_str()),
            },
        );
        assert(step_views(out@) =~= step_views(prev).push(step_view(out@.last())));
        assert(a + b + c.take(k + 1) =~= (a + b + c.take(k as int)).push(c[k as int]));
        k = k + 1;
    }
    assert(c.take(c.len() as int) =~= c);
    let mut m: usize = 0;
    assert(a + b + c + d.take(0) =~= a + b + c);
    while m < plan.removed_files.len()
        invariant
            m <= plan.removed_files@.len(),
            repo@ == plan.repo_dest@,
            d == remove_steps(*plan),
            step_views(out@) == a + b + c + d.take(m as int),
        decreases plan.removed_files@.len() - m,
    {
        let r = &plan.removed_files[m];
        let ghost prev = out@;
        out.push(ImportStep::Remove { path: join_path(repo, r.repo_rel.as_str()) });
        assert(step_views(out@) =~= step_views(prev).push(step_view(out@.last())));
        assert(a + b + c + d.take(m + 1) =~= (a + b + c + d.take(m as int)).push(d[m as int]));
        m = m + 1;
    }
    assert(d.take(d.len() as int) =~= d);
    out
}

// ---------- reporting ----------

/// `root` and the `/`-joined components of `rel`, joined with `/`.
pub open spec fn under_rel(root: Seq<char>, rel: Seq<char>) -> Seq<char> {
    root + "/"@ + fwd(rel)
}

/// The event for a path inside the repo, or the error refusing the path.
pub open spec fn zenops_action_fits(
    r: Result<ResolvedConfigFilePath, Error>,
    rel: Seq<char>,
    dirs: ConfigFileDirs,
) -> bool {
    if is_safe(rel) {
        r matches Ok(p) && p.path matches ConfigFilePath::Zenops(s) && s@ == rel && p.full@ == resolved_text(
            p.path,
            dirs,
        )
    } else {
        r matches Err(Error::SafeRelativePath(e)) && e matches crate::safe_path::Error::PathGoesOutsideParent(t)
            && t@ == rel
    }
}

/// The repo path `rel`, resolved under `dirs`.
pub fn zenops_path(dirs: &ConfigFileDirs, rel: &str) -> (r: Result<ResolvedConfigFilePath, Error>)
    ensures
        zenops_action_fits(r, rel@, *dirs),
{
    match SafeRelativePath::from_relative_path(rel) {
        Ok(s) => {
            let path = ConfigFilePath::Zenops(s);
            let full = path.resolved(dirs);
            Ok(ResolvedConfigFilePath { path, full })
        },
        Err(e) => Err(Error::SafeRelativePath(e)),
    }
}

/// The event for creating the repo-side root `repo_rel`.
pub fn created_dir_action(dirs: &ConfigFileDirs, repo_rel: &str) -> (r: Result<AppliedAction, Error>)
    ensures
        zenops_action_fits(
            match r {
                Ok(AppliedAction::CreatedDir(p)) => Ok(p),
                Ok(_) => Err(Error::NoHomeDir),
                Err(e) => Err(e),
            },
            repo_rel@,
            *dirs,
        ),
{
    match zenops_path(dirs, repo_rel) {
        Ok(p) => Ok(AppliedAction::CreatedDir(p)),
        Err(e) => Err(e),
    }
}

/// `repo_rel` and the `/`-joined components of `file_rel`.
fn repo_file_rel(repo_rel: &str, file_rel: &str) -> (r: String)
    ensures
        r@ == under_rel(repo_rel@, file_rel@),
{
    let mut joined = owned(repo_rel);
    joined.append("/");
    let f = path_to_forward_slash(file_rel);
    joined.append(f.as_str());
    joined
}

/// The event for copying a file into the repo at `file_rel` under
/// `repo_rel`.
pub fn created_file_action(dirs: &ConfigFileDirs, repo_rel: &str, file_rel: &str) -> (r: Result<AppliedAction, Error>)
    ensures
        zenops_action_fits(
            match r {
                Ok(AppliedAction::CreatedFile(p)) => Ok(p),
                Ok(_) => Err(Error::NoHomeDir),
                Err(e) => Err(e),
            },
            under_rel(repo_rel@, file_rel@),
            *dirs,
        ),
{
    let joined = repo_file_rel(repo_rel, file_rel);
    match zenops_path(dirs, joined.as_str()) {
        Ok(p) => Ok(AppliedAction::CreatedFile(p)),
        Err(e) => Err(e),
    }
}

/// The `$HOME`-relative text of a home-side symlink at `full`: its path
/// below `home`, or the whole path when it is not below it.
pub open spec fn home_rel_of(full: Seq<char>, home: Seq<char>) -> Seq<char> {
    match path_rest(full, home) {
        Some(t) => t,
        None => full,
    }
}

/// The event for replacing the home-side file `home_file_rel` under
/// `home_root` with a symlink to the repo file `file_rel` under
/// `repo_rel`.
pub fn created_symlink_action(
    dirs: &ConfigFileDirs,
    repo_rel: &str,
    file_rel: &str,
    home_root: &str,
    home_file_rel: &str,
) -> (r: Result<AppliedAction, Error>)
    ensures
        ({
            let real_rel = under_rel(repo_rel@, file_rel@);
            let full = path_join(home_root@, home_file_rel@);
            let link_rel = fwd(home_rel_of(full, dirs.home@));
            if !is_safe(real_rel) {
                zenops_action_fits(
                    match r {
                        Err(e) => Err(e),
                        Ok(_) => Err(Error::NoHomeDir),
                    },
                    real_rel,
                    *dirs,
                )
            } else if !is_safe(link_rel) {
                r matches Err(Error::SafeRelativePath(e)) && e matches crate::safe_path::Error::PathGoesOutsideParent(
                    t,
                ) && t@ == link_rel
            } else {
                r matches Ok(AppliedAction::CreatedSymlink { real: target, symlink }) && {
                    &&& zenops_action_fits(Ok(target), real_rel, *dirs)
                    &&& symlink.path matches ConfigFilePath::Home(s) && s@ == link_rel
                    &&& symlink.full@ == full
                }
            }
        }),
{
    let joined = repo_file_rel(repo_rel, file_rel);
    let target = match zenops_path(dirs, joined.as_str()) {
        Ok(p) => p,
        Err(e) => {
            return Err(e);
        },
    };
    let full = join_path(home_root, home_file_rel);
    let home_rel = match strip_path_prefix(full.as_str(), dirs.home.as_str()) {
        Some(t) => t,
        None => owned(full.as_str()),
    };
    let link_rel = path_to_forward_slash(home_rel.as_str());
    match SafeRelativePath::from_relative_path(link_rel.as_str()) {
        Ok(s) => Ok(
            AppliedAction::CreatedSymlink {
                real: target,
                symlink: ResolvedConfigFilePath { path: ConfigFilePath::Home(s), full },
            },
        ),
        Err(e) => Err(Error::SafeRelativePath(e)),
    }
}

// ---------- undoing a failed import ----------

/// What a failed import had done so far: directories created, files
/// copied into the repo, and symlinks created (with their targets), each
/// in the order it happened.
#[derive(Debug, Clone, PartialEq, Eq, Default)]
pub struct UndoLog {
    pub dirs_created: Vec<String>,
    pub files_copied: Vec<String>,
    pub symlinks_created: Vec<(String, String)>,
}

/// One step of undoing an import.
#[derive(Debug, Clone, PartialEq, Eq)]
pub enum UndoStep {
    /// Remove the symlink and, when `target` still exists, copy it back in
    /// its place.
    RestoreOriginal { symlink: String, target: String },
    /// Remove a file copied into the repo.
    RemoveFile(String),
    /// Remove a directory the import created.
    RemoveDir(String),
}

pub ghost enum UndoView {
    RestoreOriginal(Seq<char>, Seq<char>),
    RemoveFile(Seq<char>),
    RemoveDir(Seq<char>),
}

pub open spec fn undo_view(u: UndoStep) -> UndoView {
    match u {
        UndoStep::RestoreOriginal { symlink, target } => UndoView::RestoreOriginal(symlink@, target@),
        UndoStep::RemoveFile(p) => UndoView::RemoveFile(p@),
        UndoStep::RemoveDir(p) => UndoView::RemoveDir(p@),
    }
}

pub open spec fn undo_views(us: Seq<UndoStep>) -> Seq<UndoView> {
    Seq::new(us.len(), |i: int| undo_view(us[i]))
}

/// Undoing in reverse: the symlinks latest first, then the copies latest
/// first, then the directories latest first.
pub open spec fn undo_plan(log: UndoLog) -> Seq<UndoView> {
    let ls = log.symlinks_created@;
    let fs = log.files_copied@;
    let ds = log.dirs_created@;
    Seq::new(ls.len(), |i: int| UndoView::RestoreOriginal(ls[ls.len() - 1 - i].0@, ls[ls.len() - 1 - i].1@))
        + Seq::new(fs.len(), |i: int| UndoView::RemoveFile(fs[fs.len() - 1 - i]@))
        + Seq::new(ds.len(), |i: int| UndoView::RemoveDir(ds[ds.len() - 1 - i]@))
}

/// The steps that undo what `log` records.
pub fn rollback_steps(log: &UndoLog) -> (r: Vec<UndoStep>)
    ensures
        undo_views(r@) == undo_plan(*log),
{
    let ghost goal = undo_plan(*log);
    let ghost nl = log.symlinks_created@.len();
    let ghost nf = log.files_copied@.len();
    let mut out: Vec<UndoStep> = Vec::new();
    let mut i: usize = log.symlinks_created.len();
    assert(undo_views(out@) =~= goal.take(0));
    while i > 0
        invariant
            i <= log.symlinks_created@.len(),
            nl == log.symlinks_created@.len(),
            goal == undo_plan(*log),
            undo_views(out@) == goal.take(nl - i),
        decreases i,
    {
        i = i - 1;
        let (l, t) = &log.symlinks_created[i];
        let ghost prev = out@;
        out.push(UndoStep::RestoreOriginal { symlink: l.clone(), target: t.clone() });
        assert(undo_views(out@) =~= undo_views(prev).push(undo_view(out@.last())));
        assert(goal.take(nl - i) =~= goal.take(nl - i - 1).push(goal[nl - i - 1]));
    }
    let mut j: usize = log.files_copied.len();
    while j > 0
        invariant
            j <= log.files_copied@.len(),
            nl == log.symlinks_created@.len(),
            nf == log.files_copied@.len(),
            goal == undo_plan(*log),
            undo_views(out@) == goal.take(nl + nf - j),
        decreases j,
    {
        j = j - 1;
        let ghost prev = out@;
        out.push(UndoStep::RemoveFile(log.files_copied[j].clone()));
        assert(undo_views(out@) =~= undo_views(prev).push(undo_view(out@.last())));
        assert(goal.take(nl + nf - j) =~= goal.take(nl + nf - j - 1).push(goal[nl + nf - j - 1]));
    }
    let mut k: usize = log.dirs_created.len();
    while k > 0
        invariant
            k <= log.dirs_created@.len(),
            nl == log.symlinks_created@.len(),
            nf == log.files_copied@.len(),
            goal == undo_plan(*log),
            undo_views(out@) == goal.take(nl + nf + log.dirs_created@.len() - k),
        decreases k,
    {
        k = k - 1;
        let ghost prev = out@;
        out.push(UndoStep::RemoveDir(log.dirs_created[k].clone()));
        assert(undo_views(out@) =~= undo_views(prev).push(undo_view(out@.last())));
        assert(goal.take(nl + nf + log.dirs_created@.len() - k) =~= goal.take(
            nl + nf + log.dirs_created@.len() - k - 1,
        ).push(goal[nl + nf + log.dirs_created@.len() - k - 1]));
    }
    assert(goal.take(goal.len() as int) =~= goal);
    out
}

} // verus!

//! Plans for importing into an existing configs entry: extending it with
//! one file below its root, or reconciling it against its root directory
//! (new files are added, vanished ones removed, moved symlinks renamed).
//!
//! The filesystem facts a plan depends on (what the walk of the root
//! found, where symlinks point, what already exists) are gathered first and
//! handed in; the plan is computed from them alone.

use vstd::prelude::*;

use crate::config_files::{join_path, path_join};
use crate::import::{path_to_forward_slash, std_path_components, ImportError};
use crate::import_config::{ConfigMatch, ImportType};
use crate::text::{copy_strings, list_contains, owned, seq_join, str_eq, views};

verus! {

/// Whether two paths are equal component by component, as `Path`'s `==`
/// compares them.
pub open spec fn path_eq(a: Seq<char>, b: Seq<char>) -> bool {
    std_path_components(a) == std_path_components(b)
}

/// `Path == Path`, which compares the paths' components.
#[verifier::external_body]
pub(crate) fn paths_equal(a: &str, b: &str) -> (r: bool)
    ensures
        r == path_eq(a@, b@),
{
    std::path::Path::new(a) == std::path::Path::new(b)
}

/// What `Path::strip_prefix(base)` leaves of `p`, as text, when `base` is
/// a prefix of `p` (Unix path rules).
pub uninterp spec fn path_rest(p: Seq<char>, base: Seq<char>) -> Option<Seq<char>>;

/// `Path::strip_prefix`.
#[verifier::external_body]
pub(crate) fn strip_path_prefix(p: &str, base: &str) -> (r: Option<String>)
    ensures
        match r {
            Some(s) => path_rest(p@, base@) == Some(s@),
            None => path_rest(p@, base@) is None,
        },
{
    std::path::Path::new(p).strip_prefix(base).ok().map(|rest| rest.to_string_lossy().into_owned())
}

/// A path with its components joined by `/`.
pub open spec fn fwd(p: Seq<char>) -> Seq<char> {
    seq_join(std_path_components(p), "/"@)
}

/// A file to move into the repo and replace with a symlink: its path
/// relative to the home-side root, and relative to the repo-side root.
#[derive(Debug, Clone, PartialEq)]
pub struct PlannedFile {
    pub rel: String,
    pub repo_rel: String,
}

/// A repo-side file to delete, relative to the repo-side root.
#[derive(Debug, Clone, PartialEq)]
pub struct RemovedFile {
    pub repo_rel: String,
}

/// A repo-side file to rename because its home-side symlink was moved;
/// both relative to the repo-side root.
#[derive(Debug, Clone, PartialEq)]
pub struct RenamedFile {
    pub from: String,
    pub to: String,
}

/// An entry the plan leaves alone, and why (`symlink`, `vcs`, `other`,
/// `present_but_not_linked`, `symlink_elsewhere`).
#[derive(Debug, Clone, PartialEq)]
pub struct SkippedEntry {
    pub path: String,
    pub reason: String,
}

/// The change to the configuration: a new configs entry, or a change to
/// an existing one.
#[derive(Debug, Clone, PartialEq)]
pub enum TomlPlan {
    /// A new `type = ".config"` entry; `name_override` when the pkg key
    /// differs from the directory's name.
    DotConfig { name_override: Option<String>, symlinks: Vec<String> },
    /// A new `type = "home"` entry rooted at `~/<dir>` (`dir` empty for a
    /// single file at the home root).
    Home { dir: String, symlinks: Vec<String> },
    /// Append `added_symlinks` to the entry's `symlinks`.
    ExtendExisting { config_index: usize, existing_symlinks: Vec<String>, added_symlinks: Vec<String> },
    /// Append `added_symlinks` and drop `removed_symlinks`.
    Reconcile {
        config_index: usize,
        existing_symlinks: Vec<String>,
        added_symlinks: Vec<String>,
        removed_symlinks: Vec<String>,
    },
}

/// A plan for an import.
#[derive(Debug, Clone, PartialEq)]
pub struct Plan {
    pub pkg_key: String,
    pub import_type: ImportType,
    /// The path being imported.
    pub source: String,
    /// The entry's home-side root.
    pub source_root: String,
    /// The entry's repo-side root.
    pub repo_dest: String,
    /// The repo-side root relative to the zenops directory.
    pub repo_rel: String,
    pub files: Vec<PlannedFile>,
    pub skipped: Vec<SkippedEntry>,
    pub removed_files: Vec<RemovedFile>,
    pub renamed_files: Vec<RenamedFile>,
    pub toml: TomlPlan,
}

pub open spec fn planned_views(fs: Seq<PlannedFile>) -> Seq<Seq<char>> {
    Seq::new(fs.len(), |i: int| fs[i].rel@)
}

pub open spec fn skipped_views(ss: Seq<SkippedEntry>) -> Seq<(Seq<char>, Seq<char>)> {
    Seq::new(ss.len(), |i: int| (ss[i].path@, ss[i].reason@))
}

pub open spec fn renamed_views(rs: Seq<RenamedFile>) -> Seq<(Seq<char>, Seq<char>)> {
    Seq::new(rs.len(), |i: int| (rs[i].from@, rs[i].to@))
}

pub open spec fn removed_views(rs: Seq<RemovedFile>) -> Seq<Seq<char>> {
    Seq::new(rs.len(), |i: int| rs[i].repo_rel@)
}

/// Whether every `PlannedFile` keeps the same path on both sides.
pub open spec fn same_sides(fs: Seq<PlannedFile>) -> bool {
    forall|i: int| 0 <= i < fs.len() ==> #[trigger] fs[i].repo_rel@ == fs[i].rel@
}

// ---------- extending an entry ----------

/// Extend the matched entry with the file at `m.file_rel`: the file is
/// moved in unless `dest_exists` (the repo already holds it), which is
/// only accepted when `already_linked` (the home-side file is already the
/// symlink to it). The path is added to `symlinks` unless listed.
pub fn build_extend_plan(
    m: &ConfigMatch,
    source: &str,
    home: &str,
    zenops: &str,
    dest_exists: bool,
    already_linked: bool,
) -> (r: Result<Plan, ImportError>)
    ensures
        dest_exists && !already_linked <==> r is Err,
        r matches Err(e) ==> e matches ImportError::DestExists(p) && p@ == path_join(
            path_join(zenops@, m.source_rel@),
            m.file_rel@,
        ),
        r matches Ok(plan) ==> {
            &&& plan.pkg_key@ == m.pkg_key@
            &&& plan.import_type == m.import_type
            &&& plan.source@ == source@
            &&& plan.source_root@ == path_join(home@, m.on_disk_root@)
            &&& plan.repo_dest@ == path_join(zenops@, m.source_rel@)
            &&& plan.repo_rel@ == m.source_rel@
            &&& planned_views(plan.files@) == (if dest_exists {
                Seq::<Seq<char>>::empty()
            } else {
                seq![m.file_rel@]
            })
            &&& same_sides(plan.files@)
            &&& plan.skipped@.len() == 0 && plan.removed_files@.len() == 0 && plan.renamed_files@.len() == 0
            &&& plan.toml matches TomlPlan::ExtendExisting { config_index, existing_symlinks, added_symlinks }
                && config_index == m.config_index && views(existing_symlinks@) == views(m.existing_symlinks@)
                && views(added_symlinks@) == (if views(m.existing_symlinks@).contains(fwd(m.file_rel@)) {
                    Seq::<Seq<char>>::empty()
                } else {
                    seq![fwd(m.file_rel@)]
                })
        },
{
    let source_root = join_path(home, m.on_disk_root.as_str());
    let repo_dest = join_path(zenops, m.source_rel.as_str());
    let file_rel_str = path_to_forward_slash(m.file_rel.as_str());
    let mut files: Vec<PlannedFile> = Vec::new();
    if dest_exists {
        if !already_linked {
            return Err(ImportError::DestExists(join_path(repo_dest.as_str(), m.file_rel.as_str())));
        }
    } else {
        files.push(PlannedFile { rel: owned(m.file_rel.as_str()), repo_rel: owned(m.file_rel.as_str()) });
    }
    let mut added_symlinks: Vec<String> = Vec::new();
    if !list_contains(m.existing_symlinks.as_slice(), file_rel_str.as_str()) {
        added_symlinks.push(file_rel_str);
    }
    assert(views(added_symlinks@) =~= (if views(m.existing_symlinks@).contains(fwd(m.file_rel@)) {
        Seq::<Seq<char>>::empty()
    } else {
        seq![fwd(m.file_rel@)]
    }));
    let plan = Plan {
        pkg_key: owned(m.pkg_key.as_str()),
        import_type: m.import_type,
        source: owned(source),
        source_root,
        repo_dest,
        repo_rel: owned(m.source_rel.as_str()),
        files,
        skipped: Vec::new(),
        removed_files: Vec::new(),
        renamed_files: Vec::new(),
        toml: TomlPlan::ExtendExisting {
            config_index: m.config_index,
            existing_symlinks: copy_strings(m.existing_symlinks.as_slice()),
            added_symlinks,
        },
    };
    proof {
        assert(planned_views(plan.files@) =~= (if dest_exists {
            Seq::<Seq<char>>::empty()
        } else {
            seq![m.file_rel@]
        }));
    }
    Ok(plan)
}


// ---------- reconciling an entry ----------

/// A regular file the walk of the root found: its path relative to the
/// root, whether the repo already holds a file at its place, and whether
/// the home-side path is already the symlink to that file.
#[derive(Debug, Clone, PartialEq)]
pub struct WalkedFile {
    pub rel: String,
    pub dest_exists: bool,
    pub linked: bool,
}

/// An entry the walk passed over: its path relative to the root, why
/// (`symlink`, `vcs`, `other`), and for a symlink where it points, when
/// that could be read.
#[derive(Debug, Clone, PartialEq)]
pub struct WalkedSkip {
    pub rel: String,
    pub reason: String,
    pub target: Option<String>,
}

pub type FileFacts = (Seq<char>, bool, bool);

pub type SkipFacts = (Seq<char>, Seq<char>, Option<Seq<char>>);

pub open spec fn file_facts(fs: Seq<WalkedFile>) -> Seq<FileFacts> {
    Seq::new(fs.len(), |i: int| (fs[i].rel@, fs[i].dest_exists, fs[i].linked))
}

pub open spec fn opt_view(o: Option<String>) -> Option<Seq<char>> {
    match o {
        Some(s) => Some(s@),
        None => None,
    }
}

pub open spec fn skip_facts(ss: Seq<WalkedSkip>) -> Seq<SkipFacts> {
    Seq::new(ss.len(), |i: int| (ss[i].rel@, ss[i].reason@, opt_view(ss[i].target)))
}

/// The walked files in order: the files to move in, the paths to add to
/// `symlinks`, and the listed files that are not yet symlinks; or the
/// occupied repo path of the first new file whose place is taken.
pub open spec fn pass_files(fs: Seq<FileFacts>, e: Seq<Seq<char>>, repo_dest: Seq<char>) -> Result<(Seq<Seq<char>>, Seq<Seq<char>>, Seq<Seq<char>>), Seq<char>>
    decreases fs.len(),
{
    if fs.len() == 0 {
        Ok((Seq::empty(), Seq::empty(), Seq::empty()))
    } else {
        match pass_files(fs.drop_last(), e, repo_dest) {
            Err(p) => Err(p),
            Ok((planned, added, unlinked)) => {
                let (rel, dest_exists, linked) = fs.last();
                let in_array = e.contains(fwd(rel));
                if linked {
                    Ok((planned, if in_array { added } else { added.push(fwd(rel)) }, unlinked))
                } else if in_array {
                    Ok((planned, added, unlinked.push(rel)))
                } else if dest_exists {
                    Err(path_join(repo_dest, rel))
                } else {
                    Ok((planned.push(rel), added.push(fwd(rel)), unlinked))
                }
            },
        }
    }
}

/// The rename a symlink at `rel` pointing at `target` shows: the listed
/// path it was moved from, if it points into the repo at another listed
/// path not already renamed and its own path is not listed.
pub open spec fn rename_of(rel: Seq<char>, target: Option<Seq<char>>, e: Seq<Seq<char>>, repo_dest: Seq<char>, taken: Seq<Seq<char>>) -> Option<Seq<char>> {
    if e.contains(fwd(rel)) {
        None
    } else {
        match target {
            Some(t) => match path_rest(t, repo_dest) {
                Some(tr) => {
                    let from = fwd(tr);
                    if from != fwd(rel) && e.contains(from) && !taken.contains(from) {
                        Some(from)
                    } else {
                        None
                    }
                },
                None => None,
            },
            None => None,
        }
    }
}

/// The passed-over entries in order: those kept as skipped (with their
/// reason), the renames found (listed path, new path), and the listed
/// paths renamed.
pub open spec fn pass_skips(ss: Seq<SkipFacts>, e: Seq<Seq<char>>, repo_dest: Seq<char>) -> (Seq<(Seq<char>, Seq<char>)>, Seq<(Seq<char>, Seq<char>)>, Seq<Seq<char>>)
    decreases ss.len(),
{
    if ss.len() == 0 {
        (Seq::empty(), Seq::empty(), Seq::empty())
    } else {
        let (kept, renames, taken) = pass_skips(ss.drop_last(), e, repo_dest);
        let (rel, reason, target) = ss.last();
        if reason != "symlink"@ {
            (kept.push((rel, reason)), renames, taken)
        } else if target matches Some(t) && path_eq(t, path_join(repo_dest, rel)) {
            (kept, renames, taken)
        } else {
            match rename_of(rel, target, e, repo_dest, taken) {
                Some(from) => (kept, renames.push((from, rel)), taken.push(from)),
                None => (kept.push((rel, "symlink_elsewhere"@)), renames, taken),
            }
        }
    }
}

/// The listed paths to drop: those whose home-side path is gone, unless
/// they were renamed.
pub open spec fn pass_removed(e: Seq<Seq<char>>, present: Seq<bool>, taken: Seq<Seq<char>>) -> Seq<Seq<char>>
    decreases e.len(),
{
    if e.len() == 0 {
        Seq::empty()
    } else {
        let k = e.len() - 1;
        pass_removed(e.drop_last(), present.take(k), taken) + if !taken.contains(e[k]) && !present[k] {
            seq![e[k]]
        } else {
            Seq::empty()
        }
    }
}

/// The skipped entries pass two sees: the walk's, then the listed files
/// that are not symlinks.
pub open spec fn all_skips(walk: Seq<SkipFacts>, unlinked: Seq<Seq<char>>) -> Seq<SkipFacts> {
    walk + Seq::new(unlinked.len(), |i: int| (unlinked[i], "present_but_not_linked"@, None::<Seq<char>>))
}


/// Once the walk of the files fails, it fails the same way however many
/// more files follow.
proof fn lemma_pass_files_err_sticks(ff: Seq<FileFacts>, e: Seq<Seq<char>>, rd: Seq<char>, i: int)
    requires
        0 <= i <= ff.len(),
        pass_files(ff.take(i), e, rd) is Err,
    ensures
        pass_files(ff, e, rd) == pass_files(ff.take(i), e, rd),
    decreases ff.len() - i,
{
    if i < ff.len() {
        let t = ff.take(i + 1);
        assert(t.drop_last() =~= ff.take(i));
        lemma_pass_files_err_sticks(ff, e, rd, i + 1);
    } else {
        assert(ff.take(i) =~= ff);
    }
}

fn copy_skip(s: &WalkedSkip) -> (r: WalkedSkip)
    ensures
        (r.rel@, r.reason@, opt_view(r.target)) == (s.rel@, s.reason@, opt_view(s.target)),
{
    WalkedSkip {
        rel: owned(s.rel.as_str()),
        reason: owned(s.reason.as_str()),
        target: match &s.target {
            Some(t) => Some(owned(t.as_str())),
            None => None,
        },
    }
}

/// Reconcile the matched entry against its home-side root. `files` and
/// `skipped` are what the walk of the root found, in walk order;
/// `present[i]` tells whether the home-side path of the entry's `i`-th
/// symlink still exists.
pub fn build_reconcile_plan(
    m: &ConfigMatch,
    source: &str,
    source_is_dir: bool,
    home: &str,
    zenops: &str,
    files: &[WalkedFile],
    skipped: &[WalkedSkip],
    present: &[bool],
) -> (r: Result<Plan, ImportError>)
    requires
        present@.len() == m.existing_symlinks@.len(),
    ensures
        !source_is_dir ==> (r matches Err(ImportError::UnsupportedLayout(p)) && p@ == m.on_disk_root@),
        source_is_dir ==> ({
            let e = views(m.existing_symlinks@);
            let repo_dest = path_join(zenops@, m.source_rel@);
            match pass_files(file_facts(files@), e, repo_dest) {
                Err(p) => r matches Err(ImportError::DestExists(q)) && q@ == p,
                Ok((planned, added, unlinked)) => {
                    let (kept, renames, taken) = pass_skips(all_skips(skip_facts(skipped@), unlinked), e, repo_dest);
                    let removed = pass_removed(e, present@, taken);
                    &&& r is Ok
                    &&& r matches Ok(plan) ==> {
                        &&& plan.pkg_key@ == m.pkg_key@
                        &&& plan.import_type == m.import_type
                        &&& plan.source@ == source@
                        &&& plan.source_root@ == path_join(home@, m.on_disk_root@)
                        &&& plan.repo_dest@ == repo_dest
                        &&& plan.repo_rel@ == m.source_rel@
                        &&& planned_views(plan.files@) == planned
                        &&& same_sides(plan.files@)
                        &&& skipped_views(plan.skipped@) == kept
                        &&& renamed_views(plan.renamed_files@) == renames
                        &&& removed_views(plan.removed_files@) == removed
                        &&& plan.toml matches TomlPlan::Reconcile { config_index, existing_symlinks, added_symlinks, removed_symlinks }
                            && config_index == m.config_index && views(existing_symlinks@) == e
                            && views(added_symlinks@) == added + Seq::new(renames.len(), |i: int| fwd(renames[i].1))
                            && views(removed_symlinks@) == removed + Seq::new(renames.len(), |i: int| renames[i].0)
                    }
                },
            }
        }),
{
    if !source_is_dir {
        return Err(ImportError::UnsupportedLayout(owned(m.on_disk_root.as_str())));
    }
    let ghost e = views(m.existing_symlinks@);
    let source_root = join_path(home, m.on_disk_root.as_str());
    let repo_dest = join_path(zenops, m.source_rel.as_str());
    let ghost rd = repo_dest@;
    let ghost ff = file_facts(files@);

    // Pass one: the walked files.
    let mut planned: Vec<PlannedFile> = Vec::new();
    let mut added: Vec<String> = Vec::new();
    let mut unlinked: Vec<String> = Vec::new();
    let mut i: usize = 0;
    assert(ff.take(0) =~= Seq::<FileFacts>::empty());
    assert(planned_views(planned@) =~= Seq::<Seq<char>>::empty());
    assert(views(added@) =~= Seq::<Seq<char>>::empty());
    assert(views(unlinked@) =~= Seq::<Seq<char>>::empty());
    while i < files.len()
        invariant
            source_is_dir,
            e == views(m.existing_symlinks@),
            rd == repo_dest@,
            rd == path_join(zenops@, m.source_rel@),
            ff == file_facts(files@),
            i <= files@.len(),
            pass_files(ff.take(i as int), e, rd) == Ok::<_, Seq<char>>((planned_views(planned@), views(added@), views(unlinked@))),
            same_sides(planned@),
        decreases files@.len() - i,
    {
        let f = &files[i];
        proof {
            let t = ff.take(i + 1);
            assert(t.drop_last() =~= ff.take(i as int));
            assert(t.last() == (f.rel@, f.dest_exists, f.linked));
        }
        let rel_str = path_to_forward_slash(f.rel.as_str());
        let in_array = list_contains(m.existing_symlinks.as_slice(), rel_str.as_str());
        let ghost (p0, a0, u0) = (planned@, added@, unlinked@);
        if f.linked {
            if !in_array {
                added.push(rel_str);
                assert(views(added@) =~= views(a0).push(fwd(f.rel@)));
            }
        } else if in_array {
            unlinked.push(owned(f.rel.as_str()));
            assert(views(unlinked@) =~= views(u0).push(f.rel@));
        } else if f.dest_exists {
            proof {
                let t = ff.take(i + 1);
                assert(pass_files(t.drop_last(), e, rd) == pass_files(ff.take(i as int), e, rd));
                assert(pass_files(t, e, rd) == Err::<(Seq<Seq<char>>, Seq<Seq<char>>, Seq<Seq<char>>), Seq<char>>(
                    path_join(rd, f.rel@),
                ));
                lemma_pass_files_err_sticks(ff, e, rd, i + 1);
            }
            return Err(ImportError::DestExists(join_path(repo_dest.as_str(), f.rel.as_str())));
        } else {
            planned.push(PlannedFile { rel: owned(f.rel.as_str()), repo_rel: owned(f.rel.as_str()) });
            added.push(rel_str);
            assert(planned_views(planned@) =~= planned_views(p0).push(f.rel@));
            assert(views(added@) =~= views(a0).push(fwd(f.rel@)));
            assert forall|k: int| 0 <= k < planned@.len() implies #[trigger] planned@[k].repo_rel@ == planned@[k].rel@ by {
                if k < p0.len() {
                    assert(planned@[k] == p0[k]);
                }
            }
        }
        i = i + 1;
    }
    assert(ff.take(files@.len() as int) =~= ff);

    // Pass two: what the walk passed over, then the listed files that are
    // not symlinks.
    let mut all: Vec<WalkedSkip> = Vec::new();
    let mut k: usize = 0;
    while k < skipped.len()
        invariant
            k <= skipped@.len(),
            skip_facts(all@) == skip_facts(skipped@).take(k as int),
        decreases skipped@.len() - k,
    {
        let ghost prev = all@;
        all.push(copy_skip(&skipped[k]));
        assert(skip_facts(all@) =~= skip_facts(prev).push(skip_facts(skipped@)[k as int]));
        k = k + 1;
        assert(skip_facts(all@) =~= skip_facts(skipped@).take(k as int));
    }
    let ghost walk_n = all@.len();
    let mut u: usize = 0;
    while u < unlinked.len()
        invariant
            u <= unlinked@.len(),
            walk_n == skipped@.len(),
            skip_facts(all@) == all_skips(skip_facts(skipped@), views(unlinked@).take(u as int)),
        decreases unlinked@.len() - u,
    {
        let ghost prev = all@;
        all.push(WalkedSkip { rel: owned(unlinked[u].as_str()), reason: owned("present_but_not_linked"), target: None });
        assert(skip_facts(all@) =~= skip_facts(prev).push((unlinked@[u as int]@, "present_but_not_linked"@, None::<Seq<char>>)));
        u = u + 1;
        assert(skip_facts(all@) =~= all_skips(skip_facts(skipped@), views(unlinked@).take(u as int)));
    }
    assert(views(unlinked@).take(unlinked@.len() as int) =~= views(unlinked@));
    let ghost sf = skip_facts(all@);
    let mut kept: Vec<SkippedEntry> = Vec::new();
    let mut renamed: Vec<RenamedFile> = Vec::new();
    let mut taken: Vec<String> = Vec::new();
    let mut j: usize = 0;
    assert(sf.take(0) =~= Seq::<SkipFacts>::empty());
    while j < all.len()
        invariant
            e == views(m.existing_symlinks@),
            rd == repo_dest@,
            sf == skip_facts(all@),
            j <= all@.len(),
            pass_skips(sf.take(j as int), e, rd) == (skipped_views(kept@), renamed_views(renamed@), views(taken@)),
        decreases all@.len() - j,
    {
        let s = &all[j];
        proof {
            let t = sf.take(j + 1);
            assert(t.drop_last() =~= sf.take(j as int));
            assert(t.last() == (s.rel@, s.reason@, opt_view(s.target)));
        }
        let ghost (k0, r0, t0) = (kept@, renamed@, taken@);
        if !str_eq(s.reason.as_str(), "symlink") {
            kept.push(SkippedEntry { path: owned(s.rel.as_str()), reason: owned(s.reason.as_str()) });
            assert(skipped_views(kept@) =~= skipped_views(k0).push((s.rel@, s.reason@)));
        } else {
            let in_repo_at_walk = join_path(repo_dest.as_str(), s.rel.as_str());
            let in_sync = match &s.target {
                Some(t) => paths_equal(t.as_str(), in_repo_at_walk.as_str()),
                None => false,
            };
            if !in_sync {
                let new_rel = path_to_forward_slash(s.rel.as_str());
                let rename: Option<String> = if list_contains(m.existing_symlinks.as_slice(), new_rel.as_str()) {
                    None
                } else {
                    match &s.target {
                        Some(t) => match strip_path_prefix(t.as_str(), repo_dest.as_str()) {
                            Some(tr) => {
                                let from = path_to_forward_slash(tr.as_str());
                                if !str_eq(from.as_str(), new_rel.as_str()) && list_contains(
                                    m.existing_symlinks.as_slice(),
                                    from.as_str(),
                                ) && !list_contains(taken.as_slice(), from.as_str()) {
                                    Some(from)
                                } else {
                                    None
                                }
                            },
                            None => None,
                        },
                        None => None,
                    }
                };
                assert(opt_view(rename) == rename_of(s.rel@, opt_view(s.target), e, rd, views(t0)));
                match rename {
                    Some(from) => {
                        taken.push(owned(from.as_str()));
                        renamed.push(RenamedFile { from, to: owned(s.rel.as_str()) });
                        assert(views(taken@) =~= views(t0).push(renamed@.last().from@));
                        assert(renamed_views(renamed@) =~= renamed_views(r0).push((renamed@.last().from@, s.rel@)));
                    },
                    None => {
                        kept.push(SkippedEntry { path: owned(s.rel.as_str()), reason: owned("symlink_elsewhere") });
                        assert(skipped_views(kept@) =~= skipped_views(k0).push((s.rel@, "symlink_elsewhere"@)));
                    },
                }
            }
        }
        j = j + 1;
    }
    assert(sf.take(all@.len() as int) =~= sf);

    // Pass three: listed paths whose home-side path is gone.
    let mut removed_symlinks: Vec<String> = Vec::new();
    let mut removed_files: Vec<RemovedFile> = Vec::new();
    let mut x: usize = 0;
    while x < m.existing_symlinks.len()
        invariant
            e == views(m.existing_symlinks@),
            present@.len() == e.len(),
            x <= e.len(),
            views(removed_symlinks@) == pass_removed(e.take(x as int), present@.take(x as int), views(taken@)),
            removed_views(removed_files@) == views(removed_symlinks@),
        decreases e.len() - x,
    {
        proof {
            assert(e.take(x + 1).drop_last() =~= e.take(x as int));
            assert(present@.take(x + 1).take(x as int) =~= present@.take(x as int));
        }
        let rel = &m.existing_symlinks[x];
        let ghost (s0, f0) = (removed_symlinks@, removed_files@);
        if !list_contains(taken.as_slice(), rel.as_str()) && !present[x] {
            removed_symlinks.push(owned(rel.as_str()));
            removed_files.push(RemovedFile { repo_rel: owned(rel.as_str()) });
            assert(views(removed_symlinks@) =~= views(s0).push(rel@));
            assert(removed_views(removed_files@) =~= removed_views(f0).push(rel@));
        }
        x = x + 1;
    }
    assert(e.take(e.len() as int) =~= e);
    assert(present@.take(e.len() as int) =~= present@);

    // Pass four: fold the renames into the array delta.
    let ghost add0 = views(added@);
    let ghost rem0 = views(removed_symlinks@);
    let ghost rv = renamed_views(renamed@);
    let mut y: usize = 0;
    while y < renamed.len()
        invariant
            rv == renamed_views(renamed@),
            y <= renamed@.len(),
            views(added@) == add0 + Seq::new(y as nat, |i: int| fwd(rv[i].1)),
            views(removed_symlinks@) == rem0 + Seq::new(y as nat, |i: int| rv[i].0),
        decreases renamed@.len() - y,
    {
        let ghost (a1, s1) = (views(added@), views(removed_symlinks@));
        added.push(path_to_forward_slash(renamed[y].to.as_str()));
        removed_symlinks.push(owned(renamed[y].from.as_str()));
        assert(rv[y as int] == (renamed@[y as int].from@, renamed@[y as int].to@));
        assert(views(added@) =~= a1.push(fwd(rv[y as int].1)));
        assert(views(removed_symlinks@) =~= s1.push(rv[y as int].0));
        assert(views(added@) =~= add0 + Seq::new((y + 1) as nat, |i: int| fwd(rv[i].1)));
        assert(views(removed_symlinks@) =~= rem0 + Seq::new((y + 1) as nat, |i: int| rv[i].0));
        y = y + 1;
    }
    let plan = Plan {
        pkg_key: owned(m.pkg_key.as_str()),
        import_type: m.import_type,
        source: owned(source),
        source_root,
        repo_dest,
        repo_rel: owned(m.source_rel.as_str()),
        files: planned,
        skipped: kept,
        removed_files,
        renamed_files: renamed,
        toml: TomlPlan::Reconcile {
            config_index: m.config_index,
            existing_symlinks: copy_strings(m.existing_symlinks.as_slice()),
            added_symlinks: added,
            removed_symlinks,
        },
    };
    Ok(plan)
}

} // verus!

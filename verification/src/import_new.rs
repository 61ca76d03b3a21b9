//! The first steps of `zenops import`: the checks on its arguments, where
//! the source sits relative to `$HOME` and the repo, which of the three
//! import modes applies, and the plan for a brand-new configs entry.

use toml_edit::DocumentMut;
use vstd::prelude::*;

use crate::config_files::{join_path, path_join};
use crate::output::event::{fs_parent, full_parent};
use crate::import::{
    classify, derive_pkg_key, derived_key, layout_matches, layout_of, path_components, path_to_forward_slash,
    std_path_components, ImportError, Layout,
};
use crate::import_config::{
    all_matches, doc_configs_count, doc_pkg_count, doc_pkg_key, find_managed_root, find_matching_config,
    match_keys, max_root_len, pick, tail_text, toml_pkgs, with_root_len, ConfigMatch, ImportType, MatchView,
};
use crate::import_plan::{fwd, path_eq, path_rest, paths_equal, strip_path_prefix, PlannedFile, Plan, SkippedEntry, TomlPlan};
use crate::safe_path::is_single_component;
use crate::text::{owned, str_eq, views};

verus! {

// ---------- the arguments ----------

/// Whether a path is absolute, as `Path::is_absolute` decides on Unix:
/// it starts with `/`.
pub open spec fn path_absolute(p: Seq<char>) -> bool {
    p.len() > 0 && p[0] == '/'
}

/// Whether a path is absolute (Unix rules).
pub fn is_absolute_path(p: &str) -> (r: bool)
    ensures
        r == path_absolute(p@),
{
    p.unicode_len() > 0 && p.get_char(0) == '/'
}

/// The path an import names: `raw` itself when absolute, else `raw`
/// under the working directory `cwd`.
pub fn source_path(raw: &str, cwd: &str) -> (r: String)
    ensures
        r@ == if path_absolute(raw@) {
            raw@
        } else {
            path_join(cwd@, raw@)
        },
{
    if is_absolute_path(raw) {
        owned(raw)
    } else {
        join_path(cwd, raw)
    }
}

/// Refuse a source that is missing or is itself a symlink, given what
/// probing `source` (without following a symlink) found.
pub fn check_source(source: &str, exists: bool, is_symlink: bool) -> (r: Result<(), ImportError>)
    ensures
        !exists ==> (r matches Err(ImportError::SourceMissing(p)) && p@ == source@),
        exists && is_symlink ==> (r matches Err(ImportError::SourceIsSymlink(p)) && p@ == source@),
        exists && !is_symlink ==> r is Ok,
{
    if !exists {
        Err(ImportError::SourceMissing(owned(source)))
    } else if is_symlink {
        Err(ImportError::SourceIsSymlink(owned(source)))
    } else {
        Ok(())
    }
}

/// Whether a `--source` override would leave the zenops repo: it is
/// absolute or climbs with `..`.
pub open spec fn escapes_repo(o: Seq<char>) -> bool {
    path_absolute(o) || std_path_components(o).contains(".."@)
}

/// Some brew package name is empty.
pub open spec fn has_empty_name(brew: Seq<String>) -> bool {
    exists|i: int| 0 <= i < brew.len() && (#[trigger] brew[i])@.len() == 0
}

/// Refuse an empty `--brew` name, then a `--source` that leaves the repo.
pub fn check_import_args(brew: &Vec<String>, source_override: Option<&str>) -> (r: Result<(), ImportError>)
    ensures
        has_empty_name(brew@) ==> r == Err::<(), ImportError>(ImportError::EmptyBrewPackage),
        !has_empty_name(brew@) ==> match source_override {
            Some(o) => if escapes_repo(o@) {
                r matches Err(ImportError::SourceOverrideEscapesRepo(p)) && p@ == o@
            } else {
                r is Ok
            },
            None => r is Ok,
        },
{
    let mut i: usize = 0;
    while i < brew.len()
        invariant
            i <= brew@.len(),
            forall|j: int| 0 <= j < i ==> (#[trigger] brew@[j])@.len() != 0,
        decreases brew@.len() - i,
    {
        if brew[i].as_str().unicode_len() == 0 {
            return Err(ImportError::EmptyBrewPackage);
        }
        i = i + 1;
    }
    match source_override {
        Some(over) => {
            let comps = path_components(over);
            let mut climbs = false;
            let mut k: usize = 0;
            while k < comps.len()
                invariant
                    k <= comps@.len(),
                    views(comps@) == std_path_components(over@),
                    climbs == exists|j: int| 0 <= j < k && (#[trigger] comps@[j])@ == ".."@,
                decreases comps@.len() - k,
            {
                if str_eq(comps[k].as_str(), "..") {
                    climbs = true;
                }
                k = k + 1;
            }
            proof {
                let vs = views(comps@);
                if climbs {
                    let j = choose|j: int| 0 <= j < comps@.len() && (#[trigger] comps@[j])@ == ".."@;
                    assert(vs[j] == ".."@);
                } else {
                    assert forall|j: int| 0 <= j < vs.len() implies vs[j] != ".."@ by {
                        assert(vs[j] == comps@[j]@);
                    }
                }
            }
            if is_absolute_path(over) || climbs {
                return Err(ImportError::SourceOverrideEscapesRepo(owned(over)));
            }
            Ok(())
        },
        None => Ok(()),
    }
}

/// The new-pkg flags given, in the order they are reported.
pub open spec fn flag_conflicts(pkg_override: bool, source_override: bool, brew_given: bool, no_install_hint: bool) -> Seq<Seq<char>> {
    let a: Seq<Seq<char>> = if pkg_override { seq!["--pkg"@] } else { Seq::empty() };
    let b = if source_override { a.push("--source"@) } else { a };
    let c = if brew_given { b.push("--brew"@) } else { b };
    if no_install_hint { c.push("--no-install-hint"@) } else { c }
}

pub open spec fn str_views(list: Seq<&str>) -> Seq<Seq<char>> {
    Seq::new(list.len(), |i: int| list[i]@)
}

/// Whether a plan changes an existing entry rather than adding one.
pub open spec fn extends_existing(t: TomlPlan) -> bool {
    t is ExtendExisting || t is Reconcile
}

/// Refuse the flags that only describe a new pkg when the plan changes an
/// existing configs entry.
pub fn check_extend_flags(
    plan: &Plan,
    pkg_override: bool,
    source_override: bool,
    brew_given: bool,
    no_install_hint: bool,
) -> (r: Result<(), ImportError>)
    ensures
        ({
            let bad = flag_conflicts(pkg_override, source_override, brew_given, no_install_hint);
            if extends_existing(plan.toml) && bad.len() > 0 {
                r matches Err(ImportError::ExtendFlagsInvalid { flags }) && str_views(flags@) == bad
            } else {
                r is Ok
            }
        }),
{
    let extends = match &plan.toml {
        TomlPlan::ExtendExisting { .. } => true,
        TomlPlan::Reconcile { .. } => true,
        _ => false,
    };
    if !extends {
        return Ok(());
    }
    let mut bad: Vec<&'static str> = Vec::new();
    if pkg_override {
        bad.push("--pkg");
    }
    if source_override {
        bad.push("--source");
    }
    if brew_given {
        bad.push("--brew");
    }
    if no_install_hint {
        bad.push("--no-install-hint");
    }
    assert(str_views(bad@) =~= flag_conflicts(pkg_override, source_override, brew_given, no_install_hint));
    if bad.len() == 0 {
        Ok(())
    } else {
        Err(ImportError::ExtendFlagsInvalid { flags: bad })
    }
}

/// A plan with nothing to do: a reconcile that found no file to add,
/// remove or rename.
pub open spec fn noop_plan(plan: Plan) -> bool {
    &&& plan.files@.len() == 0
    &&& plan.removed_files@.len() == 0
    &&& plan.renamed_files@.len() == 0
    &&& match plan.toml {
        TomlPlan::Reconcile { added_symlinks, removed_symlinks, .. } => added_symlinks@.len() == 0
            && removed_symlinks@.len() == 0,
        _ => false,
    }
}

/// Whether applying `plan` would change nothing.
pub fn plan_is_noop(plan: &Plan) -> (r: bool)
    ensures
        r == noop_plan(*plan),
{
    plan.files.len() == 0 && plan.removed_files.len() == 0 && plan.renamed_files.len() == 0 && match &plan.toml {
        TomlPlan::Reconcile { added_symlinks, removed_symlinks, .. } => added_symlinks.len() == 0
            && removed_symlinks.len() == 0,
        _ => false,
    }
}

// ---------- where the source sits ----------

/// Whether the source is the zenops repo or lies inside it.
pub open spec fn inside_repo(source: Seq<char>, zenops: Seq<char>) -> bool {
    path_eq(source, zenops) || path_rest(source, zenops) is Some
}

/// The source's path relative to `home` (all three canonical), refusing
/// the zenops repo itself and anything outside `$HOME`.
pub fn import_tail(source: &str, home: &str, zenops: &str) -> (r: Result<String, ImportError>)
    ensures
        inside_repo(source@, zenops@) ==> (r matches Err(ImportError::CannotImportZenopsRepo(p)) && p@ == source@),
        !inside_repo(source@, zenops@) ==> match path_rest(source@, home@) {
            Some(t) => r matches Ok(s) && s@ == t,
            None => r matches Err(ImportError::PathNotUnderHome(p)) && p@ == source@,
        },
{
    if paths_equal(source, zenops) {
        return Err(ImportError::CannotImportZenopsRepo(owned(source)));
    }
    match strip_path_prefix(source, zenops) {
        Some(_) => {
            return Err(ImportError::CannotImportZenopsRepo(owned(source)));
        },
        None => {},
    }
    match strip_path_prefix(source, home) {
        Some(t) => Ok(t),
        None => Err(ImportError::PathNotUnderHome(owned(source))),
    }
}

// ---------- which mode ----------

/// How an import proceeds.
#[derive(Debug, Clone, PartialEq)]
pub enum ImportRoute {
    /// The source is the root of this existing entry: reconcile it.
    Reconcile(ConfigMatch),
    /// The source is a file below the root of this existing entry: add it.
    Extend(ConfigMatch),
    /// The source gets a configs entry of its own, with this layout.
    New(Layout),
}

/// What a finder's answer requires of a route: the ambiguity it reports,
/// or the match it found (`None` when it found nothing).
pub open spec fn ambiguity_reported(r: Result<ImportRoute, ImportError>, p: Seq<char>, c: Seq<Seq<char>>) -> bool {
    r matches Err(ImportError::AmbiguousConfigMatch { path, candidates }) && path@ == p && views(candidates@) == c
}

/// The route for the source whose home-relative path is `tail`: the entry
/// rooted at it, else the entry with the longest root above it (which
/// takes single files only), else a new entry for its layout.
pub fn route_import(doc: &DocumentMut, tail: &str, source: &str, source_is_dir: bool) -> (r: Result<
    ImportRoute,
    ImportError,
>)
    ensures
        ({
            let t = tail_text(tail@);
            let roots = pick(all_matches(toml_pkgs(*doc), t, true), t);
            let ms = all_matches(toml_pkgs(*doc), t, false);
            let below = pick(with_root_len(ms, max_root_len(ms)), t);
            match roots {
                Err((p, c)) => ambiguity_reported(r, p, c),
                Ok(Some(v)) => r matches Ok(ImportRoute::Reconcile(m)) && m.view_tuple() == v,
                Ok(None) => match below {
                    Err((p, c)) => ambiguity_reported(r, p, c),
                    Ok(Some(v)) => if source_is_dir {
                        r matches Err(ImportError::ExtendDirectoryNotSupported(p)) && p@ == source@
                    } else {
                        r matches Ok(ImportRoute::Extend(m)) && m.view_tuple() == v
                    },
                    Ok(None) => match layout_of(std_path_components(tail@), tail@) {
                        Ok((true, d)) => r matches Ok(ImportRoute::New(Layout::DotConfig { dir })) && dir@ == d,
                        Ok((false, n)) => r matches Ok(ImportRoute::New(Layout::Home { name })) && name@ == n,
                        Err(ImportError::UnsupportedLayout(s)) => r matches Err(ImportError::UnsupportedLayout(q))
                            && q@ == s@,
                        Err(_) => false,
                    },
                },
            }
        }),
{
    match find_managed_root(doc, tail) {
        Err(e) => {
            proof {
                let ms = all_matches(toml_pkgs(*doc), tail_text(tail@), true);
                assert(match_keys(ms).len() == ms.len());
            }
            return Err(e);
        },
        Ok(Some(m)) => {
            return Ok(ImportRoute::Reconcile(m));
        },
        Ok(None) => {},
    }
    match find_matching_config(doc, tail) {
        Err(e) => {
            proof {
                let ms = all_matches(toml_pkgs(*doc), tail_text(tail@), false);
                let best = with_root_len(ms, max_root_len(ms));
                assert(match_keys(best).len() == best.len());
            }
            return Err(e);
        },
        Ok(Some(m)) => {
            if source_is_dir {
                return Err(ImportError::ExtendDirectoryNotSupported(owned(source)));
            }
            return Ok(ImportRoute::Extend(m));
        },
        Ok(None) => {},
    }
    match classify(tail) {
        Ok(layout) => Ok(ImportRoute::New(layout)),
        Err(e) => Err(e),
    }
}

// ---------- a new entry ----------

/// Whether the document has a `[pkg.<key>]` item.
pub open spec fn has_pkg(doc: DocumentMut, key: Seq<char>) -> bool {
    exists|i: int| 0 <= i < toml_pkgs(doc).len() && (#[trigger] toml_pkgs(doc)[i]).0 == key
}

/// Whether `[pkg.<key>]` already has a configs entry.
pub open spec fn has_pkg_configs(doc: DocumentMut, key: Seq<char>) -> bool {
    exists|i: int|
        0 <= i < toml_pkgs(doc).len() && (#[trigger] toml_pkgs(doc)[i]).0 == key && toml_pkgs(doc)[i].1.len() > 0
}

/// Whether the document has a `[pkg.<key>]` item.
pub fn pkg_block_exists(doc: &DocumentMut, key: &str) -> (r: bool)
    ensures
        r == has_pkg(*doc, key@),
{
    let n = doc_pkg_count(doc);
    let mut i: usize = 0;
    while i < n
        invariant
            n == toml_pkgs(*doc).len(),
            i <= n,
            forall|j: int| 0 <= j < i ==> (#[trigger] toml_pkgs(*doc)[j]).0 != key@,
        decreases n - i,
    {
        let k = doc_pkg_key(doc, i);
        if str_eq(k.as_str(), key) {
            return true;
        }
        i = i + 1;
    }
    false
}

/// Whether `[pkg.<key>]` already has a configs entry.
pub fn pkg_has_configs_entries(doc: &DocumentMut, key: &str) -> (r: bool)
    ensures
        r == has_pkg_configs(*doc, key@),
{
    let n = doc_pkg_count(doc);
    let mut i: usize = 0;
    while i < n
        invariant
            n == toml_pkgs(*doc).len(),
            i <= n,
            forall|j: int| 0 <= j < i ==> !((#[trigger] toml_pkgs(*doc)[j]).0 == key@ && toml_pkgs(*doc)[j].1.len() > 0),
        decreases n - i,
    {
        let k = doc_pkg_key(doc, i);
        if str_eq(k.as_str(), key) && doc_configs_count(doc, i) > 0 {
            return true;
        }
        i = i + 1;
    }
    false
}

/// The shape of a new configs entry.
#[derive(Debug, Clone, PartialEq)]
pub enum NewEntryKind {
    /// `type = ".config"`, with `name` when the pkg key differs from the
    /// directory's name.
    DotConfig { name_override: Option<String> },
    /// `type = "home"` with `dir` set to a directory at the home root.
    Home { dir: String },
    /// `type = "home"` for a single file at the home root.
    HomeSingleFile,
}

/// Where a new configs entry lives: its pkg key and shape, the home-side
/// root the files are walked from, and the repo-side root (relative to
/// the repo, and absolute).
#[derive(Debug, Clone, PartialEq)]
pub struct NewEntryRoots {
    pub pkg_key: String,
    pub kind: NewEntryKind,
    pub source_root: String,
    pub repo_rel: String,
    pub repo_dest: String,
}

/// The pkg key a new entry asks for: the override, else the one derived
/// from the layout.
pub open spec fn wanted_key(layout: Layout, pkg_override: Option<&str>) -> Seq<char> {
    match pkg_override {
        Some(o) => o@,
        None => derived_key(layout),
    }
}

/// The home-side root of a new entry, or `None` when a `~/.config/<x>`
/// import is not a directory.
pub open spec fn new_source_root(layout: Layout, is_dir: bool, source: Seq<char>, home: Seq<char>) -> Option<Seq<char>> {
    match layout {
        Layout::DotConfig { dir } => if is_dir {
            Some(path_join(path_join(home, ".config"@), dir@))
        } else {
            None
        },
        Layout::Home { name } => if is_dir {
            Some(path_join(home, name@))
        } else {
            Some(
                match fs_parent(source) {
                    Some(p) => p,
                    None => home,
                },
            )
        },
    }
}

/// Whether `k` is the shape of a new entry for `layout` under `key`.
pub open spec fn kind_fits(k: NewEntryKind, layout: Layout, is_dir: bool, key: Seq<char>) -> bool {
    match layout {
        Layout::DotConfig { dir } => k matches NewEntryKind::DotConfig { name_override } && if dir@ == key {
            name_override is None
        } else {
            name_override matches Some(n) && n@ == dir@
        },
        Layout::Home { name } => if is_dir {
            k matches NewEntryKind::Home { dir } && dir@ == name@
        } else {
            k is HomeSingleFile
        },
    }
}

/// The pkg key and roots of a new configs entry for a source with
/// `layout`: the key must be a single path component not already used by
/// a pkg with configs entries; the repo side is `--source`, else
/// `configs/<key>`.
#[verifier::rlimit(30)]
pub fn new_entry_roots(
    doc: &DocumentMut,
    layout: &Layout,
    source_is_dir: bool,
    pkg_override: Option<&str>,
    source_override: Option<&str>,
    source: &str,
    home: &str,
    zenops: &str,
) -> (r: Result<NewEntryRoots, ImportError>)
    ensures
        ({
            let key = wanted_key(*layout, pkg_override);
            let rel = match source_override {
                Some(o) => o@,
                None => "configs/"@ + key,
            };
            if !is_single_component(key) {
                r matches Err(ImportError::NoDerivablePkgKey(c)) && c@ == key
            } else if has_pkg_configs(*doc, key) {
                r matches Err(ImportError::PkgKeyTaken { pkg }) && pkg@ == key
            } else {
                match new_source_root(*layout, source_is_dir, source@, home@) {
                    None => r matches Err(ImportError::ExpectedDirectory(p)) && p@ == source@,
                    Some(root) => r matches Ok(x) && x.pkg_key@ == key && x.source_root@ == root && x.repo_rel@
                        == rel && x.repo_dest@ == path_join(zenops@, rel) && kind_fits(
                        x.kind,
                        *layout,
                        source_is_dir,
                        key,
                    ),
                }
            }
        }),
{
    let pkg_key = match derive_pkg_key(layout, pkg_override) {
        Ok(k) => k,
        Err(e) => {
            return Err(e);
        },
    };
    if pkg_has_configs_entries(doc, pkg_key.as_str()) {
        return Err(ImportError::PkgKeyTaken { pkg: pkg_key });
    }
    let repo_rel = match source_override {
        Some(o) => owned(o),
        None => {
            let mut r = owned("configs/");
            r.append(pkg_key.as_str());
            r
        },
    };
    let repo_dest = join_path(zenops, repo_rel.as_str());
    let (source_root, kind) = match layout {
        Layout::DotConfig { dir } => {
            if !source_is_dir {
                return Err(ImportError::ExpectedDirectory(owned(source)));
            }
            let cfg = join_path(home, ".config");
            let root = join_path(cfg.as_str(), dir.as_str());
            let name_override = if str_eq(dir.as_str(), pkg_key.as_str()) {
                None
            } else {
                Some(dir.clone())
            };
            (root, NewEntryKind::DotConfig { name_override })
        },
        Layout::Home { name } => {
            if source_is_dir {
                (join_path(home, name.as_str()), NewEntryKind::Home { dir: name.clone() })
            } else {
                let root = match full_parent(source) {
                    Some(p) => p,
                    None => owned(home),
                };
                (root, NewEntryKind::HomeSingleFile)
            }
        },
    };
    Ok(NewEntryRoots { pkg_key, kind, source_root, repo_rel, repo_dest })
}

/// A file the walk of a new entry's source found, with what exists at its
/// destination: `dest_exists` when the repo already holds a file there,
/// `already_linked` when the home-side file is already the symlink to it.
#[derive(Debug, Clone, PartialEq)]
pub struct CollectedEntry {
    /// Path relative to the home-side root.
    pub rel: String,
    /// Path relative to the repo-side root.
    pub repo_rel: String,
    pub dest_exists: bool,
    pub already_linked: bool,
}

/// The files to import from `es`, in order, with the number already
/// imported; or the first destination that is taken by something else.
pub open spec fn collected_outcome(es: Seq<CollectedEntry>, repo_dest: Seq<char>) -> Result<
    (Seq<(Seq<char>, Seq<char>)>, nat),
    Seq<char>,
>
    decreases es.len(),
{
    if es.len() == 0 {
        Ok((Seq::empty(), 0))
    } else {
        match collected_outcome(es.drop_last(), repo_dest) {
            Err(p) => Err(p),
            Ok((fs, n)) => {
                let e = es.last();
                if e.dest_exists {
                    if e.already_linked {
                        Ok((fs, n + 1))
                    } else {
                        Err(path_join(repo_dest, e.repo_rel@))
                    }
                } else {
                    Ok((fs.push((e.rel@, e.repo_rel@)), n))
                }
            },
        }
    }
}

pub open spec fn planned_pairs(fs: Seq<PlannedFile>) -> Seq<(Seq<char>, Seq<char>)> {
    Seq::new(fs.len(), |i: int| (fs[i].rel@, fs[i].repo_rel@))
}

/// The `symlinks` of a new entry: each file's repo-side path (its
/// home-side path for a single file at the home root), with `/`.
pub open spec fn new_symlinks(fs: Seq<(Seq<char>, Seq<char>)>, single_file: bool) -> Seq<Seq<char>> {
    Seq::new(fs.len(), |i: int| if single_file { fwd(fs[i].0) } else { fwd(fs[i].1) })
}

/// Whether `t` is the TOML change for a new entry of shape `k`.
pub open spec fn new_toml_fits(t: TomlPlan, k: NewEntryKind, fs: Seq<(Seq<char>, Seq<char>)>) -> bool {
    match k {
        NewEntryKind::DotConfig { name_override } => t matches TomlPlan::DotConfig { name_override: n, symlinks }
            && n == name_override && views(symlinks@) == new_symlinks(fs, false),
        NewEntryKind::Home { dir } => t matches TomlPlan::Home { dir: d, symlinks } && d@ == dir@ && views(
            symlinks@,
        ) == new_symlinks(fs, false),
        NewEntryKind::HomeSingleFile => t matches TomlPlan::Home { dir, symlinks } && dir@.len() == 0 && views(
            symlinks@,
        ) == new_symlinks(fs, true),
    }
}

fn copy_kind(k: &NewEntryKind) -> (r: NewEntryKind)
    ensures
        r == *k,
{
    match k {
        NewEntryKind::DotConfig { name_override } => NewEntryKind::DotConfig {
            name_override: match name_override {
                Some(n) => Some(n.clone()),
                None => None,
            },
        },
        NewEntryKind::Home { dir } => NewEntryKind::Home { dir: dir.clone() },
        NewEntryKind::HomeSingleFile => NewEntryKind::HomeSingleFile,
    }
}

/// The plan for a new configs entry at `roots`, from the files the walk
/// of `source` collected and the entries it skipped: every file whose
/// destination is free is moved in; one already imported is passed over;
/// a destination taken by anything else refuses the import, as does a
/// source with nothing to import.
pub fn build_new_plan(
    roots: &NewEntryRoots,
    source: &str,
    collected: &Vec<CollectedEntry>,
    skipped: Vec<SkippedEntry>,
) -> (r: Result<Plan, ImportError>)
    ensures
        match collected_outcome(collected@, roots.repo_dest@) {
            Err(p) => r matches Err(ImportError::DestExists(q)) && q@ == p,
            Ok((fs, n)) => if fs.len() == 0 && n == 0 {
                r matches Err(ImportError::SourceEmpty(p)) && p@ == source@
            } else {
                r matches Ok(plan) && {
                    &&& plan.pkg_key@ == roots.pkg_key@
                    &&& plan.import_type == (if roots.kind is DotConfig {
                        ImportType::DotConfig
                    } else {
                        ImportType::Home
                    })
                    &&& plan.source@ == source@
                    &&& plan.source_root@ == roots.source_root@
                    &&& plan.repo_dest@ == roots.repo_dest@
                    &&& plan.repo_rel@ == roots.repo_rel@
                    &&& planned_pairs(plan.files@) == fs
                    &&& plan.skipped == skipped
                    &&& plan.removed_files@.len() == 0
                    &&& plan.renamed_files@.len() == 0
                    &&& new_toml_fits(plan.toml, roots.kind, fs)
                }
            },
        },
{
    let mut files: Vec<PlannedFile> = Vec::new();
    let mut already: usize = 0;
    let mut i: usize = 0;
    assert(collected@.take(0) =~= Seq::<CollectedEntry>::empty());
    assert(planned_pairs(files@) =~= Seq::<(Seq<char>, Seq<char>)>::empty());
    while i < collected.len()
        invariant
            i <= collected@.len(),
            already <= i,
            collected_outcome(collected@.take(i as int), roots.repo_dest@) == Ok::<
                (Seq<(Seq<char>, Seq<char>)>, nat),
                Seq<char>,
            >((planned_pairs(files@), already as nat)),
        decreases collected@.len() - i,
    {
        let e = &collected[i];
        assert(collected@.take(i + 1).drop_last() =~= collected@.take(i as int));
        assert(collected@.take(i + 1).last() == collected@[i as int]);
        if e.dest_exists {
            if e.already_linked {
                already = already + 1;
            } else {
                proof {
                    lemma_outcome_err_sticks(collected@, roots.repo_dest@, i as int + 1);
                }
                return Err(ImportError::DestExists(join_path(roots.repo_dest.as_str(), e.repo_rel.as_str())));
            }
        } else {
            let ghost prev = files@;
            files.push(PlannedFile { rel: e.rel.clone(), repo_rel: e.repo_rel.clone() });
            assert(planned_pairs(files@) =~= planned_pairs(prev).push((e.rel@, e.repo_rel@)));
        }
        i = i + 1;
    }
    assert(collected@.take(collected@.len() as int) =~= collected@);
    if files.len() == 0 && already == 0 {
        return Err(ImportError::SourceEmpty(owned(source)));
    }
    let single_file = match &roots.kind {
        NewEntryKind::HomeSingleFile => true,
        _ => false,
    };
    let mut symlinks: Vec<String> = Vec::new();
    let mut k: usize = 0;
    while k < files.len()
        invariant
            k <= files@.len(),
            single_file == (roots.kind is HomeSingleFile),
            views(symlinks@) == new_symlinks(planned_pairs(files@), single_file).take(k as int),
        decreases files@.len() - k,
    {
        let f = &files[k];
        let s = if single_file {
            path_to_forward_slash(f.rel.as_str())
        } else {
            path_to_forward_slash(f.repo_rel.as_str())
        };
        let ghost prev = symlinks@;
        symlinks.push(s);
        assert(views(symlinks@) =~= views(prev).push(s@));
        assert(new_symlinks(planned_pairs(files@), single_file).take(k + 1) =~= new_symlinks(
            planned_pairs(files@),
            single_file,
        ).take(k as int).push(s@));
        k = k + 1;
    }
    assert(new_symlinks(planned_pairs(files@), single_file).take(files@.len() as int) =~= new_symlinks(
        planned_pairs(files@),
        single_file,
    ));
    let (toml, import_type) = match copy_kind(&roots.kind) {
        NewEntryKind::DotConfig { name_override } => (TomlPlan::DotConfig { name_override, symlinks }, ImportType::DotConfig),
        NewEntryKind::Home { dir } => (TomlPlan::Home { dir, symlinks }, ImportType::Home),
        NewEntryKind::HomeSingleFile => (TomlPlan::Home { dir: String::new(), symlinks }, ImportType::Home),
    };
    Ok(Plan {
        pkg_key: roots.pkg_key.clone(),
        import_type,
        source: owned(source),
        source_root: roots.source_root.clone(),
        repo_dest: roots.repo_dest.clone(),
        repo_rel: roots.repo_rel.clone(),
        files,
        skipped,
        removed_files: Vec::new(),
        renamed_files: Vec::new(),
        toml,
    })
}

/// Once a prefix of the entries refuses the import, every longer prefix
/// does, with the same destination.
proof fn lemma_outcome_err_sticks(es: Seq<CollectedEntry>, repo_dest: Seq<char>, k: int)
    requires
        0 < k <= es.len(),
        collected_outcome(es.take(k), repo_dest) is Err,
    ensures
        collected_outcome(es, repo_dest) == collected_outcome(es.take(k), repo_dest),
    decreases es.len() - k,
{
    if k < es.len() {
        assert(es.take(k + 1).drop_last() =~= es.take(k));
        lemma_outcome_err_sticks(es, repo_dest, k + 1);
    } else {
        assert(es.take(k) =~= es);
    }
}

} // verus!

//! A pkg's `[[pkg.<key>.configs]]` entries: which managed paths become
//! symlinks into the zenops repo.

use vstd::prelude::*;

use crate::config_files::{entry_for, resolved_text, ConfigFileDirs, ConfigFilePath, ConfigFileSource, ConfigFiles, FileEntry};
use crate::error::Error;
use crate::input_map::{entry_index, lemma_entry_index_bounds, lemma_insert_keeps_order, entries_insert};
use crate::safe_path::{is_single_component, join_spec, normal_segs, push_segs, segments, SafeRelativePath, SinglePathComponent};

verus! {

/// The repo-side directory of an entry and the paths it links, both
/// relative: each symlink lands at the path under the entry's home-side
/// directory and points at the same path under `source`.
#[derive(Debug, Clone, PartialEq)]
pub struct StoredConfigFiles {
    pub source: SafeRelativePath,
    pub symlinks: Vec<SafeRelativePath>,
}

/// A configs entry.
#[derive(Debug, Clone, PartialEq)]
pub enum PkgConfigFiles {
    /// Under `~/.config/<name>/`, the name defaulting to the pkg key.
    DotConfig { name: Option<SinglePathComponent>, configs: StoredConfigFiles },
    /// Under `~/<dir>/`.
    Home { dir: SafeRelativePath, configs: StoredConfigFiles },
}

/// The home-side directory of an entry of pkg `key`, or `None` when a
/// `.config` entry without a name has a key that is not a single path
/// component.
pub open spec fn entry_dir(c: PkgConfigFiles, key: Seq<char>) -> Option<Seq<char>> {
    match c {
        PkgConfigFiles::DotConfig { name, .. } => match name {
            Some(n) => Some(n@),
            None => if is_single_component(key) {
                Some(key)
            } else {
                None
            },
        },
        PkgConfigFiles::Home { dir, .. } => Some(dir@),
    }
}

pub open spec fn entry_files(c: PkgConfigFiles) -> StoredConfigFiles {
    match c {
        PkgConfigFiles::DotConfig { configs, .. } => configs,
        PkgConfigFiles::Home { configs, .. } => configs,
    }
}

/// Whether `l` is the `i`-th link of entry `c` of pkg `key`, whose
/// home-side directory is `dir`.
pub open spec fn link_fits(l: (ConfigFilePath, ConfigFileSource), c: PkgConfigFiles, dir: Seq<char>, i: int) -> bool {
    let files = entry_files(c);
    let sym = files.symlinks@[i]@;
    &&& match c {
        PkgConfigFiles::DotConfig { .. } => l.0 matches ConfigFilePath::DotConfig(p) && p@ == join_spec(dir, sym),
        PkgConfigFiles::Home { .. } => l.0 matches ConfigFilePath::Home(p) && p@ == join_spec(dir, sym),
    }
    &&& l.1 matches ConfigFileSource::SymlinkFrom(ConfigFilePath::Zenops(q)) && q@ == join_spec(files.source@, sym)
}

impl PkgConfigFiles {
    /// The symlinks this entry of pkg `pkg_key` manages, in order: each
    /// managed path with the repo file it links to.
    pub fn links(&self, pkg_key: &str) -> (r: Result<Vec<(ConfigFilePath, ConfigFileSource)>, Error>)
        ensures
            match entry_dir(*self, pkg_key@) {
                None => r matches Err(Error::SafeRelativePath(_)),
                Some(dir) => r matches Ok(v) && v@.len() == entry_files(*self).symlinks@.len() && forall|i: int|
                    0 <= i < v@.len() ==> link_fits(#[trigger] v@[i], *self, dir, i),
            },
    {
        let (dir, files, dot) = match self {
            PkgConfigFiles::DotConfig { name, configs } => {
                let d = match name {
                    Some(n) => n.as_safe_relative_path().to_safe_relative_path_buf(),
                    None => match SinglePathComponent::try_new(pkg_key) {
                        Ok(c) => c.as_safe_relative_path().to_safe_relative_path_buf(),
                        Err(e) => {
                            return Err(Error::SafeRelativePath(e));
                        },
                    },
                };
                (d, configs, true)
            },
            PkgConfigFiles::Home { dir, configs } => (dir.to_safe_relative_path_buf(), configs, false),
        };
        let ghost d = entry_dir(*self, pkg_key@)->0;
        assert(dir@ == d);
        let mut out: Vec<(ConfigFilePath, ConfigFileSource)> = Vec::new();
        let mut i: usize = 0;
        while i < files.symlinks.len()
            invariant
                i <= files.symlinks@.len(),
                files == entry_files(*self),
                dir@ == d,
                dot == (*self is DotConfig),
                out@.len() == i,
                forall|j: int| 0 <= j < i ==> link_fits(#[trigger] out@[j], *self, d, j),
            decreases files.symlinks@.len() - i,
        {
            let sym = &files.symlinks[i];
            let at = dir.safe_join(sym);
            let path = if dot {
                ConfigFilePath::DotConfig(at)
            } else {
                ConfigFilePath::Home(at)
            };
            let in_repo = files.source.safe_join(sym);
            out.push((path, ConfigFileSource::SymlinkFrom(ConfigFilePath::Zenops(in_repo))));
            i = i + 1;
        }
        Ok(out)
    }
}

/// Whether `entries` has an entry at `k`.
pub open spec fn entries_have<V>(entries: Seq<(Seq<char>, V)>, k: Seq<char>) -> bool {
    entry_index(entries, k) is Some
}

/// The absolute path of the `i`-th managed path of entry `c` of pkg `key`.
pub open spec fn managed_text(c: PkgConfigFiles, key: Seq<char>, i: int, dirs: ConfigFileDirs) -> Seq<char> {
    push_segs(
        if c is DotConfig {
            dirs.config@
        } else {
            dirs.home@
        },
        normal_segs(segments(join_spec(entry_dir(c, key)->0, entry_files(c).symlinks@[i]@))),
    )
}

proof fn lemma_insert_keeps_keys<V>(before: Seq<(Seq<char>, V)>, key: Seq<char>, e: V)
    ensures
        entries_have(entries_insert(before, key, e), key),
        forall|k: Seq<char>| entries_have(before, k) ==> entries_have(entries_insert(before, key, e), k),
{
    let after = entries_insert(before, key, e);
    lemma_insert_keeps_order(before, key, e);
    lemma_entry_index_bounds(before, key);
    lemma_entry_index_bounds(after, key);
    if entry_index(after, key) is None {
        match entry_index(before, key) {
            Some(i) => assert(after[i].0 == key),
            None => assert(after[before.len() as int].0 == key),
        }
    }
    assert forall|k: Seq<char>| entries_have(before, k) implies entries_have(after, k) by {
        lemma_entry_index_bounds(before, k);
        lemma_entry_index_bounds(after, k);
        let j = entry_index(before, k)->0;
        assert(after[j].0 == k);
    }
}

/// Register the links of one configs entry of pkg `pkg_key`. Afterwards
/// every path the entry manages is registered, and so is every path that
/// was before.
pub fn update_config_files(c: &PkgConfigFiles, pkg_key: &str, files: &mut ConfigFiles) -> (r: Result<(), Error>)
    ensures
        final(files).dirs() == old(files).dirs(),
        r is Err <==> entry_dir(*c, pkg_key@) is None,
        r is Err ==> final(files).entries() == old(files).entries(),
        forall|k: Seq<char>| entries_have(old(files).entries(), k) ==> entries_have(final(files).entries(), k),
        r is Ok ==> forall|i: int|
            0 <= i < entry_files(*c).symlinks@.len() ==> entries_have(
                final(files).entries(),
                #[trigger] managed_text(*c, pkg_key@, i, old(files).dirs()),
            ),
{
    let mut links = match c.links(pkg_key) {
        Ok(l) => l,
        Err(e) => {
            return Err(e);
        },
    };
    let ghost dirs = files.dirs();
    let ghost start = files.entries();
    let ghost d = entry_dir(*c, pkg_key@)->0;
    let ghost all = links@;
    let n = links.len();
    let mut i: usize = 0;
    while i < n
        invariant
            0 <= i <= n,
            n == all.len(),
            n == entry_files(*c).symlinks@.len(),
            entry_dir(*c, pkg_key@) == Some(d),
            links@ == all.skip(i as int),
            forall|j: int| 0 <= j < n ==> link_fits(#[trigger] all[j], *c, d, j),
            files.dirs() == dirs,
            forall|k: Seq<char>| entries_have(start, k) ==> entries_have(files.entries(), k),
            forall|j: int| 0 <= j < i ==> entries_have(files.entries(), #[trigger] managed_text(*c, pkg_key@, j, dirs)),
        decreases n - i,
    {
        assert(links@[0] == all[i as int]);
        let (path, src) = links.remove(0);
        assert(links@ =~= all.skip(i + 1));
        let ghost before = files.entries();
        let ghost key = resolved_text(path, dirs);
        assert(link_fits(all[i as int], *c, d, i as int));
        assert(key == managed_text(*c, pkg_key@, i as int, dirs));
        files.add(path, src);
        proof {
            let e = choose|e: FileEntry|
                entry_for(e, path, src, dirs) && files.entries() == entries_insert(before, key, e);
            lemma_insert_keeps_keys(before, key, e);
        }
        i = i + 1;
    }
    Ok(())
}

} // verus!

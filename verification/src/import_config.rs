//! Which existing `[[pkg.<key>.configs]]` entry a path being imported
//! belongs to: the entry whose on-disk root is the path itself (the entry
//! is reconciled), or the one whose root is the longest strict ancestor of
//! it (the entry is extended).

use toml_edit::{Array, ArrayOfTables, DocumentMut, Table};
use vstd::prelude::*;

use crate::import::{path_to_forward_slash, std_path_components, ImportError};
use crate::import_doc::PkgsModel;
use crate::text::{copy_strings, owned, seq_join, str_eq, strip_prefix, views};
use crate::toml_model::{
    aot_get, aot_len, array_len, array_text_at, doc_root, table_get_array, table_get_table, table_get_tables,
    table_get_text, table_key_at, table_len, toml_aot, toml_array, toml_child, toml_keys, toml_kind, toml_root,
    toml_has, toml_strings, toml_tables, TomlKind,
};

verus! {

/// The strings among `l`, in order.
pub open spec fn strings_of(l: Seq<Option<Seq<char>>>) -> Seq<Seq<char>>
    decreases l.len(),
{
    if l.len() == 0 {
        Seq::empty()
    } else {
        match l.last() {
            Some(s) => strings_of(l.drop_last()).push(s),
            None => strings_of(l.drop_last()),
        }
    }
}

/// A configs entry as the library reads it: its string-valued fields, and
/// the strings of its `symlinks` array (none when `symlinks` holds no
/// array).
pub open spec fn entry_view(t: Table) -> (Map<Seq<char>, Seq<char>>, Seq<Seq<char>>) {
    (
        Map::new(|f: Seq<char>| toml_kind(t, f) is Text, |f: Seq<char>| toml_kind(t, f)->Text_0),
        if toml_kind(t, "symlinks"@) == TomlKind::List {
            strings_of(toml_strings(t, "symlinks"@))
        } else {
            Seq::empty()
        },
    )
}

/// The configs entries of a pkg table: the tables of its `configs` array
/// of tables (none when `configs` holds none).
pub open spec fn configs_view(t: Table) -> Seq<(Map<Seq<char>, Seq<char>>, Seq<Seq<char>>)> {
    if toml_kind(t, "configs"@) == TomlKind::Tables {
        Seq::new(toml_tables(t, "configs"@).len(), |j: int| entry_view(toml_tables(t, "configs"@)[j]))
    } else {
        Seq::empty()
    }
}

/// The configs entries of the item at `k` of the `pkg` table (none when
/// it is not a table).
pub open spec fn pkg_entries(p: Table, k: Seq<char>) -> Seq<(Map<Seq<char>, Seq<char>>, Seq<Seq<char>>)> {
    if toml_kind(p, k) == TomlKind::Table {
        configs_view(toml_child(p, k))
    } else {
        Seq::empty()
    }
}

/// The items of a `pkg` table in order, each key with its configs entries.
pub open spec fn pkgs_view(p: Table) -> PkgsModel {
    Seq::new(toml_keys(p).len(), |i: int| (toml_keys(p)[i], pkg_entries(p, toml_keys(p)[i])))
}

/// The `[pkg.*]` tables of a configuration document, in order: each key
/// with its `configs` entries (none when `configs` is not an array of
/// tables), each entry as its string-valued fields and the strings in its
/// `symlinks` array.
pub open spec fn toml_pkgs(doc: DocumentMut) -> PkgsModel {
    if toml_kind(toml_root(doc), "pkg"@) == TomlKind::Table {
        pkgs_view(toml_child(toml_root(doc), "pkg"@))
    } else {
        Seq::empty()
    }
}

/// The `pkg` table, if the document has one.
pub(crate) fn pkg_table(doc: &DocumentMut) -> (r: Option<&Table>)
    ensures
        r is Some <==> toml_kind(toml_root(*doc), "pkg"@) == TomlKind::Table,
        r matches Some(p) ==> *p == toml_child(toml_root(*doc), "pkg"@) && toml_pkgs(*doc) == pkgs_view(*p),
        r is Some ==> toml_has(toml_root(*doc), "pkg"@),
{
    table_get_table(doc_root(doc), "pkg")
}

/// How many pkg tables the document holds.
pub(crate) fn doc_pkg_count(doc: &DocumentMut) -> (r: usize)
    ensures
        r == toml_pkgs(*doc).len(),
{
    match pkg_table(doc) {
        Some(p) => table_len(p),
        None => 0,
    }
}

/// The key of the `i`-th pkg table.
pub(crate) fn doc_pkg_key(doc: &DocumentMut, i: usize) -> (r: String)
    requires
        i < toml_pkgs(*doc).len(),
    ensures
        r@ == toml_pkgs(*doc)[i as int].0,
{
    match pkg_table(doc) {
        Some(p) => table_key_at(p, i),
        None => String::new(),
    }
}

/// The `configs` tables of the `i`-th pkg, if it has them.
fn pkg_configs_at(doc: &DocumentMut, i: usize) -> (r: Option<&ArrayOfTables>)
    requires
        i < toml_pkgs(*doc).len(),
    ensures
        match r {
            Some(a) => toml_aot(*a).len() == toml_pkgs(*doc)[i as int].1.len() && forall|j: int|
                0 <= j < toml_aot(*a).len() ==> entry_view(#[trigger] toml_aot(*a)[j]) == toml_pkgs(*doc)[i as int].1[j],
            None => toml_pkgs(*doc)[i as int].1.len() == 0,
        },
{
    let p = match pkg_table(doc) {
        Some(p) => p,
        None => {
            return None;
        },
    };
    let key = table_key_at(p, i);
    let kt = match table_get_table(p, key.as_str()) {
        Some(kt) => kt,
        None => {
            return None;
        },
    };
    table_get_tables(kt, "configs")
}

/// How many tables the `i`-th pkg's `configs` array of tables holds.
pub(crate) fn doc_configs_count(doc: &DocumentMut, i: usize) -> (r: usize)
    requires
        i < toml_pkgs(*doc).len(),
    ensures
        r == toml_pkgs(*doc)[i as int].1.len(),
{
    match pkg_configs_at(doc, i) {
        Some(a) => aot_len(a),
        None => 0,
    }
}

/// The `j`-th configs entry of the `i`-th pkg.
fn entry_table(doc: &DocumentMut, i: usize, j: usize) -> (r: Option<&Table>)
    requires
        i < toml_pkgs(*doc).len(),
        j < toml_pkgs(*doc)[i as int].1.len(),
    ensures
        r matches Some(t) && entry_view(*t) == toml_pkgs(*doc)[i as int].1[j as int],
{
    match pkg_configs_at(doc, i) {
        Some(a) => aot_get(a, j),
        None => None,
    }
}

/// The string value of `field` in the `j`-th configs entry of the `i`-th
/// pkg, if it holds a string.
fn doc_entry_str(doc: &DocumentMut, i: usize, j: usize, field: &str) -> (r: Option<String>)
    requires
        i < toml_pkgs(*doc).len(),
        j < toml_pkgs(*doc)[i as int].1.len(),
    ensures
        match r {
            Some(s) => toml_pkgs(*doc)[i as int].1[j as int].0.contains_key(field@)
                && toml_pkgs(*doc)[i as int].1[j as int].0[field@] == s@,
            None => !toml_pkgs(*doc)[i as int].1[j as int].0.contains_key(field@),
        },
{
    match entry_table(doc, i, j) {
        Some(t) => table_get_text(t, field),
        None => None,
    }
}

/// The strings among the elements of `a`, in order.
fn array_strings(a: &Array) -> (r: Vec<String>)
    ensures
        views(r@) == strings_of(toml_array(*a)),
{
    let n = array_len(a);
    let ghost l = toml_array(*a);
    let mut out: Vec<String> = Vec::new();
    let mut j: usize = 0;
    assert(l.take(0) =~= Seq::<Option<Seq<char>>>::empty());
    assert(views(out@) =~= Seq::<Seq<char>>::empty());
    while j < n
        invariant
            n == l.len(),
            l == toml_array(*a),
            j <= n,
            views(out@) == strings_of(l.take(j as int)),
        decreases n - j,
    {
        assert(l.take(j + 1).drop_last() =~= l.take(j as int));
        assert(l.take(j + 1).last() == l[j as int]);
        match array_text_at(a, j) {
            Some(s) => {
                let ghost before = views(out@);
                out.push(s);
                assert(views(out@) =~= before.push(out@.last()@));
            },
            None => {},
        }
        j = j + 1;
    }
    assert(l.take(n as int) =~= l);
    out
}

/// The strings in the `symlinks` array of the `j`-th configs entry of the
/// `i`-th pkg, in order; elements that are not strings are skipped.
fn doc_entry_symlinks(doc: &DocumentMut, i: usize, j: usize) -> (r: Vec<String>)
    requires
        i < toml_pkgs(*doc).len(),
        j < toml_pkgs(*doc)[i as int].1.len(),
    ensures
        views(r@) == toml_pkgs(*doc)[i as int].1[j as int].1,
{
    let t = match entry_table(doc, i, j) {
        Some(t) => t,
        None => {
            return Vec::new();
        },
    };
    match table_get_array(t, "symlinks") {
        Some(a) => array_strings(a),
        None => {
            let v: Vec<String> = Vec::new();
            assert(views(v@) =~= Seq::<Seq<char>>::empty());
            v
        },
    }
}

/// The two shapes a managed config takes on disk.
#[derive(Debug, Clone, Copy, PartialEq, Eq, Structural)]
pub enum ImportType {
    /// `~/.config/<dir>`.
    DotConfig,
    /// A directory (or file) under `~`.
    Home,
}

/// The home-relative on-disk root of a configs entry of pkg `key`: for
/// `type = ".config"`, `.config/` and the entry's non-empty `name` (else
/// the key); for `type = "home"`, its non-empty `dir`. Other entries have
/// none.
pub open spec fn entry_root(key: Seq<char>, fields: Map<Seq<char>, Seq<char>>) -> Option<(Seq<char>, ImportType)> {
    if !fields.contains_key("type"@) {
        None
    } else if fields["type"@] == ".config"@ {
        let dir = if fields.contains_key("name"@) && fields["name"@].len() > 0 {
            fields["name"@]
        } else {
            key
        };
        Some((".config/"@ + dir, ImportType::DotConfig))
    } else if fields["type"@] == "home"@ {
        if fields.contains_key("dir"@) && fields["dir"@].len() > 0 {
            Some((fields["dir"@], ImportType::Home))
        } else {
            None
        }
    } else {
        None
    }
}

/// An entry an imported path falls under: pkg key, index among the pkg's
/// configs, type, on-disk root, `source`, the path relative to the root,
/// and the entry's current symlinks.
pub type MatchView = (Seq<char>, int, ImportType, Seq<char>, Seq<char>, Seq<char>, Seq<Seq<char>>);

/// The `j`-th configs entry of pkg `key` extends to `tail` when its root,
/// followed by `/`, is a proper prefix of `tail` and it has a `source`.
pub open spec fn extend_at(
    key: Seq<char>,
    j: int,
    entry: (Map<Seq<char>, Seq<char>>, Seq<Seq<char>>),
    tail: Seq<char>,
) -> Option<MatchView> {
    match entry_root(key, entry.0) {
        None => None,
        Some((root, ty)) => {
            let prefix = root + "/"@;
            if prefix.is_prefix_of(tail) && tail.len() > prefix.len() && entry.0.contains_key("source"@) {
                Some((key, j, ty, root, entry.0["source"@], tail.skip(prefix.len() as int), entry.1))
            } else {
                None
            }
        },
    }
}

/// The `j`-th configs entry of pkg `key` is rooted at `tail` itself and has
/// a `source`.
pub open spec fn root_at(
    key: Seq<char>,
    j: int,
    entry: (Map<Seq<char>, Seq<char>>, Seq<Seq<char>>),
    tail: Seq<char>,
) -> Option<MatchView> {
    match entry_root(key, entry.0) {
        None => None,
        Some((root, ty)) => if root == tail && entry.0.contains_key("source"@) {
            Some((key, j, ty, root, entry.0["source"@], Seq::empty(), entry.1))
        } else {
            None
        },
    }
}

/// The entries of one pkg that match, in order; `roots` selects
/// [`root_at`] over [`extend_at`].
pub open spec fn pkg_matches(
    key: Seq<char>,
    entries: Seq<(Map<Seq<char>, Seq<char>>, Seq<Seq<char>>)>,
    tail: Seq<char>,
    roots: bool,
) -> Seq<MatchView>
    decreases entries.len(),
{
    if entries.len() == 0 {
        Seq::empty()
    } else {
        let j = entries.len() - 1;
        let here = if roots {
            root_at(key, j, entries[j], tail)
        } else {
            extend_at(key, j, entries[j], tail)
        };
        pkg_matches(key, entries.drop_last(), tail, roots) + match here {
            Some(m) => seq![m],
            None => Seq::empty(),
        }
    }
}

/// The entries of every pkg that match, in document order.
pub open spec fn all_matches(
    pkgs: Seq<(Seq<char>, Seq<(Map<Seq<char>, Seq<char>>, Seq<Seq<char>>)>)>,
    tail: Seq<char>,
    roots: bool,
) -> Seq<MatchView>
    decreases pkgs.len(),
{
    if pkgs.len() == 0 {
        Seq::empty()
    } else {
        all_matches(pkgs.drop_last(), tail, roots) + pkg_matches(pkgs.last().0, pkgs.last().1, tail, roots)
    }
}

/// The longest root among `ms` (0 when there is none).
pub open spec fn max_root_len(ms: Seq<MatchView>) -> nat
    decreases ms.len(),
{
    if ms.len() == 0 {
        0
    } else {
        let rest = max_root_len(ms.drop_last());
        if ms.last().3.len() > rest {
            ms.last().3.len()
        } else {
            rest
        }
    }
}

/// The matches whose root is `n` long, in order.
pub open spec fn with_root_len(ms: Seq<MatchView>, n: nat) -> Seq<MatchView>
    decreases ms.len(),
{
    if ms.len() == 0 {
        Seq::empty()
    } else {
        with_root_len(ms.drop_last(), n) + if ms.last().3.len() == n {
            seq![ms.last()]
        } else {
            Seq::empty()
        }
    }
}

/// The pkg keys of `ms`, in order.
pub open spec fn match_keys(ms: Seq<MatchView>) -> Seq<Seq<char>> {
    Seq::new(ms.len(), |i: int| ms[i].0)
}

/// What a finder reports for the matches `ms` of `tail`: nothing, the
/// single match, or an ambiguity naming every candidate.
pub open spec fn pick(ms: Seq<MatchView>, tail: Seq<char>) -> Result<Option<MatchView>, (Seq<char>, Seq<Seq<char>>)> {
    if ms.len() == 0 {
        Ok(None)
    } else if ms.len() > 1 {
        Err((tail, match_keys(ms)))
    } else {
        Ok(Some(ms[0]))
    }
}

/// An existing configs entry a path being imported falls under.
#[derive(Debug, Clone, PartialEq)]
pub struct ConfigMatch {
    pub pkg_key: String,
    /// Index of the entry in `[pkg.<key>].configs`.
    pub config_index: usize,
    pub import_type: ImportType,
    /// Home-relative on-disk root, such as `.config/helix` or `.ssh`.
    pub on_disk_root: String,
    /// The entry's `source`: its directory inside the zenops repo.
    pub source_rel: String,
    /// The imported path relative to `on_disk_root` (empty for a root
    /// match).
    pub file_rel: String,
    /// The entry's current `symlinks`.
    pub existing_symlinks: Vec<String>,
}

impl ConfigMatch {
    pub open spec fn view_tuple(&self) -> MatchView {
        (
            self.pkg_key@,
            self.config_index as int,
            self.import_type,
            self.on_disk_root@,
            self.source_rel@,
            self.file_rel@,
            views(self.existing_symlinks@),
        )
    }
}

pub open spec fn match_views(ms: Seq<ConfigMatch>) -> Seq<MatchView> {
    Seq::new(ms.len(), |i: int| ms[i].view_tuple())
}

/// What a finder's result stands for.
pub open spec fn found_view(r: Result<Option<ConfigMatch>, ImportError>) -> Result<Option<MatchView>, (Seq<char>, Seq<Seq<char>>)> {
    match r {
        Ok(None) => Ok(None),
        Ok(Some(m)) => Ok(Some(m.view_tuple())),
        Err(ImportError::AmbiguousConfigMatch { path, candidates }) => Err((path@, views(candidates@))),
        Err(_) => Err((Seq::empty(), Seq::empty())),
    }
}

/// The on-disk root of the `j`-th entry of the `i`-th pkg, read from the
/// document.
fn read_entry_root(doc: &DocumentMut, i: usize, j: usize, key: &str) -> (r: Option<(String, ImportType)>)
    requires
        i < toml_pkgs(*doc).len(),
        j < toml_pkgs(*doc)[i as int].1.len(),
    ensures
        match (r, entry_root(key@, toml_pkgs(*doc)[i as int].1[j as int].0)) {
            (Some((root, ty)), Some((sroot, sty))) => root@ == sroot && ty == sty,
            (None, None) => true,
            _ => false,
        },
{
    let typ = match doc_entry_str(doc, i, j, "type") {
        Some(t) => t,
        None => {
            return None;
        },
    };
    if str_eq(typ.as_str(), ".config") {
        let dir = match doc_entry_str(doc, i, j, "name") {
            Some(n) => if n.unicode_len() > 0 {
                n
            } else {
                owned(key)
            },
            None => owned(key),
        };
        let mut root = owned(".config/");
        root.append(dir.as_str());
        Some((root, ImportType::DotConfig))
    } else if str_eq(typ.as_str(), "home") {
        match doc_entry_str(doc, i, j, "dir") {
            Some(d) => if d.unicode_len() > 0 {
                Some((d, ImportType::Home))
            } else {
                None
            },
            None => None,
        }
    } else {
        None
    }
}

/// The match the `j`-th entry of the `i`-th pkg (keyed `key`) makes with
/// `tail`, if any.
fn read_match(doc: &DocumentMut, i: usize, j: usize, key: &str, tail: &str, roots: bool) -> (r: Option<ConfigMatch>)
    requires
        i < toml_pkgs(*doc).len(),
        j < toml_pkgs(*doc)[i as int].1.len(),
        j < usize::MAX,
    ensures
        match (r, if roots {
            root_at(key@, j as int, toml_pkgs(*doc)[i as int].1[j as int], tail@)
        } else {
            extend_at(key@, j as int, toml_pkgs(*doc)[i as int].1[j as int], tail@)
        }) {
            (Some(m), Some(v)) => m.view_tuple() == v,
            (None, None) => true,
            _ => false,
        },
{
    let (root, ty) = match read_entry_root(doc, i, j, key) {
        Some(x) => x,
        None => {
            return None;
        },
    };
    let file_rel = if roots {
        if !str_eq(root.as_str(), tail) {
            return None;
        }
        String::new()
    } else {
        let mut prefix = owned(root.as_str());
        prefix.append("/");
        match strip_prefix(tail, prefix.as_str()) {
            Some(rest) => if rest.unicode_len() > 0 {
                rest
            } else {
                return None;
            },
            None => {
                return None;
            },
        }
    };
    let source_rel = match doc_entry_str(doc, i, j, "source") {
        Some(s) => s,
        None => {
            return None;
        },
    };
    let existing_symlinks = doc_entry_symlinks(doc, i, j);
    let m = ConfigMatch {
        pkg_key: owned(key),
        config_index: j,
        import_type: ty,
        on_disk_root: root,
        source_rel,
        file_rel,
        existing_symlinks,
    };
    proof {
        if roots {
            assert(m.file_rel@ =~= Seq::<char>::empty());
        }
    }
    Some(m)
}

/// Every entry of the document that matches `tail`, in document order.
fn collect_matches(doc: &DocumentMut, tail: &str, roots: bool) -> (r: Vec<ConfigMatch>)
    ensures
        match_views(r@) == all_matches(toml_pkgs(*doc), tail@, roots),
{
    let ghost pkgs = toml_pkgs(*doc);
    let n = doc_pkg_count(doc);
    let mut matches: Vec<ConfigMatch> = Vec::new();
    let mut i: usize = 0;
    while i < n
        invariant
            pkgs == toml_pkgs(*doc),
            n == pkgs.len(),
            i <= n,
            match_views(matches@) == all_matches(pkgs.take(i as int), tail@, roots),
        decreases n - i,
    {
        let key = doc_pkg_key(doc, i);
        let m = doc_configs_count(doc, i);
        let ghost before = matches@;
        let mut j: usize = 0;
        while j < m
            invariant
                pkgs == toml_pkgs(*doc),
                n == pkgs.len(),
                i < n,
                m == pkgs[i as int].1.len(),
                key@ == pkgs[i as int].0,
                j <= m,
                match_views(matches@) == match_views(before) + pkg_matches(key@, pkgs[i as int].1.take(j as int), tail@, roots),
            decreases m - j,
        {
            let ghost prev = matches@;
            let found = read_match(doc, i, j, key.as_str(), tail, roots);
            let ghost es = pkgs[i as int].1.take(j + 1);
            let ghost here = if roots {
                root_at(key@, j as int, es[j as int], tail@)
            } else {
                extend_at(key@, j as int, es[j as int], tail@)
            };
            proof {
                assert(es.drop_last() =~= pkgs[i as int].1.take(j as int));
                assert(es[j as int] == pkgs[i as int].1[j as int]);
                assert(pkg_matches(key@, es, tail@, roots) == pkg_matches(key@, es.drop_last(), tail@, roots) + match here {
                    Some(m) => seq![m],
                    None => Seq::<MatchView>::empty(),
                });
            }
            match found {
                Some(cm) => {
                    matches.push(cm);
                    proof {
                        assert(match_views(matches@) =~= match_views(prev).push(cm.view_tuple()));
                    }
                },
                None => {},
            }
            proof {
                assert(match_views(matches@) =~= match_views(before) + pkg_matches(key@, es, tail@, roots));
            }
            j = j + 1;
        }
        proof {
            let ps = pkgs.take(i + 1);
            assert(ps.drop_last() =~= pkgs.take(i as int));
            assert(pkgs[i as int].1.take(m as int) =~= pkgs[i as int].1);
        }
        i = i + 1;
    }
    assert(pkgs.take(n as int) =~= pkgs);
    matches
}

/// An owned copy of `m`.
fn copy_match(m: &ConfigMatch) -> (r: ConfigMatch)
    ensures
        r.view_tuple() == m.view_tuple(),
{
    ConfigMatch {
        pkg_key: owned(m.pkg_key.as_str()),
        config_index: m.config_index,
        import_type: m.import_type,
        on_disk_root: owned(m.on_disk_root.as_str()),
        source_rel: owned(m.source_rel.as_str()),
        file_rel: owned(m.file_rel.as_str()),
        existing_symlinks: copy_strings(m.existing_symlinks.as_slice()),
    }
}

/// Report the matches: none, the single one, or an ambiguity.
fn pick_match(ms: Vec<ConfigMatch>, tail: &str) -> (r: Result<Option<ConfigMatch>, ImportError>)
    ensures
        found_view(r) == pick(match_views(ms@), tail@),
{
    if ms.len() == 0 {
        return Ok(None);
    }
    if ms.len() > 1 {
        let mut keys: Vec<String> = Vec::new();
        let mut i: usize = 0;
        while i < ms.len()
            invariant
                i <= ms@.len(),
                views(keys@) == match_keys(match_views(ms@)).take(i as int),
            decreases ms@.len() - i,
        {
            let ghost prev = keys@;
            keys.push(owned(ms[i].pkg_key.as_str()));
            assert(views(keys@) =~= views(prev).push(ms@[i as int].pkg_key@));
            i = i + 1;
            assert(views(keys@) =~= match_keys(match_views(ms@)).take(i as int));
        }
        assert(match_keys(match_views(ms@)).take(ms@.len() as int) =~= match_keys(match_views(ms@)));
        return Err(ImportError::AmbiguousConfigMatch { path: owned(tail), candidates: keys });
    }
    let mut ms = ms;
    let only = ms.pop().unwrap();
    Ok(Some(only))
}

/// The home-relative path, components joined with `/`.
pub open spec fn tail_text(home_tail: Seq<char>) -> Seq<char> {
    seq_join(std_path_components(home_tail), "/"@)
}

/// The configs entry whose on-disk root is the longest strict ancestor of
/// `home_tail`; an error when several entries share that longest root.
pub fn find_matching_config(doc: &DocumentMut, home_tail: &str) -> (r: Result<Option<ConfigMatch>, ImportError>)
    ensures
        ({
            let ms = all_matches(toml_pkgs(*doc), tail_text(home_tail@), false);
            found_view(r) == pick(with_root_len(ms, max_root_len(ms)), tail_text(home_tail@))
        }),
{
    let tail = path_to_forward_slash(home_tail);
    let all = collect_matches(doc, tail.as_str(), false);
    let ghost ms = match_views(all@);
    let mut longest: usize = 0;
    let mut i: usize = 0;
    while i < all.len()
        invariant
            i <= all@.len(),
            ms == match_views(all@),
            longest == max_root_len(ms.take(i as int)),
        decreases all@.len() - i,
    {
        proof {
            assert(ms.take(i + 1).drop_last() =~= ms.take(i as int));
        }
        let len = all[i].on_disk_root.unicode_len();
        if len > longest {
            longest = len;
        }
        i = i + 1;
    }
    assert(ms.take(all@.len() as int) =~= ms);
    let mut best: Vec<ConfigMatch> = Vec::new();
    let mut k: usize = 0;
    let ghost orig = all@;
    while k < all.len()
        invariant
            all@ == orig,
            k <= all@.len(),
            ms == match_views(orig),
            longest == max_root_len(ms),
            match_views(best@) == with_root_len(ms.take(k as int), longest as nat),
        decreases all@.len() - k,
    {
        proof {
            assert(ms.take(k + 1).drop_last() =~= ms.take(k as int));
        }
        if all[k].on_disk_root.unicode_len() == longest {
            let ghost prev = best@;
            best.push(copy_match(&all[k]));
            assert(match_views(best@) =~= match_views(prev).push(orig[k as int].view_tuple()));
            assert(match_views(best@) =~= with_root_len(ms.take(k + 1), longest as nat));
        } else {
            assert(match_views(best@) =~= with_root_len(ms.take(k + 1), longest as nat));
        }
        k = k + 1;
    }
    assert(ms.take(all@.len() as int) =~= ms);
    pick_match(best, tail.as_str())
}

/// The configs entry whose on-disk root is `home_tail` itself; an error
/// when several entries claim it.
pub fn find_managed_root(doc: &DocumentMut, home_tail: &str) -> (r: Result<Option<ConfigMatch>, ImportError>)
    ensures
        found_view(r) == pick(all_matches(toml_pkgs(*doc), tail_text(home_tail@), true), tail_text(home_tail@)),
{
    let tail = path_to_forward_slash(home_tail);
    let all = collect_matches(doc, tail.as_str(), true);
    pick_match(all, tail.as_str())
}

} // verus!

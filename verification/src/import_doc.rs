//! Writing an import plan into `config.toml`: appending to or trimming an
//! entry's `symlinks`, or adding a configs entry (and the pkg block with
//! its install hint, when the pkg is new).

use toml_edit::{Array, DocumentMut, Table};
use vstd::prelude::*;

use crate::import_config::{
    configs_view, doc_configs_count, doc_pkg_count, doc_pkg_key, entry_view, pkg_entries, pkg_table, pkgs_view, strings_of, toml_pkgs,
};
use crate::toml_model::{
    aot_clone, aot_get, aot_new, aot_push, aot_set, array_clone, array_new, array_push_text, doc_put_table, doc_root,
    same_at, table_clone, table_contains, table_get_array, table_get_table, table_get_tables, table_has, table_key_at,
    table_new, table_put_array, table_put_table, table_put_tables, table_put_text, table_set_implicit, toml_aot,
    toml_array, toml_array_built, toml_child, toml_has, toml_keys, toml_kind, toml_root, toml_tables, TomlKind,
};
use crate::import_event::{
    adds_entry, configs_entry_fields, entry_fields, field_views, hint_packages, kept, EntryValue, EntryValueView,
};
use crate::import_plan::{Plan, TomlPlan};
use crate::text::{copy_strings, list_contains, str_eq, views};

verus! {

/// The `[pkg.*]` tables as [`toml_pkgs`] sees them.
pub type PkgsModel = Seq<(Seq<char>, Seq<(Map<Seq<char>, Seq<char>>, Seq<Seq<char>>)>)>;

/// The `j`-th configs entry of the `i`-th pkg (meaningful when there is
/// one).
pub open spec fn entry_at(doc: DocumentMut, i: int, j: int) -> Table {
    let p = toml_child(toml_root(doc), "pkg"@);
    toml_tables(toml_child(p, toml_keys(p)[i]), "configs"@)[j]
}

/// Whether the `symlinks` item of the `j`-th configs entry of the `i`-th
/// pkg is absent or an array, so that paths can be pushed onto it.
pub open spec fn toml_symlinks_editable(doc: DocumentMut, i: int, j: int) -> bool {
    let k = toml_kind(entry_at(doc, i, j), "symlinks"@);
    k == TomlKind::Absent || k == TomlKind::List
}

/// Whether a configs entry can be added under `[pkg.<key>]`: `pkg` is
/// absent or a table, `pkg.<key>` is absent or a table, and its `configs`
/// is absent or an array of tables, where absent means no key at all (not
/// even an empty placeholder item).
pub open spec fn toml_entry_slot_free(doc: DocumentMut, key: Seq<char>) -> bool {
    let root = toml_root(doc);
    let p = toml_child(root, "pkg"@);
    let kt = toml_child(p, key);
    ||| !toml_has(root, "pkg"@)
    ||| toml_kind(root, "pkg"@) == TomlKind::Table && (!toml_has(p, key) || toml_kind(p, key) == TomlKind::Table && (
        !toml_has(kt, "configs"@) || toml_kind(kt, "configs"@) == TomlKind::Tables))
}

/// Whether the `j`-th configs entry of the `i`-th pkg can take pushed
/// symlinks.
fn doc_symlinks_editable(doc: &DocumentMut, i: usize, j: usize) -> (r: bool)
    requires
        i < toml_pkgs(*doc).len(),
        j < toml_pkgs(*doc)[i as int].1.len(),
    ensures
        r == toml_symlinks_editable(*doc, i as int, j as int),
{
    let e = entry_ref(doc, i, j);
    !table_contains(e, "symlinks") || table_get_array(e, "symlinks").is_some()
}

/// The `j`-th configs entry of the `i`-th pkg.
fn entry_ref(doc: &DocumentMut, i: usize, j: usize) -> (r: &Table)
    requires
        i < toml_pkgs(*doc).len(),
        j < toml_pkgs(*doc)[i as int].1.len(),
    ensures
        *r == entry_at(*doc, i as int, j as int),
        entry_view(*r) == toml_pkgs(*doc)[i as int].1[j as int],
{
    let root = doc_root(doc);
    let p = table_get_table(root, "pkg").unwrap();
    let key = table_key_at(p, i);
    let kt = table_get_table(p, key.as_str()).unwrap();
    let a = table_get_tables(kt, "configs").unwrap();
    aot_get(a, j).unwrap()
}

/// Whether `pkg`, `pkg.<key>` and `pkg.<key>.configs` each are absent or
/// of the kind a new configs entry needs.
fn doc_entry_slot_free(doc: &DocumentMut, key: &str) -> (r: bool)
    ensures
        r == toml_entry_slot_free(*doc, key@),
{
    let root = doc_root(doc);
    if !table_has(root, "pkg") {
        return true;
    }
    let p = match table_get_table(root, "pkg") {
        Some(p) => p,
        None => {
            return false;
        },
    };
    if !table_has(p, key) {
        return true;
    }
    let kt = match table_get_table(p, key) {
        Some(kt) => kt,
        None => {
            return false;
        },
    };
    !table_has(kt, "configs") || table_get_tables(kt, "configs").is_some()
}

/// `pkgs` with the `symlinks` of the `j`-th entry of the `i`-th pkg set to
/// `syms`.
pub open spec fn with_symlinks(pkgs: PkgsModel, i: int, j: int, syms: Seq<Seq<char>>) -> PkgsModel {
    pkgs.update(i, (pkgs[i].0, pkgs[i].1.update(j, (pkgs[i].1[j].0, syms))))
}

/// Whether an item of a `symlinks` array stays when `paths` are dropped:
/// it stays unless it is one of them.
fn keeps_symlink(v: Option<&str>, paths: &Vec<String>) -> (r: bool)
    ensures
        r == match v {
            Some(s) => !views(paths@).contains(s@),
            None => true,
        },
{
    match v {
        Some(s) => !list_contains(paths.as_slice(), s),
        None => true,
    }
}

/// The elements of `l` that [`keeps_symlink`] keeps.
pub open spec fn kept_items(l: Seq<Option<Seq<char>>>, removed: Seq<Seq<char>>) -> Seq<Option<Seq<char>>>
    decreases l.len(),
{
    if l.len() == 0 {
        Seq::empty()
    } else {
        let rest = kept_items(l.drop_last(), removed);
        match l.last() {
            Some(s) => if removed.contains(s) {
                rest
            } else {
                rest.push(Some(s))
            },
            None => rest.push(None),
        }
    }
}

/// `Array::retain` with [`keeps_symlink`].
#[verifier::external_body]
fn array_retain(a: &mut Array, paths: &Vec<String>)
    ensures
        toml_array(*final(a)) == kept_items(toml_array(*old(a)), views(paths@)),
{
    a.retain(|v| keeps_symlink(v.as_str(), paths));
}

proof fn lemma_strings_of_kept(l: Seq<Option<Seq<char>>>, removed: Seq<Seq<char>>)
    ensures
        strings_of(kept_items(l, removed)) == kept(strings_of(l), removed),
    decreases l.len(),
{
    if l.len() > 0 {
        lemma_strings_of_kept(l.drop_last(), removed);
        match l.last() {
            Some(s) => {
                assert(strings_of(l).drop_last() =~= strings_of(l.drop_last()));
                assert(strings_of(l).last() == s);
                if !removed.contains(s) {
                    assert(kept_items(l, removed).drop_last() =~= kept_items(l.drop_last(), removed));
                }
            },
            None => {
                assert(kept_items(l, removed).drop_last() =~= kept_items(l.drop_last(), removed));
            },
        }
    }
}

/// An array of the strings, in order.
pub(crate) fn text_array(items: &Vec<String>) -> (r: Array)
    ensures
        strings_of(toml_array(r)) == views(items@),
        toml_array(r) == Seq::new(items@.len(), |k: int| Some(items@[k]@)),
        toml_array_built(r) == Some(views(items@)),
{
    let mut a = array_new();
    let mut k: usize = 0;
    while k < items.len()
        invariant
            k <= items@.len(),
            toml_array(a) == Seq::new(k as nat, |m: int| Some(items@[m]@)),
            strings_of(toml_array(a)) == views(items@).take(k as int),
            toml_array_built(a) == Some(views(items@).take(k as int)),
        decreases items@.len() - k,
    {
        let ghost before = toml_array(a);
        array_push_text(&mut a, items[k].as_str());
        assert(toml_array(a).drop_last() =~= before);
        assert(toml_array(a) =~= Seq::new((k + 1) as nat, |m: int| Some(items@[m]@)));
        assert(views(items@).take(k + 1) =~= views(items@).take(k as int).push(items@[k as int]@));
        k = k + 1;
    }
    assert(views(items@).take(items@.len() as int) =~= views(items@));
    a
}

/// A copy of the `pkg` table to edit (a new table when there is none).
fn pkg_root_copy(doc: &DocumentMut) -> (r: Table)
    ensures
        pkgs_view(r) == toml_pkgs(*doc),
        toml_keys(r).no_duplicates(),
        toml_kind(toml_root(*doc), "pkg"@) == TomlKind::Table ==> r == toml_child(toml_root(*doc), "pkg"@)
            && toml_has(toml_root(*doc), "pkg"@),
        toml_kind(toml_root(*doc), "pkg"@) != TomlKind::Table ==> toml_keys(r) == Seq::<Seq<char>>::empty()
            && forall|k: Seq<char>| !#[trigger] toml_has(r, k),
{
    match pkg_table(doc) {
        Some(p) => table_clone(p),
        None => {
            let t = table_new();
            assert(pkgs_view(t) =~= PkgsModel::empty());
            t
        },
    }
}

/// The pkg tables of `p` stay as they were where `p` and `q` agree.
proof fn lemma_pkgs_view_same(p: Table, q: Table)
    requires
        toml_keys(p) == toml_keys(q),
        forall|k: Seq<char>| #[trigger] same_at(p, q, k),
    ensures
        pkgs_view(p) == pkgs_view(q),
{
    assert forall|i: int| 0 <= i < toml_keys(p).len() implies pkgs_view(p)[i] == pkgs_view(q)[i] by {
        assert(same_at(p, q, toml_keys(p)[i]));
    }
    assert(pkgs_view(p) =~= pkgs_view(q));
}

/// Put the edited `pkg` table back into the document.
fn set_pkg_root(doc: &mut DocumentMut, p: Table)
    ensures
        toml_pkgs(*final(doc)) == pkgs_view(p),
        toml_has(toml_root(*final(doc)), "pkg"@),
        toml_kind(toml_root(*final(doc)), "pkg"@) == TomlKind::Table,
        toml_child(toml_root(*final(doc)), "pkg"@) == p,
{
    doc_put_table(doc, "pkg", p);
}

/// Push the paths onto the `symlinks` array of the `j`-th configs entry of
/// the `i`-th pkg, creating the array when the entry has none.
fn doc_append_symlinks(doc: &mut DocumentMut, i: usize, j: usize, paths: &Vec<String>)
    requires
        i < toml_pkgs(*old(doc)).len(),
        j < toml_pkgs(*old(doc))[i as int].1.len(),
        toml_symlinks_editable(*old(doc), i as int, j as int),
    ensures
        toml_pkgs(*final(doc)) == with_symlinks(
            toml_pkgs(*old(doc)),
            i as int,
            j as int,
            toml_pkgs(*old(doc))[i as int].1[j as int].1 + views(paths@),
        ),
{
    let ghost pkgs = toml_pkgs(*doc);
    let e0 = entry_ref(doc, i, j);
    let mut arr = match table_get_array(e0, "symlinks") {
        Some(a) => array_clone(a),
        None => array_new(),
    };
    let ghost a0 = toml_array(arr);
    assert(strings_of(a0) == pkgs[i as int].1[j as int].1);
    let mut k: usize = 0;
    while k < paths.len()
        invariant
            k <= paths@.len(),
            strings_of(toml_array(arr)) == strings_of(a0) + views(paths@).take(k as int),
        decreases paths@.len() - k,
    {
        let ghost before = toml_array(arr);
        array_push_text(&mut arr, paths[k].as_str());
        assert(toml_array(arr).drop_last() =~= before);
        assert(views(paths@).take(k + 1) =~= views(paths@).take(k as int).push(paths@[k as int]@));
        assert(strings_of(a0) + views(paths@).take(k + 1) =~= (strings_of(a0) + views(paths@).take(k as int)).push(
            paths@[k as int]@,
        ));
        k = k + 1;
    }
    assert(views(paths@).take(paths@.len() as int) =~= views(paths@));
    replace_symlinks(doc, i, j, arr);
}

/// Drop the strings in `paths` from the `symlinks` array of the `j`-th
/// configs entry of the `i`-th pkg (nothing when it has no array).
fn doc_retain_symlinks(doc: &mut DocumentMut, i: usize, j: usize, paths: &Vec<String>)
    requires
        i < toml_pkgs(*old(doc)).len(),
        j < toml_pkgs(*old(doc))[i as int].1.len(),
    ensures
        toml_pkgs(*final(doc)) == with_symlinks(
            toml_pkgs(*old(doc)),
            i as int,
            j as int,
            kept(toml_pkgs(*old(doc))[i as int].1[j as int].1, views(paths@)),
        ),
{
    let ghost pkgs = toml_pkgs(*doc);
    let e0 = entry_ref(doc, i, j);
    match table_get_array(e0, "symlinks") {
        Some(a) => {
            let mut arr = array_clone(a);
            let ghost a0 = toml_array(arr);
            array_retain(&mut arr, paths);
            proof {
                lemma_strings_of_kept(a0, views(paths@));
            }
            replace_symlinks(doc, i, j, arr);
        },
        None => {
            proof {
                assert(pkgs[i as int].1[j as int].1 == Seq::<Seq<char>>::empty());
                assert(kept(Seq::<Seq<char>>::empty(), views(paths@)) == Seq::<Seq<char>>::empty());
                lemma_with_same(pkgs, i as int, j as int);
            }
        },
    }
}

/// Set the `symlinks` array of the `j`-th configs entry of the `i`-th pkg
/// to `arr`, where it holds an array or nothing.
fn replace_symlinks(doc: &mut DocumentMut, i: usize, j: usize, arr: Array)
    requires
        i < toml_pkgs(*old(doc)).len(),
        j < toml_pkgs(*old(doc))[i as int].1.len(),
        toml_symlinks_editable(*old(doc), i as int, j as int),
    ensures
        toml_pkgs(*final(doc)) == with_symlinks(
            toml_pkgs(*old(doc)),
            i as int,
            j as int,
            strings_of(toml_array(arr)),
        ),
{
    let ghost pkgs = toml_pkgs(*doc);
    let root = doc_root(doc);
    let p0 = table_get_table(root, "pkg").unwrap();
    let mut p = table_clone(p0);
    let key = table_key_at(&p, i);
    let mut kt = table_clone(table_get_table(&p, key.as_str()).unwrap());
    let mut a = aot_clone(table_get_tables(&kt, "configs").unwrap());
    let mut e = table_clone(aot_get(&a, j).unwrap());
    let ghost e0 = e;
    let ghost kt0 = kt;
    let ghost p1 = p;
    table_put_array(&mut e, "symlinks", arr);
    proof {
        assert(entry_view(e).0 =~= entry_view(e0).0) by {
            assert forall|f: Seq<char>| #[trigger] toml_kind(e, f) is Text == toml_kind(e0, f) is Text by {
                if f != "symlinks"@ {
                    assert(same_at(e0, e, f));
                }
            }
            assert forall|f: Seq<char>| toml_kind(e, f) is Text implies #[trigger] toml_kind(e, f)->Text_0 == toml_kind(
                e0,
                f,
            )->Text_0 by {
                if f != "symlinks"@ {
                    assert(same_at(e0, e, f));
                }
            }
        }
    }
    let ghost a0 = toml_aot(a);
    aot_set(&mut a, j, e);
    table_put_tables(&mut kt, "configs", a);
    proof {
        assert(configs_view(kt) =~= configs_view(kt0).update(j as int, entry_view(e)));
    }
    table_put_table(&mut p, key.as_str(), kt);
    proof {
        let ki = toml_keys(p1)[i as int];
        assert(toml_keys(p) == toml_keys(p1));
        assert forall|m: int| 0 <= m < toml_keys(p).len() implies #[trigger] pkgs_view(p)[m] == with_symlinks(
            pkgs,
            i as int,
            j as int,
            strings_of(toml_array(arr)),
        )[m] by {
            if m != i {
                assert(toml_keys(p1)[m] != ki);
                assert(same_at(p1, p, toml_keys(p1)[m]));
            }
        }
        assert(pkgs_view(p) =~= with_symlinks(pkgs, i as int, j as int, strings_of(toml_array(arr))));
    }
    set_pkg_root(doc, p);
}

/// A pkg table whose only item is `install_hint.brew.packages`.
fn hint_pkg_table(packages: &Vec<String>) -> (r: Table)
    ensures
        !toml_has(r, "configs"@),
        toml_kind(r, "configs"@) == TomlKind::Absent,
{
    let mut brew = table_new();
    table_put_array(&mut brew, "packages", text_array(packages));
    let mut hint = table_new();
    table_put_table(&mut hint, "brew", brew);
    let mut pkg = table_new();
    let ghost empty = pkg;
    table_put_table(&mut pkg, "install_hint", hint);
    proof {
        reveal_strlit("install_hint");
        reveal_strlit("configs");
        assert("install_hint"@.len() != "configs"@.len());
        assert(same_at(empty, pkg, "configs"@));
    }
    pkg
}

/// Create `[pkg.<key>]` with `install_hint.brew.packages` set to the
/// packages (the `pkg` table marked implicit).
fn doc_add_pkg_with_hint(doc: &mut DocumentMut, key: &str, packages: &Vec<String>)
    requires
        toml_entry_slot_free(*old(doc), key@),
        !has_pkg(toml_pkgs(*old(doc)), key@),
    ensures
        toml_pkgs(*final(doc)) == toml_pkgs(*old(doc)).push((key@, Seq::empty())),
        toml_entry_slot_free(*final(doc), key@),
{
    let ghost pkgs = toml_pkgs(*doc);
    let ghost root = toml_root(*doc);
    let mut p = pkg_root_copy(doc);
    let ghost p0 = p;
    let present = table_has(&p, key);
    proof {
        if present {
            assert(toml_kind(root, "pkg"@) == TomlKind::Table);
            assert(p0 == toml_child(root, "pkg"@));
            assert(toml_kind(p0, key@) == TomlKind::Table);
            assert(toml_keys(p0).contains(key@));
            let m = choose|m: int| 0 <= m < toml_keys(p0).len() && toml_keys(p0)[m] == key@;
            assert(pkgs[m].0 == key@);
            assert(false);
        }
    }
    table_set_implicit(&mut p);
    let ghost p1 = p;
    let t = hint_pkg_table(packages);
    proof {
        assert(same_at(p0, p1, key@));
    }
    table_put_table(&mut p, key, t);
    proof {
        assert(toml_keys(p) == toml_keys(p0).push(key@));
        assert forall|m: int| 0 <= m < toml_keys(p0).len() implies #[trigger] pkgs_view(p)[m] == pkgs[m] by {
            let km = toml_keys(p0)[m];
            assert(pkgs[m].0 == km);
            assert(km != key@);
            assert(same_at(p1, p, km));
            assert(same_at(p0, p1, km));
        }
        assert(pkgs_view(p)[toml_keys(p0).len() as int] == (key@, Seq::<(Map<Seq<char>, Seq<char>>, Seq<Seq<char>>)>::empty())) by {
            assert(configs_view(t) =~= Seq::<(Map<Seq<char>, Seq<char>>, Seq<Seq<char>>)>::empty());
        }
        assert(pkgs_view(p) =~= pkgs.push((key@, Seq::empty())));
    }
    set_pkg_root(doc, p);
}

/// The string-valued fields of a new entry, each key with the last value
/// written at it.
pub open spec fn text_fields(fs: Seq<(Seq<char>, EntryValueView)>) -> Map<Seq<char>, Seq<char>>
    decreases fs.len(),
{
    if fs.len() == 0 {
        Map::empty()
    } else {
        let m = text_fields(fs.drop_last());
        match fs.last().1 {
            EntryValueView::Text(s) => m.insert(fs.last().0, s),
            EntryValueView::List(_) => m.remove(fs.last().0),
        }
    }
}

/// The `symlinks` list of a new entry: the last value written at
/// `symlinks`, when it is a list (empty otherwise).
pub open spec fn symlinks_field(fs: Seq<(Seq<char>, EntryValueView)>) -> Seq<Seq<char>>
    decreases fs.len(),
{
    if fs.len() == 0 {
        Seq::empty()
    } else {
        if fs.last().0 == "symlinks"@ {
            match fs.last().1 {
                EntryValueView::List(l) => l,
                EntryValueView::Text(_) => Seq::empty(),
            }
        } else {
            symlinks_field(fs.drop_last())
        }
    }
}

/// A new entry as [`toml_pkgs`] sees it.
pub open spec fn entry_model(fs: Seq<(Seq<char>, EntryValueView)>) -> (Map<Seq<char>, Seq<char>>, Seq<Seq<char>>) {
    (text_fields(fs), symlinks_field(fs))
}

/// Whether position `i` holds the first pkg named `key`.
pub open spec fn is_first_pkg(pkgs: PkgsModel, key: Seq<char>, i: int) -> bool {
    &&& 0 <= i < pkgs.len()
    &&& pkgs[i].0 == key
    &&& forall|j: int| 0 <= j < i ==> (#[trigger] pkgs[j]).0 != key
}

pub open spec fn has_pkg(pkgs: PkgsModel, key: Seq<char>) -> bool {
    exists|i: int| 0 <= i < pkgs.len() && (#[trigger] pkgs[i]).0 == key
}

/// The position of the first pkg named `key` (meaningful when there is one).
pub open spec fn first_pkg(pkgs: PkgsModel, key: Seq<char>) -> int {
    choose|i: int| is_first_pkg(pkgs, key, i)
}

/// `pkgs` with the entry added under `key`: appended to the pkg's entries,
/// or as a new pkg at the end.
pub open spec fn with_entry(pkgs: PkgsModel, key: Seq<char>, e: (Map<Seq<char>, Seq<char>>, Seq<Seq<char>>)) -> PkgsModel {
    if has_pkg(pkgs, key) {
        let i = first_pkg(pkgs, key);
        pkgs.update(i, (key, pkgs[i].1.push(e)))
    } else {
        pkgs.push((key, seq![e]))
    }
}

/// A table holding the fields, written in order.
fn new_entry_table(fields: &Vec<(String, EntryValue)>) -> (r: Table)
    ensures
        entry_view(r) == entry_model(field_views(fields@)),
{
    let mut t = table_new();
    let ghost fs = field_views(fields@);
    assert(fs.take(0) =~= Seq::<(Seq<char>, EntryValueView)>::empty());
    assert(entry_view(t).0 =~= Map::<Seq<char>, Seq<char>>::empty());
    let mut i: usize = 0;
    while i < fields.len()
        invariant
            i <= fields@.len(),
            fs == field_views(fields@),
            entry_view(t) == entry_model(fs.take(i as int)),
        decreases fields@.len() - i,
    {
        let (k, v) = &fields[i];
        assert(fs.take(i + 1).drop_last() =~= fs.take(i as int));
        assert(fs.take(i + 1).last() == fs[i as int]);
        let ghost t0 = t;
        match v {
            EntryValue::Text(s) => {
                table_put_text(&mut t, k.as_str(), s.as_str());
                proof {
                    assert(entry_view(t).0 =~= entry_view(t0).0.insert(k@, s@)) by {
                        assert forall|f: Seq<char>| f != k@ implies #[trigger] toml_kind(t, f) == toml_kind(t0, f) by {
                            assert(same_at(t0, t, f));
                        }
                    }
                    if k@ != "symlinks"@ {
                        assert(same_at(t0, t, "symlinks"@));
                    }
                }
            },
            EntryValue::List(l) => {
                let arr = text_array(l);
                table_put_array(&mut t, k.as_str(), arr);
                proof {
                    assert(entry_view(t).0 =~= entry_view(t0).0.remove(k@)) by {
                        assert forall|f: Seq<char>| f != k@ implies #[trigger] toml_kind(t, f) == toml_kind(t0, f) by {
                            assert(same_at(t0, t, f));
                        }
                    }
                    if k@ != "symlinks"@ {
                        assert(same_at(t0, t, "symlinks"@));
                    }
                }
            },
        }
        i = i + 1;
    }
    assert(fs.take(fields@.len() as int) =~= fs);
    t
}

/// Add a `[[pkg.<key>.configs]]` entry with these fields, creating the
/// tables on the way (the `pkg` table marked implicit).
fn doc_push_configs_entry(doc: &mut DocumentMut, key: &str, fields: &Vec<(String, EntryValue)>)
    requires
        toml_entry_slot_free(*old(doc), key@),
    ensures
        toml_pkgs(*final(doc)) == with_entry(toml_pkgs(*old(doc)), key@, entry_model(field_views(fields@))),
{
    let ghost pkgs = toml_pkgs(*doc);
    let entry = new_entry_table(fields);
    let mut p = pkg_root_copy(doc);
    let ghost p0 = p;
    let present = table_has(&p, key);
    table_set_implicit(&mut p);
    let ghost p1 = p;
    let mut kt = if present {
        match table_get_table(&p, key) {
            Some(c) => table_clone(c),
            None => table_new(),
        }
    } else {
        table_new()
    };
    let ghost kt0 = kt;
    let mut a = match table_get_tables(&kt, "configs") {
        Some(x) => aot_clone(x),
        None => aot_new(),
    };
    proof {
        assert(same_at(p1, p1, key@));
    }
    assert(configs_view(kt0) =~= Seq::new(toml_aot(a).len(), |m: int| entry_view(toml_aot(a)[m])));
    aot_push(&mut a, entry);
    table_put_tables(&mut kt, "configs", a);
    assert(configs_view(kt) =~= configs_view(kt0).push(entry_view(entry)));
    let ghost kt1 = kt;
    table_put_table(&mut p, key, kt);
    proof {
        let e = entry_view(entry);
        assert(pkgs == pkgs_view(p0));
        assert(same_at(p0, p1, key@));
        if present {
            assert(toml_kind(p0, key@) == TomlKind::Table);
            assert(toml_keys(p0).contains(key@));
            let f = choose|f: int| 0 <= f < toml_keys(p0).len() && toml_keys(p0)[f] == key@;
            assert(is_first_pkg(pkgs, key@, f)) by {
                assert forall|q: int| 0 <= q < f implies (#[trigger] pkgs[q]).0 != key@ by {
                    assert(pkgs[q].0 == toml_keys(p0)[q]);
                }
            }
            lemma_first_pkg(pkgs, key@, f);
            assert(kt0 == toml_child(p0, key@));
            assert(pkg_entries(p0, key@) == configs_view(kt0));
            assert(toml_keys(p) == toml_keys(p0));
            assert forall|m: int| 0 <= m < toml_keys(p0).len() implies #[trigger] pkgs_view(p)[m] == with_entry(
                pkgs,
                key@,
                e,
            )[m] by {
                let km = toml_keys(p0)[m];
                if m != f {
                    assert(km != key@) by {
                        assert(toml_keys(p0).no_duplicates());
                    }
                    assert(same_at(p1, p, km));
                    assert(same_at(p0, p1, km));
                } else {
                    assert(pkg_entries(p, key@) == configs_view(kt1));
                }
            }
            assert(pkgs_view(p) =~= with_entry(pkgs, key@, e));
        } else {
            assert(!toml_keys(p0).contains(key@));
            assert(!has_pkg(pkgs, key@)) by {
                if has_pkg(pkgs, key@) {
                    let w = choose|w: int| 0 <= w < pkgs.len() && (#[trigger] pkgs[w]).0 == key@;
                    assert(toml_keys(p0)[w] == key@);
                }
            }
            assert(toml_keys(p) == toml_keys(p0).push(key@));
            assert forall|m: int| 0 <= m < toml_keys(p0).len() implies #[trigger] pkgs_view(p)[m] == pkgs[m] by {
                let km = toml_keys(p0)[m];
                assert(km != key@);
                assert(same_at(p1, p, km));
                assert(same_at(p0, p1, km));
            }
            assert(configs_view(kt0) =~= Seq::<(Map<Seq<char>, Seq<char>>, Seq<Seq<char>>)>::empty());
            assert(pkg_entries(p, key@) == configs_view(kt1));
            assert(pkgs_view(p) =~= pkgs.push((key@, seq![e])));
        }
    }
    set_pkg_root(doc, p);
}

// ---------- the update ----------

/// The `symlinks` of an existing entry after the plan's change.
pub open spec fn edited_symlinks(old: Seq<Seq<char>>, t: TomlPlan) -> Seq<Seq<char>> {
    match t {
        TomlPlan::ExtendExisting { added_symlinks, .. } => old + views(added_symlinks@),
        TomlPlan::Reconcile { added_symlinks, removed_symlinks, .. } => kept(
            old + views(added_symlinks@),
            views(removed_symlinks@),
        ),
        _ => old,
    }
}

pub open spec fn plan_index(t: TomlPlan) -> int {
    match t {
        TomlPlan::ExtendExisting { config_index, .. } => config_index as int,
        TomlPlan::Reconcile { config_index, .. } => config_index as int,
        _ => 0,
    }
}

pub open spec fn plan_adds(t: TomlPlan) -> bool {
    match t {
        TomlPlan::ExtendExisting { added_symlinks, .. } => added_symlinks@.len() > 0,
        TomlPlan::Reconcile { added_symlinks, .. } => added_symlinks@.len() > 0,
        _ => false,
    }
}

/// Whether `doc` can take the plan's change: the entry it edits exists
/// (and its `symlinks` can be appended to, when something is appended), or
/// the new entry's place is free (and the pkg is absent, when it is
/// created).
pub open spec fn update_fits(doc: DocumentMut, plan: Plan, created_pkg: bool) -> bool {
    let pkgs = toml_pkgs(doc);
    let key = plan.pkg_key@;
    if adds_entry(plan.toml) {
        toml_entry_slot_free(doc, key) && (created_pkg ==> !has_pkg(pkgs, key))
    } else {
        has_pkg(pkgs, key) && plan_index(plan.toml) < pkgs[first_pkg(pkgs, key)].1.len() && (plan_adds(plan.toml)
            ==> toml_symlinks_editable(doc, first_pkg(pkgs, key), plan_index(plan.toml)))
    }
}

/// The pkg tables after the plan's change.
pub open spec fn updated_pkgs(pkgs: PkgsModel, plan: Plan, created_pkg: bool) -> PkgsModel {
    let key = plan.pkg_key@;
    if adds_entry(plan.toml) {
        let with_pkg = if created_pkg {
            pkgs.push((key, Seq::empty()))
        } else {
            pkgs
        };
        with_entry(with_pkg, key, entry_model(entry_fields(plan)))
    } else {
        let i = first_pkg(pkgs, key);
        let j = plan_index(plan.toml);
        with_symlinks(pkgs, i, j, edited_symlinks(pkgs[i].1[j].1, plan.toml))
    }
}

proof fn lemma_first_pkg(pkgs: PkgsModel, key: Seq<char>, i: int)
    requires
        is_first_pkg(pkgs, key, i),
    ensures
        has_pkg(pkgs, key),
        first_pkg(pkgs, key) == i,
{
    let k = first_pkg(pkgs, key);
    assert(is_first_pkg(pkgs, key, k));
    if k < i {
        assert(pkgs[k].0 != key);
    } else if i < k {
        assert(pkgs[i].0 != key);
    }
}

/// The position of the first pkg named `key`, if any.
fn find_pkg(doc: &DocumentMut, key: &str) -> (r: Option<usize>)
    ensures
        match r {
            Some(i) => is_first_pkg(toml_pkgs(*doc), key@, i as int),
            None => !has_pkg(toml_pkgs(*doc), key@),
        },
{
    let n = doc_pkg_count(doc);
    let mut i: usize = 0;
    while i < n
        invariant
            n == toml_pkgs(*doc).len(),
            i <= n,
            forall|j: int| 0 <= j < i ==> (#[trigger] toml_pkgs(*doc)[j]).0 != key@,
        decreases n - i,
    {
        let k = doc_pkg_key(doc, i);
        if str_eq(k.as_str(), key) {
            return Some(i);
        }
        i = i + 1;
    }
    None
}

/// Write the plan's change into `doc`: extend or reconcile the entry's
/// `symlinks` in place, or add the new configs entry, after the pkg block
/// with its install hint (the brew packages, none under
/// `--no-install-hint`) when the pkg is created.
pub fn update_doc(doc: &mut DocumentMut, plan: &Plan, created_pkg: bool, no_install_hint: bool, brew: &Vec<String>)
    requires
        update_fits(*old(doc), *plan, created_pkg),
    ensures
        toml_pkgs(*final(doc)) == updated_pkgs(toml_pkgs(*old(doc)), *plan, created_pkg),
{
    let ghost pkgs = toml_pkgs(*doc);
    let key = plan.pkg_key.as_str();
    match &plan.toml {
        TomlPlan::ExtendExisting { config_index, added_symlinks, .. } => {
            let i = match find_pkg(doc, key) {
                Some(i) => i,
                None => {
                    return;
                },
            };
            proof {
                lemma_first_pkg(pkgs, key@, i as int);
            }
            if added_symlinks.len() > 0 {
                doc_append_symlinks(doc, i, *config_index, added_symlinks);
            } else {
                assert(pkgs[i as int].1[*config_index as int].1 + views(added_symlinks@) =~= pkgs[i as int].1[*config_index as int].1);
                proof {
                    lemma_with_same(pkgs, i as int, *config_index as int);
                }
            }
        },
        TomlPlan::Reconcile { config_index, added_symlinks, removed_symlinks, .. } => {
            let i = match find_pkg(doc, key) {
                Some(i) => i,
                None => {
                    return;
                },
            };
            proof {
                lemma_first_pkg(pkgs, key@, i as int);
            }
            let j = *config_index;
            let ghost old_syms = pkgs[i as int].1[j as int].1;
            if added_symlinks.len() > 0 {
                doc_append_symlinks(doc, i, j, added_symlinks);
            } else {
                assert(old_syms + views(added_symlinks@) =~= old_syms);
                proof {
                    lemma_with_same(pkgs, i as int, j as int);
                }
            }
            let ghost mid = toml_pkgs(*doc);
            assert(mid == with_symlinks(pkgs, i as int, j as int, old_syms + views(added_symlinks@)));
            proof {
                lemma_with_twice(
                    pkgs,
                    i as int,
                    j as int,
                    old_syms + views(added_symlinks@),
                    kept(old_syms + views(added_symlinks@), views(removed_symlinks@)),
                );
            }
            if removed_symlinks.len() > 0 {
                doc_retain_symlinks(doc, i, j, removed_symlinks);
            } else {
                proof {
                    lemma_kept_none(old_syms + views(added_symlinks@), views(removed_symlinks@));
                }
            }
        },
        _ => {
            if created_pkg {
                let packages = if no_install_hint {
                    Vec::new()
                } else {
                    copy_strings(brew.as_slice())
                };
                doc_add_pkg_with_hint(doc, key, &packages);
            }
            let fields = configs_entry_fields(plan);
            doc_push_configs_entry(doc, key, &fields);
        },
    }
}

proof fn lemma_with_same(pkgs: PkgsModel, i: int, j: int)
    requires
        0 <= i < pkgs.len(),
        0 <= j < pkgs[i].1.len(),
    ensures
        with_symlinks(pkgs, i, j, pkgs[i].1[j].1) == pkgs,
{
    assert(pkgs[i].1.update(j, (pkgs[i].1[j].0, pkgs[i].1[j].1)) =~= pkgs[i].1);
    assert(pkgs.update(i, (pkgs[i].0, pkgs[i].1)) =~= pkgs);
}

proof fn lemma_with_twice(pkgs: PkgsModel, i: int, j: int, a: Seq<Seq<char>>, b: Seq<Seq<char>>)
    requires
        0 <= i < pkgs.len(),
        0 <= j < pkgs[i].1.len(),
    ensures
        with_symlinks(with_symlinks(pkgs, i, j, a), i, j, b) == with_symlinks(pkgs, i, j, b),
        with_symlinks(pkgs, i, j, a)[i].1[j].1 == a,
        with_symlinks(pkgs, i, j, a).len() == pkgs.len(),
        with_symlinks(pkgs, i, j, a)[i].1.len() == pkgs[i].1.len(),
{
    let m = with_symlinks(pkgs, i, j, a);
    assert(m[i].1.update(j, (m[i].1[j].0, b)) =~= pkgs[i].1.update(j, (pkgs[i].1[j].0, b)));
    assert(m.update(i, (m[i].0, m[i].1.update(j, (m[i].1[j].0, b)))) =~= pkgs.update(
        i,
        (pkgs[i].0, pkgs[i].1.update(j, (pkgs[i].1[j].0, b))),
    ));
}

proof fn lemma_kept_none(s: Seq<Seq<char>>, removed: Seq<Seq<char>>)
    requires
        removed.len() == 0,
    ensures
        kept(s, removed) == s,
    decreases s.len(),
{
    if s.len() > 0 {
        lemma_kept_none(s.drop_last(), removed);
        assert(s.drop_last().push(s.last()) =~= s);
    }
}

/// [`update_doc`] when `doc` can take the change; `false`, with `doc`
/// unchanged, when it cannot.
pub fn try_update_doc(
    doc: &mut DocumentMut,
    plan: &Plan,
    created_pkg: bool,
    no_install_hint: bool,
    brew: &Vec<String>,
) -> (r: bool)
    ensures
        r == update_fits(*old(doc), *plan, created_pkg),
        r ==> toml_pkgs(*final(doc)) == updated_pkgs(toml_pkgs(*old(doc)), *plan, created_pkg),
        !r ==> *final(doc) == *old(doc),
{
    let ghost pkgs = toml_pkgs(*doc);
    let key = plan.pkg_key.as_str();
    let fits = match &plan.toml {
        TomlPlan::ExtendExisting { config_index, added_symlinks, .. } => match find_pkg(doc, key) {
            Some(i) => {
                proof {
                    lemma_first_pkg(pkgs, key@, i as int);
                }
                *config_index < doc_configs_count(doc, i) && (added_symlinks.len() == 0 || doc_symlinks_editable(
                    doc,
                    i,
                    *config_index,
                ))
            },
            None => false,
        },
        TomlPlan::Reconcile { config_index, added_symlinks, .. } => match find_pkg(doc, key) {
            Some(i) => {
                proof {
                    lemma_first_pkg(pkgs, key@, i as int);
                }
                *config_index < doc_configs_count(doc, i) && (added_symlinks.len() == 0 || doc_symlinks_editable(
                    doc,
                    i,
                    *config_index,
                ))
            },
            None => false,
        },
        _ => {
            let exists = match find_pkg(doc, key) {
                Some(i) => {
                    proof {
                        lemma_first_pkg(pkgs, key@, i as int);
                    }
                    true
                },
                None => false,
            };
            doc_entry_slot_free(doc, key) && (!created_pkg || !exists)
        },
    };
    if fits {
        update_doc(doc, plan, created_pkg, no_install_hint, brew);
    }
    fits
}

} // verus!

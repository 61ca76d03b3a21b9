//! What the library reads of a `toml_edit` document, table by table, and
//! the single `toml_edit` calls it reads and edits documents with. Every
//! key is an argument; which keys the configuration uses, which kinds it
//! accepts and what is created when missing is decided by verified code.

use toml_edit::{Array, ArrayOfTables, DocumentMut, Item, Key, Table, Value};
use vstd::prelude::*;

verus! {

#[verifier::external_type_specification]
#[verifier::external_body]
pub struct ExDocumentMut(DocumentMut);

#[verifier::external_type_specification]
#[verifier::external_body]
pub struct ExTable(Table);

#[verifier::external_type_specification]
#[verifier::external_body]
pub struct ExArrayOfTables(ArrayOfTables);

#[verifier::external_type_specification]
#[verifier::external_body]
pub struct ExArray(Array);

/// What holds a key of a table, as `Table::get` sees it (an empty
/// placeholder item reads as absent).
pub ghost enum TomlKind {
    Absent,
    Table,
    Tables,
    Text(Seq<char>),
    List,
    Other,
}

/// A table, string or array of strings built by the library from nothing:
/// a table with whether it is implicit and its items in order, a string,
/// or an array of strings.
pub ghost enum TomlShape {
    Table(bool, Seq<(Seq<char>, TomlShape)>),
    Text(Seq<char>),
    Texts(Seq<Seq<char>>),
}

/// `items` with `v` put at `k`: in place of the item already there, else
/// last.
pub open spec fn shape_put(items: Seq<(Seq<char>, TomlShape)>, k: Seq<char>, v: TomlShape) -> Seq<(Seq<char>, TomlShape)>
    decreases items.len(),
{
    if items.len() == 0 {
        seq![(k, v)]
    } else if items[0].0 == k {
        items.update(0, (k, v))
    } else {
        seq![items[0]] + shape_put(items.drop_first(), k, v)
    }
}

/// The shape of a table built from `Table::new` by the building calls
/// below, and only by them; `None` for any other table (one read from a
/// file, say).
pub uninterp spec fn toml_built(t: Table) -> Option<TomlShape>;

/// The strings of an array built from `Array::new` by pushing strings;
/// `None` for any other array.
pub uninterp spec fn toml_array_built(a: Array) -> Option<Seq<Seq<char>>>;

/// The root items of a document built from `DocumentMut::new` by putting
/// built tables into it; `None` for any other document.
pub uninterp spec fn toml_doc_built(d: DocumentMut) -> Option<Seq<(Seq<char>, TomlShape)>>;

/// How `toml_edit` prints a built document with these root items.
pub uninterp spec fn toml_doc_text(items: Seq<(Seq<char>, TomlShape)>) -> Seq<char>;

/// How `toml_edit` prints a built table of this shape.
pub uninterp spec fn toml_table_text(shape: TomlShape) -> Seq<char>;

/// How `toml_edit` prints a built array of these strings.
pub uninterp spec fn toml_string_array(items: Seq<Seq<char>>) -> Seq<char>;

/// The root table of a document.
pub uninterp spec fn toml_root(d: DocumentMut) -> Table;

/// The keys of a table's items, in order, without empty placeholders.
pub uninterp spec fn toml_keys(t: Table) -> Seq<Seq<char>>;

/// Whether a table has an item at `k`, an empty placeholder included.
pub uninterp spec fn toml_has(t: Table, k: Seq<char>) -> bool;

/// What holds `k` in a table.
pub uninterp spec fn toml_kind(t: Table, k: Seq<char>) -> TomlKind;

/// The table at `k` (meaningful when a table holds `k`).
pub uninterp spec fn toml_child(t: Table, k: Seq<char>) -> Table;

/// The tables of the array of tables at `k` (meaningful when one holds
/// `k`).
pub uninterp spec fn toml_tables(t: Table, k: Seq<char>) -> Seq<Table>;

/// The elements of the array at `k`, each as its string when it is one
/// (meaningful when an array holds `k`).
pub uninterp spec fn toml_strings(t: Table, k: Seq<char>) -> Seq<Option<Seq<char>>>;

/// The tables of an array of tables.
pub uninterp spec fn toml_aot(a: ArrayOfTables) -> Seq<Table>;

/// The elements of an array, each as its string when it is one.
pub uninterp spec fn toml_array(a: Array) -> Seq<Option<Seq<char>>>;

/// Whatever `k` holds, and whether it is there at all, is the same in `a`
/// and `b`.
pub open spec fn same_at(a: Table, b: Table, k: Seq<char>) -> bool {
    &&& toml_has(a, k) == toml_has(b, k)
    &&& toml_kind(a, k) == toml_kind(b, k)
    &&& toml_child(a, k) == toml_child(b, k)
    &&& toml_tables(a, k) == toml_tables(b, k)
    &&& toml_strings(a, k) == toml_strings(b, k)
}

/// The order of the keys after putting an item at `k` into `old`: an item
/// already there keeps its place, a new key goes last.
pub open spec fn keys_after_put(old: Table, k: Seq<char>, new: Table) -> bool {
    &&& toml_kind(old, k) != TomlKind::Absent ==> toml_keys(new) == toml_keys(old)
    &&& !toml_has(old, k) ==> toml_keys(new) == toml_keys(old).push(k)
    &&& forall|k2: Seq<char>| k2 != k ==> #[trigger] same_at(old, new, k2)
    &&& toml_has(new, k)
}

// ---------- reading ----------

/// `DocumentMut::as_table`: the document's root table.
#[verifier::external_body]
pub fn doc_root(d: &DocumentMut) -> (r: &Table)
    ensures
        *r == toml_root(*d),
{
    d.as_table()
}

/// `Table::len`: how many items, placeholders aside.
#[verifier::external_body]
pub fn table_len(t: &Table) -> (r: usize)
    ensures
        r == toml_keys(*t).len(),
{
    t.len()
}

/// The key of the `i`-th item, as `Table::iter` yields them. Keys of a
/// table are distinct, and an item is there.
#[verifier::external_body]
pub fn table_key_at(t: &Table, i: usize) -> (r: String)
    requires
        i < toml_keys(*t).len(),
    ensures
        r@ == toml_keys(*t)[i as int],
        toml_kind(*t, r@) != TomlKind::Absent,
        forall|j: int| 0 <= j < toml_keys(*t).len() && j != i ==> toml_keys(*t)[j] != r@,
{
    t.iter().nth(i).map_or(String::new(), |(k, _)| k.to_string())
}

/// `Table::key(k).is_some()`: whether any item, a placeholder included,
/// is at `k`.
#[verifier::external_body]
pub fn table_has(t: &Table, k: &str) -> (r: bool)
    ensures
        r == toml_has(*t, k@),
        !r ==> toml_kind(*t, k@) == TomlKind::Absent && !toml_keys(*t).contains(k@),
        r ==> (toml_kind(*t, k@) != TomlKind::Absent ==> toml_keys(*t).contains(k@)),
{
    t.key(k).is_some()
}

/// `Table::contains_key`: whether an item that is not a placeholder is at
/// `k`.
#[verifier::external_body]
pub fn table_contains(t: &Table, k: &str) -> (r: bool)
    ensures
        r == (toml_kind(*t, k@) != TomlKind::Absent),
{
    t.contains_key(k)
}

/// `Table::get(k)` as a table.
#[verifier::external_body]
pub fn table_get_table<'a>(t: &'a Table, k: &str) -> (r: Option<&'a Table>)
    ensures
        r is Some <==> toml_kind(*t, k@) == TomlKind::Table,
        r matches Some(c) ==> *c == toml_child(*t, k@),
        r is Some ==> toml_has(*t, k@),
{
    t.get(k).and_then(Item::as_table)
}

/// `Table::get(k)` as an array of tables.
#[verifier::external_body]
pub fn table_get_tables<'a>(t: &'a Table, k: &str) -> (r: Option<&'a ArrayOfTables>)
    ensures
        r is Some <==> toml_kind(*t, k@) == TomlKind::Tables,
        r matches Some(a) ==> toml_aot(*a) == toml_tables(*t, k@),
{
    t.get(k).and_then(Item::as_array_of_tables)
}

/// `Table::get(k)` as a string.
#[verifier::external_body]
pub fn table_get_text(t: &Table, k: &str) -> (r: Option<String>)
    ensures
        match toml_kind(*t, k@) {
            TomlKind::Text(s) => r matches Some(x) && x@ == s,
            _ => r is None,
        },
{
    t.get(k).and_then(Item::as_str).map(str::to_string)
}

/// `Table::get(k)` as an array.
#[verifier::external_body]
pub fn table_get_array<'a>(t: &'a Table, k: &str) -> (r: Option<&'a Array>)
    ensures
        r is Some <==> toml_kind(*t, k@) == TomlKind::List,
        r matches Some(a) ==> toml_array(*a) == toml_strings(*t, k@),
{
    t.get(k).and_then(Item::as_array)
}

/// `ArrayOfTables::len`.
#[verifier::external_body]
pub fn aot_len(a: &ArrayOfTables) -> (r: usize)
    ensures
        r == toml_aot(*a).len(),
{
    a.len()
}

/// `ArrayOfTables::get`.
#[verifier::external_body]
pub fn aot_get(a: &ArrayOfTables, j: usize) -> (r: Option<&Table>)
    ensures
        r is Some <==> j < toml_aot(*a).len(),
        r matches Some(t) ==> *t == toml_aot(*a)[j as int],
{
    a.get(j)
}

/// `Array::len`.
#[verifier::external_body]
pub fn array_len(a: &Array) -> (r: usize)
    ensures
        r == toml_array(*a).len(),
{
    a.len()
}

/// `Array::get(j)` as a string.
#[verifier::external_body]
pub fn array_text_at(a: &Array, j: usize) -> (r: Option<String>)
    requires
        j < toml_array(*a).len(),
    ensures
        match toml_array(*a)[j as int] {
            Some(s) => r matches Some(x) && x@ == s,
            None => r is None,
        },
{
    a.get(j).and_then(Value::as_str).map(str::to_string)
}

// ---------- building and editing ----------

/// `Table::new`: no items.
#[verifier::external_body]
pub fn table_new() -> (r: Table)
    ensures
        toml_keys(r) == Seq::<Seq<char>>::empty(),
        forall|k: Seq<char>| !#[trigger] toml_has(r, k),
        forall|k: Seq<char>| #[trigger] toml_kind(r, k) == TomlKind::Absent,
        toml_built(r) == Some(TomlShape::Table(false, Seq::empty())),
{
    Table::new()
}

/// `Table::clone`.
#[verifier::external_body]
pub fn table_clone(t: &Table) -> (r: Table)
    ensures
        r == *t,
        toml_keys(r).no_duplicates(),
{
    t.clone()
}

/// `ArrayOfTables::new`: no tables.
#[verifier::external_body]
pub fn aot_new() -> (r: ArrayOfTables)
    ensures
        toml_aot(r) == Seq::<Table>::empty(),
{
    ArrayOfTables::new()
}

/// `ArrayOfTables::clone`.
#[verifier::external_body]
pub fn aot_clone(a: &ArrayOfTables) -> (r: ArrayOfTables)
    ensures
        toml_aot(r) == toml_aot(*a),
{
    a.clone()
}

/// `ArrayOfTables::push`.
#[verifier::external_body]
pub fn aot_push(a: &mut ArrayOfTables, t: Table)
    ensures
        toml_aot(*final(a)) == toml_aot(*old(a)).push(t),
{
    a.push(t);
}

/// `ArrayOfTables::get_mut(j)`, set to `t`.
#[verifier::external_body]
pub fn aot_set(a: &mut ArrayOfTables, j: usize, t: Table)
    requires
        j < toml_aot(*old(a)).len(),
    ensures
        toml_aot(*final(a)) == toml_aot(*old(a)).update(j as int, t),
{
    if let Some(slot) = a.get_mut(j) {
        *slot = t;
    }
}

/// `Array::new`: no elements.
#[verifier::external_body]
pub fn array_new() -> (r: Array)
    ensures
        toml_array(r) == Seq::<Option<Seq<char>>>::empty(),
        toml_array_built(r) == Some(Seq::<Seq<char>>::empty()),
{
    Array::new()
}

/// `Array::clone`.
#[verifier::external_body]
pub fn array_clone(a: &Array) -> (r: Array)
    ensures
        toml_array(r) == toml_array(*a),
{
    a.clone()
}

/// `Array::push` of a string.
#[verifier::external_body]
pub fn array_push_text(a: &mut Array, s: &str)
    ensures
        toml_array(*final(a)) == toml_array(*old(a)).push(Some(s@)),
        toml_array_built(*old(a)) matches Some(xs) ==> toml_array_built(*final(a)) == Some(xs.push(s@)),
{
    a.push(s);
}

/// `Table::set_implicit(true)`: the table gets no header of its own.
#[verifier::external_body]
pub fn table_set_implicit(t: &mut Table)
    ensures
        toml_keys(*final(t)) == toml_keys(*old(t)),
        forall|k: Seq<char>| #[trigger] same_at(*old(t), *final(t), k),
        toml_built(*old(t)) matches Some(TomlShape::Table(_, items)) ==> toml_built(*final(t)) == Some(
            TomlShape::Table(true, items),
        ),
{
    t.set_implicit(true);
}

/// `Table::insert_formatted` of a table at `k`, keeping the key's
/// formatting when it is there already.
#[verifier::external_body]
pub fn table_put_table(t: &mut Table, k: &str, c: Table)
    ensures
        keys_after_put(*old(t), k@, *final(t)),
        toml_kind(*final(t), k@) == TomlKind::Table,
        toml_child(*final(t), k@) == c,
        toml_built(*old(t)) matches Some(TomlShape::Table(imp, items)) ==> (toml_built(c) matches Some(cs)
            ==> toml_built(*final(t)) == Some(TomlShape::Table(imp, shape_put(items, k@, cs)))),
{
    let key = t.key(k).cloned().unwrap_or_else(|| Key::new(k));
    t.insert_formatted(&key, Item::Table(c));
}

/// `Table::insert_formatted` of an array of tables at `k`.
#[verifier::external_body]
pub fn table_put_tables(t: &mut Table, k: &str, a: ArrayOfTables)
    ensures
        keys_after_put(*old(t), k@, *final(t)),
        toml_kind(*final(t), k@) == TomlKind::Tables,
        toml_tables(*final(t), k@) == toml_aot(a),
{
    let key = t.key(k).cloned().unwrap_or_else(|| Key::new(k));
    t.insert_formatted(&key, Item::ArrayOfTables(a));
}

/// `Table::insert_formatted` of a string at `k`.
#[verifier::external_body]
pub fn table_put_text(t: &mut Table, k: &str, v: &str)
    ensures
        keys_after_put(*old(t), k@, *final(t)),
        toml_kind(*final(t), k@) == TomlKind::Text(v@),
        toml_built(*old(t)) matches Some(TomlShape::Table(imp, items)) ==> toml_built(*final(t)) == Some(
            TomlShape::Table(imp, shape_put(items, k@, TomlShape::Text(v@))),
        ),
{
    let key = t.key(k).cloned().unwrap_or_else(|| Key::new(k));
    t.insert_formatted(&key, toml_edit::value(v));
}

/// `Table::insert_formatted` of an array at `k`.
#[verifier::external_body]
pub fn table_put_array(t: &mut Table, k: &str, a: Array)
    ensures
        keys_after_put(*old(t), k@, *final(t)),
        toml_kind(*final(t), k@) == TomlKind::List,
        toml_strings(*final(t), k@) == toml_array(a),
        toml_built(*old(t)) matches Some(TomlShape::Table(imp, items)) ==> (toml_array_built(a) matches Some(xs)
            ==> toml_built(*final(t)) == Some(TomlShape::Table(imp, shape_put(items, k@, TomlShape::Texts(xs))))),
{
    let key = t.key(k).cloned().unwrap_or_else(|| Key::new(k));
    t.insert_formatted(&key, toml_edit::value(a));
}

/// `DocumentMut::insert_formatted` of a table at `k` of the root table.
#[verifier::external_body]
pub fn doc_put_table(d: &mut DocumentMut, k: &str, c: Table)
    ensures
        keys_after_put(toml_root(*old(d)), k@, toml_root(*final(d))),
        toml_kind(toml_root(*final(d)), k@) == TomlKind::Table,
        toml_child(toml_root(*final(d)), k@) == c,
        toml_doc_built(*old(d)) matches Some(items) ==> (toml_built(c) matches Some(cs) ==> toml_doc_built(
            *final(d),
        ) == Some(shape_put(items, k@, cs))),
{
    let key = d.as_table().key(k).cloned().unwrap_or_else(|| Key::new(k));
    d.insert_formatted(&key, Item::Table(c));
}

/// `DocumentMut::new`: an empty document.
#[verifier::external_body]
pub fn doc_new() -> (r: DocumentMut)
    ensures
        toml_doc_built(r) == Some(Seq::<(Seq<char>, TomlShape)>::empty()),
{
    DocumentMut::new()
}

/// `Display` of a built document.
#[verifier::external_body]
pub fn doc_text(d: &DocumentMut) -> (r: String)
    requires
        toml_doc_built(*d) is Some,
    ensures
        r@ == toml_doc_text(toml_doc_built(*d)->0),
{
    d.to_string()
}

/// `Display` of a built table.
#[verifier::external_body]
pub fn table_text(t: &Table) -> (r: String)
    requires
        toml_built(*t) is Some,
    ensures
        r@ == toml_table_text(toml_built(*t)->0),
{
    t.to_string()
}

/// `Display` of a built array.
#[verifier::external_body]
pub fn array_text(a: &Array) -> (r: String)
    requires
        toml_array_built(*a) is Some,
    ensures
        r@ == toml_string_array(toml_array_built(*a)->0),
{
    a.to_string()
}

} // verus!

//! What `zenops import` reports before it acts: the plan as an event, with
//! previews of the TOML it will write.

use toml_edit::Table;
use vstd::prelude::*;

use crate::import_config::ImportType;
use crate::import_doc::text_array;
use crate::toml_model::{
    array_text, doc_new, doc_put_table, doc_text, shape_put, table_new, table_put_array, table_put_table, table_put_text,
    table_set_implicit, table_text, toml_built, toml_doc_built, toml_doc_text, toml_string_array, toml_table_text,
    TomlShape,
};
use crate::import_plan::{Plan, TomlPlan};
use crate::text::{owned, str_eq, trim_end_newlines, trim_newlines_end, views};

verus! {

/// What happens to one path.
#[derive(Debug, Clone, PartialEq)]
pub enum ImportFileAction {
    /// Moved into the repo and replaced by a symlink.
    MoveAndSymlink { rel: String },
    /// Renamed inside the repo.
    RenameInRepo { from: String, to: String },
    /// Deleted from the repo.
    RemoveFromRepo { rel: String },
    /// Left alone, for `reason`.
    Skip { path: String, reason: String },
}

/// One change to `config.toml`.
#[derive(Debug, Clone, PartialEq)]
pub enum ImportTomlChange {
    /// A new `[pkg.<key>]` block, with its install hint.
    CreatePkg { pkg: String, brew_packages: Vec<String>, block_preview: String },
    /// A new `[[pkg.<key>.configs]]` entry.
    AppendConfigsEntry { pkg: String, entry_preview: String },
    /// Paths appended to an entry's `symlinks`.
    AppendSymlinks { pkg: String, config_index: usize, paths: Vec<String>, array_after_preview: String },
    /// Paths dropped from an entry's `symlinks`.
    TrimSymlinks { pkg: String, config_index: usize, paths: Vec<String>, array_after_preview: String },
}

/// Which kind of import a plan is.
#[derive(Debug, Clone, Copy, PartialEq, Eq, Structural)]
pub enum ImportMode {
    NewPkg,
    Extend,
    Reconcile,
}

/// The plan of an import, as reported.
#[derive(Debug, Clone, PartialEq)]
pub struct ImportPlan {
    pub pkg: String,
    pub created_pkg: bool,
    pub mode: ImportMode,
    pub import_type: ImportType,
    pub source: String,
    pub repo_dest: String,
    pub file_actions: Vec<ImportFileAction>,
    pub toml_changes: Vec<ImportTomlChange>,
}

/// The outcome of an import.
#[derive(Debug, Clone, PartialEq)]
pub struct ImportApplied {
    pub pkg: String,
    pub is_noop: bool,
}

// ---------- previews ----------

/// An array of these strings, printed.
fn string_array_text(items: &Vec<String>) -> (r: String)
    ensures
        r@ == toml_string_array(views(items@)),
{
    let a = text_array(items);
    array_text(&a)
}

/// The shape of a document holding only `[pkg.<key>]` with
/// `install_hint.brew.packages` set to these packages, the `pkg`,
/// `install_hint` and `brew` tables implicit.
pub open spec fn pkg_block_shape(key: Seq<char>, packages: Seq<Seq<char>>) -> Seq<(Seq<char>, TomlShape)> {
    let brew = TomlShape::Table(true, seq![("packages"@, TomlShape::Texts(packages))]);
    let hint = TomlShape::Table(true, seq![("brew"@, brew)]);
    let entry = TomlShape::Table(false, seq![("install_hint"@, hint)]);
    seq![("pkg"@, TomlShape::Table(true, seq![(key, entry)]))]
}

/// How `toml_edit` prints the document of [`pkg_block_shape`].
pub open spec fn toml_pkg_block(key: Seq<char>, packages: Seq<Seq<char>>) -> Seq<char> {
    toml_doc_text(pkg_block_shape(key, packages))
}

/// A built table with only `k` holding `v`, implicit or not.
fn table_with(k: &str, v: Table, implicit: bool) -> (r: Table)
    requires
        toml_built(v) is Some,
    ensures
        toml_built(r) == Some(TomlShape::Table(implicit, seq![(k@, toml_built(v)->0)])),
{
    let mut t = table_new();
    if implicit {
        table_set_implicit(&mut t);
    }
    table_put_table(&mut t, k, v);
    t
}

/// The document of [`pkg_block_shape`], printed.
fn pkg_block_text(key: &str, packages: &Vec<String>) -> (r: String)
    ensures
        r@ == toml_pkg_block(key@, views(packages@)),
{
    let mut brew = table_new();
    table_set_implicit(&mut brew);
    table_put_array(&mut brew, "packages", text_array(packages));
    let hint = table_with("brew", brew, true);
    let entry = table_with("install_hint", hint, false);
    let pkg = table_with(key, entry, true);
    let mut doc = doc_new();
    doc_put_table(&mut doc, "pkg", pkg);
    proof {
        reveal_strlit("packages");
        reveal_strlit("brew");
        reveal_strlit("install_hint");
        reveal_strlit("pkg");
    }
    assert(toml_doc_built(doc)->0 =~= pkg_block_shape(key@, views(packages@)));
    doc_text(&doc)
}

/// A value in a new configs entry.
#[derive(Debug, Clone, PartialEq)]
pub enum EntryValue {
    Text(String),
    List(Vec<String>),
}

pub ghost enum EntryValueView {
    Text(Seq<char>),
    List(Seq<Seq<char>>),
}

pub open spec fn value_view(v: EntryValue) -> EntryValueView {
    match v {
        EntryValue::Text(s) => EntryValueView::Text(s@),
        EntryValue::List(l) => EntryValueView::List(views(l@)),
    }
}

pub open spec fn field_views(fs: Seq<(String, EntryValue)>) -> Seq<(Seq<char>, EntryValueView)> {
    Seq::new(fs.len(), |i: int| (fs[i].0@, value_view(fs[i].1)))
}

/// The shape a value takes in a table.
pub open spec fn value_shape(v: EntryValueView) -> TomlShape {
    match v {
        EntryValueView::Text(s) => TomlShape::Text(s),
        EntryValueView::List(l) => TomlShape::Texts(l),
    }
}

/// The items of a table the fields are written into, in order.
pub open spec fn fields_shape(fs: Seq<(Seq<char>, EntryValueView)>) -> Seq<(Seq<char>, TomlShape)>
    decreases fs.len(),
{
    if fs.len() == 0 {
        Seq::empty()
    } else {
        shape_put(fields_shape(fs.drop_last()), fs.last().0, value_shape(fs.last().1))
    }
}

/// How `toml_edit` prints a table holding these keys and values, in order.
pub open spec fn toml_table(fields: Seq<(Seq<char>, EntryValueView)>) -> Seq<char> {
    toml_table_text(TomlShape::Table(false, fields_shape(fields)))
}

/// A table of the fields, printed.
fn fields_table_text(fields: &Vec<(String, EntryValue)>) -> (r: String)
    ensures
        r@ == toml_table(field_views(fields@)),
{
    let mut t = table_new();
    let ghost fs = field_views(fields@);
    assert(fs.take(0) =~= Seq::<(Seq<char>, EntryValueView)>::empty());
    let mut i: usize = 0;
    while i < fields.len()
        invariant
            i <= fields@.len(),
            fs == field_views(fields@),
            toml_built(t) == Some(TomlShape::Table(false, fields_shape(fs.take(i as int)))),
        decreases fields@.len() - i,
    {
        let (k, v) = &fields[i];
        assert(fs.take(i + 1).drop_last() =~= fs.take(i as int));
        assert(fs.take(i + 1).last() == fs[i as int]);
        match v {
            EntryValue::Text(s) => table_put_text(&mut t, k.as_str(), s.as_str()),
            EntryValue::List(l) => table_put_array(&mut t, k.as_str(), text_array(l)),
        }
        i = i + 1;
    }
    assert(fs.take(fields@.len() as int) =~= fs);
    table_text(&t)
}

/// The fields of the new configs entry of a plan that adds one: `type`,
/// then `name` (when overridden) or `dir`, then `source` and `symlinks`.
pub open spec fn entry_fields(plan: Plan) -> Seq<(Seq<char>, EntryValueView)> {
    match plan.toml {
        TomlPlan::DotConfig { name_override, symlinks } => {
            let head = seq![("type"@, EntryValueView::Text(".config"@))];
            let named = match name_override {
                Some(n) => head.push(("name"@, EntryValueView::Text(n@))),
                None => head,
            };
            named.push(("source"@, EntryValueView::Text(plan.repo_rel@))).push(
                ("symlinks"@, EntryValueView::List(views(symlinks@))),
            )
        },
        TomlPlan::Home { dir, symlinks } => seq![
            ("type"@, EntryValueView::Text("home"@)),
            ("dir"@, EntryValueView::Text(dir@)),
            ("source"@, EntryValueView::Text(plan.repo_rel@)),
            ("symlinks"@, EntryValueView::List(views(symlinks@))),
        ],
        _ => Seq::empty(),
    }
}

/// Whether a plan adds a new configs entry.
pub open spec fn adds_entry(t: TomlPlan) -> bool {
    t is DotConfig || t is Home
}

fn copy_list(l: &Vec<String>) -> (r: Vec<String>)
    ensures
        views(r@) == views(l@),
{
    crate::text::copy_strings(l.as_slice())
}

/// The fields of the new configs entry `plan` adds.
pub fn configs_entry_fields(plan: &Plan) -> (r: Vec<(String, EntryValue)>)
    requires
        adds_entry(plan.toml),
    ensures
        field_views(r@) == entry_fields(*plan),
{
    let mut out: Vec<(String, EntryValue)> = Vec::new();
    match &plan.toml {
        TomlPlan::DotConfig { name_override, symlinks } => {
            out.push((owned("type"), EntryValue::Text(owned(".config"))));
            match name_override {
                Some(n) => out.push((owned("name"), EntryValue::Text(n.clone()))),
                None => {},
            }
            out.push((owned("source"), EntryValue::Text(plan.repo_rel.clone())));
            out.push((owned("symlinks"), EntryValue::List(copy_list(symlinks))));
        },
        TomlPlan::Home { dir, symlinks } => {
            out.push((owned("type"), EntryValue::Text(owned("home"))));
            out.push((owned("dir"), EntryValue::Text(dir.clone())));
            out.push((owned("source"), EntryValue::Text(plan.repo_rel.clone())));
            out.push((owned("symlinks"), EntryValue::List(copy_list(symlinks))));
        },
        _ => {},
    }
    assert(field_views(out@) =~= entry_fields(*plan));
    out
}

/// The strings of `existing` not in `removed`, in order.
pub open spec fn kept(existing: Seq<Seq<char>>, removed: Seq<Seq<char>>) -> Seq<Seq<char>>
    decreases existing.len(),
{
    if existing.len() == 0 {
        Seq::empty()
    } else {
        let rest = kept(existing.drop_last(), removed);
        if removed.contains(existing.last()) {
            rest
        } else {
            rest.push(existing.last())
        }
    }
}

/// The `symlinks` array after appending `added` to `existing` and
/// dropping `removed`.
pub fn symlinks_after(existing: &Vec<String>, added: &Vec<String>, removed: &Vec<String>) -> (r: Vec<String>)
    ensures
        views(r@) == kept(views(existing@), views(removed@)) + views(added@),
{
    let mut out: Vec<String> = Vec::new();
    let mut i: usize = 0;
    while i < existing.len()
        invariant
            i <= existing@.len(),
            views(out@) == kept(views(existing@).take(i as int), views(removed@)),
        decreases existing@.len() - i,
    {
        assert(views(existing@).take(i + 1).drop_last() =~= views(existing@).take(i as int));
        let ghost prev = out@;
        if !crate::text::list_contains(removed.as_slice(), existing[i].as_str()) {
            out.push(existing[i].clone());
            assert(views(out@) =~= views(prev).push(existing@[i as int]@));
        }
        i = i + 1;
    }
    assert(views(existing@).take(existing@.len() as int) =~= views(existing@));
    let mut j: usize = 0;
    let ghost base = views(out@);
    while j < added.len()
        invariant
            j <= added@.len(),
            views(out@) == base + views(added@).take(j as int),
        decreases added@.len() - j,
    {
        let ghost prev = out@;
        out.push(added[j].clone());
        assert(views(out@) =~= views(prev).push(added@[j as int]@));
        assert(views(added@).take(j + 1) =~= views(added@).take(j as int).push(added@[j as int]@));
        j = j + 1;
    }
    assert(views(added@).take(added@.len() as int) =~= views(added@));
    out
}

/// The preview of a `symlinks` array after an edit.
pub open spec fn array_preview(existing: Seq<Seq<char>>, added: Seq<Seq<char>>, removed: Seq<Seq<char>>) -> Seq<char> {
    "symlinks = "@ + toml_string_array(kept(existing, removed) + added)
}

/// `symlinks = [...]` as the array reads after the edit.
pub fn symlinks_array_preview(existing: &Vec<String>, added: &Vec<String>, removed: &Vec<String>) -> (r: String)
    ensures
        r@ == array_preview(views(existing@), views(added@), views(removed@)),
{
    let after = symlinks_after(existing, added, removed);
    let mut out = owned("symlinks = ");
    let arr = string_array_text(&after);
    out.append(arr.as_str());
    out
}

/// The packages written into a new pkg's install hint: none under
/// `--no-install-hint`.
pub open spec fn hint_packages(brew: Seq<Seq<char>>, no_install_hint: bool) -> Seq<Seq<char>> {
    if no_install_hint {
        Seq::empty()
    } else {
        brew
    }
}

/// The preview of a new `[pkg.<key>]` block.
pub fn pkg_block_preview(key: &str, brew: &Vec<String>, no_install_hint: bool) -> (r: String)
    ensures
        r@ == trim_newlines_end(toml_pkg_block(key@, hint_packages(views(brew@), no_install_hint))),
{
    let packages = if no_install_hint {
        Vec::new()
    } else {
        copy_list(brew)
    };
    assert(views(packages@) =~= hint_packages(views(brew@), no_install_hint));
    let text = pkg_block_text(key, &packages);
    trim_end_newlines(text.as_str())
}

/// The preview of the new configs entry a plan adds.
pub fn configs_entry_preview(plan: &Plan) -> (r: String)
    requires
        adds_entry(plan.toml),
    ensures
        r@ == trim_newlines_end(toml_table(entry_fields(*plan))),
{
    let fields = configs_entry_fields(plan);
    let text = fields_table_text(&fields);
    trim_end_newlines(text.as_str())
}

// ---------- the event ----------

pub ghost enum FileActionView {
    Move(Seq<char>),
    Rename(Seq<char>, Seq<char>),
    Remove(Seq<char>),
    Skip(Seq<char>, Seq<char>),
}

pub open spec fn file_action_view(a: ImportFileAction) -> FileActionView {
    match a {
        ImportFileAction::MoveAndSymlink { rel } => FileActionView::Move(rel@),
        ImportFileAction::RenameInRepo { from, to } => FileActionView::Rename(from@, to@),
        ImportFileAction::RemoveFromRepo { rel } => FileActionView::Remove(rel@),
        ImportFileAction::Skip { path, reason } => FileActionView::Skip(path@, reason@),
    }
}

pub open spec fn file_action_views(s: Seq<ImportFileAction>) -> Seq<FileActionView> {
    Seq::new(s.len(), |i: int| file_action_view(s[i]))
}

/// The file actions of a plan: the moves, the renames, the removals, then
/// the skipped entries, each in plan order.
pub open spec fn plan_file_actions(plan: Plan) -> Seq<FileActionView> {
    Seq::new(plan.files@.len(), |i: int| FileActionView::Move(plan.files@[i].rel@)) + Seq::new(
        plan.renamed_files@.len(),
        |i: int| FileActionView::Rename(plan.renamed_files@[i].from@, plan.renamed_files@[i].to@),
    ) + Seq::new(plan.removed_files@.len(), |i: int| FileActionView::Remove(plan.removed_files@[i].repo_rel@))
        + Seq::new(
        plan.skipped@.len(),
        |i: int| FileActionView::Skip(plan.skipped@[i].path@, plan.skipped@[i].reason@),
    )
}

pub ghost enum TomlChangeView {
    CreatePkg(Seq<char>, Seq<Seq<char>>, Seq<char>),
    AppendConfigsEntry(Seq<char>, Seq<char>),
    AppendSymlinks(Seq<char>, int, Seq<Seq<char>>, Seq<char>),
    TrimSymlinks(Seq<char>, int, Seq<Seq<char>>, Seq<char>),
}

pub open spec fn toml_change_view(c: ImportTomlChange) -> TomlChangeView {
    match c {
        ImportTomlChange::CreatePkg { pkg, brew_packages, block_preview } => TomlChangeView::CreatePkg(
            pkg@,
            views(brew_packages@),
            block_preview@,
        ),
        ImportTomlChange::AppendConfigsEntry { pkg, entry_preview } => TomlChangeView::AppendConfigsEntry(
            pkg@,
            entry_preview@,
        ),
        ImportTomlChange::AppendSymlinks { pkg, config_index, paths, array_after_preview } =>
            TomlChangeView::AppendSymlinks(pkg@, config_index as int, views(paths@), array_after_preview@),
        ImportTomlChange::TrimSymlinks { pkg, config_index, paths, array_after_preview } =>
            TomlChangeView::TrimSymlinks(pkg@, config_index as int, views(paths@), array_after_preview@),
    }
}

pub open spec fn toml_change_views(s: Seq<ImportTomlChange>) -> Seq<TomlChangeView> {
    Seq::new(s.len(), |i: int| toml_change_view(s[i]))
}

/// The TOML changes of a plan. Extending an entry appends to its
/// `symlinks`; reconciling one appends and trims, each only when there is
/// something to do; a new entry is preceded by its new pkg block when the
/// pkg is created.
pub open spec fn plan_toml_changes(
    plan: Plan,
    created_pkg: bool,
    no_install_hint: bool,
    brew: Seq<Seq<char>>,
) -> Seq<TomlChangeView> {
    let pkg = plan.pkg_key@;
    match plan.toml {
        TomlPlan::ExtendExisting { config_index, existing_symlinks, added_symlinks } => seq![
            TomlChangeView::AppendSymlinks(
                pkg,
                config_index as int,
                views(added_symlinks@),
                array_preview(views(existing_symlinks@), views(added_symlinks@), Seq::empty()),
            ),
        ],
        TomlPlan::Reconcile { config_index, existing_symlinks, added_symlinks, removed_symlinks } => {
            let after = array_preview(views(existing_symlinks@), views(added_symlinks@), views(removed_symlinks@));
            let adds: Seq<TomlChangeView> = if added_symlinks@.len() > 0 {
                seq![TomlChangeView::AppendSymlinks(pkg, config_index as int, views(added_symlinks@), after)]
            } else {
                Seq::empty()
            };
            if removed_symlinks@.len() > 0 {
                adds.push(TomlChangeView::TrimSymlinks(pkg, config_index as int, views(removed_symlinks@), after))
            } else {
                adds
            }
        },
        _ => {
            let created: Seq<TomlChangeView> = if created_pkg {
                seq![
                    TomlChangeView::CreatePkg(
                        pkg,
                        brew,
                        trim_newlines_end(toml_pkg_block(pkg, hint_packages(brew, no_install_hint))),
                    ),
                ]
            } else {
                Seq::empty()
            };
            created.push(TomlChangeView::AppendConfigsEntry(pkg, trim_newlines_end(toml_table(entry_fields(plan)))))
        },
    }
}

/// The mode of a plan: a new entry under a pkg that is not created is an
/// extension of that pkg.
pub open spec fn plan_mode(t: TomlPlan, created_pkg: bool) -> ImportMode {
    match t {
        TomlPlan::Reconcile { .. } => ImportMode::Reconcile,
        TomlPlan::ExtendExisting { .. } => ImportMode::Extend,
        _ => if created_pkg {
            ImportMode::NewPkg
        } else {
            ImportMode::Extend
        },
    }
}

fn copy_vec(l: &Vec<String>) -> (r: Vec<String>)
    ensures
        views(r@) == views(l@),
{
    crate::text::copy_strings(l.as_slice())
}

/// The file actions of `plan`.
fn file_actions_of(plan: &Plan) -> (r: Vec<ImportFileAction>)
    ensures
        file_action_views(r@) == plan_file_actions(*plan),
{
    let ghost a = Seq::new(plan.files@.len(), |i: int| FileActionView::Move(plan.files@[i].rel@));
    let ghost b = Seq::new(
        plan.renamed_files@.len(),
        |i: int| FileActionView::Rename(plan.renamed_files@[i].from@, plan.renamed_files@[i].to@),
    );
    let ghost c = Seq::new(plan.removed_files@.len(), |i: int| FileActionView::Remove(plan.removed_files@[i].repo_rel@));
    let ghost d = Seq::new(
        plan.skipped@.len(),
        |i: int| FileActionView::Skip(plan.skipped@[i].path@, plan.skipped@[i].reason@),
    );
    let mut out: Vec<ImportFileAction> = Vec::new();
    let mut i: usize = 0;
    assert(file_action_views(out@) =~= a.take(0));
    while i < plan.files.len()
        invariant
            i <= plan.files@.len(),
            a == Seq::new(plan.files@.len(), |i: int| FileActionView::Move(plan.files@[i].rel@)),
            file_action_views(out@) == a.take(i as int),
        decreases plan.files@.len() - i,
    {
        let ghost prev = out@;
        out.push(ImportFileAction::MoveAndSymlink { rel: plan.files[i].rel.clone() });
        assert(file_action_views(out@) =~= file_action_views(prev).push(file_action_view(out@.last())));
        assert(a.take(i + 1) =~= a.take(i as int).push(a[i as int]));
        i = i + 1;
    }
    assert(a.take(a.len() as int) =~= a);
    let mut j: usize = 0;
    assert(a + b.take(0) =~= a);
    while j < plan.renamed_files.len()
        invariant
            j <= plan.renamed_files@.len(),
            b == Seq::new(
                plan.renamed_files@.len(),
                |i: int| FileActionView::Rename(plan.renamed_files@[i].from@, plan.renamed_files@[i].to@),
            ),
            file_action_views(out@) == a + b.take(j as int),
        decreases plan.renamed_files@.len() - j,
    {
        let ghost prev = out@;
        let r = &plan.renamed_files[j];
        out.push(ImportFileAction::RenameInRepo { from: r.from.clone(), to: r.to.clone() });
        assert(file_action_views(out@) =~= file_action_views(prev).push(file_action_view(out@.last())));
        assert(a + b.take(j + 1) =~= (a + b.take(j as int)).push(b[j as int]));
        j = j + 1;
    }
    assert(b.take(b.len() as int) =~= b);
    let mut k: usize = 0;
    assert(a + b + c.take(0) =~= a + b);
    while k < plan.removed_files.len()
        invariant
            k <= plan.removed_files@.len(),
            c == Seq::new(plan.removed_files@.len(), |i: int| FileActionView::Remove(plan.removed_files@[i].repo_rel@)),
            file_action_views(out@) == a + b + c.take(k as int),
        decreases plan.removed_files@.len() - k,
    {
        let ghost prev = out@;
        out.push(ImportFileAction::RemoveFromRepo { rel: plan.removed_files[k].repo_rel.clone() });
        assert(file_action_views(out@) =~= file_action_views(prev).push(file_action_view(out@.last())));
        assert(a + b + c.take(k + 1) =~= (a + b + c.take(k as int)).push(c[k as int]));
        k = k + 1;
    }
    assert(c.take(c.len() as int) =~= c);
    let mut m: usize = 0;
    assert(a + b + c + d.take(0) =~= a + b + c);
    while m < plan.skipped.len()
        invariant
            m <= plan.skipped@.len(),
            d == Seq::new(
                plan.skipped@.len(),
                |i: int| FileActionView::Skip(plan.skipped@[i].path@, plan.skipped@[i].reason@),
            ),
            file_action_views(out@) == a + b + c + d.take(m as int),
        decreases plan.skipped@.len() - m,
    {
        let ghost prev = out@;
        let sk = &plan.skipped[m];
        out.push(ImportFileAction::Skip { path: sk.path.clone(), reason: sk.reason.clone() });
        assert(file_action_views(out@) =~= file_action_views(prev).push(file_action_view(out@.last())));
        assert(a + b + c + d.take(m + 1) =~= (a + b + c + d.take(m as int)).push(d[m as int]));
        m = m + 1;
    }
    assert(d.take(d.len() as int) =~= d);
    out
}

/// The TOML changes of `plan`.
fn toml_changes_of(plan: &Plan, created_pkg: bool, no_install_hint: bool, brew: &Vec<String>) -> (r: Vec<ImportTomlChange>)
    ensures
        toml_change_views(r@) == plan_toml_changes(*plan, created_pkg, no_install_hint, views(brew@)),
{
    let mut out: Vec<ImportTomlChange> = Vec::new();
    let empty: Vec<String> = Vec::new();
    match &plan.toml {
        TomlPlan::ExtendExisting { config_index, existing_symlinks, added_symlinks } => {
            assert(views(empty@) =~= Seq::<Seq<char>>::empty());
            out.push(
                ImportTomlChange::AppendSymlinks {
                    pkg: plan.pkg_key.clone(),
                    config_index: *config_index,
                    paths: copy_vec(added_symlinks),
                    array_after_preview: symlinks_array_preview(existing_symlinks, added_symlinks, &empty),
                },
            );
        },
        TomlPlan::Reconcile { config_index, existing_symlinks, added_symlinks, removed_symlinks } => {
            let after = symlinks_array_preview(existing_symlinks, added_symlinks, removed_symlinks);
            if added_symlinks.len() > 0 {
                out.push(
                    ImportTomlChange::AppendSymlinks {
                        pkg: plan.pkg_key.clone(),
                        config_index: *config_index,
                        paths: copy_vec(added_symlinks),
                        array_after_preview: after.clone(),
                    },
                );
            }
            if removed_symlinks.len() > 0 {
                out.push(
                    ImportTomlChange::TrimSymlinks {
                        pkg: plan.pkg_key.clone(),
                        config_index: *config_index,
                        paths: copy_vec(removed_symlinks),
                        array_after_preview: after,
                    },
                );
            }
        },
        _ => {
            if created_pkg {
                out.push(
                    ImportTomlChange::CreatePkg {
                        pkg: plan.pkg_key.clone(),
                        brew_packages: copy_vec(brew),
                        block_preview: pkg_block_preview(plan.pkg_key.as_str(), brew, no_install_hint),
                    },
                );
            }
            out.push(
                ImportTomlChange::AppendConfigsEntry {
                    pkg: plan.pkg_key.clone(),
                    entry_preview: configs_entry_preview(plan),
                },
            );
        },
    }
    assert(toml_change_views(out@) =~= plan_toml_changes(*plan, created_pkg, no_install_hint, views(brew@)));
    out
}

/// The plan as it is reported: who it is for, its mode, the file actions
/// and the TOML changes with their previews.
pub fn plan_to_event(plan: &Plan, created_pkg: bool, no_install_hint: bool, brew_packages: &Vec<String>) -> (r:
    ImportPlan)
    ensures
        r.pkg@ == plan.pkg_key@,
        r.created_pkg == created_pkg,
        r.mode == plan_mode(plan.toml, created_pkg),
        r.import_type == plan.import_type,
        r.source@ == plan.source@,
        r.repo_dest@ == plan.repo_dest@,
        file_action_views(r.file_actions@) == plan_file_actions(*plan),
        toml_change_views(r.toml_changes@) == plan_toml_changes(*plan, created_pkg, no_install_hint, views(brew_packages@)),
{
    let mode = match &plan.toml {
        TomlPlan::Reconcile { .. } => ImportMode::Reconcile,
        TomlPlan::ExtendExisting { .. } => ImportMode::Extend,
        _ => if created_pkg {
            ImportMode::NewPkg
        } else {
            ImportMode::Extend
        },
    };
    ImportPlan {
        pkg: plan.pkg_key.clone(),
        created_pkg,
        mode,
        import_type: plan.import_type,
        source: plan.source.clone(),
        repo_dest: plan.repo_dest.clone(),
        file_actions: file_actions_of(plan),
        toml_changes: toml_changes_of(plan, created_pkg, no_install_hint, brew_packages),
    }
}

} // verus!

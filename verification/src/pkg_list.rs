//! `zenops pkg`: the rows that list the configured packages, in display
//! order, with their install state and install hints.

use indexmap::IndexMap;
use std::collections::hash_map::RandomState;
use vstd::prelude::*;

use crate::output::{PkgEntry, PkgEntryState, PkgInstallHints};
use crate::pkg::{
    answer_index, installed, os_allows, strategy_text, DetectHost, Detected, PkgConfig, PkgEnable, Probed, Shell,
};
use crate::pkg_manager::DetectedPackageManager;
use crate::text::{copy_strings, owned, seq_join, str_chars, views};

verus! {

/// Which pkgs to list and how much to show.
#[derive(Debug, Clone, PartialEq)]
pub struct Options {
    /// Case-insensitive substrings; a pkg passes if any matches its display
    /// name or its key. Empty means no filter.
    pub pattern: Vec<String>,
    /// Include pkgs with `enable = "disabled"`.
    pub all: bool,
    /// Show every install hint of a missing pkg, not just the one for the
    /// detected manager.
    pub all_hints: bool,
    /// Show the detect strategy that matched.
    pub verbose: bool,
}

impl Default for Options {
    fn default() -> (r: Self)
        ensures
            r.pattern@.len() == 0,
            !r.all && !r.all_hints && !r.verbose,
    {
        Options { pattern: Vec::new(), all: false, all_hints: false, verbose: false }
    }
}

/// The `[pkg.*]` tables, in order.
pub uninterp spec fn pkg_map_entries(m: IndexMap<String, PkgConfig, RandomState>) -> Seq<(Seq<char>, PkgConfig)>;

/// `IndexMap::len`.
#[verifier::external_body]
fn pkg_map_len(m: &IndexMap<String, PkgConfig>) -> (r: usize)
    ensures
        r == pkg_map_entries(*m).len(),
{
    m.len()
}

/// `IndexMap::get_index`: the entry at position `i`.
#[verifier::external_body]
fn pkg_map_entry<'a>(m: &'a IndexMap<String, PkgConfig>, i: usize) -> (r: (&'a String, &'a PkgConfig))
    requires
        i < pkg_map_entries(*m).len(),
    ensures
        r.0@ == pkg_map_entries(*m)[i as int].0,
        *r.1 == pkg_map_entries(*m)[i as int].1,
{
    m.get_index(i).unwrap()
}

/// How many pkg tables there are.
pub fn pkg_map_len_pub(m: &IndexMap<String, PkgConfig>) -> (r: usize)
    ensures
        r == pkg_map_entries(*m).len(),
{
    pkg_map_len(m)
}

/// The pkg table at position `i`: its key and contents.
pub fn pkg_map_entry_pub<'a>(m: &'a IndexMap<String, PkgConfig>, i: usize) -> (r: (&'a String, &'a PkgConfig))
    requires
        i < pkg_map_entries(*m).len(),
    ensures
        r.0@ == pkg_map_entries(*m)[i as int].0,
        *r.1 == pkg_map_entries(*m)[i as int].1,
{
    pkg_map_entry(m, i)
}

/// `str::to_lowercase` of `s`.
pub uninterp spec fn unicode_lower(s: Seq<char>) -> Seq<char>;

/// `str::to_lowercase`.
#[verifier::external_body]
fn to_lowercase(s: &str) -> (r: String)
    ensures
        r@ == unicode_lower(s@),
{
    s.to_lowercase()
}

/// Whether `n` occurs in `h`.
pub open spec fn has_sub(h: Seq<char>, n: Seq<char>) -> bool {
    exists|i: int| 0 <= i && i + n.len() <= h.len() && #[trigger] h.subrange(i, i + n.len()) == n
}

pub(crate) fn contains_str(h: &str, n: &str) -> (r: bool)
    ensures
        r == has_sub(h@, n@),
{
    let hs = str_chars(h);
    let ns = str_chars(n);
    if ns.len() > hs.len() {
        assert forall|i: int| 0 <= i && i + n@.len() <= h@.len() implies #[trigger] h@.subrange(i, i + n@.len()) != n@ by {}
        return false;
    }
    let hl = hs.len();
    let last = hl - ns.len();
    let mut i: usize = 0;
    while i <= last
        invariant
            hs@ == h@,
            ns@ == n@,
            last == hs@.len() - ns@.len(),
            hl == hs@.len(),
            i <= last + 1,
            forall|k: int| 0 <= k < i ==> #[trigger] h@.subrange(k, k + n@.len()) != n@,
        decreases last + 1 - i,
    {
        let mut j: usize = 0;
        let mut same = true;
        while j < ns.len()
            invariant
                hs@ == h@,
                ns@ == n@,
                i <= last,
                hs@.len() == last + ns@.len(),
                hl == hs@.len(),
                last == hs@.len() - ns@.len(),
                j <= ns@.len(),
                same == (forall|t: int| 0 <= t < j ==> hs@[i + t] == ns@[t]),
            decreases ns@.len() - j,
        {
            assert(i + j < hl);
            if hs[i + j] != ns[j] {
                same = false;
            }
            j = j + 1;
        }
        if same {
            assert(h@.subrange(i as int, i + n@.len()) =~= n@);
            return true;
        }
        proof {
            let t = choose|t: int| 0 <= t < ns@.len() && hs@[i + t] != ns@[t];
            assert(h@.subrange(i as int, i + n@.len())[t] != n@[t]);
        }
        i = i + 1;
    }
    false
}

/// The label a pkg lists under: its `name`, else its key.
pub open spec fn label_of(key: Seq<char>, p: PkgConfig) -> Seq<char> {
    match p.name {
        Some(n) => n@,
        None => key,
    }
}

/// The patterns, lowercased.
pub open spec fn lowered_patterns(opts: Options) -> Seq<Seq<char>> {
    Seq::new(opts.pattern@.len(), |j: int| unicode_lower(opts.pattern@[j]@))
}

/// `n` is found in the lowercased label or key.
pub open spec fn needle_hits(label: Seq<char>, key: Seq<char>, n: Seq<char>) -> bool {
    has_sub(unicode_lower(label), n) || has_sub(unicode_lower(key), n)
}

/// No pattern, or one found in the lowercased label or key.
pub open spec fn pattern_ok(ns: Seq<Seq<char>>, label: Seq<char>, key: Seq<char>) -> bool {
    ns.len() == 0 || exists|j: int| 0 <= j < ns.len() && #[trigger] needle_hits(label, key, ns[j])
}

/// Patterns are ORed: a pkg whose lowercased label or key contains any one
/// of the patterns matches, adding patterns never hides a pkg that
/// matched, no pattern matches every pkg, and a pkg matching none of
/// several patterns is hidden.
pub proof fn lemma_patterns_are_ored(ns: Seq<Seq<char>>, label: Seq<char>, key: Seq<char>, n: Seq<char>)
    ensures
        pattern_ok(Seq::empty(), label, key),
        forall|j: int|
            0 <= j < ns.len() && (has_sub(unicode_lower(label), #[trigger] ns[j]) || has_sub(unicode_lower(key), ns[j]))
                ==> pattern_ok(ns, label, key),
        pattern_ok(ns, label, key) && ns.len() > 0 ==> pattern_ok(ns.push(n), label, key),
        (has_sub(unicode_lower(label), n) || has_sub(unicode_lower(key), n)) ==> pattern_ok(ns.push(n), label, key),
        ns.len() > 0 && (forall|j: int|
            0 <= j < ns.len() ==> !has_sub(unicode_lower(label), #[trigger] ns[j]) && !has_sub(unicode_lower(key), ns[j]))
            ==> !pattern_ok(ns, label, key),
{
    assert forall|j: int|
        0 <= j < ns.len() && (has_sub(unicode_lower(label), #[trigger] ns[j]) || has_sub(unicode_lower(key), ns[j]))
            implies pattern_ok(ns, label, key) by {
        assert(needle_hits(label, key, ns[j]));
    }
    if pattern_ok(ns, label, key) && ns.len() > 0 {
        let j = choose|j: int| 0 <= j < ns.len() && #[trigger] needle_hits(label, key, ns[j]);
        assert(ns.push(n)[j] == ns[j]);
        assert(needle_hits(label, key, ns.push(n)[j]));
    }
    if has_sub(unicode_lower(label), n) || has_sub(unicode_lower(key), n) {
        assert(ns.push(n)[ns.len() as int] == n);
        assert(needle_hits(label, key, ns.push(n)[ns.len() as int]));
    }
}

/// Whether a pkg gets a row: enabled (or `all`), on a supported system,
/// for the user's shell, and matching the patterns.
pub open spec fn visible(key: Seq<char>, p: PkgConfig, opts: Options, os: Option<crate::pkg::Os>, shell: Option<Shell>) -> bool {
    &&& (opts.all || p.enable != PkgEnable::Disabled)
    &&& os_allows(p.supported_os@, os)
    &&& (p.supported_shells@.len() == 0 || (shell matches Some(s) && p.supported_shells@.contains(s)))
    &&& pattern_ok(lowered_patterns(opts), label_of(key, p), key)
}

/// A row: label, key, and the pkg's position in the table.
pub type Row = (Seq<char>, Seq<char>, int);

/// The rows of the pkgs that get one, in table order.
pub open spec fn visible_rows(es: Seq<(Seq<char>, PkgConfig)>, opts: Options, os: Option<crate::pkg::Os>, shell: Option<Shell>) -> Seq<Row>
    decreases es.len(),
{
    if es.len() == 0 {
        Seq::empty()
    } else {
        let k = es.len() - 1;
        let (key, p) = es[k];
        visible_rows(es.drop_last(), opts, os, shell) + if visible(key, p, opts, os, shell) {
            seq![(label_of(key, p), key, k)]
        } else {
            Seq::empty()
        }
    }
}

/// `a` sorts strictly before `b`, character by character.
pub open spec fn seq_lt(a: Seq<char>, b: Seq<char>) -> bool
    decreases a.len(),
{
    if b.len() == 0 {
        false
    } else if a.len() == 0 {
        true
    } else if a[0] != b[0] {
        (a[0] as u32) < (b[0] as u32)
    } else {
        seq_lt(a.drop_first(), b.drop_first())
    }
}

/// `x` placed before the first row whose label sorts after its own.
pub open spec fn insert_row(sorted: Seq<Row>, x: Row) -> Seq<Row>
    decreases sorted.len(),
{
    if sorted.len() == 0 {
        seq![x]
    } else if seq_lt(x.0, sorted.last().0) {
        insert_row(sorted.drop_last(), x).push(sorted.last())
    } else {
        sorted.push(x)
    }
}

/// The rows stably sorted by label.
pub open spec fn sort_rows(rows: Seq<Row>) -> Seq<Row>
    decreases rows.len(),
{
    if rows.len() == 0 {
        Seq::empty()
    } else {
        insert_row(sort_rows(rows.drop_last()), rows.last())
    }
}

/// `seq_lt` is transitive.
pub proof fn lemma_lt_transitive(a: Seq<char>, b: Seq<char>, c: Seq<char>)
    requires
        seq_lt(a, b),
        seq_lt(b, c),
    ensures
        seq_lt(a, c),
    decreases a.len(),
{
    if a.len() > 0 && b.len() > 0 && c.len() > 0 && a[0] == b[0] && b[0] == c[0] {
        lemma_lt_transitive(a.drop_first(), b.drop_first(), c.drop_first());
    }
}

/// Of two labels, exactly one sorts first, or they are equal.
pub proof fn lemma_lt_trichotomy(a: Seq<char>, b: Seq<char>)
    ensures
        seq_lt(a, b) || seq_lt(b, a) || a == b,
        !(seq_lt(a, b) && seq_lt(b, a)),
    decreases a.len(),
{
    if a.len() == 0 && b.len() == 0 {
        assert(a =~= b);
    } else if a.len() > 0 && b.len() > 0 {
        if a[0] == b[0] {
            lemma_lt_trichotomy(a.drop_first(), b.drop_first());
            if a.drop_first() == b.drop_first() {
                assert(a =~= seq![a[0]] + a.drop_first());
                assert(b =~= seq![b[0]] + b.drop_first());
            }
        } else {
            let (x, y) = (a[0], b[0]);
            vstd::utf8::char_u32_cast(x, x as u32);
            vstd::utf8::char_u32_cast(y, y as u32);
            assert((x as u32) != (y as u32));
        }
    }
}

/// Every label of `rows` sorts no earlier than the one before it.
pub open spec fn rows_sorted(rows: Seq<Row>) -> bool {
    forall|i: int, j: int| 0 <= i < j < rows.len() ==> !seq_lt(#[trigger] rows[j].0, #[trigger] rows[i].0)
}

/// No label of `rows` sorts after `bound`.
pub open spec fn rows_at_most(rows: Seq<Row>, bound: Seq<char>) -> bool {
    forall|i: int| 0 <= i < rows.len() ==> !seq_lt(bound, #[trigger] rows[i].0)
}

proof fn lemma_le_transitive(a: Seq<char>, b: Seq<char>, c: Seq<char>)
    requires
        !seq_lt(b, a),
        !seq_lt(c, b),
    ensures
        !seq_lt(c, a),
{
    lemma_lt_trichotomy(a, b);
    if seq_lt(c, a) && seq_lt(a, b) {
        lemma_lt_transitive(c, a, b);
    }
}

proof fn lemma_insert_row(sorted: Seq<Row>, x: Row)
    requires
        rows_sorted(sorted),
    ensures
        rows_sorted(insert_row(sorted, x)),
        insert_row(sorted, x).to_multiset() == sorted.to_multiset().insert(x),
        forall|b: Seq<char>| rows_at_most(sorted, b) && !seq_lt(b, x.0) ==> rows_at_most(#[trigger] insert_row(sorted, x), b),
    decreases sorted.len(),
{
    if sorted.len() == 0 {
        vstd::seq_lib::to_multiset_build(Seq::<Row>::empty(), x);
        assert(seq![x] =~= Seq::<Row>::empty().push(x));
        assert(sorted =~= Seq::<Row>::empty());
    } else {
        let last = sorted.last();
        let init = sorted.drop_last();
        assert(sorted =~= init.push(last));
        vstd::seq_lib::to_multiset_build(init, last);
        if seq_lt(x.0, last.0) {
            assert(rows_sorted(init));
            lemma_insert_row(init, x);
            let mid = insert_row(init, x);
            vstd::seq_lib::to_multiset_build(mid, last);
            assert(init.to_multiset().insert(x).insert(last) =~= init.to_multiset().insert(last).insert(x)) by {
                broadcast use vstd::multiset::group_multiset_axioms;
            }
            assert(rows_at_most(init, last.0)) by {
                assert forall|i: int| 0 <= i < init.len() implies !seq_lt(last.0, #[trigger] init[i].0) by {
                    assert(sorted[i] == init[i]);
                    assert(sorted[sorted.len() - 1] == last);
                }
            }
            lemma_lt_trichotomy(x.0, last.0);
            assert(rows_at_most(mid, last.0));
            assert forall|i: int, j: int| 0 <= i < j < mid.push(last).len() implies !seq_lt(
                #[trigger] mid.push(last)[j].0,
                #[trigger] mid.push(last)[i].0,
            ) by {
                if j == mid.len() {
                    assert(mid.push(last)[j] == last);
                    assert(mid.push(last)[i] == mid[i]);
                } else {
                    assert(mid.push(last)[j] == mid[j]);
                    assert(mid.push(last)[i] == mid[i]);
                }
            }
            assert forall|b: Seq<char>| rows_at_most(sorted, b) && !seq_lt(b, x.0) implies rows_at_most(
                #[trigger] insert_row(sorted, x),
                b,
            ) by {
                assert(rows_at_most(init, b)) by {
                    assert forall|i: int| 0 <= i < init.len() implies !seq_lt(b, #[trigger] init[i].0) by {
                        assert(sorted[i] == init[i]);
                    }
                }
                assert(sorted[sorted.len() - 1] == last);
                assert forall|i: int| 0 <= i < mid.push(last).len() implies !seq_lt(b, #[trigger] mid.push(last)[i].0) by {
                    if i == mid.len() {
                        assert(mid.push(last)[i] == last);
                    } else {
                        assert(mid.push(last)[i] == mid[i]);
                    }
                }
            }
        } else {
            vstd::seq_lib::to_multiset_build(sorted, x);
            assert forall|i: int, j: int| 0 <= i < j < sorted.push(x).len() implies !seq_lt(
                #[trigger] sorted.push(x)[j].0,
                #[trigger] sorted.push(x)[i].0,
            ) by {
                if j == sorted.len() {
                    assert(sorted.push(x)[i] == sorted[i]);
                    if i < sorted.len() - 1 {
                        assert(!seq_lt(sorted[sorted.len() - 1].0, sorted[i].0));
                        lemma_le_transitive(sorted[i].0, last.0, x.0);
                    }
                } else {
                    assert(sorted.push(x)[j] == sorted[j]);
                    assert(sorted.push(x)[i] == sorted[i]);
                }
            }
            assert forall|b: Seq<char>| rows_at_most(sorted, b) && !seq_lt(b, x.0) implies rows_at_most(
                #[trigger] insert_row(sorted, x),
                b,
            ) by {
                assert forall|i: int| 0 <= i < sorted.push(x).len() implies !seq_lt(b, #[trigger] sorted.push(x)[i].0) by {
                    if i < sorted.len() {
                        assert(sorted.push(x)[i] == sorted[i]);
                    }
                }
            }
        }
    }
}

/// The packages are listed by label: the rows come out sorted, as a
/// rearrangement of the rows that went in.
pub proof fn lemma_rows_come_out_sorted(rows: Seq<Row>)
    ensures
        rows_sorted(sort_rows(rows)),
        sort_rows(rows).to_multiset() == rows.to_multiset(),
    decreases rows.len(),
{
    if rows.len() == 0 {
        assert(sort_rows(rows).to_multiset() =~= rows.to_multiset()) by {
            assert(rows =~= Seq::<Row>::empty());
        }
    } else {
        lemma_rows_come_out_sorted(rows.drop_last());
        lemma_insert_row(sort_rows(rows.drop_last()), rows.last());
        vstd::seq_lib::to_multiset_build(rows.drop_last(), rows.last());
        assert(rows.drop_last().push(rows.last()) =~= rows);
    }
}

/// Rows with equal labels keep their order: sorting rows that are already
/// in order changes nothing.
pub proof fn lemma_sorted_rows_stay(rows: Seq<Row>)
    requires
        rows_sorted(rows),
    ensures
        sort_rows(rows) == rows,
    decreases rows.len(),
{
    if rows.len() > 0 {
        let init = rows.drop_last();
        assert(rows_sorted(init)) by {
            assert forall|i: int, j: int| 0 <= i < j < init.len() implies !seq_lt(#[trigger] init[j].0, #[trigger] init[i].0) by {
                assert(init[i] == rows[i]);
                assert(init[j] == rows[j]);
            }
        }
        lemma_sorted_rows_stay(init);
        if init.len() > 0 {
            assert(init.last() == rows[rows.len() - 2]);
            assert(rows.last() == rows[rows.len() - 1]);
        }
        assert(init.push(rows.last()) =~= rows);
    }
}

fn str_lt(a: &str, b: &str) -> (r: bool)
    ensures
        r == seq_lt(a@, b@),
{
    let xs = str_chars(a);
    let ys = str_chars(b);
    let mut i: usize = 0;
    assert(a@.skip(0) =~= a@);
    assert(b@.skip(0) =~= b@);
    while i < xs.len() && i < ys.len() && xs[i] == ys[i]
        invariant
            xs@ == a@,
            ys@ == b@,
            i <= xs@.len(),
            i <= ys@.len(),
            seq_lt(a@, b@) == seq_lt(a@.skip(i as int), b@.skip(i as int)),
        decreases xs@.len() - i,
    {
        proof {
            assert(a@.skip(i as int).drop_first() =~= a@.skip(i + 1));
            assert(b@.skip(i as int).drop_first() =~= b@.skip(i + 1));
        }
        i = i + 1;
    }
    if i == ys.len() {
        false
    } else if i == xs.len() {
        true
    } else {
        (xs[i] as u32) < (ys[i] as u32)
    }
}

/// A row in exec form.
struct RowRef<'a> {
    label: &'a str,
    key: &'a str,
    index: usize,
}

spec fn row_view(r: RowRef) -> Row {
    (r.label@, r.key@, r.index as int)
}

spec fn row_views(rs: Seq<RowRef>) -> Seq<Row> {
    Seq::new(rs.len(), |i: int| row_view(rs[i]))
}

/// Insert `x` into the sorted `rows` as [`insert_row`] does.
fn insert_sorted<'a>(rows: &mut Vec<RowRef<'a>>, x: RowRef<'a>)
    ensures
        row_views(final(rows)@) == insert_row(row_views(old(rows)@), row_view(x)),
{
    let ghost orig = row_views(rows@);
    let mut pos: usize = rows.len();
    assert(orig.take(pos as int) =~= orig);
    assert(orig.skip(pos as int) =~= Seq::<Row>::empty());
    while pos > 0 && str_lt(x.label, rows[pos - 1].label)
        invariant
            pos <= rows@.len(),
            row_views(rows@) == orig,
            insert_row(orig, row_view(x)) == insert_row(orig.take(pos as int), row_view(x)) + orig.skip(pos as int),
        decreases pos,
    {
        proof {
            let t = orig.take(pos as int);
            assert(t.last() == orig[pos - 1]);
            assert(t.drop_last() =~= orig.take(pos - 1));
            assert(insert_row(t, row_view(x)) == insert_row(t.drop_last(), row_view(x)).push(t.last()));
            assert(insert_row(t.drop_last(), row_view(x)).push(t.last()) + orig.skip(pos as int)
                =~= insert_row(orig.take(pos - 1), row_view(x)) + orig.skip(pos - 1));
        }
        pos = pos - 1;
    }
    proof {
        let t = orig.take(pos as int);
        if pos > 0 {
            assert(t.last() == orig[pos - 1]);
        }
        assert(insert_row(t, row_view(x)) =~= t.push(row_view(x)));
    }
    rows.insert(pos, x);
    proof {
        assert(row_views(rows@) =~= orig.take(pos as int).push(row_view(x)) + orig.skip(pos as int));
    }
}

/// A `zenops pkg` row, at the level of specifications.
pub ghost enum EntryView {
    Pkg {
        name: Seq<char>,
        key: Seq<char>,
        description: Option<Seq<char>>,
        state: PkgEntryState,
        matched_detect: Option<Seq<char>>,
        install_hints: Seq<Seq<char>>,
    },
    AggregateInstall { pkg_manager: Seq<char>, command: Seq<char>, packages: Seq<Seq<char>> },
    NoPackageManagerDetected { supported: Seq<Seq<char>> },
}

pub open spec fn entry_view(e: PkgEntry) -> EntryView {
    match e {
        PkgEntry::Pkg { name, key, description, state, matched_detect, install_hints } => EntryView::Pkg {
            name: name@,
            key: key@,
            description: match description {
                Some(d) => Some(d@),
                None => None,
            },
            state,
            matched_detect: match matched_detect {
                Some(m) => Some(m@),
                None => None,
            },
            install_hints: views(install_hints.brew@),
        },
        PkgEntry::AggregateInstall { pkg_manager, command, packages } => EntryView::AggregateInstall {
            pkg_manager: pkg_manager@,
            command: command@,
            packages: views(packages@),
        },
        PkgEntry::NoPackageManagerDetected { supported } => EntryView::NoPackageManagerDetected {
            supported: views(supported@),
        },
    }
}

/// The state a row shows, once the host has answered.
pub open spec fn row_state(p: PkgConfig, host: &DetectHost, sys: &IndexMap<String, String>) -> PkgEntryState {
    if p.enable == PkgEnable::Disabled {
        PkgEntryState::Disabled
    } else if installed(&p, host, sys) == Detected::Known(true) {
        PkgEntryState::Installed
    } else {
        PkgEntryState::Missing
    }
}

/// What the host must answer for a row: whether it is installed.
pub open spec fn row_known(p: PkgConfig, host: &DetectHost, sys: &IndexMap<String, String>) -> bool {
    p.enable == PkgEnable::Disabled || installed(&p, host, sys) is Known
}

/// The install hints a row shows.
pub open spec fn row_hints(p: PkgConfig, state: PkgEntryState, opts: Options, manager: Option<DetectedPackageManager>) -> Seq<Seq<char>> {
    if state == PkgEntryState::Missing && (opts.all_hints || manager is Some) {
        views(p.install_hint.brew.packages@)
    } else {
        Seq::empty()
    }
}

/// The row for a pkg.
pub open spec fn row_entry(
    row: Row,
    p: PkgConfig,
    opts: Options,
    manager: Option<DetectedPackageManager>,
    host: &DetectHost,
    sys: &IndexMap<String, String>,
) -> EntryView {
    let state = row_state(p, host, sys);
    EntryView::Pkg {
        name: row.0,
        key: row.1,
        description: match p.description {
            Some(d) => Some(d@),
            None => None,
        },
        state,
        matched_detect: if opts.verbose && state == PkgEntryState::Installed && p.detect is Some {
            Some(strategy_text(p.detect->0))
        } else {
            None
        },
        install_hints: row_hints(p, state, opts, manager),
    }
}

/// The packages the footer aggregates: the hints of missing rows, when a
/// manager was detected and not every hint is shown.
pub open spec fn aggregate(
    rows: Seq<Row>,
    es: Seq<(Seq<char>, PkgConfig)>,
    opts: Options,
    manager: Option<DetectedPackageManager>,
    host: &DetectHost,
    sys: &IndexMap<String, String>,
) -> Seq<Seq<char>>
    decreases rows.len(),
{
    if rows.len() == 0 {
        Seq::empty()
    } else {
        let p = es[rows.last().2].1;
        aggregate(rows.drop_last(), es, opts, manager, host, sys) + if !opts.all_hints && manager is Some {
            row_hints(p, row_state(p, host, sys), opts, manager)
        } else {
            Seq::empty()
        }
    }
}

/// Every row of `zenops pkg`, in order: the no-manager warning when no
/// manager was detected, one row per visible pkg sorted by label, and the
/// footer when there is anything to install through the manager.
pub open spec fn pkg_list(
    es: Seq<(Seq<char>, PkgConfig)>,
    opts: Options,
    manager: Option<DetectedPackageManager>,
    shell: Option<Shell>,
    host: &DetectHost,
    sys: &IndexMap<String, String>,
) -> Seq<EntryView> {
    let rows = sort_rows(visible_rows(es, opts, host.os, shell));
    let head = if manager is None {
        seq![EntryView::NoPackageManagerDetected { supported: seq!["brew"@] }]
    } else {
        Seq::empty()
    };
    let body = Seq::new(rows.len(), |k: int| row_entry(rows[k], es[rows[k].2].1, opts, manager, host, sys));
    let agg = aggregate(rows, es, opts, manager, host, sys);
    let foot = if !opts.all_hints && manager is Some && agg.len() > 0 {
        seq![
            EntryView::AggregateInstall {
                pkg_manager: "brew"@,
                command: "brew install "@ + seq_join(agg, " "@),
                packages: agg,
            },
        ]
    } else {
        Seq::empty()
    };
    head + body + foot
}


pub open spec fn entry_views(es: Seq<PkgEntry>) -> Seq<EntryView> {
    Seq::new(es.len(), |i: int| entry_view(es[i]))
}

/// Whether one of `needles` is found in the lowercased label or key.
fn pattern_matches(needles: &Vec<String>, label: &str, key: &str) -> (r: bool)
    ensures
        r == pattern_ok(views(needles@), label@, key@),
{
    if needles.len() == 0 {
        return true;
    }
    let ll = to_lowercase(label);
    let kl = to_lowercase(key);
    let mut j: usize = 0;
    while j < needles.len()
        invariant
            j <= needles@.len(),
            ll@ == unicode_lower(label@),
            kl@ == unicode_lower(key@),
            forall|t: int| 0 <= t < j ==> !#[trigger] needle_hits(label@, key@, views(needles@)[t]),
        decreases needles@.len() - j,
    {
        if contains_str(ll.as_str(), needles[j].as_str()) || contains_str(kl.as_str(), needles[j].as_str()) {
            assert(views(needles@)[j as int] == needles@[j as int]@);
            assert(needle_hits(label@, key@, views(needles@)[j as int]));
            return true;
        }
        assert(views(needles@)[j as int] == needles@[j as int]@);
        assert(!needle_hits(label@, key@, views(needles@)[j as int]));
        j = j + 1;
    }
    false
}

/// The rows of `zenops pkg` for the pkgs of `pkgs`, or the question the
/// host must answer first. `manager` is the detected package manager,
/// `shell` the user's shell.
pub fn entries(
    pkgs: &IndexMap<String, PkgConfig>,
    opts: &Options,
    manager: Option<DetectedPackageManager>,
    shell: Option<Shell>,
    host: &DetectHost,
    system_inputs: &IndexMap<String, String>,
) -> (r: Probed<Vec<PkgEntry>>)
    ensures
        r matches Probed::Needs(q) ==> answer_index(host.answers@, q@) is None,
        r matches Probed::Known(v) ==> entry_views(v@) == pkg_list(pkg_map_entries(*pkgs), *opts, manager, shell, host, system_inputs),
{
    let ghost es = pkg_map_entries(*pkgs);
    let mut needles: Vec<String> = Vec::new();
    let mut j: usize = 0;
    while j < opts.pattern.len()
        invariant
            j <= opts.pattern@.len(),
            views(needles@) == lowered_patterns(*opts).take(j as int),
        decreases opts.pattern@.len() - j,
    {
        let ghost prev = needles@;
        needles.push(to_lowercase(opts.pattern[j].as_str()));
        assert(views(needles@) =~= views(prev).push(unicode_lower(opts.pattern@[j as int]@)));
        j = j + 1;
        assert(views(needles@) =~= lowered_patterns(*opts).take(j as int));
    }
    assert(lowered_patterns(*opts).take(opts.pattern@.len() as int) =~= lowered_patterns(*opts));
    let n = pkg_map_len(pkgs);
    let mut rows: Vec<RowRef> = Vec::new();
    let mut i: usize = 0;
    while i < n
        invariant
            es == pkg_map_entries(*pkgs),
            n == es.len(),
            i <= n,
            views(needles@) == lowered_patterns(*opts),
            row_views(rows@) == sort_rows(visible_rows(es.take(i as int), *opts, host.os, shell)),
            forall|k: int| 0 <= k < rows@.len() ==> (#[trigger] rows@[k]).index < n,
        decreases n - i,
    {
        let (key, p) = pkg_map_entry(pkgs, i);
        let label: &str = match &p.name {
            Some(nm) => nm.as_str(),
            None => key.as_str(),
        };
        let shown = (opts.all || !p.is_disabled()) && p.supports_current_os(host.os) && p.supports_shell(shell)
            && pattern_matches(&needles, label, key.as_str());
        proof {
            let t = es.take(i + 1);
            assert(t.drop_last() =~= es.take(i as int));
            assert(t[i as int] == es[i as int]);
        }
        if shown {
            let ghost before = row_views(rows@);
            insert_sorted(&mut rows, RowRef { label, key: key.as_str(), index: i });
            proof {
                let vr = visible_rows(es.take(i as int), *opts, host.os, shell);
                let x = (label@, key@, i as int);
                assert(visible_rows(es.take(i + 1), *opts, host.os, shell) =~= vr.push(x));
                assert(vr.push(x).drop_last() =~= vr);
            }
            assert forall|k: int| 0 <= k < rows@.len() implies (#[trigger] rows@[k]).index < n by {
                assert(row_views(rows@)[k].2 == rows@[k].index);
                lemma_insert_row_indices(before, (label@, key@, i as int), n as int);
            }
        } else {
            proof {
                assert(visible_rows(es.take(i + 1), *opts, host.os, shell) =~= visible_rows(es.take(i as int), *opts, host.os, shell));
            }
        }
        i = i + 1;
    }
    proof {
        assert(es.take(n as int) =~= es);
    }
    let ghost rows_v = row_views(rows@);
    let ghost agg_all = aggregate(rows_v, es, *opts, manager, host, system_inputs);
    let mut out: Vec<PkgEntry> = Vec::new();
    if manager.is_none() {
        let mut supported: Vec<String> = Vec::new();
        supported.push(owned("brew"));
        out.push(PkgEntry::NoPackageManagerDetected { supported });
        proof {
            assert(views(supported@) =~= seq!["brew"@]);
        }
    }
    let ghost head = entry_views(out@);
    let mut agg: Vec<String> = Vec::new();
    let mut k: usize = 0;
    while k < rows.len()
        invariant
            es == pkg_map_entries(*pkgs),
            rows_v == row_views(rows@),
            forall|t: int| 0 <= t < rows@.len() ==> (#[trigger] rows@[t]).index < es.len(),
            k <= rows@.len(),
            entry_views(out@) == head + Seq::new(k as nat, |t: int| row_entry(rows_v[t], es[rows_v[t].2].1, *opts, manager, host, system_inputs)),
            views(agg@) == aggregate(rows_v.take(k as int), es, *opts, manager, host, system_inputs),
        decreases rows@.len() - k,
    {
        let row = &rows[k];
        let (_, p) = pkg_map_entry(pkgs, row.index);
        proof {
            assert(rows_v[k as int] == row_view(rows@[k as int]));
            assert(es[rows_v[k as int].2].1 == *p);
        }
        let state = if p.is_disabled() {
            PkgEntryState::Disabled
        } else {
            match p.is_installed(host, system_inputs) {
                Probed::Known(true) => PkgEntryState::Installed,
                Probed::Known(false) => PkgEntryState::Missing,
                Probed::Needs(q) => {
                    return Probed::Needs(q);
                },
            }
        };
        let matched_detect = if opts.verbose {
            match p.matched_detect(host, system_inputs) {
                Probed::Known(Some(d)) => Some(d.describe()),
                Probed::Known(None) => None,
                Probed::Needs(q) => {
                    return Probed::Needs(q);
                },
            }
        } else {
            None
        };
        let mut hints: Vec<String> = Vec::new();
        if state == PkgEntryState::Missing && (opts.all_hints || manager.is_some()) {
            hints = copy_strings(p.install_hint.brew.packages.as_slice());
        }
        let ghost agg_before = views(agg@);
        if !opts.all_hints && manager.is_some() {
            let mut t: usize = 0;
            while t < hints.len()
                invariant
                    t <= hints@.len(),
                    views(agg@) == agg_before + views(hints@).take(t as int),
                decreases hints@.len() - t,
            {
                let ghost prev = agg@;
                agg.push(owned(hints[t].as_str()));
                assert(views(agg@) =~= views(prev).push(hints@[t as int]@));
                t = t + 1;
                assert(views(agg@) =~= agg_before + views(hints@).take(t as int));
            }
            assert(views(hints@).take(hints@.len() as int) =~= views(hints@));
        }
        let description = match &p.description {
            Some(d) => Some(owned(d.as_str())),
            None => None,
        };
        let ghost prev_out = out@;
        out.push(PkgEntry::Pkg {
            name: owned(row.label),
            key: owned(row.key),
            description,
            state,
            matched_detect,
            install_hints: PkgInstallHints { brew: hints },
        });
        proof {
            let rk = rows_v[k as int];
            let p_s = es[rk.2].1;
            assert(row_state(p_s, host, system_inputs) == state);
            let new_e = out@[out@.len() - 1];
            assert(out@ =~= prev_out.push(new_e));
            assert(entry_views(out@) =~= entry_views(prev_out).push(entry_view(new_e)));
            let ev = entry_view(new_e);
            let se = row_entry(rk, p_s, *opts, manager, host, system_inputs);
            assert(ev->name == se->name);
            assert(ev->key == se->key);
            assert(ev->description == se->description);
            assert(ev->state == se->state);
            assert(ev->matched_detect == se->matched_detect);
            assert(ev->install_hints == se->install_hints);
            assert(ev == se);
            assert(entry_views(out@) =~= head + Seq::new((k + 1) as nat, |t: int| row_entry(rows_v[t], es[rows_v[t].2].1, *opts, manager, host, system_inputs)));
            let tk = rows_v.take(k + 1);
            assert(tk.drop_last() =~= rows_v.take(k as int));
            assert(tk.last() == rk);
            assert(views(agg@) =~= aggregate(rows_v.take(k + 1), es, *opts, manager, host, system_inputs));
        }
        k = k + 1;
    }
    proof {
        assert(rows_v.take(rows@.len() as int) =~= rows_v);
    }
    if !opts.all_hints && agg.len() > 0 {
        match manager {
            Some(mgr) => {
                let command = mgr.install_command(agg.as_slice());
                out.push(PkgEntry::AggregateInstall { pkg_manager: owned(mgr.name()), command, packages: agg });
            },
            None => {},
        }
    }
    proof {
        assert(entry_views(out@) =~= pkg_list(es, *opts, manager, shell, host, system_inputs));
    }
    Probed::Known(out)
}

/// Inserting a row keeps every row's position below `n` when the new one's
/// is.
proof fn lemma_insert_row_indices(sorted: Seq<Row>, x: Row, n: int)
    requires
        forall|k: int| 0 <= k < sorted.len() ==> (#[trigger] sorted[k]).2 < n,
        x.2 < n,
    ensures
        forall|k: int| 0 <= k < insert_row(sorted, x).len() ==> (#[trigger] insert_row(sorted, x)[k]).2 < n,
        insert_row(sorted, x).len() == sorted.len() + 1,
    decreases sorted.len(),
{
    if sorted.len() > 0 && seq_lt(x.0, sorted.last().0) {
        lemma_insert_row_indices(sorted.drop_last(), x, n);
        let s = insert_row(sorted.drop_last(), x);
        assert forall|k: int| 0 <= k < s.push(sorted.last()).len() implies (#[trigger] s.push(sorted.last())[k]).2 < n by {
            if k < s.len() {
                assert(s.push(sorted.last())[k] == s[k]);
            }
        }
    }
}

} // verus!

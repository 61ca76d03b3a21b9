//! Named, composable predicates (`[conditions]` and `pkg.*.when`) that gate
//! whether a pkg is relevant on the current host.
//!
//! A [`Condition`] is one of seven kinds: `os`, `shell`, `hostname`,
//! `file_exists`, `all`, `any`, `not`. Children of the combinators are a
//! [`ConditionOrRef`]: either the name of an entry of the registry or an
//! inline condition.
//!
//! [`Conditions::compile`] checks, before anything is evaluated, that every
//! name reachable from the registry resolves and that the references between
//! named entries form no cycle. [`Conditions::evaluate`] then walks a
//! condition against a [`HostContext`].

use indexmap::IndexMap;
use vstd::prelude::*;

use crate::expand::{ExpandError, ExpandFault, ExpandStr};
use crate::input_map::{entry_index, lemma_entry_index_bounds};
use crate::pkg::{Os, Shell};
use crate::text::{join_strings, owned, replace_first, replace_first_char, seq_join, str_eq, views};

verus! {

/// Whether `regex::Regex::new` accepts `pattern`.
pub uninterp spec fn regex_compiles(pattern: Seq<char>) -> bool;

/// Whether the regex compiled from `pattern` matches somewhere in `haystack`.
pub uninterp spec fn regex_finds(pattern: Seq<char>, haystack: Seq<char>) -> bool;

/// `regex::Regex::new`: whether `pattern` compiles, with the library's
/// message when it does not.
#[verifier::external_body]
fn compile_regex(pattern: &str) -> (r: Result<(), String>)
    ensures
        r is Ok <==> regex_compiles(pattern@),
{
    match regex::Regex::new(pattern) {
        Ok(_) => Ok(()),
        Err(e) => Err(e.to_string()),
    }
}

/// `regex::Regex::is_match` on the regex compiled from `pattern`.
#[verifier::external_body]
fn regex_is_match(pattern: &str, haystack: &str) -> (r: bool)
    requires
        regex_compiles(pattern@),
    ensures
        r == regex_finds(pattern@, haystack@),
{
    match regex::Regex::new(pattern) {
        Ok(re) => re.is_match(haystack),
        Err(_) => false,
    }
}

/// A hostname pattern. Only patterns that compile can be held, so a bad
/// pattern fails the load rather than the first evaluation.
#[derive(Debug, PartialEq)]
pub struct HostnameRegex {
    src: String,
}

impl View for HostnameRegex {
    type V = Seq<char>;

    closed spec fn view(&self) -> Seq<char> {
        self.src@
    }
}

impl HostnameRegex {
    #[verifier::type_invariant]
    closed spec fn compiles(self) -> bool {
        regex_compiles(self.src@)
    }

    /// Accept `src` when it compiles as a regular expression; otherwise the
    /// regex library's message.
    pub fn new(src: &str) -> (r: Result<HostnameRegex, String>)
        ensures
            r is Ok <==> regex_compiles(src@),
            r matches Ok(h) ==> h@ == src@,
    {
        match compile_regex(src) {
            Ok(()) => Ok(HostnameRegex { src: src.to_string() }),
            Err(msg) => Err(msg),
        }
    }

    /// Whether the pattern matches somewhere in `s`.
    pub fn is_match(&self, s: &str) -> (r: bool)
        ensures
            r == regex_finds(self@, s@),
    {
        proof {
            use_type_invariant(self);
        }
        regex_is_match(self.src.as_str(), s)
    }

    /// The pattern as written.
    pub fn as_str(&self) -> (r: &str)
        ensures
            r@ == self@,
    {
        self.src.as_str()
    }
}

/// A named or inline predicate over the host.
#[derive(Debug, PartialEq)]
pub enum Condition {
    Os { os: Os },
    Shell { shell: Shell },
    Hostname { hostname: HostnameRegex },
    FileExists { file_exists: ExpandStr },
    All { all: Vec<ConditionOrRef> },
    Any { any: Vec<ConditionOrRef> },
    Not { not: Box<ConditionOrRef> },
}

/// A child of a combinator, or the value of a gate: the name of a registry
/// entry, or an inline condition.
#[derive(Debug, PartialEq)]
pub enum ConditionOrRef {
    Ref(String),
    Inline(Condition),
}

/// Whether `c` names `n` somewhere inside it.
pub open spec fn cond_refers(c: Condition, n: Seq<char>) -> bool
    decreases c,
{
    match c {
        Condition::All { all } => list_refers(all@, n),
        Condition::Any { any } => list_refers(any@, n),
        Condition::Not { not } => cor_refers(*not, n),
        _ => false,
    }
}

/// Whether one of `list` is, or contains, a reference to `n`.
pub open spec fn list_refers(list: Seq<ConditionOrRef>, n: Seq<char>) -> bool
    decreases list,
{
    if list.len() == 0 {
        false
    } else {
        cor_refers(list[0], n) || list_refers(list.subrange(1, list.len() as int), n)
    }
}

/// Whether `r` is, or contains, a reference to `n`.
pub open spec fn cor_refers(r: ConditionOrRef, n: Seq<char>) -> bool
    decreases r,
{
    match r {
        ConditionOrRef::Ref(s) => s@ == n,
        ConditionOrRef::Inline(c) => cond_refers(c, n),
    }
}

/// A list refers to a name exactly when one of its items does.
pub proof fn lemma_list_refers(list: Seq<ConditionOrRef>, n: Seq<char>)
    ensures
        list_refers(list, n) <==> exists|i: int| 0 <= i < list.len() && #[trigger] cor_refers(list[i], n),
    decreases list.len(),
{
    if list.len() > 0 {
        let rest = list.subrange(1, list.len() as int);
        lemma_list_refers(rest, n);
        if list_refers(list, n) && !cor_refers(list[0], n) {
            let j = choose|j: int| 0 <= j < rest.len() && #[trigger] cor_refers(rest[j], n);
            assert(list[j + 1] == rest[j]);
        }
        if exists|i: int| 0 <= i < list.len() && #[trigger] cor_refers(list[i], n) {
            let i = choose|i: int| 0 <= i < list.len() && #[trigger] cor_refers(list[i], n);
            if i > 0 {
                assert(rest[i - 1] == list[i]);
            }
        }
    }
}

// ---------- reading a condition table ----------

/// The kinds of condition, as the keys of a condition table name them.
#[derive(Debug, Clone, Copy, PartialEq, Eq, Structural)]
pub enum ConditionKind {
    Os,
    Shell,
    Hostname,
    FileExists,
    All,
    Any,
    Not,
}

/// The kind a table key names.
pub open spec fn kind_named(key: Seq<char>) -> Option<ConditionKind> {
    if key == "os"@ {
        Some(ConditionKind::Os)
    } else if key == "shell"@ {
        Some(ConditionKind::Shell)
    } else if key == "hostname"@ {
        Some(ConditionKind::Hostname)
    } else if key == "file_exists"@ {
        Some(ConditionKind::FileExists)
    } else if key == "all"@ {
        Some(ConditionKind::All)
    } else if key == "any"@ {
        Some(ConditionKind::Any)
    } else if key == "not"@ {
        Some(ConditionKind::Not)
    } else {
        None
    }
}

/// The valid kinds, in reading order, as error messages list them.
pub open spec fn kinds_list() -> Seq<char> {
    "os, shell, hostname, file_exists, all, any, not"@
}

/// The kind named by the first key of a condition table (`None` for an
/// empty table), or the message that rejects the table.
pub fn condition_kind(key: Option<&str>) -> (r: Result<ConditionKind, String>)
    ensures
        match key {
            None => r matches Err(m) && m@ == "empty condition table; expected exactly one of: "@ + kinds_list(),
            Some(k) => match kind_named(k@) {
                Some(kind) => r == Ok::<ConditionKind, String>(kind),
                None => r matches Err(m) && m@ == "unknown condition kind '"@ + k@ + "', expected one of: "@
                    + kinds_list(),
            },
        },
{
    let kinds = "os, shell, hostname, file_exists, all, any, not";
    match key {
        None => {
            let mut m = owned("empty condition table; expected exactly one of: ");
            m.append(kinds);
            Err(m)
        },
        Some(k) => {
            if str_eq(k, "os") {
                Ok(ConditionKind::Os)
            } else if str_eq(k, "shell") {
                Ok(ConditionKind::Shell)
            } else if str_eq(k, "hostname") {
                Ok(ConditionKind::Hostname)
            } else if str_eq(k, "file_exists") {
                Ok(ConditionKind::FileExists)
            } else if str_eq(k, "all") {
                Ok(ConditionKind::All)
            } else if str_eq(k, "any") {
                Ok(ConditionKind::Any)
            } else if str_eq(k, "not") {
                Ok(ConditionKind::Not)
            } else {
                let mut m = owned("unknown condition kind '");
                m.append(k);
                m.append("', expected one of: ");
                m.append(kinds);
                Err(m)
            }
        },
    }
}

/// After the kind's value, a condition table must end: a further key is
/// rejected with a message naming both.
pub fn check_single_kind(key: &str, extra: Option<&str>) -> (r: Result<(), String>)
    ensures
        match extra {
            None => r is Ok,
            Some(x) => r matches Err(m) && m@ == "condition must have exactly one kind, found '"@ + key@
                + "' and '"@ + x@ + "'"@,
        },
{
    match extra {
        None => Ok(()),
        Some(x) => {
            let mut m = owned("condition must have exactly one kind, found '");
            m.append(key);
            m.append("' and '");
            m.append(x);
            m.append("'");
            Err(m)
        },
    }
}

// ---------- the registry ----------

/// The entries of a registry map, in insertion order.
pub uninterp spec fn condition_entries(m: IndexMap<String, Condition>) -> Seq<(Seq<char>, Condition)>;

/// `IndexMap::get`: the entry stored under `k`.
#[verifier::external_body]
fn condition_map_get<'a>(m: &'a IndexMap<String, Condition>, k: &str) -> (r: Option<&'a Condition>)
    ensures
        match r {
            Some(c) => entry_index(condition_entries(*m), k@) matches Some(i) && *c
                == condition_entries(*m)[i].1,
            None => entry_index(condition_entries(*m), k@) is None,
        },
{
    m.get(k)
}

/// `IndexMap::len`.
#[verifier::external_body]
fn condition_map_len(m: &IndexMap<String, Condition>) -> (r: usize)
    ensures
        r == condition_entries(*m).len(),
{
    m.len()
}

/// `IndexMap::get_index`: the key of the entry at position `i`.
#[verifier::external_body]
fn condition_map_key(m: &IndexMap<String, Condition>, i: usize) -> (r: &String)
    requires
        i < condition_entries(*m).len(),
    ensures
        r@ == condition_entries(*m)[i as int].0,
{
    m.get_index(i).unwrap().0
}

/// Whether `k` names an entry.
pub open spec fn is_key(e: Seq<(Seq<char>, Condition)>, k: Seq<char>) -> bool {
    entry_index(e, k) is Some
}

/// The condition stored under `k` (meaningful when `is_key(e, k)`).
pub open spec fn def_of(e: Seq<(Seq<char>, Condition)>, k: Seq<char>) -> Condition {
    e[entry_index(e, k)->0].1
}

/// The entry named `a` refers to the name `b`.
pub open spec fn depends(e: Seq<(Seq<char>, Condition)>, a: Seq<char>, b: Seq<char>) -> bool {
    is_key(e, a) && cond_refers(def_of(e, a), b)
}

/// Every name an entry refers to is itself an entry.
pub open spec fn refs_resolve(e: Seq<(Seq<char>, Condition)>) -> bool {
    forall|a: Seq<char>, b: Seq<char>| #[trigger] depends(e, a, b) ==> is_key(e, b)
}

/// `rank` strictly decreases along every reference and stays below the
/// number of entries.
pub open spec fn ranked_by(e: Seq<(Seq<char>, Condition)>, rank: spec_fn(Seq<char>) -> nat) -> bool {
    &&& forall|a: Seq<char>, b: Seq<char>| #[trigger] depends(e, a, b) ==> rank(b) < rank(a)
    &&& forall|a: Seq<char>| #[trigger] is_key(e, a) ==> rank(a) < e.len()
}

/// A registry whose references all resolve and can be ranked, so that no
/// chain of references returns to where it started.
pub open spec fn registry_sound(e: Seq<(Seq<char>, Condition)>) -> bool {
    refs_resolve(e) && exists|rank: spec_fn(Seq<char>) -> nat| ranked_by(e, rank)
}

/// `p` is a chain of references that starts and ends at the same name.
pub open spec fn is_cycle(e: Seq<(Seq<char>, Condition)>, p: Seq<Seq<char>>) -> bool {
    &&& p.len() >= 2
    &&& p[0] == p.last()
    &&& forall|i: int| 0 <= i < p.len() - 1 ==> #[trigger] depends(e, p[i], p[i + 1])
}

/// Error from compiling or evaluating conditions.
#[derive(Debug, PartialEq)]
pub enum Error {
    /// `name` is referenced from `from` (or, at evaluation, from
    /// `<runtime>`) but no entry has that name.
    UnknownRef { name: String, from: String },
    /// The names along a chain of references that returns to its start,
    /// joined with ` -> `.
    Cycle { path: String },
    /// A `file_exists` path failed to expand.
    Expand(ExpandError),
    /// Checking whether the path exists failed, with the reason.
    ExistsFailed(String, String),
}

/// Compiled, reference-checked, cycle-free registry of named conditions.
#[derive(Debug)]
pub struct Conditions {
    by_name: IndexMap<String, Condition>,
}

impl View for Conditions {
    type V = Seq<(Seq<char>, Condition)>;

    closed spec fn view(&self) -> Seq<(Seq<char>, Condition)> {
        condition_entries(self.by_name)
    }
}


/// Along a chain of references a ranking strictly decreases.
proof fn lemma_chain_rank(e: Seq<(Seq<char>, Condition)>, rank: spec_fn(Seq<char>) -> nat, p: Seq<Seq<char>>)
    requires
        ranked_by(e, rank),
        p.len() >= 2,
        forall|i: int| 0 <= i < p.len() - 1 ==> #[trigger] depends(e, p[i], p[i + 1]),
    ensures
        rank(p.last()) < rank(p[0]),
    decreases p.len(),
{
    let last = p.len() - 2;
    assert(depends(e, p[last], p[last + 1]));
    if p.len() > 2 {
        let q = p.drop_last();
        assert forall|i: int| 0 <= i < q.len() - 1 implies #[trigger] depends(e, q[i], q[i + 1]) by {
            assert(depends(e, p[i], p[i + 1]));
        }
        lemma_chain_rank(e, rank, q);
    }
}

/// A sound registry has no chain of references that returns to its start.
pub proof fn lemma_sound_registry_has_no_cycle(e: Seq<(Seq<char>, Condition)>, p: Seq<Seq<char>>)
    requires
        registry_sound(e),
    ensures
        !is_cycle(e, p),
{
    let rank = choose|rank: spec_fn(Seq<char>) -> nat| ranked_by(e, rank);
    if is_cycle(e, p) {
        lemma_chain_rank(e, rank, p);
    }
}

/// Distinct entry names are no more than the entries.
proof fn lemma_distinct_keys_bound(e: Seq<(Seq<char>, Condition)>, s: Seq<Seq<char>>)
    requires
        s.no_duplicates(),
        forall|i: int| 0 <= i < s.len() ==> is_key(e, #[trigger] s[i]),
    ensures
        s.len() <= e.len(),
{
    let keys = Seq::new(e.len(), |i: int| e[i].0);
    assert forall|x: Seq<char>| s.to_set().contains(x) implies keys.to_set().contains(x) by {
        let i = choose|i: int| 0 <= i < s.len() && s[i] == x;
        assert(is_key(e, s[i]));
        lemma_entry_index_bounds(e, x);
        let j = entry_index(e, x)->0;
        assert(keys[j] == x);
    }
    s.unique_seq_to_set();
    keys.lemma_cardinality_of_set();
    vstd::set_lib::lemma_len_subset(s.to_set(), keys.to_set());
}

/// The names on the walk's stack: distinct entries, each referring to the
/// next.
pub open spec fn stack_ok(e: Seq<(Seq<char>, Condition)>, s: Seq<Seq<char>>) -> bool {
    &&& s.no_duplicates()
    &&& forall|i: int| 0 <= i < s.len() ==> is_key(e, #[trigger] s[i])
    &&& forall|i: int| 0 <= i < s.len() - 1 ==> #[trigger] depends(e, s[i], s[i + 1])
}

/// The names already checked: distinct entries, each referring only to
/// names checked before it.
pub open spec fn validated_ok(e: Seq<(Seq<char>, Condition)>, v: Seq<Seq<char>>) -> bool {
    &&& v.no_duplicates()
    &&& forall|i: int| 0 <= i < v.len() ==> is_key(e, #[trigger] v[i])
    &&& forall|i: int, b: Seq<char>| 0 <= i < v.len() && #[trigger] depends(e, v[i], b) ==> v.take(i).contains(b)
}

spec fn apart(v: Seq<Seq<char>>, s: Seq<Seq<char>>) -> bool {
    forall|x: Seq<char>| #[trigger] v.contains(x) ==> !s.contains(x)
}

/// What an error out of the reference check shows about the registry.
pub open spec fn compile_error_shows(e: Seq<(Seq<char>, Condition)>, err: Error) -> bool {
    match err {
        Error::UnknownRef { name, from } => depends(e, from@, name@) && !is_key(e, name@),
        Error::Cycle { path } => exists|p: Seq<Seq<char>>| is_cycle(e, p) && path@ == seq_join(p, " -> "@),
        _ => false,
    }
}

/// The cycle a walk reports: the names on the walk's stack when it closed
/// (extending the stack `s0` the walk started with, and starting at
/// `first` when that stack was empty), from the name it returned to, then
/// that name again.
pub open spec fn cycle_from(e: Seq<(Seq<char>, Condition)>, s0: Seq<Seq<char>>, first: Seq<char>, err: Error) -> bool {
    match err {
        Error::Cycle { path } => exists|q: Seq<Seq<char>>, k: int|
            #![trigger stack_ok(e, q), q[k]]
            {
                &&& s0.is_prefix_of(q)
                &&& q.len() > 0
                &&& (s0.len() == 0 ==> q[0] == first)
                &&& stack_ok(e, q)
                &&& 0 <= k < q.len()
                &&& depends(e, q.last(), q[k])
                &&& path@ == seq_join(q.skip(k).push(q[k]), " -> "@)
            },
        _ => true,
    }
}

/// Every one of the first `i` entries was checked without finding a
/// problem.
pub open spec fn walked_before(e: Seq<(Seq<char>, Condition)>, i: int) -> bool {
    exists|v: Seq<Seq<char>>|
        #![trigger validated_ok(e, v)]
        validated_ok(e, v) && forall|j: int| 0 <= j < i ==> v.contains(#[trigger] e[j].0)
}

/// The cycle [`Conditions::compile`] reports: walking the entries in
/// order, the first entry whose walk closes a loop (all entries before it
/// checked fine), and along that walk the names from where the loop
/// closed, then that name again.
pub open spec fn compile_cycle(e: Seq<(Seq<char>, Condition)>, err: Error) -> bool {
    match err {
        Error::Cycle { .. } => exists|i: int|
            #![trigger e[i]]
            0 <= i < e.len() && walked_before(e, i) && cycle_from(e, Seq::empty(), e[i].0, err),
        _ => true,
    }
}

proof fn lemma_cycle_from_shorter(e: Seq<(Seq<char>, Condition)>, s0: Seq<Seq<char>>, x: Seq<char>, err: Error)
    requires
        cycle_from(e, s0.push(x), Seq::empty(), err),
    ensures
        cycle_from(e, s0, x, err),
{
    match err {
        Error::Cycle { path } => {
            let (q, k) = choose|q: Seq<Seq<char>>, k: int|
                #![trigger stack_ok(e, q), q[k]]
                {
                    &&& s0.push(x).is_prefix_of(q)
                    &&& q.len() > 0
                    &&& (s0.push(x).len() == 0 ==> q[0] == Seq::<char>::empty())
                    &&& stack_ok(e, q)
                    &&& 0 <= k < q.len()
                    &&& depends(e, q.last(), q[k])
                    &&& path@ == seq_join(q.skip(k).push(q[k]), " -> "@)
                };
            assert(s0.is_prefix_of(q)) by {
                assert forall|i: int| 0 <= i < s0.len() implies s0[i] == q[i] by {
                    assert(s0.push(x)[i] == s0[i]);
                }
            }
            if s0.len() == 0 {
                assert(s0.push(x)[0] == x);
            }
            assert(stack_ok(e, q) && q[k] == q[k]);
        },
        _ => {},
    }
}

/// Position of `name` in `list`, if it occurs.
fn position_of(list: &Vec<String>, name: &str) -> (r: Option<usize>)
    ensures
        match r {
            Some(k) => k < list@.len() && list@[k as int]@ == name@,
            None => !views(list@).contains(name@),
        },
{
    let mut i: usize = 0;
    while i < list.len()
        invariant
            i <= list@.len(),
            forall|j: int| 0 <= j < i ==> list@[j]@ != name@,
        decreases list@.len() - i,
    {
        if str_eq(list[i].as_str(), name) {
            return Some(i);
        }
        i = i + 1;
    }
    assert forall|x: Seq<char>| views(list@).contains(x) implies x != name@ by {
        let j = choose|j: int| 0 <= j < views(list@).len() && views(list@)[j] == x;
        assert(list@[j]@ != name@);
    }
    None
}

/// Check the entry `name`, reached from the top of `stack`.
fn walk(
    name: &str,
    by_name: &IndexMap<String, Condition>,
    stack: &mut Vec<String>,
    validated: &mut Vec<String>,
) -> (r: Result<(), Error>)
    requires
        stack_ok(condition_entries(*by_name), views(old(stack)@)),
        validated_ok(condition_entries(*by_name), views(old(validated)@)),
        apart(views(old(validated)@), views(old(stack)@)),
        old(stack)@.len() == 0 ==> is_key(condition_entries(*by_name), name@),
        old(stack)@.len() > 0 ==> depends(condition_entries(*by_name), old(stack)@.last()@, name@),
    ensures
        r matches Err(err) ==> compile_error_shows(condition_entries(*by_name), err),
        r matches Err(err) ==> cycle_from(condition_entries(*by_name), views(old(stack)@), name@, err),
        r is Ok ==> {
            &&& final(stack)@ == old(stack)@
            &&& old(validated)@.is_prefix_of(final(validated)@)
            &&& validated_ok(condition_entries(*by_name), views(final(validated)@))
            &&& apart(views(final(validated)@), views(final(stack)@))
            &&& views(final(validated)@).contains(name@)
        },
    decreases condition_entries(*by_name).len() - old(stack)@.len(), 0int, *old(stack),
{
    let ghost e = condition_entries(*by_name);
    match position_of(validated, name) {
        Some(k) => {
            assert(views(validated@)[k as int] == name@);
            return Ok(());
        },
        None => {},
    }
    match position_of(stack, name) {
        Some(k) => {
            let mut names: Vec<String> = Vec::new();
            let mut j: usize = k;
            while j < stack.len()
                invariant
                    k <= j <= stack@.len(),
                    views(names@) == views(stack@).subrange(k as int, j as int),
                decreases stack@.len() - j,
            {
                let ghost before = names@;
                names.push(owned(stack[j].as_str()));
                assert(views(names@) =~= views(before).push(stack@[j as int]@));
                j = j + 1;
                assert(views(stack@).subrange(k as int, j as int) =~= views(stack@).subrange(k as int, j - 1).push(
                    views(stack@)[j - 1],
                ));
            }
            names.push(owned(name));
            let path = join_strings(names.as_slice(), " -> ");
            proof {
                let p = views(names@);
                let st = views(stack@);
                assert(p =~= st.subrange(k as int, st.len() as int).push(name@));
                assert forall|i: int| 0 <= i < p.len() - 1 implies #[trigger] depends(e, p[i], p[i + 1]) by {
                    if i < p.len() - 2 {
                        assert(depends(e, st[k + i], st[k + i + 1]));
                    } else {
                        assert(p[i] == st.last());
                    }
                }
                assert(is_cycle(e, p));
                let q = st;
                assert(q.skip(k as int).push(q[k as int]) =~= p);
                assert(q.is_prefix_of(q));
                assert(stack_ok(e, q) && q[k as int] == name@);
            }
            return Err(Error::Cycle { path });
        },
        None => {},
    }
    let cond = match condition_map_get(by_name, name) {
        Some(c) => c,
        None => {
            let from = if stack.len() > 0 {
                owned(stack[stack.len() - 1].as_str())
            } else {
                owned(name)
            };
            return Err(Error::UnknownRef { name: owned(name), from });
        },
    };
    proof {
        let st = views(stack@).push(name@);
        assert forall|i: int| 0 <= i < st.len() implies is_key(e, #[trigger] st[i]) by {
            if i < st.len() - 1 {
                assert(is_key(e, views(stack@)[i]));
            }
        }
        assert(st.no_duplicates()) by {
            assert forall|i: int, j: int| 0 <= i < st.len() && 0 <= j < st.len() && i != j implies st[i] != st[j] by {
                if i == st.len() - 1 {
                    assert(views(stack@).contains(st[j]) || j == i);
                } else if j == st.len() - 1 {
                    assert(views(stack@).contains(st[i]));
                }
            }
        }
        lemma_distinct_keys_bound(e, st);
    }
    let ghost v0 = validated@;
    stack.push(owned(name));
    proof {
        let st = views(stack@);
        let old_st = views(old(stack)@);
        assert(st =~= old_st.push(name@));
        assert forall|i: int| 0 <= i < st.len() - 1 implies #[trigger] depends(e, st[i], st[i + 1]) by {
            if i < st.len() - 2 {
                assert(depends(e, old_st[i], old_st[i + 1]));
            }
        }
        assert forall|i: int| 0 <= i < st.len() implies is_key(e, #[trigger] st[i]) by {
            if i < st.len() - 1 {
                assert(is_key(e, old_st[i]));
            }
        }
        assert(st.no_duplicates()) by {
            assert forall|i: int, j: int| 0 <= i < st.len() && 0 <= j < st.len() && i != j implies st[i] != st[j] by {
                if i == st.len() - 1 {
                    assert(old_st.contains(st[j]) || j == i);
                } else if j == st.len() - 1 {
                    assert(old_st.contains(st[i]));
                }
            }
        }
        assert forall|x: Seq<char>| #[trigger] views(validated@).contains(x) implies !st.contains(x) by {
            if st.contains(x) {
                let i = choose|i: int| 0 <= i < st.len() && st[i] == x;
                if i < st.len() - 1 {
                    assert(old_st.contains(x));
                }
            }
        }
        assert(stack@.last()@ == name@);
    }
    let ghost pushed = stack@;
    match walk_condition(cond, by_name, stack, validated) {
        Ok(()) => {},
        Err(err) => {
            proof {
                assert(views(pushed) =~= views(old(stack)@).push(name@));
                lemma_cycle_from_shorter(e, views(old(stack)@), name@, err);
            }
            return Err(err);
        },
    }
    let ghost v1 = validated@;
    let ghost s1 = stack@;
    stack.pop();
    validated.push(owned(name));
    proof {
        let v = views(validated@);
        let vv1 = views(v1);
        assert(v =~= vv1.push(name@));
        assert(stack@ =~= old(stack)@);
        assert(views(s1) =~= views(old(stack)@).push(name@));
        assert(views(s1)[s1.len() - 1] == name@);
        assert(views(s1).contains(name@));
        assert(!vv1.contains(name@));
        assert(v.no_duplicates()) by {
            assert forall|i: int, j: int| 0 <= i < v.len() && 0 <= j < v.len() && i != j implies v[i] != v[j] by {
                if i == v.len() - 1 {
                    assert(vv1.contains(v[j]) || j == i);
                } else if j == v.len() - 1 {
                    assert(vv1.contains(v[i]));
                }
            }
        }
        assert forall|i: int| 0 <= i < v.len() implies is_key(e, #[trigger] v[i]) by {
            if i < v.len() - 1 {
                assert(is_key(e, vv1[i]));
            }
        }
        assert forall|i: int, b: Seq<char>| 0 <= i < v.len() && #[trigger] depends(e, v[i], b) implies v.take(i).contains(b) by {
            if i < v.len() - 1 {
                assert(depends(e, vv1[i], b));
                assert(v.take(i) =~= vv1.take(i));
            } else {
                assert(v.take(i) =~= vv1);
                assert(cond_refers(*cond, b));
            }
        }
        assert(old(validated)@.is_prefix_of(validated@)) by {
            assert(old(validated)@.is_prefix_of(v1));
        }
        assert forall|x: Seq<char>| #[trigger] v.contains(x) implies !views(stack@).contains(x) by {
            if x != name@ {
                let i = choose|i: int| 0 <= i < v.len() && v[i] == x;
                assert(vv1[i] == x);
                assert(vv1.contains(x));
                if views(stack@).contains(x) {
                    let j = choose|j: int| 0 <= j < views(stack@).len() && views(stack@)[j] == x;
                    assert(views(s1)[j] == x);
                    assert(views(s1).contains(x));
                }
            }
        }
        assert(v[v.len() - 1] == name@);
    }
    Ok(())
}


/// Check the names inside `c`, a part of the entry on top of `stack`.
fn walk_condition(
    c: &Condition,
    by_name: &IndexMap<String, Condition>,
    stack: &mut Vec<String>,
    validated: &mut Vec<String>,
) -> (r: Result<(), Error>)
    requires
        stack_ok(condition_entries(*by_name), views(old(stack)@)),
        validated_ok(condition_entries(*by_name), views(old(validated)@)),
        apart(views(old(validated)@), views(old(stack)@)),
        old(stack)@.len() > 0,
        forall|n: Seq<char>| #[trigger] cond_refers(*c, n) ==> depends(condition_entries(*by_name), old(stack)@.last()@, n),
    ensures
        r matches Err(err) ==> compile_error_shows(condition_entries(*by_name), err),
        r matches Err(err) ==> cycle_from(condition_entries(*by_name), views(old(stack)@), Seq::empty(), err),
        r is Ok ==> {
            &&& final(stack)@ == old(stack)@
            &&& old(validated)@.is_prefix_of(final(validated)@)
            &&& validated_ok(condition_entries(*by_name), views(final(validated)@))
            &&& apart(views(final(validated)@), views(final(stack)@))
            &&& forall|n: Seq<char>| #[trigger] cond_refers(*c, n) ==> views(final(validated)@).contains(n)
        },
    decreases condition_entries(*by_name).len() - old(stack)@.len(), 1int, *c,
{
    let ghost e = condition_entries(*by_name);
    match c {
        Condition::All { all } => {
            proof {
                assert forall|i: int, n: Seq<char>| 0 <= i < all@.len() && #[trigger] cor_refers(all@[i], n)
                    implies depends(e, old(stack)@.last()@, n) by {
                    lemma_list_refers(all@, n);
                    assert(cond_refers(*c, n));
                }
            }
            let r = walk_list(all, by_name, stack, validated);
            proof {
                if r is Ok {
                    assert forall|n: Seq<char>| #[trigger] cond_refers(*c, n) implies views(validated@).contains(n) by {
                        lemma_list_refers(all@, n);
                        let i = choose|i: int| 0 <= i < all@.len() && #[trigger] cor_refers(all@[i], n);
                    }
                }
            }
            r
        },
        Condition::Any { any } => {
            proof {
                assert forall|i: int, n: Seq<char>| 0 <= i < any@.len() && #[trigger] cor_refers(any@[i], n)
                    implies depends(e, old(stack)@.last()@, n) by {
                    lemma_list_refers(any@, n);
                    assert(cond_refers(*c, n));
                }
            }
            let r = walk_list(any, by_name, stack, validated);
            proof {
                if r is Ok {
                    assert forall|n: Seq<char>| #[trigger] cond_refers(*c, n) implies views(validated@).contains(n) by {
                        lemma_list_refers(any@, n);
                        let i = choose|i: int| 0 <= i < any@.len() && #[trigger] cor_refers(any@[i], n);
                    }
                }
            }
            r
        },
        Condition::Not { not } => {
            proof {
                assert forall|n: Seq<char>| #[trigger] cor_refers(**not, n) implies depends(e, old(stack)@.last()@, n) by {
                    assert(cond_refers(*c, n));
                }
            }
            let r = walk_or_ref(&**not, by_name, stack, validated);
            proof {
                if r is Ok {
                    assert forall|n: Seq<char>| #[trigger] cond_refers(*c, n) implies views(validated@).contains(n) by {
                        assert(cor_refers(**not, n));
                    }
                }
            }
            r
        },
        _ => Ok(()),
    }
}

/// Check the names inside each of `list`, the children of a part of the
/// entry on top of `stack`.
fn walk_list(
    list: &Vec<ConditionOrRef>,
    by_name: &IndexMap<String, Condition>,
    stack: &mut Vec<String>,
    validated: &mut Vec<String>,
) -> (r: Result<(), Error>)
    requires
        stack_ok(condition_entries(*by_name), views(old(stack)@)),
        validated_ok(condition_entries(*by_name), views(old(validated)@)),
        apart(views(old(validated)@), views(old(stack)@)),
        old(stack)@.len() > 0,
        forall|i: int, n: Seq<char>| 0 <= i < list@.len() && #[trigger] cor_refers(list@[i], n)
            ==> depends(condition_entries(*by_name), old(stack)@.last()@, n),
    ensures
        r matches Err(err) ==> compile_error_shows(condition_entries(*by_name), err),
        r matches Err(err) ==> cycle_from(condition_entries(*by_name), views(old(stack)@), Seq::empty(), err),
        r is Ok ==> {
            &&& final(stack)@ == old(stack)@
            &&& old(validated)@.is_prefix_of(final(validated)@)
            &&& validated_ok(condition_entries(*by_name), views(final(validated)@))
            &&& apart(views(final(validated)@), views(final(stack)@))
            &&& forall|i: int, n: Seq<char>| 0 <= i < list@.len() && #[trigger] cor_refers(list@[i], n)
                ==> views(final(validated)@).contains(n)
        },
    decreases condition_entries(*by_name).len() - old(stack)@.len(), 1int, *list,
{
    let ghost e = condition_entries(*by_name);
    let ghost s0 = stack@;
    let ghost v0 = validated@;
    let mut i: usize = 0;
    while i < list.len()
        invariant
            e == condition_entries(*by_name),
            i <= list@.len(),
            stack@ == s0,
            s0 == old(stack)@,
            v0 == old(validated)@,
            s0.len() > 0,
            stack_ok(e, views(s0)),
            v0.is_prefix_of(validated@),
            validated_ok(e, views(validated@)),
            apart(views(validated@), views(s0)),
            forall|j: int, n: Seq<char>| 0 <= j < list@.len() && #[trigger] cor_refers(list@[j], n)
                ==> depends(e, s0.last()@, n),
            forall|j: int, n: Seq<char>| 0 <= j < i && #[trigger] cor_refers(list@[j], n)
                ==> views(validated@).contains(n),
        decreases list@.len() - i,
    {
        let ghost vb = validated@;
        proof {
            assert forall|n: Seq<char>| #[trigger] cor_refers(list@[i as int], n) implies depends(e, s0.last()@, n) by {
                assert(cor_refers(list@[i as int], n));
            }
        }
        match walk_or_ref(&list[i], by_name, stack, validated) {
            Ok(()) => {},
            Err(err) => {
                return Err(err);
            },
        }
        proof {
            assert forall|j: int, n: Seq<char>| 0 <= j < i + 1 && #[trigger] cor_refers(list@[j], n)
                implies views(validated@).contains(n) by {
                if j < i {
                    assert(views(vb).contains(n));
                    let k = choose|k: int| 0 <= k < views(vb).len() && views(vb)[k] == n;
                    assert(views(validated@)[k] == n);
                }
            }
            assert(v0.is_prefix_of(validated@)) by {
                assert(vb.is_prefix_of(validated@));
            }
        }
        i = i + 1;
    }
    Ok(())
}

/// Check a child: follow a reference, or look inside an inline condition.
fn walk_or_ref(
    cor: &ConditionOrRef,
    by_name: &IndexMap<String, Condition>,
    stack: &mut Vec<String>,
    validated: &mut Vec<String>,
) -> (r: Result<(), Error>)
    requires
        stack_ok(condition_entries(*by_name), views(old(stack)@)),
        validated_ok(condition_entries(*by_name), views(old(validated)@)),
        apart(views(old(validated)@), views(old(stack)@)),
        old(stack)@.len() > 0,
        forall|n: Seq<char>| #[trigger] cor_refers(*cor, n) ==> depends(condition_entries(*by_name), old(stack)@.last()@, n),
    ensures
        r matches Err(err) ==> compile_error_shows(condition_entries(*by_name), err),
        r matches Err(err) ==> cycle_from(condition_entries(*by_name), views(old(stack)@), Seq::empty(), err),
        r is Ok ==> {
            &&& final(stack)@ == old(stack)@
            &&& old(validated)@.is_prefix_of(final(validated)@)
            &&& validated_ok(condition_entries(*by_name), views(final(validated)@))
            &&& apart(views(final(validated)@), views(final(stack)@))
            &&& forall|n: Seq<char>| #[trigger] cor_refers(*cor, n) ==> views(final(validated)@).contains(n)
        },
    decreases condition_entries(*by_name).len() - old(stack)@.len(), 1int, *cor,
{
    match cor {
        ConditionOrRef::Ref(name) => {
            proof {
                assert(cor_refers(*cor, name@));
            }
            let r = walk(name.as_str(), by_name, stack, validated);
            proof {
                if r is Ok {
                    assert forall|n: Seq<char>| #[trigger] cor_refers(*cor, n) implies views(validated@).contains(n) by {
                        assert(n == name@);
                    }
                }
            }
            r
        },
        ConditionOrRef::Inline(c) => {
            proof {
                assert forall|n: Seq<char>| #[trigger] cond_refers(*c, n) implies depends(
                    condition_entries(*by_name),
                    old(stack)@.last()@,
                    n,
                ) by {
                    assert(cor_refers(*cor, n));
                }
            }
            let r = walk_condition(c, by_name, stack, validated);
            proof {
                if r is Ok {
                    assert forall|n: Seq<char>| #[trigger] cor_refers(*cor, n) implies views(validated@).contains(n) by {
                        assert(cond_refers(*c, n));
                    }
                }
            }
            r
        },
    }
}



impl Conditions {
    #[verifier::type_invariant]
    closed spec fn sound(self) -> bool {
        registry_sound(condition_entries(self.by_name))
    }

    /// Check a registry: every name reachable from an entry resolves and no
    /// chain of references returns to its start. Entries are checked in
    /// order; the first problem found is reported.
    pub fn compile(by_name: IndexMap<String, Condition>) -> (r: Result<Conditions, Error>)
        ensures
            r is Ok <==> registry_sound(condition_entries(by_name)),
            r matches Ok(c) ==> c@ == condition_entries(by_name),
            r matches Err(err) ==> compile_error_shows(condition_entries(by_name), err),
            r matches Err(err) ==> compile_cycle(condition_entries(by_name), err),
    {
        let ghost e = condition_entries(by_name);
        let mut validated: Vec<String> = Vec::new();
        let n = condition_map_len(&by_name);
        let mut i: usize = 0;
        while i < n
            invariant
                e == condition_entries(by_name),
                n == e.len(),
                i <= n,
                validated_ok(e, views(validated@)),
                forall|j: int| 0 <= j < i ==> views(validated@).contains(#[trigger] e[j].0),
            decreases n - i,
        {
            let name = condition_map_key(&by_name, i);
            let mut stack: Vec<String> = Vec::new();
            let ghost v0 = validated@;
            proof {
                lemma_entry_index_bounds(e, name@);
                assert(views(stack@) =~= Seq::<Seq<char>>::empty());
            }
            match walk(name.as_str(), &by_name, &mut stack, &mut validated) {
                Ok(()) => {},
                Err(err) => {
                    proof {
                        lemma_compile_error_unsound(e, err);
                        assert(validated_ok(e, views(v0)));
                        assert(walked_before(e, i as int));
                        assert(e[i as int].0 == name@) by {
                            lemma_entry_index_bounds(e, name@);
                        }
                    }
                    return Err(err);
                },
            }
            proof {
                assert forall|j: int| 0 <= j < i + 1 implies views(validated@).contains(#[trigger] e[j].0) by {
                    if j < i {
                        let k = choose|k: int| 0 <= k < views(v0).len() && views(v0)[k] == e[j].0;
                        assert(views(validated@)[k] == e[j].0);
                    }
                }
            }
            i = i + 1;
        }
        proof {
            lemma_all_validated_sound(e, views(validated@));
        }
        Ok(Conditions { by_name })
    }

    /// The entry named `name`.
    pub fn get(&self, name: &str) -> (r: Option<&Condition>)
        ensures
            match r {
                Some(c) => entry_index(self@, name@) matches Some(i) && *c == self@[i].1,
                None => entry_index(self@, name@) is None,
            },
    {
        condition_map_get(&self.by_name, name)
    }
}

/// An error out of the reference check shows the registry unsound.
proof fn lemma_compile_error_unsound(e: Seq<(Seq<char>, Condition)>, err: Error)
    requires
        compile_error_shows(e, err),
    ensures
        !registry_sound(e),
{
    if registry_sound(e) {
        match err {
            Error::UnknownRef { name, from } => {
                assert(depends(e, from@, name@));
            },
            Error::Cycle { path } => {
                let p = choose|p: Seq<Seq<char>>| is_cycle(e, p) && path@ == seq_join(p, " -> "@);
                lemma_sound_registry_has_no_cycle(e, p);
            },
            _ => {},
        }
    }
}

/// When every entry has been checked, the order of checking ranks the
/// registry.
proof fn lemma_all_validated_sound(e: Seq<(Seq<char>, Condition)>, v: Seq<Seq<char>>)
    requires
        validated_ok(e, v),
        forall|j: int| 0 <= j < e.len() ==> v.contains(#[trigger] e[j].0),
    ensures
        registry_sound(e),
{
    let rank = |x: Seq<char>| v.index_of(x) as nat;
    assert forall|a: Seq<char>| v.contains(a) implies 0 <= #[trigger] v.index_of(a) < v.len() && v[v.index_of(a)] == a by {
    }
    assert forall|a: Seq<char>| #[trigger] is_key(e, a) implies v.contains(a) by {
        lemma_entry_index_bounds(e, a);
        let j = entry_index(e, a)->0;
        assert(v.contains(e[j].0));
    }
    lemma_distinct_keys_bound(e, v);
    assert forall|a: Seq<char>, b: Seq<char>| #[trigger] depends(e, a, b) implies is_key(e, b) && rank(b) < rank(a) by {
        let i = v.index_of(a);
        assert(depends(e, v[i], b));
        assert(v.take(i).contains(b));
        let k = choose|k: int| 0 <= k < v.take(i).len() && v.take(i)[k] == b;
        assert(v[k] == b);
        assert(v.contains(b));
        assert(v[v.index_of(b)] == b);
        assert(is_key(e, v[k]));
    }
    assert(ranked_by(e, rank));
}


// ---------- evaluation ----------

/// What probing the filesystem said about one path: whether it exists, or
/// why that could not be told.
#[derive(Debug, PartialEq)]
pub struct FileProbe {
    pub path: String,
    pub exists: Result<bool, String>,
}

/// The host facts a condition is evaluated against. `probes` holds the
/// answers gathered so far to `file_exists` checks.
pub struct HostContext<'a> {
    pub os: Os,
    pub shell: Option<Shell>,
    pub hostname: &'a str,
    pub home: &'a str,
    pub system_inputs: &'a IndexMap<String, String>,
    pub probes: &'a [FileProbe],
}

/// A finished evaluation, or the path whose existence must be probed
/// before it can go on.
#[derive(Debug, Clone, PartialEq)]
pub enum Evaluation {
    Value(bool),
    NeedsProbe(String),
}

/// The outcome of an evaluation, at the level of specifications.
pub ghost enum Verdict {
    Holds(bool),
    Probe(Seq<char>),
    UnknownRef(Seq<char>, Seq<char>),
    Cycle(Seq<char>),
    Expand(ExpandFault),
    ExistsFailed(Seq<char>, Seq<char>),
}

/// The verdict an evaluation's result stands for.
pub open spec fn verdict_of(r: Result<Evaluation, Error>) -> Verdict {
    match r {
        Ok(Evaluation::Value(b)) => Verdict::Holds(b),
        Ok(Evaluation::NeedsProbe(p)) => Verdict::Probe(p@),
        Err(Error::UnknownRef { name, from }) => Verdict::UnknownRef(name@, from@),
        Err(Error::Cycle { path }) => Verdict::Cycle(path@),
        Err(Error::Expand(err)) => Verdict::Expand(err.fault()),
        Err(Error::ExistsFailed(p, m)) => Verdict::ExistsFailed(p@, m@),
    }
}

/// Position of the first answer about `path`.
pub open spec fn probe_index(probes: Seq<FileProbe>, path: Seq<char>) -> Option<int>
    decreases probes.len(),
{
    if probes.len() == 0 {
        None
    } else if probes[0].path@ == path {
        Some(0)
    } else {
        match probe_index(probes.drop_first(), path) {
            Some(i) => Some(i + 1),
            None => None,
        }
    }
}

proof fn lemma_probe_index(probes: Seq<FileProbe>, path: Seq<char>, i: int)
    requires
        0 <= i <= probes.len(),
        forall|j: int| 0 <= j < i ==> probes[j].path@ != path,
    ensures
        i < probes.len() && probes[i].path@ == path ==> probe_index(probes, path) == Some(i),
        i == probes.len() ==> probe_index(probes, path) is None,
    decreases i,
{
    if i > 0 {
        lemma_probe_index(probes.drop_first(), path, i - 1);
    }
}

/// A `file_exists` check: expand the template against the system inputs,
/// put the home directory in place of the first `~`, and take the answer
/// probed for that path.
pub open spec fn file_verdict(template: ExpandStr, ctx: &HostContext) -> Verdict {
    match template.expansion(ctx.system_inputs) {
        Err(f) => Verdict::Expand(f),
        Ok(s) => {
            let path = replace_first(s, '~', ctx.home@);
            match probe_index(ctx.probes@, path) {
                None => Verdict::Probe(path),
                Some(i) => match ctx.probes@[i].exists {
                    Ok(b) => Verdict::Holds(b),
                    Err(m) => Verdict::ExistsFailed(path, m@),
                },
            }
        },
    }
}

/// Evaluate a reference or inline condition, following references at most
/// `fuel` deep.
pub open spec fn eval_cor(e: Seq<(Seq<char>, Condition)>, r: ConditionOrRef, ctx: &HostContext, fuel: nat) -> Verdict
    decreases fuel, r,
{
    match r {
        ConditionOrRef::Ref(name) => match entry_index(e, name@) {
            None => Verdict::UnknownRef(name@, "<runtime>"@),
            Some(i) => if fuel == 0 {
                Verdict::Holds(false)
            } else {
                eval_cond(e, e[i].1, ctx, (fuel - 1) as nat)
            },
        },
        ConditionOrRef::Inline(c) => eval_cond(e, c, ctx, fuel),
    }
}

/// Evaluate a condition.
pub open spec fn eval_cond(e: Seq<(Seq<char>, Condition)>, c: Condition, ctx: &HostContext, fuel: nat) -> Verdict
    decreases fuel, c,
{
    match c {
        Condition::Os { os } => Verdict::Holds(os == ctx.os),
        Condition::Shell { shell } => Verdict::Holds(ctx.shell == Some(shell)),
        Condition::Hostname { hostname } => Verdict::Holds(regex_finds(hostname@, ctx.hostname@)),
        Condition::FileExists { file_exists } => file_verdict(file_exists, ctx),
        Condition::All { all } => eval_all(e, all@, ctx, fuel),
        Condition::Any { any } => eval_any(e, any@, ctx, fuel),
        Condition::Not { not } => match eval_cor(e, *not, ctx, fuel) {
            Verdict::Holds(b) => Verdict::Holds(!b),
            v => v,
        },
    }
}

/// All of `list` hold: children are evaluated in order and the first that
/// does not hold (or fails, or needs a probe) decides.
pub open spec fn eval_all(e: Seq<(Seq<char>, Condition)>, list: Seq<ConditionOrRef>, ctx: &HostContext, fuel: nat) -> Verdict
    decreases fuel, list,
{
    if list.len() == 0 {
        Verdict::Holds(true)
    } else {
        match eval_cor(e, list[0], ctx, fuel) {
            Verdict::Holds(true) => eval_all(e, list.subrange(1, list.len() as int), ctx, fuel),
            v => v,
        }
    }
}

/// One of `list` holds: children are evaluated in order and the first that
/// holds (or fails, or needs a probe) decides.
pub open spec fn eval_any(e: Seq<(Seq<char>, Condition)>, list: Seq<ConditionOrRef>, ctx: &HostContext, fuel: nat) -> Verdict
    decreases fuel, list,
{
    if list.len() == 0 {
        Verdict::Holds(false)
    } else {
        match eval_cor(e, list[0], ctx, fuel) {
            Verdict::Holds(false) => eval_any(e, list.subrange(1, list.len() as int), ctx, fuel),
            v => v,
        }
    }
}

/// `all` is the conjunction of its children, left to right: when the
/// first `k` children hold and child `k` is the first that does not (or
/// fails, or needs a probe), child `k` decides; when all hold, so does
/// `all`.
pub proof fn lemma_all_is_conjunction(
    e: Seq<(Seq<char>, Condition)>,
    cs: Seq<ConditionOrRef>,
    ctx: &HostContext,
    fuel: nat,
    k: int,
)
    requires
        0 <= k <= cs.len(),
        forall|i: int| 0 <= i < k ==> eval_cor(e, #[trigger] cs[i], ctx, fuel) == Verdict::Holds(true),
        k < cs.len() ==> eval_cor(e, cs[k], ctx, fuel) != Verdict::Holds(true),
    ensures
        eval_all(e, cs, ctx, fuel) == if k == cs.len() {
            Verdict::Holds(true)
        } else {
            eval_cor(e, cs[k], ctx, fuel)
        },
    decreases cs.len(),
{
    if cs.len() > 0 && k > 0 {
        let rest = cs.subrange(1, cs.len() as int);
        assert forall|i: int| 0 <= i < k - 1 implies eval_cor(e, #[trigger] rest[i], ctx, fuel) == Verdict::Holds(
            true,
        ) by {
            assert(rest[i] == cs[i + 1]);
        }
        if k < cs.len() {
            assert(rest[k - 1] == cs[k]);
        }
        assert(eval_cor(e, cs[0], ctx, fuel) == Verdict::Holds(true));
        lemma_all_is_conjunction(e, rest, ctx, fuel, k - 1);
    }
}

/// `any` is the disjunction of its children, left to right: when the
/// first `k` children do not hold and child `k` is the first that does (or
/// fails, or needs a probe), child `k` decides; when none holds, neither
/// does `any`.
pub proof fn lemma_any_is_disjunction(
    e: Seq<(Seq<char>, Condition)>,
    cs: Seq<ConditionOrRef>,
    ctx: &HostContext,
    fuel: nat,
    k: int,
)
    requires
        0 <= k <= cs.len(),
        forall|i: int| 0 <= i < k ==> eval_cor(e, #[trigger] cs[i], ctx, fuel) == Verdict::Holds(false),
        k < cs.len() ==> eval_cor(e, cs[k], ctx, fuel) != Verdict::Holds(false),
    ensures
        eval_any(e, cs, ctx, fuel) == if k == cs.len() {
            Verdict::Holds(false)
        } else {
            eval_cor(e, cs[k], ctx, fuel)
        },
    decreases cs.len(),
{
    if cs.len() > 0 && k > 0 {
        let rest = cs.subrange(1, cs.len() as int);
        assert forall|i: int| 0 <= i < k - 1 implies eval_cor(e, #[trigger] rest[i], ctx, fuel) == Verdict::Holds(
            false,
        ) by {
            assert(rest[i] == cs[i + 1]);
        }
        if k < cs.len() {
            assert(rest[k - 1] == cs[k]);
        }
        assert(eval_cor(e, cs[0], ctx, fuel) == Verdict::Holds(false));
        lemma_any_is_disjunction(e, rest, ctx, fuel, k - 1);
    }
}

/// The combinators as [`Conditions::evaluate`] applies them: an inline
/// `all` or `any` is decided by its children as above, `not` negates a
/// verdict that holds or not and passes any other through, and a gate on
/// the OS or shell compares with the host.
pub proof fn lemma_evaluate_combinators(
    e: Seq<(Seq<char>, Condition)>,
    c: ConditionOrRef,
    ctx: &HostContext,
    fuel: nat,
)
    ensures
        c matches ConditionOrRef::Inline(Condition::All { all }) ==> eval_cor(e, c, ctx, fuel) == eval_all(
            e,
            all@,
            ctx,
            fuel,
        ),
        c matches ConditionOrRef::Inline(Condition::Any { any }) ==> eval_cor(e, c, ctx, fuel) == eval_any(
            e,
            any@,
            ctx,
            fuel,
        ),
        c matches ConditionOrRef::Inline(Condition::Not { not }) ==> eval_cor(e, c, ctx, fuel) == match eval_cor(
            e,
            *not,
            ctx,
            fuel,
        ) {
            Verdict::Holds(b) => Verdict::Holds(!b),
            v => v,
        },
        c matches ConditionOrRef::Inline(Condition::Os { os }) ==> eval_cor(e, c, ctx, fuel) == Verdict::Holds(
            os == ctx.os,
        ),
        c matches ConditionOrRef::Inline(Condition::Shell { shell }) ==> eval_cor(e, c, ctx, fuel)
            == Verdict::Holds(ctx.shell == Some(shell)),
        c matches ConditionOrRef::Ref(n) ==> (entry_index(e, n@) is None ==> eval_cor(e, c, ctx, fuel)
            == Verdict::UnknownRef(n@, "<runtime>"@)),
        c matches ConditionOrRef::Ref(n) ==> (entry_index(e, n@) is Some && fuel > 0 ==> eval_cor(e, c, ctx, fuel)
            == eval_cond(e, e[entry_index(e, n@)->0].1, ctx, (fuel - 1) as nat)),
{
}

proof fn lemma_fuel_cond(
    e: Seq<(Seq<char>, Condition)>,
    rank: spec_fn(Seq<char>) -> nat,
    c: Condition,
    ctx: &HostContext,
    f1: nat,
    f2: nat,
)
    requires
        ranked_by(e, rank),
        f1 <= f2,
        forall|n: Seq<char>| #[trigger] cond_refers(c, n) && is_key(e, n) ==> rank(n) < f1,
    ensures
        eval_cond(e, c, ctx, f1) == eval_cond(e, c, ctx, f2),
    decreases f1, c, 1int,
{
    match c {
        Condition::All { all } => {
            assert forall|n: Seq<char>| #[trigger] list_refers(all@, n) && is_key(e, n) implies rank(n) < f1 by {
                assert(cond_refers(c, n));
            }
            lemma_fuel_list(e, rank, all@, ctx, f1, f2);
        },
        Condition::Any { any } => {
            assert forall|n: Seq<char>| #[trigger] list_refers(any@, n) && is_key(e, n) implies rank(n) < f1 by {
                assert(cond_refers(c, n));
            }
            lemma_fuel_list(e, rank, any@, ctx, f1, f2);
        },
        Condition::Not { not } => {
            assert forall|n: Seq<char>| #[trigger] cor_refers(*not, n) && is_key(e, n) implies rank(n) < f1 by {
                assert(cond_refers(c, n));
            }
            lemma_fuel_cor(e, rank, *not, ctx, f1, f2);
        },
        _ => {},
    }
}

proof fn lemma_fuel_cor(
    e: Seq<(Seq<char>, Condition)>,
    rank: spec_fn(Seq<char>) -> nat,
    r: ConditionOrRef,
    ctx: &HostContext,
    f1: nat,
    f2: nat,
)
    requires
        ranked_by(e, rank),
        f1 <= f2,
        forall|n: Seq<char>| #[trigger] cor_refers(r, n) && is_key(e, n) ==> rank(n) < f1,
    ensures
        eval_cor(e, r, ctx, f1) == eval_cor(e, r, ctx, f2),
    decreases f1, r, 0int,
{
    match r {
        ConditionOrRef::Ref(name) => {
            assert(cor_refers(r, name@));
            match entry_index(e, name@) {
                Some(i) => {
                    assert(is_key(e, name@));
                    lemma_entry_index_bounds(e, name@);
                    assert(def_of(e, name@) == e[i].1);
                    assert forall|m: Seq<char>| #[trigger] cond_refers(e[i].1, m) && is_key(e, m) implies rank(m) < (
                    f1 - 1) as nat by {
                        assert(depends(e, name@, m));
                    }
                    lemma_fuel_cond(e, rank, e[i].1, ctx, (f1 - 1) as nat, (f2 - 1) as nat);
                },
                None => {},
            }
        },
        ConditionOrRef::Inline(c) => {
            assert forall|n: Seq<char>| #[trigger] cond_refers(c, n) && is_key(e, n) implies rank(n) < f1 by {
                assert(cor_refers(r, n));
            }
            lemma_fuel_cond(e, rank, c, ctx, f1, f2);
        },
    }
}

proof fn lemma_fuel_list(
    e: Seq<(Seq<char>, Condition)>,
    rank: spec_fn(Seq<char>) -> nat,
    list: Seq<ConditionOrRef>,
    ctx: &HostContext,
    f1: nat,
    f2: nat,
)
    requires
        ranked_by(e, rank),
        f1 <= f2,
        forall|n: Seq<char>| #[trigger] list_refers(list, n) && is_key(e, n) ==> rank(n) < f1,
    ensures
        eval_all(e, list, ctx, f1) == eval_all(e, list, ctx, f2),
        eval_any(e, list, ctx, f1) == eval_any(e, list, ctx, f2),
    decreases f1, list, 2int,
{
    if list.len() > 0 {
        let rest = list.subrange(1, list.len() as int);
        assert forall|n: Seq<char>| #[trigger] cor_refers(list[0], n) && is_key(e, n) implies rank(n) < f1 by {
            assert(list_refers(list, n));
        }
        assert forall|n: Seq<char>| #[trigger] list_refers(rest, n) && is_key(e, n) implies rank(n) < f1 by {
            assert(list_refers(list, n));
        }
        lemma_fuel_cor(e, rank, list[0], ctx, f1, f2);
        lemma_fuel_list(e, rank, rest, ctx, f1, f2);
    }
}

/// In a checked registry a reference evaluates as the condition it names,
/// written inline: `Ref(n)` and `Inline(by_name[n])` give the same
/// verdict at the fuel [`Conditions::evaluate`] uses.
pub proof fn lemma_evaluate_ref_is_inline(e: Seq<(Seq<char>, Condition)>, r: ConditionOrRef, ctx: &HostContext)
    requires
        registry_sound(e),
        r matches ConditionOrRef::Ref(n) && is_key(e, n@),
    ensures
        r matches ConditionOrRef::Ref(n) && eval_cor(e, r, ctx, e.len()) == eval_cor(
            e,
            ConditionOrRef::Inline(def_of(e, n@)),
            ctx,
            e.len(),
        ),
{
    let rank = choose|rank: spec_fn(Seq<char>) -> nat| ranked_by(e, rank);
    match r {
        ConditionOrRef::Ref(n) => {
            let i = entry_index(e, n@)->0;
            lemma_entry_index_bounds(e, n@);
            assert(def_of(e, n@) == e[i].1);
            assert(rank(n@) < e.len());
            assert forall|m: Seq<char>| #[trigger] cond_refers(e[i].1, m) && is_key(e, m) implies rank(m) < (e.len()
                - 1) as nat by {
                assert(depends(e, n@, m));
            }
            lemma_fuel_cond(e, rank, e[i].1, ctx, (e.len() - 1) as nat, e.len());
        },
        _ => {},
    }
}

/// Position of the first answer about `path` in `probes`.
fn find_probe(probes: &[FileProbe], path: &str) -> (r: Option<usize>)
    ensures
        match r {
            Some(i) => i < probes@.len() && probe_index(probes@, path@) == Some(i as int),
            None => probe_index(probes@, path@) is None,
        },
{
    let mut i: usize = 0;
    while i < probes.len()
        invariant
            i <= probes@.len(),
            forall|j: int| 0 <= j < i ==> probes@[j].path@ != path@,
        decreases probes@.len() - i,
    {
        if str_eq(probes[i].path.as_str(), path) {
            proof {
                lemma_probe_index(probes@, path@, i as int);
            }
            return Some(i);
        }
        i = i + 1;
    }
    proof {
        lemma_probe_index(probes@, path@, i as int);
    }
    None
}

/// Evaluate a `file_exists` check.
fn eval_file(file_exists: &ExpandStr, ctx: &HostContext) -> (r: Result<Evaluation, Error>)
    ensures
        verdict_of(r) == file_verdict(*file_exists, ctx),
        r matches Ok(Evaluation::NeedsProbe(p)) ==> probe_index(ctx.probes@, p@) is None,
{
    match file_exists.expand_to_string(ctx.system_inputs) {
        Err(err) => Err(Error::Expand(err)),
        Ok(expanded) => {
            let resolved = replace_first_char(expanded.as_str(), '~', ctx.home);
            match find_probe(ctx.probes, resolved.as_str()) {
                None => Ok(Evaluation::NeedsProbe(resolved)),
                Some(i) => match &ctx.probes[i].exists {
                    Ok(b) => Ok(Evaluation::Value(*b)),
                    Err(m) => Err(Error::ExistsFailed(resolved, owned(m.as_str()))),
                },
            }
        },
    }
}

/// Every entry `r` names ranks below `fuel`.
spec fn fuel_covers(e: Seq<(Seq<char>, Condition)>, rank: spec_fn(Seq<char>) -> nat, fuel: nat, refers: spec_fn(Seq<char>) -> bool) -> bool {
    forall|n: Seq<char>| #[trigger] refers(n) && is_key(e, n) ==> rank(n) < fuel
}

impl Conditions {
    /// Evaluate `cor` against the host. A reference must name an entry of
    /// the registry. When a `file_exists` check needs a path that `ctx`
    /// holds no answer for, evaluation stops and asks for that path to be
    /// probed; run it again once the answer is in `ctx.probes`.
    pub fn evaluate(&self, cor: &ConditionOrRef, ctx: &HostContext) -> (r: Result<Evaluation, Error>)
        ensures
            verdict_of(r) == eval_cor(self@, *cor, ctx, self@.len()),
            r matches Ok(Evaluation::NeedsProbe(p)) ==> probe_index(ctx.probes@, p@) is None,
    {
        proof {
            use_type_invariant(self);
        }
        let ghost rank = choose|rank: spec_fn(Seq<char>) -> nat| ranked_by(self@, rank);
        self.eval_or_ref(cor, ctx, Ghost(self@.len()), Ghost(rank))
    }

    fn eval_or_ref(
        &self,
        cor: &ConditionOrRef,
        ctx: &HostContext,
        Ghost(fuel): Ghost<nat>,
        Ghost(rank): Ghost<spec_fn(Seq<char>) -> nat>,
    ) -> (r: Result<Evaluation, Error>)
        requires
            ranked_by(self@, rank),
            forall|n: Seq<char>| #[trigger] cor_refers(*cor, n) && is_key(self@, n) ==> rank(n) < fuel,
        ensures
            verdict_of(r) == eval_cor(self@, *cor, ctx, fuel),
            r matches Ok(Evaluation::NeedsProbe(p)) ==> probe_index(ctx.probes@, p@) is None,
        decreases fuel, *cor,
    {
        match cor {
            ConditionOrRef::Ref(name) => {
                match self.get(name.as_str()) {
                    None => Err(Error::UnknownRef { name: owned(name.as_str()), from: owned("<runtime>") }),
                    Some(c) => {
                        proof {
                            assert(cor_refers(*cor, name@));
                            assert(is_key(self@, name@));
                            assert forall|m: Seq<char>| #[trigger] cond_refers(*c, m) && is_key(self@, m) implies rank(m) < fuel - 1 by {
                                assert(depends(self@, name@, m));
                            }
                        }
                        self.eval_condition(c, ctx, Ghost((fuel - 1) as nat), Ghost(rank))
                    },
                }
            },
            ConditionOrRef::Inline(c) => {
                proof {
                    assert forall|m: Seq<char>| #[trigger] cond_refers(*c, m) && is_key(self@, m) implies rank(m) < fuel by {
                        assert(cor_refers(*cor, m));
                    }
                }
                self.eval_condition(c, ctx, Ghost(fuel), Ghost(rank))
            },
        }
    }

    fn eval_condition(
        &self,
        c: &Condition,
        ctx: &HostContext,
        Ghost(fuel): Ghost<nat>,
        Ghost(rank): Ghost<spec_fn(Seq<char>) -> nat>,
    ) -> (r: Result<Evaluation, Error>)
        requires
            ranked_by(self@, rank),
            forall|n: Seq<char>| #[trigger] cond_refers(*c, n) && is_key(self@, n) ==> rank(n) < fuel,
        ensures
            verdict_of(r) == eval_cond(self@, *c, ctx, fuel),
            r matches Ok(Evaluation::NeedsProbe(p)) ==> probe_index(ctx.probes@, p@) is None,
        decreases fuel, *c,
    {
        match c {
            Condition::Os { os } => Ok(Evaluation::Value(*os == ctx.os)),
            Condition::Shell { shell } => {
                let b = match ctx.shell {
                    Some(s) => s == *shell,
                    None => false,
                };
                Ok(Evaluation::Value(b))
            },
            Condition::Hostname { hostname } => Ok(Evaluation::Value(hostname.is_match(ctx.hostname))),
            Condition::FileExists { file_exists } => eval_file(file_exists, ctx),
            Condition::All { all } => {
                proof {
                    assert forall|m: Seq<char>| #[trigger] list_refers(all@, m) && is_key(self@, m) implies rank(m) < fuel by {
                        assert(cond_refers(*c, m));
                    }
                }
                self.eval_list(all, true, ctx, Ghost(fuel), Ghost(rank))
            },
            Condition::Any { any } => {
                proof {
                    assert forall|m: Seq<char>| #[trigger] list_refers(any@, m) && is_key(self@, m) implies rank(m) < fuel by {
                        assert(cond_refers(*c, m));
                    }
                }
                self.eval_list(any, false, ctx, Ghost(fuel), Ghost(rank))
            },
            Condition::Not { not } => {
                proof {
                    assert forall|m: Seq<char>| #[trigger] cor_refers(**not, m) && is_key(self@, m) implies rank(m) < fuel by {
                        assert(cond_refers(*c, m));
                    }
                }
                match self.eval_or_ref(&**not, ctx, Ghost(fuel), Ghost(rank)) {
                    Ok(Evaluation::Value(b)) => Ok(Evaluation::Value(!b)),
                    other => other,
                }
            },
        }
    }

    /// `all` (when `every`) or `any` over `list`, stopping at the first
    /// child that decides.
    fn eval_list(
        &self,
        list: &Vec<ConditionOrRef>,
        every: bool,
        ctx: &HostContext,
        Ghost(fuel): Ghost<nat>,
        Ghost(rank): Ghost<spec_fn(Seq<char>) -> nat>,
    ) -> (r: Result<Evaluation, Error>)
        requires
            ranked_by(self@, rank),
            forall|n: Seq<char>| #[trigger] list_refers(list@, n) && is_key(self@, n) ==> rank(n) < fuel,
        ensures
            verdict_of(r) == (if every {
                eval_all(self@, list@, ctx, fuel)
            } else {
                eval_any(self@, list@, ctx, fuel)
            }),
            r matches Ok(Evaluation::NeedsProbe(p)) ==> probe_index(ctx.probes@, p@) is None,
        decreases fuel, *list,
    {
        let ghost e = self@;
        let ghost whole = if every {
            eval_all(e, list@, ctx, fuel)
        } else {
            eval_any(e, list@, ctx, fuel)
        };
        let mut i: usize = 0;
        assert(list@.subrange(0, list@.len() as int) =~= list@);
        while i < list.len()
            invariant
                e == self@,
                i <= list@.len(),
                ranked_by(e, rank),
                whole == (if every {
                    eval_all(e, list@, ctx, fuel)
                } else {
                    eval_any(e, list@, ctx, fuel)
                }),
                forall|n: Seq<char>| #[trigger] list_refers(list@, n) && is_key(e, n) ==> rank(n) < fuel,
                whole == (if every {
                    eval_all(e, list@.subrange(i as int, list@.len() as int), ctx, fuel)
                } else {
                    eval_any(e, list@.subrange(i as int, list@.len() as int), ctx, fuel)
                }),
            decreases list@.len() - i,
        {
            let ghost rest = list@.subrange(i as int, list@.len() as int);
            proof {
                assert(rest[0] == list@[i as int]);
                assert(rest.subrange(1, rest.len() as int) =~= list@.subrange(i + 1, list@.len() as int));
                assert forall|m: Seq<char>| #[trigger] cor_refers(list@[i as int], m) && is_key(e, m) implies rank(m) < fuel by {
                    lemma_list_refers(list@, m);
                }
            }
            let r = self.eval_or_ref(&list[i], ctx, Ghost(fuel), Ghost(rank));
            match r {
                Ok(Evaluation::Value(b)) => {
                    if b != every {
                        return Ok(Evaluation::Value(b));
                    }
                },
                _ => {
                    return r;
                },
            }
            i = i + 1;
        }
        assert(list@.subrange(i as int, list@.len() as int).len() == 0);
        Ok(Evaluation::Value(every))
    }
}

} // verus!

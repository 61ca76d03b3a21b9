//! Templates carrying `${name}` placeholders that are expanded against a
//! lookup before use.
//!
//! `${name}` is the only placeholder syntax and there is no escape
//! sequence. Every character outside a placeholder passes through
//! unchanged; a placeholder the lookup cannot resolve, or a `${` that is
//! never closed by `}`, makes the whole expansion fail.

use indexmap::IndexMap;
use std::collections::{BTreeMap, HashMap};
use vstd::prelude::*;

use crate::input_map::{entry_lookup, index_map_entries, input_map_get};
use crate::text::{owned, push_char, str_chars};

verus! {

/// Error returned from expanding an [`ExpandStr`].
#[derive(Debug, Clone, PartialEq, Eq)]
pub enum ExpandError {
    /// A `${name}` placeholder was not resolved by the lookup.
    Unresolved(String),
    /// A `${` sequence was never closed by `}`.
    Unterminated,
}

/// Why an expansion fails, at the level of specifications.
pub ghost enum ExpandFault {
    Unresolved(Seq<char>),
    Unterminated,
}

impl ExpandError {
    pub open spec fn fault(&self) -> ExpandFault {
        match self {
            ExpandError::Unresolved(n) => ExpandFault::Unresolved(n@),
            ExpandError::Unterminated => ExpandFault::Unterminated,
        }
    }
}

/// Error returned from [`ExpandLookup::write_value`].
#[derive(Debug, Clone, PartialEq, Eq)]
pub enum ExpandLookupError<'a> {
    /// `name` is not known to this lookup.
    Unresolved(&'a str),
}

/// Resolves `${name}` placeholders to their values.
pub trait ExpandLookup {
    /// The value this lookup holds for `name`, if any.
    spec fn resolve(&self, name: Seq<char>) -> Option<Seq<char>>;

    /// Append the value of `name` to `f`, or report it unresolved without
    /// writing anything.
    fn write_value<'a>(&self, name: &'a str, f: &mut String) -> (r: Result<(), ExpandLookupError<'a>>)
        ensures
            match self.resolve(name@) {
                Some(v) => r is Ok && final(f)@ == old(f)@ + v,
                None => r == Err::<(), ExpandLookupError<'a>>(ExpandLookupError::Unresolved(name))
                    && final(f)@ == old(f)@,
            },
    ;
}

impl ExpandLookup for IndexMap<String, String> {
    open spec fn resolve(&self, name: Seq<char>) -> Option<Seq<char>> {
        entry_lookup(index_map_entries(*self), name)
    }

    fn write_value<'a>(&self, name: &'a str, f: &mut String) -> (r: Result<(), ExpandLookupError<'a>>) {
        match input_map_get(self, name) {
            Some(value) => {
                f.append(value.as_str());
                Ok(())
            },
            None => Err(ExpandLookupError::Unresolved(name)),
        }
    }
}

/// What a `BTreeMap` of strings holds.
pub uninterp spec fn btree_contents(m: BTreeMap<String, String>) -> Map<Seq<char>, Seq<char>>;

/// `BTreeMap::get` with a `&str` key.
#[verifier::external_body]
fn btree_get<'a>(m: &'a BTreeMap<String, String>, k: &str) -> (r: Option<&'a String>)
    ensures
        match r {
            Some(v) => btree_contents(*m).dom().contains(k@) && btree_contents(*m)[k@] == v@,
            None => !btree_contents(*m).dom().contains(k@),
        },
{
    m.get(k)
}

impl ExpandLookup for BTreeMap<String, String> {
    open spec fn resolve(&self, name: Seq<char>) -> Option<Seq<char>> {
        if btree_contents(*self).dom().contains(name) {
            Some(btree_contents(*self)[name])
        } else {
            None
        }
    }

    fn write_value<'a>(&self, name: &'a str, f: &mut String) -> (r: Result<(), ExpandLookupError<'a>>) {
        match btree_get(self, name) {
            Some(value) => {
                f.append(value.as_str());
                Ok(())
            },
            None => Err(ExpandLookupError::Unresolved(name)),
        }
    }
}

/// What a `HashMap` of strings holds.
pub uninterp spec fn hash_contents(m: HashMap<String, String>) -> Map<Seq<char>, Seq<char>>;

/// `HashMap::get` with a `&str` key.
#[verifier::external_body]
fn hash_get<'a>(m: &'a HashMap<String, String>, k: &str) -> (r: Option<&'a String>)
    ensures
        match r {
            Some(v) => hash_contents(*m).dom().contains(k@) && hash_contents(*m)[k@] == v@,
            None => !hash_contents(*m).dom().contains(k@),
        },
{
    m.get(k)
}

impl ExpandLookup for HashMap<String, String> {
    open spec fn resolve(&self, name: Seq<char>) -> Option<Seq<char>> {
        if hash_contents(*self).dom().contains(name) {
            Some(hash_contents(*self)[name])
        } else {
            None
        }
    }

    fn write_value<'a>(&self, name: &'a str, f: &mut String) -> (r: Result<(), ExpandLookupError<'a>>) {
        match hash_get(self, name) {
            Some(value) => {
                f.append(value.as_str());
                Ok(())
            },
            None => Err(ExpandLookupError::Unresolved(name)),
        }
    }
}

/// The first value any of `items` resolves `name` to, trying them in order.
pub open spec fn chain_resolve<T: ExpandLookup>(items: Seq<&T>, name: Seq<char>) -> Option<Seq<char>>
    decreases items.len(),
{
    if items.len() == 0 {
        None
    } else {
        match items[0].resolve(name) {
            Some(v) => Some(v),
            None => chain_resolve(items.drop_first(), name),
        }
    }
}

/// Try each lookup in order; the first hit wins.
impl<T: ExpandLookup, const SIZE: usize> ExpandLookup for [&T; SIZE] {
    open spec fn resolve(&self, name: Seq<char>) -> Option<Seq<char>> {
        chain_resolve(self@, name)
    }

    fn write_value<'a>(&self, name: &'a str, f: &mut String) -> (r: Result<(), ExpandLookupError<'a>>) {
        let mut i: usize = 0;
        assert(self@.skip(0) =~= self@);
        while i < SIZE
            invariant
                i <= SIZE,
                self@.len() == SIZE,
                f@ == old(f)@,
                chain_resolve(self@, name@) == chain_resolve(self@.skip(i as int), name@),
            decreases SIZE - i,
        {
            assert(i > 0 || self@.skip(i as int) =~= self@);
            let item: &T = self[i];
            proof {
                assert(self@.skip(i as int)[0] == item);
                assert(self@.skip(i as int).drop_first() =~= self@.skip(i + 1));
            }
            match item.write_value(name, f) {
                Ok(()) => {
                    return Ok(());
                },
                Err(ExpandLookupError::Unresolved(_)) => {},
            }
            i = i + 1;
        }
        assert(self@.skip(i as int).len() == 0);
        Err(ExpandLookupError::Unresolved(name))
    }
}

/// Whether `t` holds the opening `${` at position `i`.
pub open spec fn is_open_at(t: Seq<char>, i: int) -> bool {
    0 <= i && i + 1 < t.len() && t[i] == '$' && t[i + 1] == '{'
}

/// Position of the first `${` at or after `k`.
pub open spec fn first_open_from(t: Seq<char>, k: int) -> Option<int>
    decreases t.len() - k,
{
    if k < 0 || k + 1 >= t.len() {
        None
    } else if is_open_at(t, k) {
        Some(k)
    } else {
        first_open_from(t, k + 1)
    }
}

/// Position of the first `}` at or after `k`.
pub open spec fn first_close_from(t: Seq<char>, k: int) -> Option<int>
    decreases t.len() - k,
{
    if k < 0 || k >= t.len() {
        None
    } else if t[k] == '}' {
        Some(k)
    } else {
        first_close_from(t, k + 1)
    }
}

pub proof fn lemma_first_open_bounds(t: Seq<char>, k: int)
    requires
        0 <= k,
    ensures
        first_open_from(t, k) matches Some(i) ==> k <= i && is_open_at(t, i) && forall|j: int|
            k <= j < i ==> !is_open_at(t, j),
        first_open_from(t, k) is None ==> forall|j: int| k <= j ==> !is_open_at(t, j),
    decreases t.len() - k,
{
    if !(k < 0 || k + 1 >= t.len()) && !is_open_at(t, k) {
        lemma_first_open_bounds(t, k + 1);
    }
}

pub proof fn lemma_first_close_bounds(t: Seq<char>, k: int)
    requires
        0 <= k,
    ensures
        first_close_from(t, k) matches Some(j) ==> k <= j < t.len() && t[j] == '}' && forall|m: int|
            k <= m < j ==> t[m] != '}',
        first_close_from(t, k) is None ==> forall|m: int| k <= m < t.len() ==> t[m] != '}',
    decreases t.len() - k,
{
    if !(k < 0 || k >= t.len()) && t[k] != '}' {
        lemma_first_close_bounds(t, k + 1);
    }
}

/// The expansion of the part of template `t` from position `k` on.
pub open spec fn expand_from(
    t: Seq<char>,
    k: int,
    look: spec_fn(Seq<char>) -> Option<Seq<char>>,
) -> Result<Seq<char>, ExpandFault>
    decreases t.len() - k,
{
    if k < 0 || k > t.len() {
        Ok(Seq::empty())
    } else {
        match first_open_from(t, k) {
            None => Ok(t.subrange(k, t.len() as int)),
            Some(i) => match first_close_from(t, i + 2) {
                None => Err(ExpandFault::Unterminated),
                Some(j) => {
                    if i < k || j < i + 2 || j >= t.len() {
                        Ok(Seq::empty())
                    } else {
                        let name = t.subrange(i + 2, j);
                        match look(name) {
                            None => Err(ExpandFault::Unresolved(name)),
                            Some(v) => match expand_from(t, j + 1, look) {
                                Ok(rest) => Ok(t.subrange(k, i) + v + rest),
                                Err(e) => Err(e),
                            },
                        }
                    }
                },
            },
        }
    }
}

/// The expansion of template `t` against the lookup `look`.
pub open spec fn expand_template(
    t: Seq<char>,
    look: spec_fn(Seq<char>) -> Option<Seq<char>>,
) -> Result<Seq<char>, ExpandFault> {
    expand_from(t, 0, look)
}

/// A template without any `${` expands to itself, whatever the lookup:
/// literal characters pass through unchanged.
pub proof fn lemma_literal_template_expands_to_itself(
    t: Seq<char>,
    look: spec_fn(Seq<char>) -> Option<Seq<char>>,
)
    requires
        forall|i: int| !is_open_at(t, i),
    ensures
        expand_template(t, look) == Ok::<Seq<char>, ExpandFault>(t),
{
    lemma_first_open_bounds(t, 0);
    assert(first_open_from(t, 0) is None);
    assert(t.subrange(0, t.len() as int) =~= t);
}

/// A chain of lookups answers with the first one that knows `name`: when
/// the lookups before position `k` do not know it and the one at `k` does,
/// the chain gives that one's value.
pub proof fn lemma_chain_first_hit_wins<T: ExpandLookup>(items: Seq<&T>, name: Seq<char>, k: int)
    requires
        0 <= k < items.len(),
        forall|j: int| 0 <= j < k ==> (#[trigger] items[j].resolve(name)) is None,
        items[k].resolve(name) is Some,
    ensures
        chain_resolve(items, name) == items[k].resolve(name),
    decreases k,
{
    if k > 0 {
        assert(items[0].resolve(name) is None);
        let rest = items.drop_first();
        assert forall|j: int| 0 <= j < k - 1 implies (#[trigger] rest[j].resolve(name)) is None by {
            assert(rest[j] == items[j + 1]);
        }
        assert(rest[k - 1] == items[k]);
        lemma_chain_first_hit_wins(rest, name, k - 1);
    }
}

/// A chain of lookups knows nothing that none of its lookups knows.
pub proof fn lemma_chain_misses_when_all_miss<T: ExpandLookup>(items: Seq<&T>, name: Seq<char>)
    requires
        forall|j: int| 0 <= j < items.len() ==> (#[trigger] items[j].resolve(name)) is None,
    ensures
        chain_resolve(items, name) is None,
    decreases items.len(),
{
    if items.len() > 0 {
        assert(items[0].resolve(name) is None);
        let rest = items.drop_first();
        assert forall|j: int| 0 <= j < rest.len() implies (#[trigger] rest[j].resolve(name)) is None by {
            assert(rest[j] == items[j + 1]);
        }
        lemma_chain_misses_when_all_miss(rest, name);
    }
}

/// Prefix `w` onto a successful expansion.
pub open spec fn after_written(w: Seq<char>, r: Result<Seq<char>, ExpandFault>) -> Result<Seq<char>, ExpandFault> {
    match r {
        Ok(s) => Ok(w + s),
        Err(e) => Err(e),
    }
}

proof fn lemma_prefix_concat(a: Seq<char>, b: Seq<char>)
    ensures
        a.is_prefix_of(a + b),
{
    assert((a + b).subrange(0, a.len() as int) =~= a);
}

/// A template string containing `${name}` placeholders.
#[derive(Debug, Clone, PartialEq, Eq)]
pub struct ExpandStr(String);

impl View for ExpandStr {
    type V = Seq<char>;

    closed spec fn view(&self) -> Seq<char> {
        self.0@
    }
}

impl ExpandStr {
    /// Wrap a template string.
    pub fn new(raw: String) -> (r: Self)
        ensures
            r@ == raw@,
    {
        ExpandStr(raw)
    }

    /// Wrap a `'static` template string.
    pub fn new_static(raw: &'static str) -> (r: Self)
        ensures
            r@ == raw@,
    {
        ExpandStr(owned(raw))
    }

    /// The expansion of this template against `lookup`.
    pub open spec fn expansion<L: ExpandLookup>(&self, lookup: &L) -> Result<Seq<char>, ExpandFault> {
        expand_template(self@, |n: Seq<char>| lookup.resolve(n))
    }

    /// Expand the template into a new [`String`].
    pub fn expand_to_string<L: ExpandLookup>(&self, lookup: &L) -> (r: Result<String, ExpandError>)
        ensures
            match self.expansion(lookup) {
                Ok(s) => r matches Ok(out) && out@ == s,
                Err(e) => r matches Err(err) && err.fault() == e,
            },
    {
        let mut out = String::new();
        match self.write_expanded(lookup, &mut out) {
            Ok(()) => {
                assert(out@ =~= Seq::<char>::empty() + out@);
                Ok(out)
            },
            Err(e) => Err(e),
        }
    }

    /// Expand the template onto the end of `f`. On error `f` may have been
    /// extended partially.
    pub fn write_expanded<L: ExpandLookup>(&self, lookup: &L, f: &mut String) -> (r: Result<(), ExpandError>)
        ensures
            old(f)@.is_prefix_of(final(f)@),
            match self.expansion(lookup) {
                Ok(s) => r is Ok && final(f)@ == old(f)@ + s,
                Err(e) => r matches Err(err) && err.fault() == e,
            },
    {
        let ghost look = |n: Seq<char>| lookup.resolve(n);
        let ghost start = f@;
        assert(start == old(f)@);
        let t = str_chars(self.0.as_str());
        let n = t.len();
        let mut k: usize = 0;
        proof {
            assert(t@.subrange(0, 0) =~= Seq::<char>::empty());
        }
        loop
            invariant
                t@ == self@,
                n == t@.len(),
                k <= n,
                start == old(f)@,
                start.is_prefix_of(f@),
                self.expansion(lookup) == expand_template(t@, look),
                look == (|n: Seq<char>| lookup.resolve(n)),
                expand_template(t@, look) == after_written(f@.skip(start.len() as int), expand_from(t@, k as int, look)),
            decreases n - k,
        {
            let ghost w = f@.skip(start.len() as int);
            assert(f@ =~= start + w);
            // find the next `${` at or after k
            let mut i: usize = k;
            while i < n && i + 1 < n && !(t[i] == '$' && t[i + 1] == '{')
                invariant
                    n == t@.len(),
                    k <= i,
                    i <= n,
                    first_open_from(t@, k as int) == first_open_from(t@, i as int),
                decreases n - i,
            {
                i = i + 1;
            }
            let found = i < n && i + 1 < n;
            proof {
                lemma_first_open_bounds(t@, k as int);
            }
            if !found {
                // copy the rest verbatim
                let mut p: usize = k;
                while p < n
                    invariant
                        n == t@.len(),
                        k <= p <= n,
                        f@ == start + w + t@.subrange(k as int, p as int),
                    decreases n - p,
                {
                    push_char(f, t[p]);
                    p = p + 1;
                    assert(f@ =~= start + w + t@.subrange(k as int, p as int));
                }
                proof {
                    assert(first_open_from(t@, i as int) is None);
                    assert(f@.skip(start.len() as int) =~= w + t@.subrange(k as int, n as int));
                    lemma_prefix_concat(start, w + t@.subrange(k as int, n as int));
                    assert(f@ =~= start + (w + t@.subrange(k as int, n as int)));
                    assert(start.is_prefix_of(f@));
                    assert(old(f)@.is_prefix_of(f@));
                }
                return Ok(());
            }
            proof {
                assert(first_open_from(t@, i as int) == Some(i as int));
            }
            // find the closing `}`
            let mut j: usize = i + 2;
            while j < n && t[j] != '}'
                invariant
                    n == t@.len(),
                    i + 2 <= j <= n,
                    first_close_from(t@, (i + 2) as int) == first_close_from(t@, j as int),
                decreases n - j,
            {
                j = j + 1;
            }
            let closed = j < n;
            proof {
                lemma_first_close_bounds(t@, (i + 2) as int);
            }
            if !closed {
                assert(first_close_from(t@, j as int) is None);
                proof {
                    lemma_prefix_concat(start, w);
                }
                return Err(ExpandError::Unterminated);
            }
            assert(first_close_from(t@, j as int) == Some(j as int));
            // literal text before the placeholder
            let mut p: usize = k;
            while p < i
                invariant
                    n == t@.len(),
                    k <= p <= i,
                    i < n,
                    f@ == start + w + t@.subrange(k as int, p as int),
                decreases i - p,
            {
                push_char(f, t[p]);
                p = p + 1;
                assert(f@ =~= start + w + t@.subrange(k as int, p as int));
            }
            // the placeholder name
            let mut name = String::new();
            let mut q: usize = i + 2;
            while q < j
                invariant
                    n == t@.len(),
                    i + 2 <= q <= j,
                    j < n,
                    name@ == t@.subrange((i + 2) as int, q as int),
                decreases j - q,
            {
                push_char(&mut name, t[q]);
                q = q + 1;
                assert(name@ =~= t@.subrange((i + 2) as int, q as int));
            }
            let ghost before = f@;
            match lookup.write_value(name.as_str(), f) {
                Ok(()) => {},
                Err(ExpandLookupError::Unresolved(_)) => {
                    proof {
                        lemma_prefix_concat(start, w + t@.subrange(k as int, i as int));
                        assert(f@ =~= start + (w + t@.subrange(k as int, i as int)));
                    }
                    return Err(ExpandError::Unresolved(name));
                },
            }
            let ghost v = lookup.resolve(name@).unwrap();
            proof {
                let kk = k as int;
                let w2 = w + t@.subrange(kk, i as int) + v;
                assert(f@ =~= start + w2);
                assert(f@.skip(start.len() as int) =~= w2);
                assert(t@.subrange((i + 2) as int, j as int) == name@);
                assert(look(name@) == Some(v));
                match expand_from(t@, (j + 1) as int, look) {
                    Ok(rest) => {
                        assert(w + (t@.subrange(kk, i as int) + v + rest) =~= w2 + rest);
                    },
                    Err(e) => {},
                }
                lemma_prefix_concat(start, w2);
            }
            k = j + 1;
        }
    }

    /// The raw template string.
    pub fn as_template(&self) -> (r: &str)
        ensures
            r@ == self@,
    {
        self.0.as_str()
    }
}

} // verus!

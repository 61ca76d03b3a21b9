//! Relative paths that cannot climb out of the directory they are resolved
//! against: no component may be `..`.
//!
//! Path syntax follows `relative_path`: components are separated by `/`,
//! empty components (from repeated or leading/trailing separators) are
//! skipped, `.` is the current directory and `..` the parent. Such a path
//! does not protect against symlinks on disk.

use relative_path::{Component as RelComponent, RelativePath};
use vstd::prelude::*;

use crate::text::{owned, str_eq};

verus! {

/// One component of a relative path.
#[derive(Debug, Clone, PartialEq, Eq)]
pub enum Component {
    /// The current directory `.`.
    CurDir,
    /// The parent directory `..`.
    ParentDir,
    /// A normal path component.
    Normal(String),
}

/// The text of the segments between separators, empty ones skipped, with
/// `cur` the part of a segment already read.
pub open spec fn split_segs(s: Seq<char>, cur: Seq<char>) -> Seq<Seq<char>>
    decreases s.len(),
{
    if s.len() == 0 {
        if cur.len() == 0 {
            Seq::empty()
        } else {
            seq![cur]
        }
    } else if s[0] == '/' {
        (if cur.len() == 0 {
            Seq::empty()
        } else {
            seq![cur]
        }) + split_segs(s.drop_first(), Seq::empty())
    } else {
        split_segs(s.drop_first(), cur.push(s[0]))
    }
}

/// The non-empty `/`-separated segments of `s`, in order.
pub open spec fn segments(s: Seq<char>) -> Seq<Seq<char>> {
    split_segs(s, Seq::empty())
}

/// The component a segment stands for, as its text (`.` and `..` included).
pub open spec fn component_text(c: Component) -> Seq<char> {
    match c {
        Component::CurDir => seq!['.'],
        Component::ParentDir => seq!['.', '.'],
        Component::Normal(n) => n@,
    }
}

/// Whether component `c` is the one segment `seg` stands for.
pub open spec fn component_of(c: Component, seg: Seq<char>) -> bool {
    if seg == seq!['.'] {
        c == Component::CurDir
    } else if seg == seq!['.', '.'] {
        c == Component::ParentDir
    } else {
        c matches Component::Normal(n) && n@ == seg
    }
}

/// Whether the path `s` never names the parent directory.
pub open spec fn is_safe(s: Seq<char>) -> bool {
    forall|i: int| 0 <= i < segments(s).len() ==> segments(s)[i] != seq!['.', '.']
}

/// `RelativePath::components`: the components of `s`, one per non-empty
/// `/`-separated segment.
#[verifier::external_body]
fn rel_components(s: &str) -> (r: Vec<Component>)
    ensures
        r@.len() == segments(s@).len(),
        forall|i: int| 0 <= i < r@.len() ==> component_of(#[trigger] r@[i], segments(s@)[i]),
{
    RelativePath::new(s).components().map(|c| match c {
        RelComponent::CurDir => Component::CurDir,
        RelComponent::ParentDir => Component::ParentDir,
        RelComponent::Normal(n) => Component::Normal(n.to_string()),
    }).collect()
}

/// Whether `path` stays inside its parent directory: every component is
/// `.` or a normal name.
pub fn is_safe_relative_path(path: &str) -> (r: bool)
    ensures
        r == is_safe(path@),
{
    let comps = rel_components(path);
    let mut i: usize = 0;
    while i < comps.len()
        invariant
            comps@.len() == segments(path@).len(),
            forall|j: int| 0 <= j < comps@.len() ==> component_of(#[trigger] comps@[j], segments(path@)[j]),
            i <= comps@.len(),
            forall|j: int| 0 <= j < i ==> segments(path@)[j] != seq!['.', '.'],
        decreases comps@.len() - i,
    {
        match &comps[i] {
            Component::ParentDir => {
                assert(component_of(comps@[i as int], segments(path@)[i as int]));
                return false;
            },
            _ => {
                assert(component_of(comps@[i as int], segments(path@)[i as int]));
                assert(seq!['.'].len() != seq!['.', '.'].len());
            },
        }
        i = i + 1;
    }
    true
}

/// The joined path `a`/`b` as `RelativePath::join` forms it: one leading
/// separator of `b` is dropped and a separator is inserted unless `a` is
/// empty or already ends with one.
pub open spec fn join_spec(a: Seq<char>, b: Seq<char>) -> Seq<char> {
    let b2 = if b.len() > 0 && b[0] == '/' {
        b.drop_first()
    } else {
        b
    };
    if a.len() == 0 || a.last() == '/' {
        a + b2
    } else {
        a + seq!['/'] + b2
    }
}

/// The components of `s` left after dropping its trailing `.` components
/// and then one more.
pub open spec fn parent_segs(segs: Seq<Seq<char>>) -> Seq<Seq<char>>
    decreases segs.len(),
{
    if segs.len() == 0 {
        segs
    } else if segs.last() == seq!['.'] {
        parent_segs(segs.drop_last())
    } else {
        segs.drop_last()
    }
}

/// `RelativePath::join`.
#[verifier::external_body]
fn rel_join(a: &str, b: &str) -> (r: String)
    ensures
        r@ == join_spec(a@, b@),
{
    RelativePath::new(a).join(b).into_string()
}

/// `RelativePath::parent`: `None` for the empty path; otherwise the prefix
/// of the path that ends before its last non-`.` component.
#[verifier::external_body]
fn rel_parent(s: &str) -> (r: Option<String>)
    ensures
        r is None <==> s@.len() == 0,
        r matches Some(p) ==> p@.is_prefix_of(s@) && (p@.len() == 0 || p@.last() != '/')
            && segments(p@) == parent_segs(segments(s@)),
{
    RelativePath::new(s).parent().map(|p| p.as_str().to_string())
}

/// The segments of a path with its `.` components removed.
pub open spec fn normal_segs(segs: Seq<Seq<char>>) -> Seq<Seq<char>> {
    segs.filter(|seg: Seq<char>| seg != seq!['.'])
}

/// The segments joined by single separators.
pub open spec fn join_segs(segs: Seq<Seq<char>>) -> Seq<char>
    decreases segs.len(),
{
    if segs.len() == 0 {
        Seq::empty()
    } else if segs.len() == 1 {
        segs[0]
    } else {
        join_segs(segs.drop_last()) + seq!['/'] + segs.last()
    }
}

/// `RelativePath::normalize`: for a path without `..`, its normal
/// components joined by single separators.
#[verifier::external_body]
fn rel_normalize(s: &str) -> (r: String)
    ensures
        is_safe(s@) ==> r@ == join_segs(normal_segs(segments(s@))),
{
    RelativePath::new(s).normalize().into_string()
}

/// `base` with `segs` appended one by one, each after a separator unless
/// the path so far is empty.
pub open spec fn push_segs(base: Seq<char>, segs: Seq<Seq<char>>) -> Seq<char>
    decreases segs.len(),
{
    if segs.len() == 0 {
        base
    } else {
        let p = push_segs(base, segs.drop_last());
        if p.len() == 0 {
            segs.last()
        } else {
            p + seq!['/'] + segs.last()
        }
    }
}

/// `RelativePath::to_logical_path`: for a path without `..`, `base` with
/// the path's normal components appended.
#[verifier::external_body]
fn rel_to_logical_path(rel: &str, base: &str) -> (r: String)
    ensures
        is_safe(rel@) ==> r@ == push_segs(base@, normal_segs(segments(rel@))),
{
    RelativePath::new(rel).to_logical_path(base).to_string_lossy().into_owned()
}

/// The error type of the safe path constructors.
#[derive(Debug, Clone, PartialEq, Eq)]
pub enum Error {
    /// The path names the parent directory somewhere.
    PathGoesOutsideParent(String),
    /// The string is not exactly one path component.
    NotASinglePathComponent(String),
}

/// A relative path that is guaranteed not to traverse out of its parent
/// with `..`.
#[derive(Debug, PartialEq, Eq, PartialOrd, Ord, Hash)]
pub struct SafeRelativePath {
    inner: String,
}

/// The owned form of a [`SafeRelativePath`]; the two are one type here.
pub type SafeRelativePathBuf = SafeRelativePath;

impl View for SafeRelativePath {
    type V = Seq<char>;

    closed spec fn view(&self) -> Seq<char> {
        self.inner@
    }
}

impl Clone for SafeRelativePath {
    fn clone(&self) -> (r: Self)
        ensures
            r@ == self@,
    {
        self.to_safe_relative_path_buf()
    }
}

impl Clone for SinglePathComponent {
    fn clone(&self) -> (r: Self)
        ensures
            r@ == self@,
    {
        proof {
            use_type_invariant(self);
        }
        SinglePathComponent(self.0.to_safe_relative_path_buf())
    }
}

impl SafeRelativePath {
    #[verifier::type_invariant]
    spec fn inv(self) -> bool {
        is_safe(self.inner@)
    }

    /// Validate `v` and wrap it.
    pub fn from_relative_path(v: &str) -> (r: Result<SafeRelativePath, Error>)
        ensures
            is_safe(v@) ==> (r matches Ok(p) && p@ == v@),
            !is_safe(v@) ==> (r matches Err(Error::PathGoesOutsideParent(s)) && s@ == v@),
    {
        if !is_safe_relative_path(v) {
            return Err(Error::PathGoesOutsideParent(owned(v)));
        }
        SafeRelativePath { inner: owned(v) }
    .into_ok()
    }

    fn into_ok(self) -> (r: Result<SafeRelativePath, Error>)
        ensures
            r == Ok::<SafeRelativePath, Error>(self),
    {
        Ok(self)
    }

    /// The path text; it never names the parent directory.
    pub fn as_str(&self) -> (r: &str)
        ensures
            r@ == self@,
            is_safe(self@),
    {
        proof {
            use_type_invariant(self);
        }
        self.inner.as_str()
    }

    /// An owned copy.
    pub fn to_safe_relative_path_buf(&self) -> (r: SafeRelativePathBuf)
        ensures
            r@ == self@,
    {
        proof {
            use_type_invariant(self);
        }
        SafeRelativePath { inner: self.inner.clone() }
    }

    /// `self` joined with `path`, as `RelativePath::join` forms it.
    pub fn safe_join(&self, path: &SafeRelativePath) -> (r: SafeRelativePathBuf)
        ensures
            r@ == join_spec(self@, path@),
    {
        proof {
            use_type_invariant(self);
            use_type_invariant(path);
        }
        let joined = rel_join(self.inner.as_str(), path.inner.as_str());
        proof {
            lemma_join_safe(self.inner@, path.inner@);
        }
        SafeRelativePath { inner: joined }
    }

    /// Validate `path` and join it onto `self`.
    pub fn try_join(&self, path: &str) -> (r: Result<SafeRelativePathBuf, Error>)
        ensures
            is_safe(path@) ==> (r matches Ok(p) && p@ == join_spec(self@, path@)),
            !is_safe(path@) ==> (r matches Err(Error::PathGoesOutsideParent(s)) && s@ == path@),
    {
        match SafeRelativePath::from_relative_path(path) {
            Ok(p) => Ok(self.safe_join(&p)),
            Err(e) => Err(e),
        }
    }

    /// The path with `.` components dropped and separators collapsed.
    pub fn normalize_safe(&self) -> (r: SafeRelativePathBuf)
        ensures
            r@ == join_segs(normal_segs(segments(self@))),
    {
        proof {
            use_type_invariant(self);
        }
        let n = rel_normalize(self.inner.as_str());
        proof {
            lemma_normalize_safe(self.inner@);
        }
        SafeRelativePath { inner: n }
    }

    /// The parent path, or `None` for the empty path.
    pub fn safe_parent(&self) -> (r: Option<SafeRelativePath>)
        ensures
            r is None <==> self@.len() == 0,
            r matches Some(p) ==> p@.is_prefix_of(self@) && (p@.len() == 0 || p@.last() != '/')
                && segments(p@) == parent_segs(segments(self@)),
    {
        proof {
            use_type_invariant(self);
        }
        match rel_parent(self.inner.as_str()) {
            Some(p) => {
                proof {
                    lemma_parent_segs_prefix(segments(self.inner@));
                    assert forall|i: int| 0 <= i < segments(p@).len() implies segments(p@)[i] != seq!['.', '.'] by {
                        assert(segments(p@)[i] == segments(self.inner@)[i]);
                    }
                }
                Some(SafeRelativePath { inner: p })
            },
            None => None,
        }
    }

    /// The absolute path `base` with this path's normal components
    /// appended.
    pub fn to_full_path(&self, base: &str) -> (r: String)
        ensures
            r@ == push_segs(base@, normal_segs(segments(self@))),
    {
        proof {
            use_type_invariant(self);
        }
        rel_to_logical_path(self.inner.as_str(), base)
    }

    /// The path text as an owned string.
    pub fn to_string(&self) -> (r: String)
        ensures
            r@ == self@,
    {
        owned(self.inner.as_str())
    }

    /// `v` joined in front of `self`.
    pub fn with_prefix(&self, v: &SafeRelativePath) -> (r: SafeRelativePathBuf)
        ensures
            r@ == join_spec(v@, self@),
    {
        v.safe_join(self)
    }
}

/// Build a safe relative path from a string known to be safe.
pub fn srpath(s: &str) -> (r: SafeRelativePath)
    requires
        is_safe(s@),
    ensures
        r@ == s@,
{
    SafeRelativePath { inner: owned(s) }
}

/// A string that is exactly one path component: safe, and equal to its
/// first component.
#[derive(Debug, PartialEq, Eq, PartialOrd, Ord, Hash)]
pub struct SinglePathComponent(SafeRelativePath);

/// Whether `v` is exactly one path component.
pub open spec fn is_single_component(v: Seq<char>) -> bool {
    is_safe(v) && segments(v).len() > 0 && segments(v)[0] == v
}

impl View for SinglePathComponent {
    type V = Seq<char>;

    closed spec fn view(&self) -> Seq<char> {
        self.0@
    }
}

impl SinglePathComponent {
    #[verifier::type_invariant]
    spec fn inv(self) -> bool {
        is_single_component(self.0@)
    }

    /// Construct a component from a string. Fails if the string traverses
    /// (`..`) or holds more than one path component.
    pub fn try_new(v: &str) -> (r: Result<SinglePathComponent, Error>)
        ensures
            is_single_component(v@) ==> (r matches Ok(c) && c@ == v@),
            !is_safe(v@) ==> (r matches Err(Error::PathGoesOutsideParent(s)) && s@ == v@),
            is_safe(v@) && !is_single_component(v@) ==> (r matches Err(Error::NotASinglePathComponent(s)) && s@ == v@),
    {
        let path = match SafeRelativePath::from_relative_path(v) {
            Ok(p) => p,
            Err(e) => return Err(e),
        };
        let comps = rel_components(v);
        if comps.len() > 0 {
            let first_is_v = match &comps[0] {
                Component::CurDir => str_eq(".", v),
                Component::ParentDir => str_eq("..", v),
                Component::Normal(n) => str_eq(n.as_str(), v),
            };
            proof {
                reveal_strlit(".");
                reveal_strlit("..");
                assert(".".view() =~= seq!['.']);
                assert("..".view() =~= seq!['.', '.']);
                assert(component_of(comps@[0], segments(v@)[0]));
                assert(first_is_v == (segments(v@)[0] == v@));
            }
            if first_is_v {
                return Ok(SinglePathComponent(path));
            }
        }
        Err(Error::NotASinglePathComponent(owned(v)))
    }

    /// The component as a safe relative path.
    pub fn as_safe_relative_path(&self) -> (r: &SafeRelativePath)
        ensures
            r@ == self@,
    {
        &self.0
    }

    /// The component text.
    pub fn as_str(&self) -> (r: &str)
        ensures
            r@ == self@,
    {
        self.0.as_str()
    }

    /// `self` joined with `path`.
    pub fn safe_join(&self, path: &SafeRelativePath) -> (r: SafeRelativePathBuf)
        ensures
            r@ == join_spec(self@, path@),
    {
        self.0.safe_join(path)
    }
}

// ---------- proofs about segments ----------

/// Flushing the segment read so far.
pub open spec fn flush(cur: Seq<char>) -> Seq<Seq<char>> {
    if cur.len() == 0 {
        Seq::empty()
    } else {
        seq![cur]
    }
}

/// Splitting at a separator splits the segment list.
pub proof fn lemma_split_at_sep(a: Seq<char>, b: Seq<char>, cur: Seq<char>)
    ensures
        split_segs(a + seq!['/'] + b, cur) == split_segs(a, cur) + split_segs(b, Seq::empty()),
    decreases a.len(),
{
    let s = a + seq!['/'] + b;
    if a.len() == 0 {
        assert(s =~= seq!['/'] + b);
        assert(s.drop_first() =~= b);
    } else {
        assert(s.drop_first() =~= a.drop_first() + seq!['/'] + b);
        assert(s[0] == a[0]);
        if a[0] == '/' {
            lemma_split_at_sep(a.drop_first(), b, Seq::empty());
            assert(flush(cur) + split_segs(a.drop_first(), Seq::empty()) + split_segs(b, Seq::empty())
                =~= flush(cur) + (split_segs(a.drop_first(), Seq::empty()) + split_segs(b, Seq::empty())));
        } else {
            lemma_split_at_sep(a.drop_first(), b, cur.push(a[0]));
        }
    }
}

/// A leading separator does not change the segments.
pub proof fn lemma_leading_sep(b: Seq<char>)
    requires
        b.len() > 0,
        b[0] == '/',
    ensures
        segments(b) == segments(b.drop_first()),
{
    assert(flush(Seq::empty()) =~= Seq::<Seq<char>>::empty());
    assert(Seq::<Seq<char>>::empty() + split_segs(b.drop_first(), Seq::empty()) =~= split_segs(b.drop_first(), Seq::empty()));
}

/// A trailing separator does not change the segments.
pub proof fn lemma_trailing_sep(a: Seq<char>)
    requires
        a.len() > 0,
        a.last() == '/',
    ensures
        segments(a) == segments(a.drop_last()),
{
    lemma_split_at_sep(a.drop_last(), Seq::empty(), Seq::empty());
    assert(a.drop_last() + seq!['/'] + Seq::<char>::empty() =~= a);
    assert(split_segs(Seq::<char>::empty(), Seq::empty()) =~= Seq::<Seq<char>>::empty());
    assert(segments(a.drop_last()) + Seq::<Seq<char>>::empty() =~= segments(a.drop_last()));
}

/// The segments of a join are those of its parts.
pub proof fn lemma_join_segments(a: Seq<char>, b: Seq<char>)
    ensures
        segments(join_spec(a, b)) == segments(a) + segments(b),
{
    let b2 = if b.len() > 0 && b[0] == '/' {
        b.drop_first()
    } else {
        b
    };
    if b.len() > 0 && b[0] == '/' {
        lemma_leading_sep(b);
    }
    assert(segments(b2) == segments(b));
    if a.len() == 0 {
        assert(split_segs(a, Seq::empty()) =~= Seq::<Seq<char>>::empty());
        assert(a + b2 =~= b2);
        assert(Seq::<Seq<char>>::empty() + segments(b) =~= segments(b));
    } else if a.last() == '/' {
        lemma_split_at_sep(a.drop_last(), b2, Seq::empty());
        assert(a.drop_last() + seq!['/'] + b2 =~= a + b2);
        lemma_trailing_sep(a);
    } else {
        lemma_split_at_sep(a, b2, Seq::empty());
    }
}

/// Joining two safe paths gives a safe path.
pub proof fn lemma_join_safe(a: Seq<char>, b: Seq<char>)
    requires
        is_safe(a),
        is_safe(b),
    ensures
        is_safe(join_spec(a, b)),
{
    lemma_join_segments(a, b);
    let sa = segments(a);
    let sb = segments(b);
    assert forall|i: int| 0 <= i < (sa + sb).len() implies (sa + sb)[i] != seq!['.', '.'] by {
        if i < sa.len() {
            assert((sa + sb)[i] == sa[i]);
        } else {
            assert((sa + sb)[i] == sb[i - sa.len()]);
        }
    }
}

/// The parent segments are a prefix of the segments.
pub proof fn lemma_parent_segs_prefix(segs: Seq<Seq<char>>)
    ensures
        parent_segs(segs).len() <= segs.len(),
        forall|i: int| 0 <= i < parent_segs(segs).len() ==> parent_segs(segs)[i] == segs[i],
    decreases segs.len(),
{
    if segs.len() > 0 && segs.last() == seq!['.'] {
        lemma_parent_segs_prefix(segs.drop_last());
        assert forall|i: int| 0 <= i < parent_segs(segs).len() implies parent_segs(segs)[i] == segs[i] by {
            assert(segs.drop_last()[i] == segs[i]);
        }
    } else if segs.len() > 0 {
        assert forall|i: int| 0 <= i < parent_segs(segs).len() implies parent_segs(segs)[i] == segs[i] by {
            assert(segs.drop_last()[i] == segs[i]);
        }
    }
}

/// A segment: non-empty and without separators.
pub open spec fn seg_ok(x: Seq<char>) -> bool {
    x.len() > 0 && forall|k: int| 0 <= k < x.len() ==> x[k] != '/'
}

/// A segment never holds a separator and is never empty.
pub proof fn lemma_split_segs_shape(s: Seq<char>, cur: Seq<char>)
    requires
        forall|k: int| 0 <= k < cur.len() ==> cur[k] != '/',
    ensures
        forall|i: int| 0 <= i < split_segs(s, cur).len() ==> seg_ok(#[trigger] split_segs(s, cur)[i]),
    decreases s.len(),
{
    if s.len() == 0 {
        if cur.len() > 0 {
            assert(split_segs(s, cur) =~= seq![cur]);
            assert(seg_ok(cur));
        }
    } else if s[0] == '/' {
        lemma_split_segs_shape(s.drop_first(), Seq::empty());
        let l = flush(cur);
        let r = split_segs(s.drop_first(), Seq::empty());
        assert(split_segs(s, cur) == l + r);
        assert forall|i: int| 0 <= i < split_segs(s, cur).len() implies seg_ok(#[trigger] split_segs(s, cur)[i]) by {
            assert(split_segs(s, cur)[i] == (l + r)[i]);
            if i < l.len() {
                assert((l + r)[i] == cur);
                assert(seg_ok(cur));
            } else {
                assert((l + r)[i] == r[i - l.len()]);
            }
        }
    } else {
        assert forall|k: int| 0 <= k < cur.push(s[0]).len() implies cur.push(s[0])[k] != '/' by {
            if k < cur.len() {
                assert(cur.push(s[0])[k] == cur[k]);
            }
        }
        lemma_split_segs_shape(s.drop_first(), cur.push(s[0]));
        assert(split_segs(s, cur) == split_segs(s.drop_first(), cur.push(s[0])));
    }
}

/// A non-empty segment without separators is its own only segment.
pub proof fn lemma_single_segment(x: Seq<char>, cur: Seq<char>)
    requires
        forall|k: int| 0 <= k < x.len() ==> x[k] != '/',
        cur.len() + x.len() > 0,
    ensures
        split_segs(x, cur) == seq![cur + x],
    decreases x.len(),
{
    if x.len() == 0 {
        assert(cur + x =~= cur);
    } else {
        lemma_single_segment(x.drop_first(), cur.push(x[0]));
        assert(cur.push(x[0]) + x.drop_first() =~= cur + x);
    }
}

/// Joining segments back with separators gives the same segments.
pub proof fn lemma_join_segs_roundtrip(segs: Seq<Seq<char>>)
    requires
        forall|i: int| 0 <= i < segs.len() ==> seg_ok(#[trigger] segs[i]),
    ensures
        segments(join_segs(segs)) == segs,
    decreases segs.len(),
{
    if segs.len() == 0 {
        assert(split_segs(Seq::<char>::empty(), Seq::empty()) =~= Seq::<Seq<char>>::empty());
    } else if segs.len() == 1 {
        assert(seg_ok(segs[0]));
        lemma_single_segment(segs[0], Seq::empty());
        assert(Seq::<char>::empty() + segs[0] =~= segs[0]);
        assert(seq![segs[0]] =~= segs);
    } else {
        let init = segs.drop_last();
        assert forall|i: int| 0 <= i < init.len() implies seg_ok(#[trigger] init[i]) by {
            assert(init[i] == segs[i]);
        }
        lemma_join_segs_roundtrip(init);
        lemma_split_at_sep(join_segs(init), segs.last(), Seq::empty());
        assert(segs.last() == segs[segs.len() - 1]);
        assert(seg_ok(segs[segs.len() - 1]));
        lemma_single_segment(segs.last(), Seq::empty());
        assert(Seq::<char>::empty() + segs.last() =~= segs.last());
        assert(init + seq![segs.last()] =~= segs);
    }
}

/// Normalizing a safe path gives a safe path.
pub proof fn lemma_normalize_safe(s: Seq<char>)
    requires
        is_safe(s),
    ensures
        is_safe(join_segs(normal_segs(segments(s)))),
{
    let segs = segments(s);
    let ns = normal_segs(segs);
    lemma_split_segs_shape(s, Seq::empty());
    assert forall|i: int| 0 <= i < ns.len() implies seg_ok(#[trigger] ns[i]) && ns[i] != seq!['.', '.'] by {
        segs.lemma_filter_contains_rev(|seg: Seq<char>| seg != seq!['.'], ns[i]);
        assert(ns.contains(ns[i]));
        let j = choose|j: int| 0 <= j < segs.len() && segs[j] == ns[i];
        assert(segs[j] == ns[i]);
    }
    lemma_join_segs_roundtrip(ns);
}

} // verus!

//! Managed paths: a path relative to one of the three managed roots (`~`,
//! `~/.config`, `~/.config/zenops`), and the roots themselves.

use similar::TextDiff;
use vstd::prelude::*;

use crate::safe_path::{is_safe, normal_segs, parent_segs, push_segs, segments, SafeRelativePath};
use indexmap::IndexMap;
use std::collections::hash_map::RandomState;

use crate::import_plan::{path_eq, paths_equal};
use crate::input_map::entries_insert;
use crate::output::{ResolvedConfigFilePath, Status, FileStatus, SymlinkStatus};
use crate::text::owned;

verus! {

/// `base` joined with the relative path `rel`, as `Path::join` forms it:
/// a separator is inserted unless `base` is empty or ends with one.
pub open spec fn path_join(base: Seq<char>, rel: Seq<char>) -> Seq<char> {
    if base.len() == 0 || base.last() == '/' {
        base + rel
    } else {
        base + seq!['/'] + rel
    }
}

/// `base` joined with `rel`.
pub fn join_path(base: &str, rel: &str) -> (r: String)
    ensures
        r@ == path_join(base@, rel@),
{
    let mut out = owned(base);
    let n = base.unicode_len();
    if n > 0 && base.get_char(n - 1) != '/' {
        out.append("/");
    }
    out.append(rel);
    proof {
        reveal_strlit("/");
    }
    out
}

/// A path relative to one of the three managed roots.
#[derive(Debug, Clone, PartialEq)]
pub enum ConfigFilePath {
    /// Rooted at `$HOME`.
    Home(SafeRelativePath),
    /// Rooted at `$HOME/.config`.
    DotConfig(SafeRelativePath),
    /// Rooted at `$HOME/.config/zenops` — the cloned config repo itself.
    Zenops(SafeRelativePath),
}

/// The symbolic root of a managed path.
pub open spec fn root_text(p: ConfigFilePath) -> Seq<char> {
    match p {
        ConfigFilePath::Home(_) => "~"@,
        ConfigFilePath::DotConfig(_) => "~/.config"@,
        ConfigFilePath::Zenops(_) => "~/.config/zenops"@,
    }
}

/// The relative tail of a managed path.
pub open spec fn rel_text(p: ConfigFilePath) -> Seq<char> {
    match p {
        ConfigFilePath::Home(r) => r@,
        ConfigFilePath::DotConfig(r) => r@,
        ConfigFilePath::Zenops(r) => r@,
    }
}

/// The path as users see it: the symbolic root, then `/` and the tail
/// when there is one.
pub open spec fn human_path_spec(p: ConfigFilePath) -> Seq<char> {
    if rel_text(p).len() == 0 {
        root_text(p)
    } else {
        root_text(p) + "/"@ + rel_text(p)
    }
}

/// Whether `q` is `p` with its tail replaced by `tail`, root kept.
pub open spec fn same_root(p: ConfigFilePath, q: ConfigFilePath) -> bool {
    match (p, q) {
        (ConfigFilePath::Home(_), ConfigFilePath::Home(_)) => true,
        (ConfigFilePath::DotConfig(_), ConfigFilePath::DotConfig(_)) => true,
        (ConfigFilePath::Zenops(_), ConfigFilePath::Zenops(_)) => true,
        _ => false,
    }
}

/// Whether `p` and `q` name the same path: same root, same tail.
pub open spec fn same_path(p: ConfigFilePath, q: ConfigFilePath) -> bool {
    same_root(p, q) && rel_text(p) == rel_text(q)
}

impl ConfigFilePath {
    /// An owned copy.
    pub fn duplicate(&self) -> (r: Self)
        ensures
            same_path(r, *self),
    {
        match self {
            ConfigFilePath::Home(p) => ConfigFilePath::Home(p.to_safe_relative_path_buf()),
            ConfigFilePath::DotConfig(p) => ConfigFilePath::DotConfig(p.to_safe_relative_path_buf()),
            ConfigFilePath::Zenops(p) => ConfigFilePath::Zenops(p.to_safe_relative_path_buf()),
        }
    }

    /// A path rooted at `$HOME`.
    pub fn in_home(path: &SafeRelativePath) -> (r: Self)
        ensures
            r matches ConfigFilePath::Home(p) && p@ == path@,
    {
        ConfigFilePath::Home(path.to_safe_relative_path_buf())
    }

    /// The relative tail.
    pub fn rel(&self) -> (r: &SafeRelativePath)
        ensures
            r@ == rel_text(*self),
    {
        match self {
            ConfigFilePath::Home(p) => p,
            ConfigFilePath::DotConfig(p) => p,
            ConfigFilePath::Zenops(p) => p,
        }
    }

    /// The symbolic root: `~`, `~/.config` or `~/.config/zenops`.
    pub fn root(&self) -> (r: &'static str)
        ensures
            r@ == root_text(*self),
    {
        match self {
            ConfigFilePath::Home(_) => "~",
            ConfigFilePath::DotConfig(_) => "~/.config",
            ConfigFilePath::Zenops(_) => "~/.config/zenops",
        }
    }

    /// Render with the symbolic root for user-facing output.
    pub fn human_path(&self) -> (r: String)
        ensures
            r@ == human_path_spec(*self),
    {
        let base = self.root();
        let rel = self.rel().as_str();
        let mut out = owned(base);
        if rel.unicode_len() > 0 {
            out.append("/");
            out.append(rel);
        }
        out
    }

    /// The parent directory in the same root, or `None` if this path is
    /// already the root.
    pub fn parent(&self) -> (r: Option<Self>)
        ensures
            r is None <==> rel_text(*self).len() == 0,
            r matches Some(q) ==> same_root(*self, q) && rel_text(q).is_prefix_of(rel_text(*self))
                && segments(rel_text(q)) == parent_segs(segments(rel_text(*self))),
    {
        match self {
            ConfigFilePath::Home(p) => match p.safe_parent() {
                Some(q) => Some(ConfigFilePath::Home(q)),
                None => None,
            },
            ConfigFilePath::DotConfig(p) => match p.safe_parent() {
                Some(q) => Some(ConfigFilePath::DotConfig(q)),
                None => None,
            },
            ConfigFilePath::Zenops(p) => match p.safe_parent() {
                Some(q) => Some(ConfigFilePath::Zenops(q)),
                None => None,
            },
        }
    }

    /// The absolute path against the matching root in `dirs`.
    pub fn resolved(&self, dirs: &ConfigFileDirs) -> (r: String)
        ensures
            r@ == push_segs(
                match *self {
                    ConfigFilePath::Home(_) => dirs.home@,
                    ConfigFilePath::DotConfig(_) => dirs.config@,
                    ConfigFilePath::Zenops(_) => dirs.zenops@,
                },
                normal_segs(segments(rel_text(*self))),
            ),
    {
        let rel = self.rel();
        match self {
            ConfigFilePath::Home(_) => rel.to_full_path(dirs.home.as_str()),
            ConfigFilePath::DotConfig(_) => rel.to_full_path(dirs.config.as_str()),
            ConfigFilePath::Zenops(_) => rel.to_full_path(dirs.zenops.as_str()),
        }
    }
}

/// The three root paths every [`ConfigFilePath`] is anchored to.
#[derive(Debug, Clone, PartialEq)]
pub struct ConfigFileDirs {
    pub home: String,
    pub config: String,
    pub zenops: String,
}

impl ConfigFileDirs {
    /// Build the three roots from an absolute home directory: `home`,
    /// `home/.config` and `home/.config/zenops`.
    pub fn load(home: String) -> (r: Self)
        requires
            home@.len() > 0 && home@[0] == '/',
        ensures
            r.home@ == home@,
            r.config@ == path_join(home@, ".config"@),
            r.zenops@ == path_join(home@, ".config/zenops"@),
    {
        let config = join_path(home.as_str(), ".config");
        let zenops = join_path(home.as_str(), ".config/zenops");
        ConfigFileDirs { home, config, zenops }
    }

    /// Absolute path of `$HOME`.
    pub fn home(&self) -> (r: &str)
        ensures
            r@ == self.home@,
    {
        self.home.as_str()
    }

    /// Absolute path of the cloned zenops config repo.
    pub fn zenops(&self) -> (r: &str)
        ensures
            r@ == self.zenops@,
    {
        self.zenops.as_str()
    }
}

} // verus!

verus! {

/// One step of a line diff between an old and a new sequence of lines.
#[derive(Debug, Clone, Copy, PartialEq, Eq, Structural)]
pub enum DiffOp {
    /// `len` lines equal on both sides.
    Equal { old_index: usize, new_index: usize, len: usize },
    /// `old_len` old lines deleted.
    Delete { old_index: usize, old_len: usize, new_index: usize },
    /// `new_len` new lines inserted.
    Insert { old_index: usize, new_index: usize, new_len: usize },
    /// `old_len` old lines replaced by `new_len` new lines.
    Replace { old_index: usize, old_len: usize, new_index: usize, new_len: usize },
}

/// Where an op starts in the old lines.
pub open spec fn old_start(op: DiffOp) -> int {
    match op {
        DiffOp::Equal { old_index, .. } => old_index as int,
        DiffOp::Delete { old_index, .. } => old_index as int,
        DiffOp::Insert { old_index, .. } => old_index as int,
        DiffOp::Replace { old_index, .. } => old_index as int,
    }
}

/// Where an op ends in the old lines.
pub open spec fn old_end(op: DiffOp) -> int {
    match op {
        DiffOp::Equal { old_index, len, .. } => old_index + len,
        DiffOp::Delete { old_index, old_len, .. } => old_index + old_len,
        DiffOp::Insert { old_index, .. } => old_index as int,
        DiffOp::Replace { old_index, old_len, .. } => old_index + old_len,
    }
}

/// Where an op starts in the new lines.
pub open spec fn new_start(op: DiffOp) -> int {
    match op {
        DiffOp::Equal { new_index, .. } => new_index as int,
        DiffOp::Delete { new_index, .. } => new_index as int,
        DiffOp::Insert { new_index, .. } => new_index as int,
        DiffOp::Replace { new_index, .. } => new_index as int,
    }
}

/// Where an op ends in the new lines.
pub open spec fn new_end(op: DiffOp) -> int {
    match op {
        DiffOp::Equal { new_index, len, .. } => new_index + len,
        DiffOp::Delete { new_index, .. } => new_index as int,
        DiffOp::Insert { new_index, new_len, .. } => new_index + new_len,
        DiffOp::Replace { new_index, new_len, .. } => new_index + new_len,
    }
}

/// The lines of `t` with their line ends, as `str::split_inclusive('\n')`
/// yields them, with `cur` the part of a line already read.
pub open spec fn incl_acc(t: Seq<char>, cur: Seq<char>) -> Seq<Seq<char>>
    decreases t.len(),
{
    if t.len() == 0 {
        if cur.len() == 0 {
            Seq::empty()
        } else {
            seq![cur]
        }
    } else if t[0] == '\n' {
        seq![cur.push('\n')] + incl_acc(t.drop_first(), Seq::empty())
    } else {
        incl_acc(t.drop_first(), cur.push(t[0]))
    }
}

/// The lines of `s` with their line ends.
pub open spec fn lines_incl(s: Seq<char>) -> Seq<Seq<char>> {
    incl_acc(s, Seq::empty())
}

/// The lines joined back together.
pub open spec fn concat(ls: Seq<Seq<char>>) -> Seq<char>
    decreases ls.len(),
{
    if ls.len() == 0 {
        Seq::empty()
    } else {
        concat(ls.drop_last()) + ls.last()
    }
}

/// Lines `a` up to `b` joined together; nothing when `b <= a`.
pub open spec fn concat_range(ls: Seq<Seq<char>>, a: int, b: int) -> Seq<char> {
    if a < b {
        concat(ls.subrange(a, b))
    } else {
        Seq::empty()
    }
}

pub proof fn lemma_concat_append(a: Seq<Seq<char>>, b: Seq<Seq<char>>)
    ensures
        concat(a + b) == concat(a) + concat(b),
    decreases b.len(),
{
    if b.len() == 0 {
        assert(a + b =~= a);
    } else {
        lemma_concat_append(a, b.drop_last());
        assert((a + b).drop_last() =~= a + b.drop_last());
    }
}

/// Splitting a range of lines in two splits their text in two.
pub proof fn lemma_concat_range_split(ls: Seq<Seq<char>>, a: int, m: int, b: int)
    requires
        0 <= a <= m <= b <= ls.len(),
    ensures
        concat_range(ls, a, b) == concat_range(ls, a, m) + concat_range(ls, m, b),
{
    lemma_concat_append(ls.subrange(a, m), ls.subrange(m, b));
    assert(ls.subrange(a, m) + ls.subrange(m, b) =~= ls.subrange(a, b));
    if a == m {
        assert(concat_range(ls, a, m) =~= Seq::<char>::empty());
    }
    if m == b {
        assert(concat_range(ls, m, b) =~= Seq::<char>::empty());
    }
}

pub proof fn lemma_concat_single(x: Seq<char>)
    ensures
        concat(seq![x]) == x,
{
    assert(seq![x].drop_last() =~= Seq::<Seq<char>>::empty());
    assert(concat(Seq::<Seq<char>>::empty()) == Seq::<char>::empty());
    assert(Seq::<char>::empty() + x =~= x);
}

/// The text of the lines is the text itself.
pub proof fn lemma_incl_concat(t: Seq<char>, cur: Seq<char>)
    ensures
        concat(incl_acc(t, cur)) == cur + t,
    decreases t.len(),
{
    if t.len() == 0 {
        if cur.len() == 0 {
            assert(cur + t =~= Seq::<char>::empty());
        } else {
            assert(seq![cur].drop_last() =~= Seq::<Seq<char>>::empty());
            lemma_concat_single(cur);
            assert(cur + t =~= cur);
        }
    } else if t[0] == '\n' {
        lemma_incl_concat(t.drop_first(), Seq::empty());
        lemma_concat_append(seq![cur.push('\n')], incl_acc(t.drop_first(), Seq::empty()));
        assert(seq![cur.push('\n')].drop_last() =~= Seq::<Seq<char>>::empty());
        lemma_concat_single(cur.push('\n'));
        assert(cur.push('\n') + (Seq::<char>::empty() + t.drop_first()) =~= cur + t);
    } else {
        lemma_incl_concat(t.drop_first(), cur.push(t[0]));
        assert(cur.push(t[0]) + t.drop_first() =~= cur + t);
    }
}

/// The lines of `s`, each with its line end, as `str::split_inclusive('\n')`
/// yields them.
pub fn split_inclusive(s: &str) -> (r: Vec<String>)
    ensures
        crate::text::views(r@) == lines_incl(s@),
{
    let cs = crate::text::str_chars(s);
    let mut out: Vec<String> = Vec::new();
    let mut cur: Vec<char> = Vec::new();
    let mut i: usize = 0;
    assert(cs@.skip(0) =~= cs@);
    assert(crate::text::views(out@) + incl_acc(cs@.skip(0), cur@) =~= lines_incl(s@));
    while i < cs.len()
        invariant
            i <= cs@.len(),
            cs@ == s@,
            lines_incl(s@) == crate::text::views(out@) + incl_acc(cs@.skip(i as int), cur@),
        decreases cs@.len() - i,
    {
        let c = cs[i];
        let ghost t = cs@.skip(i as int);
        assert(t[0] == c);
        assert(t.drop_first() =~= cs@.skip(i + 1));
        cur.push(c);
        if c == '\n' {
            let ghost before = crate::text::views(out@);
            let l = crate::text::string_from_range(cur.as_slice(), 0, cur.len());
            assert(l@ =~= cur@);
            out.push(l);
            assert(crate::text::views(out@) =~= before.push(cur@));
            cur = Vec::new();
            assert(before + (seq![l@] + incl_acc(cs@.skip(i + 1), cur@)) =~= before.push(l@)
                + incl_acc(cs@.skip(i + 1), cur@));
        }
        i = i + 1;
    }
    assert(cs@.skip(i as int).len() == 0);
    if cur.len() > 0 {
        let ghost before = crate::text::views(out@);
        let l = crate::text::string_from_range(cur.as_slice(), 0, cur.len());
        assert(l@ =~= cur@);
        out.push(l);
        assert(crate::text::views(out@) =~= before.push(cur@));
        assert(before + seq![cur@] =~= before.push(cur@));
    } else {
        assert(crate::text::views(out@) + Seq::<Seq<char>>::empty() =~= crate::text::views(out@));
    }
    out
}

/// The text an approved op contributes: its equal old lines, or its new
/// lines.
pub open spec fn op_text(op: DiffOp, old: Seq<Seq<char>>, new: Seq<Seq<char>>) -> Seq<char> {
    match op {
        DiffOp::Equal { old_index, len, .. } => concat_range(old, old_index as int, old_index + len),
        DiffOp::Delete { .. } => Seq::empty(),
        DiffOp::Insert { new_index, new_len, .. } => concat_range(
            new,
            new_index as int,
            new_index + new_len,
        ),
        DiffOp::Replace { new_index, new_len, .. } => concat_range(
            new,
            new_index as int,
            new_index + new_len,
        ),
    }
}

/// The text of the first `k` ops of an approved group.
pub open spec fn ops_text(ops: Seq<DiffOp>, old: Seq<Seq<char>>, new: Seq<Seq<char>>, k: int) -> Seq<char>
    decreases k,
{
    if k <= 0 {
        Seq::empty()
    } else {
        ops_text(ops, old, new, k - 1) + op_text(ops[k - 1], old, new)
    }
}

/// Whether a group can be applied to `nold` old and `nnew` new lines: it
/// is not empty and every range it reads is in bounds.
pub open spec fn group_ok(g: Seq<DiffOp>, nold: int, nnew: int) -> bool {
    &&& g.len() > 0
    &&& 0 <= old_start(g[0]) <= nold
    &&& old_end(g.last()) <= nold
    &&& forall|i: int|
        0 <= i < g.len() ==> match #[trigger] g[i] {
            DiffOp::Equal { old_index, len, .. } => old_index + len <= nold,
            DiffOp::Delete { .. } => true,
            DiffOp::Insert { new_index, new_len, .. } => new_index + new_len <= nnew,
            DiffOp::Replace { new_index, new_len, .. } => new_index + new_len <= nnew,
        }
}

/// The text written so far and the next old line after `k` groups.
pub open spec fn rebuild(
    old: Seq<Seq<char>>,
    new: Seq<Seq<char>>,
    groups: Seq<Seq<DiffOp>>,
    approvals: Seq<bool>,
    k: int,
) -> (Seq<char>, int)
    decreases k,
{
    if k <= 0 {
        (Seq::empty(), 0)
    } else {
        let (out, idx) = rebuild(old, new, groups, approvals, k - 1);
        let g = groups[k - 1];
        let s = old_start(g[0]);
        let e = old_end(g.last());
        let out1 = out + concat_range(old, idx, s);
        let from = if idx < s { s } else { idx };
        let out2 = if approvals[k - 1] {
            out1 + ops_text(g, old, new, g.len() as int)
        } else {
            out1 + concat_range(old, from, e)
        };
        (out2, e)
    }
}

/// The number of groups that are applied: one per approval.
pub open spec fn paired(groups: Seq<Seq<DiffOp>>, approvals: Seq<bool>) -> int {
    if groups.len() < approvals.len() {
        groups.len() as int
    } else {
        approvals.len() as int
    }
}

/// The file `old` with the approved groups of the diff to `new` applied:
/// old lines outside the groups, each approved group's new text, each
/// rejected group's old lines.
pub open spec fn reconstruct_spec(
    old: Seq<Seq<char>>,
    new: Seq<Seq<char>>,
    groups: Seq<Seq<DiffOp>>,
    approvals: Seq<bool>,
) -> Seq<char> {
    let (out, idx) = rebuild(old, new, groups, approvals, paired(groups, approvals));
    out + concat_range(old, idx, old.len() as int)
}

/// Append lines `a` up to `b` of `ls` to `out`.
fn push_lines(out: &mut String, ls: &Vec<String>, a: usize, b: usize)
    requires
        b <= ls@.len(),
    ensures
        final(out)@ == old(out)@ + concat_range(crate::text::views(ls@), a as int, b as int),
{
    let ghost v = crate::text::views(ls@);
    let mut i = a;
    if a >= b {
        assert(out@ =~= old(out)@ + Seq::<char>::empty());
        return;
    }
    assert(v.subrange(a as int, a as int) =~= Seq::<Seq<char>>::empty());
    while i < b
        invariant
            a <= i <= b <= ls@.len(),
            v == crate::text::views(ls@),
            out@ == old(out)@ + concat(v.subrange(a as int, i as int)),
        decreases b - i,
    {
        assert(v.subrange(a as int, i + 1).drop_last() =~= v.subrange(a as int, i as int));
        out.append(ls[i].as_str());
        i = i + 1;
    }
}

/// Rebuild a file from its current text `old`, the generated text `new`,
/// the hunks of their line diff, and the user's approval of each hunk:
/// approved hunks take the new lines, rejected ones keep the old lines,
/// and everything outside the hunks is kept.
pub fn reconstruct(old: &str, new: &str, groups: &Vec<Vec<DiffOp>>, approvals: &[bool]) -> (r: String)
    requires
        forall|k: int|
            0 <= k < groups@.len() ==> group_ok(
                #[trigger] groups@[k]@,
                lines_incl(old@).len() as int,
                lines_incl(new@).len() as int,
            ),
    ensures
        r@ == reconstruct_spec(
            lines_incl(old@),
            lines_incl(new@),
            Seq::new(groups@.len(), |k: int| groups@[k]@),
            approvals@,
        ),
        groups_ordered(lines_incl(old@), Seq::new(groups@.len(), |k: int| groups@[k]@)) && (forall|j: int|
            0 <= j < approvals@.len() ==> !approvals@[j]) ==> r@ == old@,
        groups@.len() == 0 ==> r@ == old@,
{
    proof {
        let gs = Seq::new(groups@.len(), |k: int| groups@[k]@);
        if groups_ordered(lines_incl(old@), gs) && (forall|j: int| 0 <= j < approvals@.len() ==> !approvals@[j]) {
            lemma_reconstruct_none_approved(old@, new@, gs, approvals@);
        }
        if groups@.len() == 0 {
            assert(groups_ordered(lines_incl(old@), gs));
            lemma_reconstruct_none_approved(old@, new@, gs, Seq::<bool>::empty());
            assert(paired(gs, approvals@) == paired(gs, Seq::<bool>::empty()));
        }
    }
    let old_lines = split_inclusive(old);
    let new_lines = split_inclusive(new);
    let ghost ol = crate::text::views(old_lines@);
    let ghost nl = crate::text::views(new_lines@);
    let ghost gs = Seq::new(groups@.len(), |k: int| groups@[k]@);
    let n = if groups.len() < approvals.len() { groups.len() } else { approvals.len() };
    let nold = old_lines.len();
    let nnew = new_lines.len();
    let mut out = String::new();
    let mut old_idx: usize = 0;
    let mut k: usize = 0;
    while k < n
        invariant
            k <= n,
            n == paired(gs, approvals@),
            gs.len() == groups@.len(),
            forall|j: int| 0 <= j < groups@.len() ==> #[trigger] gs[j] == groups@[j]@,
            forall|j: int| 0 <= j < groups@.len() ==> group_ok(#[trigger] groups@[j]@, ol.len() as int, nl.len() as int),
            ol == crate::text::views(old_lines@),
            nl == crate::text::views(new_lines@),
            nold == ol.len(),
            nnew == nl.len(),
            old_idx <= ol.len(),
            (out@, old_idx as int) == rebuild(ol, nl, gs, approvals@, k as int),
        decreases n - k,
    {
        let group = &groups[k];
        assert(gs[k as int] == group@);
        assert(group_ok(group@, ol.len() as int, nl.len() as int));
        let approved = approvals[k];
        let (s, e) = match (group[0], group[group.len() - 1]) {
            (first, last) => (op_old_start(&first), op_old_end(&last)),
        };
        let ghost out0 = out@;
        push_lines(&mut out, &old_lines, old_idx, s);
        let from = if old_idx < s { s } else { old_idx };
        if approved {
            let ghost out1 = out@;
            let mut j: usize = 0;
            while j < group.len()
                invariant
                    j <= group@.len(),
                    group_ok(group@, ol.len() as int, nl.len() as int),
                    ol == crate::text::views(old_lines@),
                    nl == crate::text::views(new_lines@),
                    nold == ol.len(),
                    nnew == nl.len(),
                    out@ == out1 + ops_text(group@, ol, nl, j as int),
                decreases group@.len() - j,
            {
                let op = group[j];
                assert(group@[j as int] == op);
                match op {
                    DiffOp::Equal { old_index, len, .. } => {
                        push_lines(&mut out, &old_lines, old_index, old_index + len);
                    },
                    DiffOp::Delete { .. } => {},
                    DiffOp::Insert { new_index, new_len, .. } => {
                        push_lines(&mut out, &new_lines, new_index, new_index + new_len);
                    },
                    DiffOp::Replace { new_index, new_len, .. } => {
                        push_lines(&mut out, &new_lines, new_index, new_index + new_len);
                    },
                }
                j = j + 1;
                assert(out@ =~= out1 + ops_text(group@, ol, nl, j as int));
            }
        } else {
            push_lines(&mut out, &old_lines, from, e);
        }
        old_idx = e;
        k = k + 1;
        assert(out@ =~= rebuild(ol, nl, gs, approvals@, k as int).0);
    }
    push_lines(&mut out, &old_lines, old_idx, old_lines.len());
    out
}

/// Where an op starts in the old lines.
fn op_old_start(op: &DiffOp) -> (r: usize)
    ensures
        r == old_start(*op),
{
    match *op {
        DiffOp::Equal { old_index, .. } => old_index,
        DiffOp::Delete { old_index, .. } => old_index,
        DiffOp::Insert { old_index, .. } => old_index,
        DiffOp::Replace { old_index, .. } => old_index,
    }
}

/// Where an op ends in the old lines.
fn op_old_end(op: &DiffOp) -> (r: usize)
    requires
        old_end(*op) <= usize::MAX,
    ensures
        r == old_end(*op),
{
    match *op {
        DiffOp::Equal { old_index, len, .. } => old_index + len,
        DiffOp::Delete { old_index, old_len, .. } => old_index + old_len,
        DiffOp::Insert { old_index, .. } => old_index,
        DiffOp::Replace { old_index, old_len, .. } => old_index + old_len,
    }
}

} // verus!

verus! {

/// Where the old lines covered by the first `k` groups end.
pub open spec fn end_old(groups: Seq<Seq<DiffOp>>, k: int) -> int {
    if k <= 0 {
        0
    } else {
        old_end(groups[k - 1].last())
    }
}

/// Where the new lines covered by the first `k` groups end.
pub open spec fn end_new(groups: Seq<Seq<DiffOp>>, k: int) -> int {
    if k <= 0 {
        0
    } else {
        new_end(groups[k - 1].last())
    }
}

/// Whether `len` lines of `a` from `ai` equal `len` lines of `b` from `bi`.
pub open spec fn equal_lines(a: Seq<Seq<char>>, ai: int, b: Seq<Seq<char>>, bi: int, len: int) -> bool {
    &&& 0 <= len
    &&& 0 <= ai
    &&& ai + len <= a.len()
    &&& 0 <= bi
    &&& bi + len <= b.len()
    &&& a.subrange(ai, ai + len) == b.subrange(bi, bi + len)
}

/// Whether an op describes the two sequences truthfully.
pub open spec fn op_faithful(op: DiffOp, old: Seq<Seq<char>>, new: Seq<Seq<char>>) -> bool {
    match op {
        DiffOp::Equal { old_index, new_index, len } => equal_lines(
            old,
            old_index as int,
            new,
            new_index as int,
            len as int,
        ),
        DiffOp::Delete { old_index, old_len, .. } => old_index + old_len <= old.len(),
        DiffOp::Insert { new_index, new_len, .. } => new_index + new_len <= new.len(),
        DiffOp::Replace { old_index, old_len, new_index, new_len } => old_index + old_len
            <= old.len() && new_index + new_len <= new.len(),
    }
}

/// Whether a group is a run of truthful ops, each starting where the
/// previous one ends on both sides.
pub open spec fn group_faithful(g: Seq<DiffOp>, old: Seq<Seq<char>>, new: Seq<Seq<char>>) -> bool {
    &&& g.len() > 0
    &&& forall|i: int| 0 <= i < g.len() ==> op_faithful(#[trigger] g[i], old, new)
    &&& forall|i: int|
        1 <= i < g.len() ==> old_start(#[trigger] g[i]) == old_end(g[i - 1]) && new_start(g[i])
            == new_end(g[i - 1])
}

/// Whether `groups` are the hunks of a line diff from `old` to `new`: each
/// group is truthful, and the lines between groups (and after the last)
/// are the same on both sides.
pub open spec fn diff_faithful(old: Seq<Seq<char>>, new: Seq<Seq<char>>, groups: Seq<Seq<DiffOp>>) -> bool {
    &&& forall|k: int|
        0 <= k < groups.len() ==> {
            &&& group_faithful(#[trigger] groups[k], old, new)
            &&& old_start(groups[k][0]) - end_old(groups, k) == new_start(groups[k][0]) - end_new(
                groups,
                k,
            )
            &&& equal_lines(
                old,
                end_old(groups, k),
                new,
                end_new(groups, k),
                old_start(groups[k][0]) - end_old(groups, k),
            )
        }
    &&& old.len() - end_old(groups, groups.len() as int) == new.len() - end_new(
        groups,
        groups.len() as int,
    )
    &&& equal_lines(
        old,
        end_old(groups, groups.len() as int),
        new,
        end_new(groups, groups.len() as int),
        old.len() - end_old(groups, groups.len() as int),
    )
}

/// Whether the groups' old ranges run forward: each group starts no later
/// than it ends, and ends no earlier than the previous one, inside the
/// old lines.
pub open spec fn groups_ordered(old: Seq<Seq<char>>, groups: Seq<Seq<DiffOp>>) -> bool {
    forall|k: int|
        0 <= k < groups.len() ==> {
            &&& (#[trigger] groups[k]).len() > 0
            &&& 0 <= old_start(groups[k][0]) <= old_end(groups[k].last()) <= old.len()
            &&& end_old(groups, k) <= old_end(groups[k].last())
        }
}

proof fn lemma_concat_range_full(ls: Seq<Seq<char>>)
    ensures
        concat_range(ls, 0, ls.len() as int) == concat(ls),
{
    if ls.len() > 0 {
        assert(ls.subrange(0, ls.len() as int) =~= ls);
    }
}

proof fn lemma_equal_lines_concat(a: Seq<Seq<char>>, ai: int, b: Seq<Seq<char>>, bi: int, len: int)
    requires
        equal_lines(a, ai, b, bi, len),
    ensures
        concat_range(a, ai, ai + len) == concat_range(b, bi, bi + len),
{
}

proof fn lemma_rebuild_none(
    old: Seq<Seq<char>>,
    new: Seq<Seq<char>>,
    groups: Seq<Seq<DiffOp>>,
    approvals: Seq<bool>,
    k: int,
)
    requires
        0 <= k <= groups.len(),
        k <= approvals.len(),
        groups_ordered(old, groups),
        forall|j: int| 0 <= j < approvals.len() ==> !approvals[j],
    ensures
        rebuild(old, new, groups, approvals, k) == (concat_range(old, 0, end_old(groups, k)), end_old(
            groups,
            k,
        )),
    decreases k,
{
    if k > 0 {
        lemma_rebuild_none(old, new, groups, approvals, k - 1);
        let g = groups[k - 1];
        assert(groups_ordered(old, groups) ==> g.len() > 0);
        let idx = end_old(groups, k - 1);
        let s = old_start(g[0]);
        let e = old_end(g.last());
        assert(0 <= idx <= e);
        if idx < s {
            lemma_concat_range_split(old, 0, idx, s);
            lemma_concat_range_split(old, 0, s, e);
        } else {
            assert(concat_range(old, idx, s) =~= Seq::<char>::empty());
            lemma_concat_range_split(old, 0, idx, e);
        }
        if idx == 0 {
            assert(concat_range(old, 0, 0) =~= Seq::<char>::empty());
        }
    }
}

/// Rejecting every hunk leaves the file as it is: with the hunks' old
/// ranges running forward, the rebuilt text is the old text.
pub proof fn lemma_reconstruct_none_approved(
    old: Seq<char>,
    new: Seq<char>,
    groups: Seq<Seq<DiffOp>>,
    approvals: Seq<bool>,
)
    requires
        groups_ordered(lines_incl(old), groups),
        forall|j: int| 0 <= j < approvals.len() ==> !approvals[j],
    ensures
        reconstruct_spec(lines_incl(old), lines_incl(new), groups, approvals) == old,
{
    let ol = lines_incl(old);
    let n = paired(groups, approvals);
    lemma_rebuild_none(ol, lines_incl(new), groups, approvals, n);
    let e = end_old(groups, n);
    assert(0 <= e <= ol.len()) by {
        if n > 0 {
            assert(groups_ordered(ol, groups) ==> groups[n - 1].len() > 0);
        }
    }
    lemma_concat_range_split(ol, 0, e, ol.len() as int);
    lemma_concat_range_full(ol);
    lemma_incl_concat(old, Seq::empty());
    assert(Seq::<char>::empty() + old =~= old);
}

proof fn lemma_ops_text_faithful(g: Seq<DiffOp>, old: Seq<Seq<char>>, new: Seq<Seq<char>>, j: int)
    requires
        group_faithful(g, old, new),
        1 <= j <= g.len(),
        new_start(g[0]) <= new.len(),
    ensures
        ops_text(g, old, new, j) == concat_range(new, new_start(g[0]), new_end(g[j - 1])),
        new_start(g[0]) <= new_end(g[j - 1]) <= new.len(),
    decreases j,
{
    let op = g[j - 1];
    assert(op_faithful(op, old, new));
    assert(new_start(op) <= new_end(op));
    if j > 1 {
        lemma_ops_text_faithful(g, old, new, j - 1);
        assert(new_start(g[j - 1]) == new_end(g[j - 2]));
        assert(new_start(op) <= new.len());
        lemma_concat_range_split(new, new_start(g[0]), new_start(op), new_end(op));
    } else {
        assert(ops_text(g, old, new, 0) =~= Seq::<char>::empty());
    }
    match op {
        DiffOp::Equal { old_index, new_index, len } => {
            lemma_equal_lines_concat(old, old_index as int, new, new_index as int, len as int);
        },
        DiffOp::Delete { .. } => {
            assert(concat_range(new, new_start(op), new_end(op)) =~= Seq::<char>::empty());
        },
        _ => {},
    }
    if j == 1 {
        assert(Seq::<char>::empty() + op_text(op, old, new) =~= op_text(op, old, new));
    }
}

proof fn lemma_rebuild_all(
    old: Seq<Seq<char>>,
    new: Seq<Seq<char>>,
    groups: Seq<Seq<DiffOp>>,
    approvals: Seq<bool>,
    k: int,
)
    requires
        0 <= k <= groups.len(),
        k <= approvals.len(),
        diff_faithful(old, new, groups),
        forall|j: int| 0 <= j < approvals.len() ==> approvals[j],
    ensures
        rebuild(old, new, groups, approvals, k) == (concat_range(new, 0, end_new(groups, k)), end_old(
            groups,
            k,
        )),
        0 <= end_new(groups, k) <= new.len(),
    decreases k,
{
    if k > 0 {
        lemma_rebuild_all(old, new, groups, approvals, k - 1);
        let g = groups[k - 1];
        assert(group_faithful(g, old, new));
        let idx = end_old(groups, k - 1);
        let nidx = end_new(groups, k - 1);
        let s = old_start(g[0]);
        let ns = new_start(g[0]);
        let gap = s - idx;
        assert(equal_lines(old, idx, new, nidx, gap));
        lemma_equal_lines_concat(old, idx, new, nidx, gap);
        lemma_ops_text_faithful(g, old, new, g.len() as int);
        lemma_concat_range_split(new, 0, nidx, ns);
        lemma_concat_range_split(new, 0, ns, new_end(g.last()));
        if nidx == 0 {
            assert(concat_range(new, 0, 0) =~= Seq::<char>::empty());
        }
        if gap == 0 {
            assert(concat_range(old, idx, s) =~= Seq::<char>::empty());
        }
    }
}

/// Accepting every hunk writes the generated text: when the groups are
/// the hunks of a line diff from the old lines to the new ones, rebuilding
/// with every hunk approved gives the new text.
pub proof fn lemma_reconstruct_all_approved(
    old: Seq<char>,
    new: Seq<char>,
    groups: Seq<Seq<DiffOp>>,
    approvals: Seq<bool>,
)
    requires
        diff_faithful(lines_incl(old), lines_incl(new), groups),
        approvals.len() == groups.len(),
        forall|j: int| 0 <= j < approvals.len() ==> approvals[j],
    ensures
        reconstruct_spec(lines_incl(old), lines_incl(new), groups, approvals) == new,
{
    let ol = lines_incl(old);
    let nl = lines_incl(new);
    let n = groups.len() as int;
    lemma_rebuild_all(ol, nl, groups, approvals, n);
    let e = end_old(groups, n);
    let ne = end_new(groups, n);
    lemma_equal_lines_concat(ol, e, nl, ne, ol.len() - e);
    lemma_concat_range_split(nl, 0, ne, nl.len() as int);
    lemma_concat_range_full(nl);
    lemma_incl_concat(new, Seq::empty());
    assert(Seq::<char>::empty() + new =~= new);
}

} // verus!

verus! {

/// The hunks `similar` groups the line diff from `old` to `new` into,
/// with `context` lines of context.
pub uninterp spec fn grouped_line_diff(old: Seq<char>, new: Seq<char>, context: usize) -> Seq<Seq<DiffOp>>;

/// Whether every `\r` in `s` starts a `\r\n` pair, so that splitting at
/// `\n` finds the same lines as splitting at every line terminator.
pub open spec fn no_lone_cr(s: Seq<char>) -> bool {
    forall|i: int| 0 <= i < s.len() && #[trigger] s[i] == '\r' ==> i + 1 < s.len() && s[i + 1] == '\n'
}

/// Every group of `groups` can be applied to `nold` old and `nnew` new
/// lines.
pub open spec fn groups_fit(groups: Seq<Seq<DiffOp>>, nold: int, nnew: int) -> bool {
    forall|k: int| 0 <= k < groups.len() ==> group_ok(#[trigger] groups[k], nold, nnew)
}

/// `similar::TextDiff::from_lines(old, new).grouped_ops(context)`, each op
/// as a [`DiffOp`]. similar splits lines after `\n`, `\r\n` or a lone
/// `\r`; where neither text holds a lone `\r` these are the lines of
/// [`lines_incl`], and the groups are the hunks of a line diff between
/// them (each op truthful, groups in order, equal lines between them), in
/// bounds on both sides.
#[verifier::external_body]
fn grouped_ops(old: &str, new: &str, context: usize) -> (r: Vec<Vec<DiffOp>>)
    ensures
        Seq::new(r@.len(), |k: int| r@[k]@) == grouped_line_diff(old@, new@, context),
        old@ == new@ ==> r@.len() == 0,
        no_lone_cr(old@) && no_lone_cr(new@) ==> diff_faithful(
            lines_incl(old@),
            lines_incl(new@),
            Seq::new(r@.len(), |k: int| r@[k]@),
        ),
        no_lone_cr(old@) && no_lone_cr(new@) ==> groups_ordered(
            lines_incl(old@),
            Seq::new(r@.len(), |k: int| r@[k]@),
        ),
        no_lone_cr(old@) && no_lone_cr(new@) ==> groups_fit(
            Seq::new(r@.len(), |k: int| r@[k]@),
            lines_incl(old@).len() as int,
            lines_incl(new@).len() as int,
        ),
{
    TextDiff::from_lines(old, new).grouped_ops(context).into_iter().map(|g| g.into_iter().map(|op| match op {
        similar::DiffOp::Equal { old_index, new_index, len } => DiffOp::Equal { old_index, new_index, len },
        similar::DiffOp::Delete { old_index, old_len, new_index } => DiffOp::Delete { old_index, old_len, new_index },
        similar::DiffOp::Insert { old_index, new_index, new_len } => DiffOp::Insert { old_index, new_index, new_len },
        similar::DiffOp::Replace { old_index, old_len, new_index, new_len } => DiffOp::Replace { old_index, old_len, new_index, new_len },
    }).collect()).collect()
}

/// The hunks of the line diff from the current text to the generated
/// one, each with three lines of context, as `apply` offers them one by
/// one.
pub fn diff_hunks(cur: &str, want: &str) -> (r: Vec<Vec<DiffOp>>)
    ensures
        Seq::new(r@.len(), |k: int| r@[k]@) == grouped_line_diff(cur@, want@, 3),
        cur@ == want@ ==> r@.len() == 0,
        (no_lone_cr(cur@) && no_lone_cr(want@)) || cur@ == want@ ==> diff_faithful(
            lines_incl(cur@),
            lines_incl(want@),
            Seq::new(r@.len(), |k: int| r@[k]@),
        ),
        (no_lone_cr(cur@) && no_lone_cr(want@)) || cur@ == want@ ==> groups_ordered(
            lines_incl(cur@),
            Seq::new(r@.len(), |k: int| r@[k]@),
        ),
        (no_lone_cr(cur@) && no_lone_cr(want@)) || cur@ == want@ ==> groups_fit(
            Seq::new(r@.len(), |k: int| r@[k]@),
            lines_incl(cur@).len() as int,
            lines_incl(want@).len() as int,
        ),
{
    let r = grouped_ops(cur, want, 3);
    proof {
        if cur@ == want@ {
            let gs = Seq::new(r@.len(), |k: int| r@[k]@);
            let l = lines_incl(cur@);
            assert(l.subrange(0, l.len() as int) =~= l);
            assert(end_old(gs, 0) == 0 && end_new(gs, 0) == 0);
        }
    }
    r
}

/// Whether every hunk of `groups` can be applied to the lines of `cur`
/// and `want`.
pub fn hunks_fit(cur: &str, want: &str, groups: &Vec<Vec<DiffOp>>) -> (r: bool)
    ensures
        r == groups_fit(
            Seq::new(groups@.len(), |k: int| groups@[k]@),
            lines_incl(cur@).len() as int,
            lines_incl(want@).len() as int,
        ),
{
    let ghost gs = Seq::new(groups@.len(), |k: int| groups@[k]@);
    let nold = split_inclusive(cur).len();
    let nnew = split_inclusive(want).len();
    let mut k: usize = 0;
    while k < groups.len()
        invariant
            k <= groups@.len(),
            gs == Seq::new(groups@.len(), |k: int| groups@[k]@),
            nold == lines_incl(cur@).len(),
            nnew == lines_incl(want@).len(),
            forall|j: int| 0 <= j < k ==> group_ok(#[trigger] gs[j], nold as int, nnew as int),
        decreases groups@.len() - k,
    {
        let g = &groups[k];
        assert(gs[k as int] == g@);
        if !group_fits(g, nold, nnew) {
            return false;
        }
        k = k + 1;
    }
    true
}

/// Whether one group can be applied to `nold` old and `nnew` new lines.
fn group_fits(g: &Vec<DiffOp>, nold: usize, nnew: usize) -> (r: bool)
    ensures
        r == group_ok(g@, nold as int, nnew as int),
{
    if g.len() == 0 {
        return false;
    }
    let first = op_start_fits(&g[0], nold);
    if !first {
        return false;
    }
    let mut j: usize = 0;
    while j < g.len()
        invariant
            0 < g@.len(),
            j <= g@.len(),
            forall|i: int|
                0 <= i < j ==> match #[trigger] g@[i] {
                    DiffOp::Equal { old_index, len, .. } => old_index + len <= nold,
                    DiffOp::Delete { .. } => true,
                    DiffOp::Insert { new_index, new_len, .. } => new_index + new_len <= nnew,
                    DiffOp::Replace { new_index, new_len, .. } => new_index + new_len <= nnew,
                },
        decreases g@.len() - j,
    {
        let ok = match g[j] {
            DiffOp::Equal { old_index, len, .. } => old_index as u128 + len as u128 <= nold as u128,
            DiffOp::Delete { .. } => true,
            DiffOp::Insert { new_index, new_len, .. } => new_index as u128 + new_len as u128 <= nnew as u128,
            DiffOp::Replace { new_index, new_len, .. } => new_index as u128 + new_len as u128 <= nnew as u128,
        };
        if !ok {
            return false;
        }
        j = j + 1;
    }
    op_end_fits(&g[g.len() - 1], nold)
}

/// Whether an op starts inside `nold` old lines.
fn op_start_fits(op: &DiffOp, nold: usize) -> (r: bool)
    ensures
        r == (0 <= old_start(*op) <= nold),
{
    op_old_start(op) <= nold
}

/// Whether an op ends inside `nold` old lines.
fn op_end_fits(op: &DiffOp, nold: usize) -> (r: bool)
    ensures
        r == (old_end(*op) <= nold),
{
    match *op {
        DiffOp::Equal { old_index, len, .. } => old_index as u128 + len as u128 <= nold as u128,
        DiffOp::Delete { old_index, old_len, .. } => old_index as u128 + old_len as u128 <= nold as u128,
        DiffOp::Insert { old_index, .. } => old_index <= nold,
        DiffOp::Replace { old_index, old_len, .. } => old_index as u128 + old_len as u128 <= nold as u128,
    }
}

/// Whether some hunk was approved.
pub open spec fn any_approved(approvals: Seq<bool>) -> bool {
    exists|i: int| 0 <= i < approvals.len() && approvals[i]
}

/// What a modified file becomes once its hunks were asked about: nothing
/// is written unless some hunk was approved; then the file is rebuilt from
/// the approved hunks. Approving every hunk of the line diff writes the
/// generated text.
pub fn hunk_outcome(cur: &str, want: &str, groups: &Vec<Vec<DiffOp>>, approvals: &[bool]) -> (r: Option<String>)
    requires
        groups_fit(
            Seq::new(groups@.len(), |k: int| groups@[k]@),
            lines_incl(cur@).len() as int,
            lines_incl(want@).len() as int,
        ),
    ensures
        r is Some <==> any_approved(approvals@),
        r matches Some(t) ==> t@ == reconstruct_spec(
            lines_incl(cur@),
            lines_incl(want@),
            Seq::new(groups@.len(), |k: int| groups@[k]@),
            approvals@,
        ),
        diff_faithful(lines_incl(cur@), lines_incl(want@), Seq::new(groups@.len(), |k: int| groups@[k]@))
            && approvals@.len() == groups@.len() && groups@.len() > 0 && (forall|j: int|
            0 <= j < approvals@.len() ==> approvals@[j]) ==> (r matches Some(t) && t@ == want@),
{
    let mut i: usize = 0;
    let mut any = false;
    while i < approvals.len()
        invariant
            i <= approvals@.len(),
            any == exists|j: int| 0 <= j < i && approvals@[j],
        decreases approvals@.len() - i,
    {
        if approvals[i] {
            any = true;
        }
        i = i + 1;
    }
    if !any {
        proof {
            if approvals@.len() > 0 {
                assert(!approvals@[0]);
            }
        }
        return None;
    }
    let gs = Ghost(Seq::new(groups@.len(), |k: int| groups@[k]@));
    assert forall|k: int| 0 <= k < groups@.len() implies group_ok(
        #[trigger] groups@[k]@,
        lines_incl(cur@).len() as int,
        lines_incl(want@).len() as int,
    ) by {
        assert(gs@[k] == groups@[k]@);
    }
    let t = reconstruct(cur, want, groups, approvals);
    proof {
        if diff_faithful(lines_incl(cur@), lines_incl(want@), gs@) && approvals@.len() == groups@.len() && (
        forall|j: int| 0 <= j < approvals@.len() ==> approvals@[j]) {
            lemma_reconstruct_all_approved(cur@, want@, gs@, approvals@);
        }
    }
    Some(t)
}

} // verus!

verus! {

/// How a managed file gets its contents: a body zenops renders, or a
/// symlink to a file in the zenops repo.
#[derive(Debug, Clone, PartialEq)]
pub enum ConfigFileSource {
    Generated(String),
    SymlinkFrom(ConfigFilePath),
}

/// A source with the repo-side path of a symlink resolved.
#[derive(Debug, Clone, PartialEq)]
pub enum ResolvedFileSource {
    Generated(String),
    SymlinkFrom { full: String, rel: ConfigFilePath },
}

/// A managed path and its source.
#[derive(Debug, Clone, PartialEq)]
pub struct FileEntry {
    pub path: ConfigFilePath,
    pub src: ResolvedFileSource,
}

/// What is at a path when it is not followed through a symlink.
#[derive(Debug, Clone, PartialEq)]
pub enum SymlinkInfo {
    /// A symlink pointing at this path.
    LinksTo(String),
    NotFound,
    NotSymlinkIsFile,
    NotSymlinkIsDir,
}

/// What the filesystem shows for one managed path.
#[derive(Debug, Clone, PartialEq)]
pub enum PathFacts {
    /// For a generated file: its current contents, `None` when nothing
    /// exists there.
    Generated { current: Option<String> },
    /// For a symlink: what is at its path, whether the repo-side file
    /// exists, and whether the directory it goes in exists (`None` when
    /// the path has no parent).
    Symlink { info: SymlinkInfo, real_exists: bool, parent_exists: Option<bool> },
}

/// Whether a resolved path has a parent in the same root.
pub open spec fn has_parent(path: ConfigFilePath, full: Seq<char>) -> bool {
    rel_text(path).len() > 0 && crate::output::event::fs_parent(full) is Some
}

/// The verdict on a symlink at `path` showing `info`, which should point
/// at `full`.
pub open spec fn symlink_verdict(
    st: SymlinkStatus,
    path: ConfigFilePath,
    at: Seq<char>,
    info: SymlinkInfo,
    full: Seq<char>,
    real_exists: bool,
    parent_exists: Option<bool>,
) -> bool {
    match info {
        SymlinkInfo::LinksTo(l) => if path_eq(l@, full) {
            st == (if real_exists {
                SymlinkStatus::Okay
            } else {
                SymlinkStatus::RealPathIsMissing
            })
        } else {
            st matches SymlinkStatus::WrongLink(w) && w@ == l@
        },
        SymlinkInfo::NotFound => if parent_exists == Some(false) && has_parent(path, at) {
            st matches SymlinkStatus::DstDirIsMissing { dir } && crate::output::event::fs_parent(at) == Some(
                dir.full@,
            ) && same_root(path, dir.path)
        } else {
            st == SymlinkStatus::New
        },
        SymlinkInfo::NotSymlinkIsFile => st == SymlinkStatus::IsFile,
        SymlinkInfo::NotSymlinkIsDir => st == SymlinkStatus::IsDir,
    }
}

/// `st` is the status of the managed path `path` with source `src`, given
/// what the filesystem shows there.
/// Whether a resolved path names `path`, at `full`.
pub open spec fn same_resolved(p: ResolvedConfigFilePath, path: ConfigFilePath, full: Seq<char>) -> bool {
    same_path(p.path, path) && p.full@ == full
}

/// `st` is the status of the managed path `path` (at `full`) with source
/// `src`, given what the filesystem shows there.
pub open spec fn status_of(st: Status, path: ConfigFilePath, full_at: Seq<char>, src: ResolvedFileSource, facts: PathFacts) -> bool {
    match (src, facts) {
        (ResolvedFileSource::Generated(content), PathFacts::Generated { current }) => st matches Status::Generated {
            want_content,
            cur_content,
            path: p,
            status,
        } && want_content@ == content@ && same_resolved(p, path, full_at) && match current {
            None => cur_content is None && status == FileStatus::New,
            Some(c) => cur_content matches Some(cc) && cc@ == c@ && status == (if c@ == content@ {
                FileStatus::Okay
            } else {
                FileStatus::Modified
            }),
        },
        (ResolvedFileSource::SymlinkFrom { full, rel }, PathFacts::Symlink { info, real_exists, parent_exists }) => st matches Status::Symlink {
            real: target,
            symlink,
            status,
        } && same_path(target.path, rel) && target.full@ == full@ && same_resolved(symlink, path, full_at) && symlink_verdict(
            status,
            path,
            full_at,
            info,
            full@,
            real_exists,
            parent_exists,
        ),
        _ => false,
    }
}

/// Whether the facts are of the kind the source needs.
pub open spec fn facts_fit(src: ResolvedFileSource, facts: PathFacts) -> bool {
    (src is Generated && facts is Generated) || (src is SymlinkFrom && facts is Symlink)
}

/// The status of one managed path.
pub fn entry_status(path: ResolvedConfigFilePath, src: &ResolvedFileSource, facts: PathFacts) -> (r: Status)
    requires
        facts_fit(*src, facts),
    ensures
        status_of(r, path.path, path.full@, *src, facts),
{
    match (src, facts) {
        (ResolvedFileSource::Generated(content), PathFacts::Generated { current }) => match current {
            None => Status::Generated {
                want_content: owned(content.as_str()),
                cur_content: None,
                path,
                status: FileStatus::New,
            },
            Some(cur) => {
                let status = if crate::text::str_eq(cur.as_str(), content.as_str()) {
                    FileStatus::Okay
                } else {
                    FileStatus::Modified
                };
                Status::Generated { want_content: owned(content.as_str()), cur_content: Some(cur), path, status }
            },
        },
        (ResolvedFileSource::SymlinkFrom { full, rel }, PathFacts::Symlink { info, real_exists, parent_exists }) => {
            let status = match info {
                SymlinkInfo::LinksTo(link) => if paths_equal(link.as_str(), full.as_str()) {
                    if real_exists {
                        SymlinkStatus::Okay
                    } else {
                        SymlinkStatus::RealPathIsMissing
                    }
                } else {
                    SymlinkStatus::WrongLink(link)
                },
                SymlinkInfo::NotFound => match parent_exists {
                    Some(false) => match path.parent() {
                        Some(dir) => SymlinkStatus::DstDirIsMissing { dir },
                        None => SymlinkStatus::New,
                    },
                    _ => SymlinkStatus::New,
                },
                SymlinkInfo::NotSymlinkIsFile => SymlinkStatus::IsFile,
                SymlinkInfo::NotSymlinkIsDir => SymlinkStatus::IsDir,
            };
            Status::Symlink {
                real: ResolvedConfigFilePath { path: rel.duplicate(), full: owned(full.as_str()) },
                symlink: path,
                status,
            }
        },
        _ => Status::GitRepoClean { repo: path },
    }
}

} // verus!

verus! {

/// The managed files of a registry, keyed by absolute path, in the order
/// they were first added.
pub uninterp spec fn file_map_entries(m: IndexMap<String, FileEntry, RandomState>) -> Seq<(Seq<char>, FileEntry)>;

/// `IndexMap::new`.
#[verifier::external_body]
fn file_map_new() -> (m: IndexMap<String, FileEntry>)
    ensures
        file_map_entries(m) == Seq::<(Seq<char>, FileEntry)>::empty(),
{
    IndexMap::new()
}

/// `IndexMap::insert`: an existing key keeps its place and takes the new
/// value; a new key is appended.
#[verifier::external_body]
fn file_map_insert(m: &mut IndexMap<String, FileEntry>, k: String, v: FileEntry)
    ensures
        file_map_entries(*final(m)) == entries_insert(file_map_entries(*old(m)), k@, v),
{
    m.insert(k, v);
}

/// `IndexMap::len`.
#[verifier::external_body]
fn file_map_len(m: &IndexMap<String, FileEntry>) -> (r: usize)
    ensures
        r == file_map_entries(*m).len(),
{
    m.len()
}

/// `IndexMap::get_index`: the entry at position `i`.
#[verifier::external_body]
fn file_map_entry<'a>(m: &'a IndexMap<String, FileEntry>, i: usize) -> (r: (&'a String, &'a FileEntry))
    requires
        i < file_map_entries(*m).len(),
    ensures
        r.0@ == file_map_entries(*m)[i as int].0,
        *r.1 == file_map_entries(*m)[i as int].1,
{
    m.get_index(i).unwrap()
}

/// `e` is the entry registered for `path` with source `src`.
pub open spec fn entry_for(e: FileEntry, path: ConfigFilePath, src: ConfigFileSource, dirs: ConfigFileDirs) -> bool {
    same_path(e.path, path) && match (src, e.src) {
        (ConfigFileSource::Generated(d), ResolvedFileSource::Generated(c)) => c@ == d@,
        (ConfigFileSource::SymlinkFrom(rel), ResolvedFileSource::SymlinkFrom { full, rel: r }) => same_path(r, rel)
            && full@ == resolved_text(rel, dirs),
        _ => false,
    }
}

/// The absolute path a managed path resolves to.
pub open spec fn resolved_text(p: ConfigFilePath, dirs: ConfigFileDirs) -> Seq<char> {
    push_segs(
        match p {
            ConfigFilePath::Home(_) => dirs.home@,
            ConfigFilePath::DotConfig(_) => dirs.config@,
            ConfigFilePath::Zenops(_) => dirs.zenops@,
        },
        normal_segs(segments(rel_text(p))),
    )
}

/// The files zenops manages, each with where its contents come from.
pub struct ConfigFiles<'dirs> {
    dirs: &'dirs ConfigFileDirs,
    files: IndexMap<String, FileEntry>,
}

impl<'dirs> ConfigFiles<'dirs> {
    /// The registered files in order: absolute path and entry.
    pub closed spec fn entries(&self) -> Seq<(Seq<char>, FileEntry)> {
        file_map_entries(self.files)
    }

    pub closed spec fn dirs(&self) -> ConfigFileDirs {
        *self.dirs
    }

    /// No files yet, resolved against `dirs`.
    pub fn new(dirs: &'dirs ConfigFileDirs) -> (r: Self)
        ensures
            r.entries() == Seq::<(Seq<char>, FileEntry)>::empty(),
            r.dirs() == *dirs,
    {
        ConfigFiles { dirs, files: file_map_new() }
    }

    /// Register a file. A second file at the same absolute path replaces
    /// the first, in its place.
    #[verifier::spinoff_prover]
    pub fn add(&mut self, path: ConfigFilePath, src: ConfigFileSource)
        ensures
            final(self).dirs() == old(self).dirs(),
            exists|e: FileEntry| entry_for(e, path, src, old(self).dirs()) && final(self).entries() == entries_insert(
                old(self).entries(),
                resolved_text(path, old(self).dirs()),
                e,
            ),
    {
        let full = path.resolved(self.dirs);
        let resolved = match &src {
            ConfigFileSource::Generated(data) => ResolvedFileSource::Generated(owned(data.as_str())),
            ConfigFileSource::SymlinkFrom(rel) => ResolvedFileSource::SymlinkFrom {
                full: rel.resolved(self.dirs),
                rel: rel.duplicate(),
            },
        };
        let entry = FileEntry { path: path.duplicate(), src: resolved };
        assert(entry_for(entry, path, src, *self.dirs));
        let ghost e = entry;
        let ghost before = self.entries();
        assert(full@ == resolved_text(path, old(self).dirs()));
        file_map_insert(&mut self.files, full, entry);
        assert(entry_for(e, path, src, old(self).dirs()) && self.entries() == entries_insert(
            before,
            resolved_text(path, old(self).dirs()),
            e,
        ));
    }

    /// How many files are registered.
    pub fn len(&self) -> (r: usize)
        ensures
            r == self.entries().len(),
    {
        file_map_len(&self.files)
    }

    /// The `i`-th registered file: its absolute path and entry.
    pub fn entry(&self, i: usize) -> (r: (&String, &FileEntry))
        requires
            i < self.entries().len(),
        ensures
            r.0@ == self.entries()[i as int].0,
            *r.1 == self.entries()[i as int].1,
    {
        file_map_entry(&self.files, i)
    }

    /// The status of every registered file, in order, given what the
    /// filesystem shows at each (`facts[i]` for the `i`-th file).
    pub fn check_status(&self, facts: Vec<PathFacts>) -> (r: Vec<Status>)
        requires
            facts@.len() == self.entries().len(),
            forall|i: int| 0 <= i < facts@.len() ==> facts_fit(#[trigger] self.entries()[i].1.src, facts@[i]),
        ensures
            r@.len() == self.entries().len(),
            forall|i: int| 0 <= i < r@.len() ==> status_of(
                #[trigger] r@[i],
                self.entries()[i].1.path,
                self.entries()[i].0,
                self.entries()[i].1.src,
                facts@[i],
            ),
    {
        let n = file_map_len(&self.files);
        let mut out: Vec<Status> = Vec::new();
        let mut facts = facts;
        let ghost orig = facts@;
        let mut i: usize = 0;
        while i < n
            invariant
                n == self.entries().len(),
                orig.len() == n,
                i <= n,
                out@.len() == i,
                facts@ == orig.skip(i as int),
                forall|k: int| 0 <= k < n ==> facts_fit(#[trigger] self.entries()[k].1.src, orig[k]),
                forall|k: int| 0 <= k < i ==> status_of(
                    #[trigger] out@[k],
                    self.entries()[k].1.path,
                    self.entries()[k].0,
                    self.entries()[k].1.src,
                    orig[k],
                ),
            decreases n - i,
        {
            let (full, entry) = file_map_entry(&self.files, i);
            let f = facts.remove(0);
            assert(f == orig[i as int]);
            assert(facts@ =~= orig.skip(i + 1));
            let path = ResolvedConfigFilePath { path: entry.path.duplicate(), full: owned(full.as_str()) };
            let st = entry_status(path, &entry.src, f);
            let ghost prev = out@;
            out.push(st);
            assert(forall|k: int| 0 <= k < i ==> out@[k] == prev[k]);
            i = i + 1;
        }
        out
    }
}

} // verus!

verus! {

/// What `apply` does about a file, given its status.
#[derive(Debug, Clone, Copy, PartialEq, Eq, Structural)]
pub enum ApplyStep {
    /// Already as wanted.
    Nothing,
    /// Ask, then write the file, creating its directory when missing.
    CreateFile,
    /// Ask about each hunk of the difference, then write the approved ones.
    UpdateFile,
    /// Ask, then create the symlink.
    CreateSymlink,
    /// Ask, then create the missing directory and the symlink in it.
    CreateSymlinkWithParent,
    /// Refuse: a regular file is where the symlink goes.
    RefuseFile,
    /// Refuse: a directory is where the symlink goes.
    RefuseDir,
    /// Show the symlink's current target, ask, then point it at the
    /// repo-side file.
    ReplaceWrongSymlink,
    /// Beyond `apply`: a missing repo-side
    /// file, something else in the way, or a status that is not about a
    /// managed file.
    Unsupported,
}

/// The step `apply` takes for a status.
pub open spec fn step_for(status: Status) -> ApplyStep {
    match status {
        Status::Generated { status: FileStatus::Okay, .. } => ApplyStep::Nothing,
        Status::Generated { status: FileStatus::New, .. } => ApplyStep::CreateFile,
        Status::Generated { status: FileStatus::Modified, .. } => ApplyStep::UpdateFile,
        Status::Symlink { status: SymlinkStatus::Okay, .. } => ApplyStep::Nothing,
        Status::Symlink { status: SymlinkStatus::New, .. } => ApplyStep::CreateSymlink,
        Status::Symlink { status: SymlinkStatus::DstDirIsMissing { .. }, .. } => ApplyStep::CreateSymlinkWithParent,
        Status::Symlink { status: SymlinkStatus::IsFile, .. } => ApplyStep::RefuseFile,
        Status::Symlink { status: SymlinkStatus::IsDir, .. } => ApplyStep::RefuseDir,
        Status::Symlink { status: SymlinkStatus::WrongLink(_), .. } => ApplyStep::ReplaceWrongSymlink,
        _ => ApplyStep::Unsupported,
    }
}

/// What `apply` does about a file once its questions were answered.
#[derive(Debug, Clone, Copy, PartialEq, Eq, Structural)]
pub enum ApplyAction {
    /// Leave the file alone: nothing to do, or the change was declined.
    Skip,
    /// Write the file, creating its directory when missing.
    CreateFile,
    /// Rewrite the file from the approved hunks.
    UpdateFile,
    /// Create the symlink.
    CreateSymlink,
    /// Create the missing directory, then the symlink in it.
    CreateDirAndSymlink,
    /// Point the existing symlink at the repo-side file.
    ReplaceSymlink,
    /// Stop: a regular file is where the symlink goes.
    RefuseFile,
    /// Stop: a directory is where the symlink goes.
    RefuseDir,
    /// Stop: `apply` cannot handle this status.
    Unsupported,
}

/// The action for `step` given the answers to its questions: one
/// yes/no for a step that asks once, one per hunk for an update. A "no"
/// skips the file without stopping the run; refusals stop whatever the
/// answers.
pub open spec fn apply_action_spec(step: ApplyStep, answers: Seq<bool>) -> ApplyAction {
    let yes = answers.len() > 0 && answers[0];
    match step {
        ApplyStep::Nothing => ApplyAction::Skip,
        ApplyStep::CreateFile => if yes { ApplyAction::CreateFile } else { ApplyAction::Skip },
        ApplyStep::UpdateFile => if any_approved(answers) { ApplyAction::UpdateFile } else { ApplyAction::Skip },
        ApplyStep::CreateSymlink => if yes { ApplyAction::CreateSymlink } else { ApplyAction::Skip },
        ApplyStep::CreateSymlinkWithParent => if yes {
            ApplyAction::CreateDirAndSymlink
        } else {
            ApplyAction::Skip
        },
        ApplyStep::ReplaceWrongSymlink => if yes { ApplyAction::ReplaceSymlink } else { ApplyAction::Skip },
        ApplyStep::RefuseFile => ApplyAction::RefuseFile,
        ApplyStep::RefuseDir => ApplyAction::RefuseDir,
        ApplyStep::Unsupported => ApplyAction::Unsupported,
    }
}

/// What `apply` does about each kind of file status: a generated file
/// that is missing is created, one that differs is updated hunk by hunk,
/// one as wanted is left alone; a missing symlink is created (with its
/// directory when that is missing too), a symlink pointing elsewhere is
/// re-pointed, and a file or directory in a symlink's place is refused.
/// A "yes" to a step that asks carries it out; a "no" leaves the file
/// alone.
pub proof fn lemma_apply_steps_by_status(st: Status)
    ensures
        st matches Status::Generated { status: FileStatus::New, .. } ==> step_for(st) == ApplyStep::CreateFile
            && apply_action_spec(step_for(st), seq![true]) == ApplyAction::CreateFile && apply_action_spec(
            step_for(st),
            seq![false],
        ) == ApplyAction::Skip,
        st matches Status::Generated { status: FileStatus::Modified, .. } ==> step_for(st) == ApplyStep::UpdateFile
            && apply_action_spec(step_for(st), seq![false, true]) == ApplyAction::UpdateFile && apply_action_spec(
            step_for(st),
            seq![false, false],
        ) == ApplyAction::Skip,
        st matches Status::Generated { status: FileStatus::Okay, .. } ==> step_for(st) == ApplyStep::Nothing
            && apply_action_spec(step_for(st), seq![true]) == ApplyAction::Skip,
        st matches Status::Symlink { status: SymlinkStatus::Okay, .. } ==> step_for(st) == ApplyStep::Nothing,
        st matches Status::Symlink { status: SymlinkStatus::New, .. } ==> step_for(st) == ApplyStep::CreateSymlink
            && apply_action_spec(step_for(st), seq![true]) == ApplyAction::CreateSymlink,
        st matches Status::Symlink { status: SymlinkStatus::DstDirIsMissing { .. }, .. } ==> step_for(st)
            == ApplyStep::CreateSymlinkWithParent && apply_action_spec(step_for(st), seq![true])
            == ApplyAction::CreateDirAndSymlink,
        st matches Status::Symlink { status: SymlinkStatus::WrongLink(_), .. } ==> step_for(st)
            == ApplyStep::ReplaceWrongSymlink && apply_action_spec(step_for(st), seq![true])
            == ApplyAction::ReplaceSymlink && apply_action_spec(step_for(st), seq![false]) == ApplyAction::Skip,
        st matches Status::Symlink { status: SymlinkStatus::IsFile, .. } ==> step_for(st) == ApplyStep::RefuseFile
            && apply_action_spec(step_for(st), seq![true]) == ApplyAction::RefuseFile,
        st matches Status::Symlink { status: SymlinkStatus::IsDir, .. } ==> step_for(st) == ApplyStep::RefuseDir
            && apply_action_spec(step_for(st), seq![true]) == ApplyAction::RefuseDir,
{
    assert(seq![false, true][1]);
    assert(!any_approved(seq![false, false])) by {
        if any_approved(seq![false, false]) {
            let i = choose|i: int| 0 <= i < 2 && seq![false, false][i];
        }
    }
}

/// A "no" to every question never writes anything, whatever the step, and
/// a file whose step asks nothing is never written.
pub proof fn lemma_no_never_writes(step: ApplyStep, answers: Seq<bool>)
    requires
        forall|i: int| 0 <= i < answers.len() ==> !answers[i],
    ensures
        apply_action_spec(step, answers) == ApplyAction::Skip || apply_action_spec(step, answers)
            == ApplyAction::RefuseFile || apply_action_spec(step, answers) == ApplyAction::RefuseDir
            || apply_action_spec(step, answers) == ApplyAction::Unsupported,
{
    if any_approved(answers) {
        let i = choose|i: int| 0 <= i < answers.len() && answers[i];
    }
}

/// Decide what `apply` does about a file from its step and the answers.
pub fn apply_decision(step: ApplyStep, answers: &[bool]) -> (r: ApplyAction)
    ensures
        r == apply_action_spec(step, answers@),
{
    let yes = answers.len() > 0 && answers[0];
    match step {
        ApplyStep::Nothing => ApplyAction::Skip,
        ApplyStep::CreateFile => if yes { ApplyAction::CreateFile } else { ApplyAction::Skip },
        ApplyStep::UpdateFile => {
            let mut i: usize = 0;
            let mut any = false;
            while i < answers.len()
                invariant
                    i <= answers@.len(),
                    any == exists|j: int| 0 <= j < i && answers@[j],
                decreases answers@.len() - i,
            {
                if answers[i] {
                    any = true;
                }
                i = i + 1;
            }
            if any { ApplyAction::UpdateFile } else { ApplyAction::Skip }
        },
        ApplyStep::CreateSymlink => if yes { ApplyAction::CreateSymlink } else { ApplyAction::Skip },
        ApplyStep::CreateSymlinkWithParent => if yes {
            ApplyAction::CreateDirAndSymlink
        } else {
            ApplyAction::Skip
        },
        ApplyStep::ReplaceWrongSymlink => if yes { ApplyAction::ReplaceSymlink } else { ApplyAction::Skip },
        ApplyStep::RefuseFile => ApplyAction::RefuseFile,
        ApplyStep::RefuseDir => ApplyAction::RefuseDir,
        ApplyStep::Unsupported => ApplyAction::Unsupported,
    }
}

/// Once `apply` has written a generated file's wanted contents, checking
/// the file again finds it as wanted, and `apply` has nothing left to do.
pub proof fn lemma_written_file_needs_nothing(st: Status, path: ConfigFilePath, at: Seq<char>, content: String)
    requires
        status_of(
            st,
            path,
            at,
            ResolvedFileSource::Generated(content),
            PathFacts::Generated { current: Some(content) },
        ),
    ensures
        step_for(st) == ApplyStep::Nothing,
{
}

/// Once the symlink at a managed path points at its repo-side file and that
/// file exists, checking it again finds it as wanted, and `apply` has
/// nothing left to do.
pub proof fn lemma_linked_file_needs_nothing(
    st: Status,
    path: ConfigFilePath,
    at: Seq<char>,
    full: String,
    rel: ConfigFilePath,
    link: String,
    parent_exists: Option<bool>,
)
    requires
        path_eq(link@, full@),
        status_of(
            st,
            path,
            at,
            ResolvedFileSource::SymlinkFrom { full, rel },
            PathFacts::Symlink { info: SymlinkInfo::LinksTo(link), real_exists: true, parent_exists },
        ),
    ensures
        step_for(st) == ApplyStep::Nothing,
{
}

/// The step `apply` takes for a status.
pub fn apply_step(status: &Status) -> (r: ApplyStep)
    ensures
        r == step_for(*status),
{
    match status {
        Status::Generated { status: st, .. } => match st {
            FileStatus::Okay => ApplyStep::Nothing,
            FileStatus::New => ApplyStep::CreateFile,
            FileStatus::Modified => ApplyStep::UpdateFile,
        },
        Status::Symlink { status: st, .. } => match st {
            SymlinkStatus::Okay => ApplyStep::Nothing,
            SymlinkStatus::New => ApplyStep::CreateSymlink,
            SymlinkStatus::DstDirIsMissing { .. } => ApplyStep::CreateSymlinkWithParent,
            SymlinkStatus::IsFile => ApplyStep::RefuseFile,
            SymlinkStatus::IsDir => ApplyStep::RefuseDir,
            SymlinkStatus::WrongLink(_) => ApplyStep::ReplaceWrongSymlink,
            _ => ApplyStep::Unsupported,
        },
        _ => ApplyStep::Unsupported,
    }
}

} // verus!

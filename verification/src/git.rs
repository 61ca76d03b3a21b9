//! Interpretation of the output of the `git` commands zenops runs on its
//! config repo.

use vstd::prelude::*;

use crate::error::Error;
use crate::safe_path;
use crate::safe_path::{is_safe, SafeRelativePath, SafeRelativePathBuf};
use crate::text::{
    first_idx, lemma_first_idx_at, lines_of, owned, split_lines, str_chars, str_eq,
    string_from_range, trim, trim_spec, views,
};

verus! {

/// Summary of a single file's state in `git status --porcelain=v2`. The
/// effective state is reduced from the worktree side (Y) of the XY pair,
/// falling back to the index side (X) when Y is `.`.
#[derive(Debug, PartialEq, Clone)]
pub enum GitFileStatus {
    /// Tracked file modified (also covers type-change, rename, copy).
    Modified(SafeRelativePathBuf),
    /// New file staged for commit.
    Added(SafeRelativePathBuf),
    /// Tracked file deleted.
    Deleted(SafeRelativePathBuf),
    /// Untracked file present in the worktree.
    Untracked(SafeRelativePathBuf),
    /// Anything else; raw porcelain code retained for diagnostics.
    Other {
        /// Raw XY status code.
        code: String,
        /// File path as reported by git.
        path: SafeRelativePathBuf,
    },
}

/// The text of a [`GitFileStatus`].
pub enum GitStatusView {
    Modified(Seq<char>),
    Added(Seq<char>),
    Deleted(Seq<char>),
    Untracked(Seq<char>),
    Other(Seq<char>, Seq<char>),
}

impl View for GitFileStatus {
    type V = GitStatusView;

    open spec fn view(&self) -> GitStatusView {
        match self {
            GitFileStatus::Modified(p) => GitStatusView::Modified(p@),
            GitFileStatus::Added(p) => GitStatusView::Added(p@),
            GitFileStatus::Deleted(p) => GitStatusView::Deleted(p@),
            GitFileStatus::Untracked(p) => GitStatusView::Untracked(p@),
            GitFileStatus::Other { code, path } => GitStatusView::Other(code@, path@),
        }
    }
}

/// The views of a list of statuses.
pub open spec fn status_views(v: Seq<GitFileStatus>) -> Seq<GitStatusView> {
    Seq::new(v.len(), |i: int| v[i]@)
}

/// Whether the trimmed output of `git rev-parse --is-inside-work-tree`
/// says the directory is inside a working tree: only `true` does.
pub fn parse_is_inside_work_tree(raw: &str) -> (r: bool)
    ensures
        r == (trim_spec(raw@) == "true"@),
{
    let t = trim(raw);
    str_eq(t.as_str(), "true")
}

/// The status an `XY` code stands for: the worktree side `Y` unless it is
/// `.`, then the index side `X`.
pub open spec fn xy_status(xy: Seq<char>, path: Seq<char>) -> GitStatusView {
    let x = if xy.len() > 0 { xy[0] } else { '.' };
    let y = if xy.len() > 1 { xy[1] } else { '.' };
    let e = if y != '.' { y } else { x };
    if e == 'M' || e == 'T' || e == 'R' || e == 'C' {
        GitStatusView::Modified(path)
    } else if e == 'A' {
        GitStatusView::Added(path)
    } else if e == 'D' {
        GitStatusView::Deleted(path)
    } else {
        GitStatusView::Other(xy, path)
    }
}

/// Two statuses are of the same kind for the same path (an unknown code
/// aside).
pub open spec fn same_kind(a: GitStatusView, b: GitStatusView) -> bool {
    match (a, b) {
        (GitStatusView::Modified(p), GitStatusView::Modified(q)) => p == q,
        (GitStatusView::Added(p), GitStatusView::Added(q)) => p == q,
        (GitStatusView::Deleted(p), GitStatusView::Deleted(q)) => p == q,
        (GitStatusView::Untracked(p), GitStatusView::Untracked(q)) => p == q,
        (GitStatusView::Other(_, p), GitStatusView::Other(_, q)) => p == q,
        _ => false,
    }
}

/// How a porcelain `XY` pair is read: the worktree side `Y` decides unless
/// it is `.`, then the index side `X` does, so a change reads the same
/// whether it is staged or not; `D` is a deletion, `A` an addition, `M`,
/// `T`, `R` and `C` modifications, anything else an unknown code kept as
/// it is; the path is always the one given.
pub proof fn lemma_xy_effective_code(x: char, y: char, p: Seq<char>)
    ensures
        same_kind(xy_status(seq![x, '.'], p), xy_status(seq!['.', x], p)),
        y != '.' ==> same_kind(xy_status(seq![x, y], p), xy_status(seq!['.', y], p)),
        xy_status(seq!['.', 'D'], p) == GitStatusView::Deleted(p),
        xy_status(seq!['D', '.'], p) == GitStatusView::Deleted(p),
        xy_status(seq!['.', 'A'], p) == GitStatusView::Added(p),
        xy_status(seq!['A', '.'], p) == GitStatusView::Added(p),
        (y == 'M' || y == 'T' || y == 'R' || y == 'C') ==> xy_status(seq![x, y], p) == GitStatusView::Modified(p),
        (x == 'M' || x == 'T' || x == 'R' || x == 'C') ==> xy_status(seq![x, '.'], p) == GitStatusView::Modified(p),
        !(y == '.' || y == 'M' || y == 'T' || y == 'R' || y == 'C' || y == 'A' || y == 'D') ==> xy_status(
            seq![x, y],
            p,
        ) == GitStatusView::Other(seq![x, y], p),
{
}

/// Reduce a porcelain=v2 `XY` pair to the kind of change it stands for.
pub fn status_from_xy(xy: &str, path: SafeRelativePathBuf) -> (r: GitFileStatus)
    ensures
        r@ == xy_status(xy@, path@),
{
    let n = xy.unicode_len();
    let x = if n > 0 { xy.get_char(0) } else { '.' };
    let y = if n > 1 { xy.get_char(1) } else { '.' };
    let e = if y != '.' { y } else { x };
    if e == 'M' || e == 'T' || e == 'R' || e == 'C' {
        GitFileStatus::Modified(path)
    } else if e == 'A' {
        GitFileStatus::Added(path)
    } else if e == 'D' {
        GitFileStatus::Deleted(path)
    } else {
        GitFileStatus::Other { code: owned(xy), path }
    }
}

/// The first space-separated field of `t` and what follows the space, as
/// `split_once(' ')` gives them; `None` when `t` is empty.
pub open spec fn take_field(t: Seq<char>) -> Option<(Seq<char>, Seq<char>)> {
    if t.len() == 0 {
        None
    } else {
        let j = first_idx(t, ' ');
        if j < t.len() {
            Some((t.take(j), t.skip(j + 1)))
        } else {
            Some((t, Seq::empty()))
        }
    }
}

/// What is left of `t` after `n` fields, if it has that many.
pub open spec fn skip_fields(t: Seq<char>, n: nat) -> Option<Seq<char>>
    decreases n,
{
    if n == 0 {
        Some(t)
    } else {
        match take_field(t) {
            None => None,
            Some((_, rest)) => skip_fields(rest, (n - 1) as nat),
        }
    }
}

/// What one line of porcelain output amounts to.
pub enum LineEntry {
    /// A line that lists no file.
    Skip,
    /// A file and its status.
    Status(GitStatusView),
    /// A file whose path leaves the repository.
    Unsafe(Seq<char>),
}

/// The entry for `path` with status `st`, unless the path is unsafe.
pub open spec fn path_entry(path: Seq<char>, st: GitStatusView) -> LineEntry {
    if is_safe(path) {
        LineEntry::Status(st)
    } else {
        LineEntry::Unsafe(path)
    }
}

/// How many metadata fields follow the `XY` field on a line of each tag.
pub open spec fn meta_fields(tag: Seq<char>) -> nat {
    if tag == seq!['1'] {
        6
    } else if tag == seq!['2'] {
        7
    } else {
        8
    }
}

/// Whether `tag` starts a line that carries an `XY` field.
pub open spec fn has_xy(tag: Seq<char>) -> bool {
    tag == seq!['1'] || tag == seq!['2'] || tag == seq!['u']
}

/// The path of a rename line: the new path, before the tab.
pub open spec fn before_tab(p: Seq<char>) -> Seq<char> {
    p.take(first_idx(p, '\t'))
}

/// What a porcelain=v2 line lists.
pub open spec fn line_entry(l: Seq<char>) -> LineEntry {
    match take_field(l) {
        None => LineEntry::Skip,
        Some((tag, rest)) => if has_xy(tag) {
            match take_field(rest) {
                None => LineEntry::Skip,
                Some((xy, r2)) => match skip_fields(r2, meta_fields(tag)) {
                    None => LineEntry::Skip,
                    Some(p) => if tag == seq!['1'] {
                        path_entry(p, xy_status(xy, p))
                    } else if tag == seq!['2'] {
                        path_entry(before_tab(p), xy_status(xy, before_tab(p)))
                    } else {
                        path_entry(p, GitStatusView::Other(xy, p))
                    },
                },
            }
        } else if tag == seq!['?'] {
            path_entry(rest, GitStatusView::Untracked(rest))
        } else {
            LineEntry::Skip
        },
    }
}

/// Whether a line has the fields its tag calls for (git always writes
/// them; a line that lacks one is not porcelain=v2 output).
pub open spec fn line_ok(l: Seq<char>) -> bool {
    match take_field(l) {
        None => false,
        Some((tag, rest)) => has_xy(tag) ==> match take_field(rest) {
            None => false,
            Some((_, r2)) => skip_fields(r2, meta_fields(tag)) is Some,
        },
    }
}

/// The statuses listed by `ls`, or the first unsafe path among them.
pub open spec fn parse_lines(ls: Seq<Seq<char>>) -> Result<Seq<GitStatusView>, Seq<char>>
    decreases ls.len(),
{
    if ls.len() == 0 {
        Ok(Seq::empty())
    } else {
        match parse_lines(ls.drop_last()) {
            Err(p) => Err(p),
            Ok(v) => match line_entry(ls.last()) {
                LineEntry::Skip => Ok(v),
                LineEntry::Status(st) => Ok(v.push(st)),
                LineEntry::Unsafe(p) => Err(p),
            },
        }
    }
}

/// Once a prefix of the lines reports an unsafe path, so do all the lines.
proof fn lemma_parse_prefix_err(ls: Seq<Seq<char>>, k: int)
    requires
        0 <= k <= ls.len(),
        parse_lines(ls.take(k)) is Err,
    ensures
        parse_lines(ls) == parse_lines(ls.take(k)),
    decreases ls.len() - k,
{
    if k == ls.len() {
        assert(ls.take(k) =~= ls);
    } else {
        assert(ls.take(k + 1).drop_last() =~= ls.take(k));
        lemma_parse_prefix_err(ls, k + 1);
    }
}

/// Whether every line of `s` is well formed.
pub open spec fn porcelain_ok(s: Seq<char>) -> bool {
    forall|i: int| 0 <= i < lines_of(s).len() ==> line_ok(#[trigger] lines_of(s)[i])
}

/// Whether one line has the fields its tag calls for.
fn line_is_ok(l: &[char]) -> (r: bool)
    ensures
        r == line_ok(l@),
{
    assert(l@.skip(0) =~= l@);
    let (tag_end, after_tag) = match next_field(l, 0) {
        Some(x) => x,
        None => {
            return false;
        },
    };
    let ghost tag = l@.subrange(0, tag_end as int);
    let one = tag_end == 1 && l[0] == '1';
    let two = tag_end == 1 && l[0] == '2';
    let unmerged = tag_end == 1 && l[0] == 'u';
    proof {
        if tag_end == 1 {
            assert(tag =~= seq![l@[0]]);
        }
        assert(seq!['1'].len() == 1 && seq!['1'][0] == '1');
        assert(seq!['2'].len() == 1 && seq!['2'][0] == '2');
        assert(seq!['u'].len() == 1 && seq!['u'][0] == 'u');
    }
    assert(one == (tag == seq!['1']));
    assert(two == (tag == seq!['2']));
    assert(unmerged == (tag == seq!['u']));
    if !(one || two || unmerged) {
        return true;
    }
    let (_, after_xy) = match next_field(l, after_tag) {
        Some(x) => x,
        None => {
            return false;
        },
    };
    let meta: usize = if one { 6 } else if two { 7 } else { 8 };
    skip_n(l, after_xy, meta).is_some()
}

/// Whether every line of `out` is well formed, so that
/// [`parse_porcelain_v2`] can read it.
pub fn porcelain_is_ok(out: &str) -> (r: bool)
    ensures
        r == porcelain_ok(out@),
{
    let lines = split_lines(out);
    let ghost ls = lines_of(out@);
    let mut i: usize = 0;
    while i < lines.len()
        invariant
            i <= lines@.len(),
            views(lines@) == ls,
            ls == lines_of(out@),
            forall|j: int| 0 <= j < i ==> line_ok(#[trigger] ls[j]),
        decreases lines@.len() - i,
    {
        let cs = str_chars(lines[i].as_str());
        assert(cs@ == ls[i as int]);
        if !line_is_ok(cs.as_slice()) {
            return false;
        }
        i = i + 1;
    }
    true
}

/// The first field of `l` from `start` on: its end, and where the next
/// field starts.
fn next_field(l: &[char], start: usize) -> (r: Option<(usize, usize)>)
    requires
        start <= l@.len(),
    ensures
        match take_field(l@.skip(start as int)) {
            None => r is None,
            Some((f, rest)) => r matches Some((e, n)) && start <= e <= n <= l@.len() && f
                == l@.subrange(start as int, e as int) && rest == l@.skip(n as int),
        },
{
    let len = l.len();
    if start == len {
        return None;
    }
    let mut k = start;
    while k < len && l[k] != ' '
        invariant
            start <= k <= len,
            len == l@.len(),
            forall|m: int| start <= m < k ==> l@[m] != ' ',
        decreases len - k,
    {
        k = k + 1;
    }
    let ghost t = l@.skip(start as int);
    proof {
        lemma_first_idx_at(t, ' ', k - start);
    }
    if k < len {
        assert(t.take(k - start) =~= l@.subrange(start as int, k as int));
        assert(t.skip(k - start + 1) =~= l@.skip(k + 1));
        Some((k, k + 1))
    } else {
        assert(t =~= l@.subrange(start as int, k as int));
        assert(l@.skip(len as int) =~= Seq::<char>::empty());
        Some((k, k))
    }
}

/// Where the text after `n` fields of `l` from `start` begins.
fn skip_n(l: &[char], start: usize, n: usize) -> (r: Option<usize>)
    requires
        start <= l@.len(),
    ensures
        match skip_fields(l@.skip(start as int), n as nat) {
            None => r is None,
            Some(rest) => r matches Some(k) && start <= k <= l@.len() && rest == l@.skip(k as int),
        },
    decreases n,
{
    if n == 0 {
        return Some(start);
    }
    match next_field(l, start) {
        None => None,
        Some((_, next)) => skip_n(l, next, n - 1),
    }
}

/// Wrap a path that the line's own check found safe, or report it.
fn checked_path(l: &[char], lo: usize, hi: usize) -> (r: Result<SafeRelativePathBuf, Error>)
    requires
        lo <= hi <= l@.len(),
    ensures
        is_safe(l@.subrange(lo as int, hi as int)) ==> (r matches Ok(p) && p@ == l@.subrange(
            lo as int,
            hi as int,
        )),
        !is_safe(l@.subrange(lo as int, hi as int)) ==> (r matches Err(
            Error::SafeRelativePath(safe_path::Error::PathGoesOutsideParent(s)),
        ) && s@ == l@.subrange(lo as int, hi as int)),
{
    let s = string_from_range(l, lo, hi);
    match SafeRelativePath::from_relative_path(s.as_str()) {
        Ok(p) => Ok(p),
        Err(e) => Err(Error::SafeRelativePath(e)),
    }
}

/// Parse one line of porcelain=v2 output.
fn parse_line(l: &[char]) -> (r: Result<Option<GitFileStatus>, Error>)
    requires
        line_ok(l@),
    ensures
        match line_entry(l@) {
            LineEntry::Skip => r matches Ok(None),
            LineEntry::Status(st) => r matches Ok(Some(g)) && g@ == st,
            LineEntry::Unsafe(p) => r matches Err(
                Error::SafeRelativePath(safe_path::Error::PathGoesOutsideParent(s)),
            ) && s@ == p,
        },
{
    let len = l.len();
    assert(l@.skip(0) =~= l@);
    let (tag_end, after_tag) = match next_field(l, 0) {
        Some(x) => x,
        None => { return Ok(None); },
    };
    let ghost tag = l@.subrange(0, tag_end as int);
    let one = tag_end == 1 && l[0] == '1';
    let two = tag_end == 1 && l[0] == '2';
    let unmerged = tag_end == 1 && l[0] == 'u';
    let untracked = tag_end == 1 && l[0] == '?';
    proof {
        if tag_end == 1 {
            assert(tag =~= seq![l@[0]]);
        }
        assert(seq!['1'].len() == 1 && seq!['1'][0] == '1');
        assert(seq!['2'].len() == 1 && seq!['2'][0] == '2');
        assert(seq!['u'].len() == 1 && seq!['u'][0] == 'u');
        assert(seq!['?'].len() == 1 && seq!['?'][0] == '?');
    }
    assert(one == (tag == seq!['1']));
    assert(two == (tag == seq!['2']));
    assert(unmerged == (tag == seq!['u']));
    assert(untracked == (tag == seq!['?']));
    if one || two || unmerged {
        let (xy_end, after_xy) = match next_field(l, after_tag) {
            Some(x) => x,
            None => { return Ok(None); },
        };
        let meta: usize = if one { 6 } else if two { 7 } else { 8 };
        let p = match skip_n(l, after_xy, meta) {
            Some(k) => k,
            None => { return Ok(None); },
        };
        let xy = string_from_range(l, after_tag, xy_end);
        if one {
            let path = checked_path(l, p, len)?;
            assert(l@.subrange(p as int, len as int) =~= l@.skip(p as int));
            Ok(Some(status_from_xy(xy.as_str(), path)))
        } else if two {
            let mut k = p;
            while k < len && l[k] != '\t'
                invariant
                    p <= k <= len,
                    len == l@.len(),
                    forall|m: int| p <= m < k ==> l@[m] != '\t',
                decreases len - k,
            {
                k = k + 1;
            }
            proof {
                lemma_first_idx_at(l@.skip(p as int), '\t', k - p);
                assert(before_tab(l@.skip(p as int)) =~= l@.subrange(p as int, k as int));
            }
            let path = checked_path(l, p, k)?;
            Ok(Some(status_from_xy(xy.as_str(), path)))
        } else {
            let path = checked_path(l, p, len)?;
            assert(l@.subrange(p as int, len as int) =~= l@.skip(p as int));
            Ok(Some(GitFileStatus::Other { code: xy, path }))
        }
    } else if untracked {
        let path = checked_path(l, after_tag, len)?;
        assert(l@.subrange(after_tag as int, len as int) =~= l@.skip(after_tag as int));
        Ok(Some(GitFileStatus::Untracked(path)))
    } else {
        Ok(None)
    }
}

/// Parse the raw stdout of `git status --porcelain=v2` into per-file
/// entries: renames at their new path, ignored (`!`) and unknown lines
/// skipped, unmerged entries as [`GitFileStatus::Other`], and the first
/// path that leaves the repository reported as an error.
pub fn parse_porcelain_v2(out: &str) -> (r: Result<Vec<GitFileStatus>, Error>)
    requires
        porcelain_ok(out@),
    ensures
        match parse_lines(lines_of(out@)) {
            Ok(v) => r matches Ok(statuses) && status_views(statuses@) == v,
            Err(p) => r matches Err(
                Error::SafeRelativePath(safe_path::Error::PathGoesOutsideParent(s)),
            ) && s@ == p,
        },
{
    let lines = split_lines(out);
    let ghost ls = lines_of(out@);
    let mut ret: Vec<GitFileStatus> = Vec::new();
    let mut i: usize = 0;
    assert(ls.take(0) =~= Seq::<Seq<char>>::empty());
    assert(status_views(ret@) =~= Seq::<GitStatusView>::empty());
    while i < lines.len()
        invariant
            i <= lines@.len(),
            views(lines@) == ls,
            ls == lines_of(out@),
            porcelain_ok(out@),
            parse_lines(ls.take(i as int)) == Ok::<Seq<GitStatusView>, Seq<char>>(
                status_views(ret@),
            ),
        decreases lines@.len() - i,
    {
        let cs = str_chars(lines[i].as_str());
        assert(cs@ == ls[i as int]);
        assert(ls.take(i + 1).drop_last() =~= ls.take(i as int));
        assert(ls.take(i + 1).last() == ls[i as int]);
        let ghost before = status_views(ret@);
        match parse_line(cs.as_slice()) {
            Ok(Some(g)) => {
                ret.push(g);
                assert(status_views(ret@) =~= before.push(g@));
            },
            Ok(None) => {},
            Err(e) => {
                proof {
                    lemma_parse_prefix_err(ls, i + 1);
                }
                return Err(e);
            },
        }
        i = i + 1;
    }
    assert(ls.take(i as int) =~= ls);
    Ok(ret)
}

// ---------- the git commands zenops runs ----------

/// The git operations `zenops repo <cmd>` passes through to the config
/// repo.
#[derive(Debug, Clone, PartialEq)]
pub enum GitCmd {
    /// `git status [-- <files>...]`.
    Status { files: Vec<SafeRelativePathBuf> },
    /// `git diff [-- <files>...]`.
    Diff { files: Vec<SafeRelativePathBuf> },
    /// `git add [-- <files>...]`.
    Add { files: Vec<SafeRelativePathBuf> },
    /// `git pull`, with `--rebase` (an empty value) or `--rebase=<value>`.
    Pull { rebase: Option<String> },
    /// `git commit`, with `-a` and `-m <message>` when given.
    Commit { all: bool, message: Option<String> },
    /// `git push`.
    Push {},
}

pub open spec fn path_texts(files: Seq<SafeRelativePathBuf>) -> Seq<Seq<char>> {
    Seq::new(files.len(), |i: int| files[i]@)
}

/// The arguments of `zenops repo commit`: `commit` first, `-a` right
/// after it exactly when `all` is set, and `-m` with the message last
/// exactly when a message is given.
pub proof fn lemma_commit_args(all: bool, message: Option<String>)
    ensures
        ({
            let args = git_cmd_args(GitCmd::Commit { all, message });
            &&& args[0] == "commit"@
            &&& args.len() == 1 + (if all { 1int } else { 0int }) + (if message is Some { 2int } else { 0int })
            &&& all <==> (args.len() > 1 && args[1] == "-a"@)
            &&& message matches Some(m) ==> args[args.len() - 2] == "-m"@ && args.last() == m@
            &&& message is None ==> !args.contains("-m"@)
        }),
{
    reveal_strlit("-a");
    reveal_strlit("-m");
    reveal_strlit("commit");
    let args = git_cmd_args(GitCmd::Commit { all, message });
    assert("-a"@ != "-m"@) by {
        assert("-a"@[1] != "-m"@[1]);
    }
    if message is None {
        assert("-m"@ != "commit"@) by {
            assert("-m"@.len() != "commit"@.len());
        }
        assert("-m"@ != "-a"@);
        if args.contains("-m"@) {
            let i = choose|i: int| 0 <= i < args.len() && args[i] == "-m"@;
        }
    }
}

/// The arguments after `git` for a passed-through command.
pub open spec fn git_cmd_args(c: GitCmd) -> Seq<Seq<char>> {
    match c {
        GitCmd::Status { files } => seq!["status"@, "--"@] + path_texts(files@),
        GitCmd::Diff { files } => seq!["diff"@, "--"@] + path_texts(files@),
        GitCmd::Add { files } => seq!["add"@, "--"@] + path_texts(files@),
        GitCmd::Pull { rebase } => match rebase {
            None => seq!["pull"@],
            Some(v) => seq![
                "pull"@,
                if v@.len() == 0 {
                    "--rebase"@
                } else {
                    "--rebase="@ + v@
                },
            ],
        },
        GitCmd::Commit { all, message } => {
            let a: Seq<Seq<char>> = if all {
                seq!["commit"@, "-a"@]
            } else {
                seq!["commit"@]
            };
            match message {
                Some(m) => a + seq!["-m"@, m@],
                None => a,
            }
        },
        GitCmd::Push {} => seq!["push"@],
    }
}

fn with_files(head: &str, files: &Vec<SafeRelativePathBuf>) -> (r: Vec<String>)
    ensures
        views(r@) == seq![head@, "--"@] + path_texts(files@),
{
    let mut out: Vec<String> = Vec::new();
    out.push(owned(head));
    out.push(owned("--"));
    let mut i: usize = 0;
    while i < files.len()
        invariant
            i <= files@.len(),
            views(out@) == seq![head@, "--"@] + path_texts(files@).take(i as int),
        decreases files@.len() - i,
    {
        let ghost prev = out@;
        out.push(owned(files[i].as_str()));
        assert(views(out@) =~= views(prev).push(files@[i as int]@));
        assert(path_texts(files@).take(i + 1) =~= path_texts(files@).take(i as int).push(files@[i as int]@));
        i = i + 1;
    }
    assert(path_texts(files@).take(files@.len() as int) =~= path_texts(files@));
    out
}

impl GitCmd {
    /// The arguments after `git` for this command, run inside the repo.
    pub fn args(&self) -> (r: Vec<String>)
        ensures
            views(r@) == git_cmd_args(*self),
    {
        match self {
            GitCmd::Status { files } => with_files("status", files),
            GitCmd::Diff { files } => with_files("diff", files),
            GitCmd::Add { files } => with_files("add", files),
            GitCmd::Pull { rebase } => {
                let mut out: Vec<String> = Vec::new();
                out.push(owned("pull"));
                match rebase {
                    Some(v) => {
                        if v.as_str().unicode_len() == 0 {
                            out.push(owned("--rebase"));
                        } else {
                            let mut a = owned("--rebase=");
                            a.append(v.as_str());
                            out.push(a);
                        }
                    },
                    None => {},
                }
                assert(views(out@) =~= git_cmd_args(*self));
                out
            },
            GitCmd::Commit { all, message } => {
                let mut out: Vec<String> = Vec::new();
                out.push(owned("commit"));
                if *all {
                    out.push(owned("-a"));
                }
                match message {
                    Some(m) => {
                        out.push(owned("-m"));
                        out.push(m.clone());
                    },
                    None => {},
                }
                assert(views(out@) =~= git_cmd_args(*self));
                out
            },
            GitCmd::Push {} => {
                let mut out: Vec<String> = Vec::new();
                out.push(owned("push"));
                assert(views(out@) =~= git_cmd_args(*self));
                out
            },
        }
    }
}

/// The arguments after `git -C <repo>` for the status summary shown
/// before `apply` offers to commit, in colour or not.
pub fn pre_apply_status_args(color: bool) -> (r: Vec<String>)
    ensures
        views(r@) == seq![
            "-c"@,
            if color {
                "color.status=always"@
            } else {
                "color.status=never"@
            },
            "status"@,
            "-s"@,
        ],
{
    let mut out: Vec<String> = Vec::new();
    out.push(owned("-c"));
    out.push(if color { owned("color.status=always") } else { owned("color.status=never") });
    out.push(owned("status"));
    out.push(owned("-s"));
    assert(views(out@) =~= seq![
        "-c"@,
        if color {
            "color.status=always"@
        } else {
            "color.status=never"@
        },
        "status"@,
        "-s"@,
    ]);
    out
}

/// The arguments after `git -C <repo>` for the diff shown before `apply`
/// offers to commit.
pub fn pre_apply_diff_args(color: bool) -> (r: Vec<String>)
    ensures
        views(r@) == seq![
            "diff"@,
            "HEAD"@,
            if color {
                "--color=always"@
            } else {
                "--color=never"@
            },
        ],
{
    let mut out: Vec<String> = Vec::new();
    out.push(owned("diff"));
    out.push(owned("HEAD"));
    out.push(if color { owned("--color=always") } else { owned("--color=never") });
    assert(views(out@) =~= seq![
        "diff"@,
        "HEAD"@,
        if color {
            "--color=always"@
        } else {
            "--color=never"@
        },
    ]);
    out
}

/// The three commands, after `git -C <repo>`, that stage everything,
/// commit with `message` and push; they run in order and stop at the
/// first failure.
pub fn commit_all_and_push_args(message: &str) -> (r: Vec<Vec<String>>)
    ensures
        r@.len() == 3,
        views(r@[0]@) == seq!["add"@, "-A"@],
        views(r@[1]@) == seq!["commit"@, "-m"@, message@],
        views(r@[2]@) == seq!["push"@],
{
    let mut add: Vec<String> = Vec::new();
    add.push(owned("add"));
    add.push(owned("-A"));
    let mut commit: Vec<String> = Vec::new();
    commit.push(owned("commit"));
    commit.push(owned("-m"));
    commit.push(owned(message));
    let mut push: Vec<String> = Vec::new();
    push.push(owned("push"));
    assert(views(add@) =~= seq!["add"@, "-A"@]);
    assert(views(commit@) =~= seq!["commit"@, "-m"@, message@]);
    assert(views(push@) =~= seq!["push"@]);
    let mut out: Vec<Vec<String>> = Vec::new();
    out.push(add);
    out.push(commit);
    out.push(push);
    out
}

/// Whether `git status --porcelain` printed anything: any modified,
/// staged, deleted or untracked file.
pub fn has_uncommitted_changes(porcelain: &str) -> (r: bool)
    ensures
        r == (porcelain@.len() > 0),
{
    porcelain.unicode_len() > 0
}

} // verus!

//! Confirmation for `zenops apply`: what each pending change looks like to
//! the user, how the answers are read, and the prompters for `--yes` and
//! `--dry-run`.

use vstd::prelude::*;

use crate::ansi::styled;
use crate::config_files::{
    lines_incl, new_end, new_start, old_end, old_start, split_inclusive, DiffOp,
};
use crate::config_files::human_path_spec;
use crate::error::Error;
use crate::line_prompter::LineOutcome;
use crate::output::terminal::DiffTag;
use crate::output::ResolvedConfigFilePath;
use crate::text::{
    ascii_lower_seq, decimal, decimal_string, lines_of, split_lines, str_eq, to_ascii_lowercase,
    trim, trim_spec, views,
};

verus! {

/// One hunk of an update to a generated file: the file's current and
/// generated lines and the ops of the hunk, which are never empty and
/// stay inside both.
pub struct Hunk {
    old_lines: Vec<String>,
    new_lines: Vec<String>,
    ops: Vec<DiffOp>,
}

/// Whether `ops` is a hunk over `nold` old and `nnew` new lines.
pub open spec fn hunk_ok(ops: Seq<DiffOp>, nold: int, nnew: int) -> bool {
    &&& ops.len() > 0
    &&& old_start(ops[0]) < usize::MAX
    &&& new_start(ops[0]) < usize::MAX
    &&& old_start(ops[0]) <= old_end(ops.last())
    &&& new_start(ops[0]) <= new_end(ops.last())
    &&& forall|i: int|
        0 <= i < ops.len() ==> old_end(#[trigger] ops[i]) <= nold && new_end(ops[i]) <= nnew
}

impl Hunk {
    #[verifier::type_invariant]
    spec fn inv(self) -> bool {
        hunk_ok(self.ops@, self.old_lines@.len() as int, self.new_lines@.len() as int)
    }

    /// The current lines, each with its line end.
    pub closed spec fn old_lines(&self) -> Seq<Seq<char>> {
        views(self.old_lines@)
    }

    /// The generated lines, each with its line end.
    pub closed spec fn new_lines(&self) -> Seq<Seq<char>> {
        views(self.new_lines@)
    }

    /// The ops of the hunk.
    pub closed spec fn ops(&self) -> Seq<DiffOp> {
        self.ops@
    }

    /// The hunk `ops` of the diff from `cur` to `want`, if the ops form a
    /// hunk over their lines.
    pub fn new(cur: &str, want: &str, ops: Vec<DiffOp>) -> (r: Option<Hunk>)
        ensures
            r is Some <==> hunk_ok(ops@, lines_incl(cur@).len() as int, lines_incl(want@).len() as int),
            r matches Some(h) ==> h.old_lines() == lines_incl(cur@) && h.new_lines() == lines_incl(
                want@,
            ) && h.ops() == ops@,
    {
        let old_lines = split_inclusive(cur);
        let new_lines = split_inclusive(want);
        let nold = old_lines.len();
        let nnew = new_lines.len();
        if ops.len() == 0 {
            return None;
        }
        let first = ops[0];
        let last = ops[ops.len() - 1];
        let fs = op_start(&first);
        let le = op_end(&last);
        if fs.0 == usize::MAX || fs.1 == usize::MAX {
            return None;
        }
        match le {
            None => {
                return None;
            },
            Some(le) => {
                if fs.0 > le.0 || fs.1 > le.1 {
                    return None;
                }
            },
        }
        assert(views(old_lines@).len() == old_lines@.len());
        assert(views(new_lines@).len() == new_lines@.len());
        let mut i: usize = 0;
        while i < ops.len()
            invariant
                i <= ops@.len(),
                nold == old_lines@.len(),
                nnew == new_lines@.len(),
                nold == lines_incl(cur@).len(),
                nnew == lines_incl(want@).len(),
                forall|j: int| 0 <= j < i ==> old_end(#[trigger] ops@[j]) <= nold && new_end(ops@[j]) <= nnew,
            decreases ops@.len() - i,
        {
            let ghost opi = ops@[i as int];
            match op_end(&ops[i]) {
                None => {
                    assert(!hunk_ok(ops@, nold as int, nnew as int)) by {
                        if hunk_ok(ops@, nold as int, nnew as int) {
                            assert(old_end(opi) <= nold && new_end(opi) <= nnew);
                        }
                    }
                    return None;
                },
                Some((oe, ne)) => {
                    if oe > nold || ne > nnew {
                        assert(!hunk_ok(ops@, nold as int, nnew as int)) by {
                            if hunk_ok(ops@, nold as int, nnew as int) {
                                assert(old_end(opi) <= nold && new_end(opi) <= nnew);
                            }
                        }
                        return None;
                    }
                },
            }
            i = i + 1;
        }
        Some(Hunk { old_lines, new_lines, ops })
    }
}

/// Where an op starts on both sides.
fn op_start(op: &DiffOp) -> (r: (usize, usize))
    ensures
        r.0 == old_start(*op),
        r.1 == new_start(*op),
{
    match *op {
        DiffOp::Equal { old_index, new_index, .. } => (old_index, new_index),
        DiffOp::Delete { old_index, new_index, .. } => (old_index, new_index),
        DiffOp::Insert { old_index, new_index, .. } => (old_index, new_index),
        DiffOp::Replace { old_index, new_index, .. } => (old_index, new_index),
    }
}

/// Where an op ends on both sides, when that fits in `usize`.
fn op_end(op: &DiffOp) -> (r: Option<(usize, usize)>)
    ensures
        r matches Some(e) ==> e.0 == old_end(*op) && e.1 == new_end(*op),
        r is None ==> old_end(*op) > usize::MAX || new_end(*op) > usize::MAX,
{
    match *op {
        DiffOp::Equal { old_index, new_index, len } => {
            let a = old_index.checked_add(len);
            let b = new_index.checked_add(len);
            match (a, b) {
                (Some(a), Some(b)) => Some((a, b)),
                _ => None,
            }
        },
        DiffOp::Delete { old_index, old_len, new_index } => match old_index.checked_add(old_len) {
            Some(a) => Some((a, new_index)),
            None => None,
        },
        DiffOp::Insert { old_index, new_index, new_len } => match new_index.checked_add(new_len) {
            Some(b) => Some((old_index, b)),
            None => None,
        },
        DiffOp::Replace { old_index, old_len, new_index, new_len } => {
            let a = old_index.checked_add(old_len);
            let b = new_index.checked_add(new_len);
            match (a, b) {
                (Some(a), Some(b)) => Some((a, b)),
                _ => None,
            }
        },
    }
}

/// One change is a deleted old line, an inserted new line, or an
/// unchanged line.
pub open spec fn op_changes(op: DiffOp, old: Seq<Seq<char>>, new: Seq<Seq<char>>) -> Seq<(DiffTag, Seq<char>)> {
    match op {
        DiffOp::Equal { old_index, len, .. } => Seq::new(
            len as nat,
            |t: int| (DiffTag::Equal, old[old_index + t]),
        ),
        DiffOp::Delete { old_index, old_len, .. } => Seq::new(
            old_len as nat,
            |t: int| (DiffTag::Delete, old[old_index + t]),
        ),
        DiffOp::Insert { new_index, new_len, .. } => Seq::new(
            new_len as nat,
            |t: int| (DiffTag::Insert, new[new_index + t]),
        ),
        DiffOp::Replace { old_index, old_len, new_index, new_len } => Seq::new(
            old_len as nat,
            |t: int| (DiffTag::Delete, old[old_index + t]),
        ) + Seq::new(new_len as nat, |t: int| (DiffTag::Insert, new[new_index + t])),
    }
}

/// Whether a line lacks its line end.
pub open spec fn missing_newline(v: Seq<char>) -> bool {
    !(v.len() > 0 && v.last() == '\n')
}

/// One change of a hunk: `-`, `+` or ` ` in red, green or dim, the line,
/// and a "No newline at end of file" note for a last line without one.
pub open spec fn hunk_change_text(c: (DiffTag, Seq<char>), color: bool) -> Seq<char> {
    change_head(c.0, color) + c.1 + change_tail(c.1, color)
}

/// The colored prefix of a change.
pub open spec fn change_head(tag: DiffTag, color: bool) -> Seq<char> {
    match tag {
        DiffTag::Delete => styled(color, "\x1b[31m"@) + "-"@,
        DiffTag::Insert => styled(color, "\x1b[32m"@) + "+"@,
        DiffTag::Equal => styled(color, "\x1b[2m"@) + " "@,
    }
}

/// What follows the line of a change: the reset, and for a line without
/// a line end a newline before it and the note after it.
pub open spec fn change_tail(v: Seq<char>, color: bool) -> Seq<char> {
    (if missing_newline(v) {
        "\n"@
    } else {
        Seq::empty()
    }) + styled(color, "\x1b[0m"@) + (if missing_newline(v) {
        "\n\\ No newline at end of file\n"@
    } else {
        Seq::empty()
    })
}

/// Changes rendered one after another.
pub open spec fn hunk_changes_text(cs: Seq<(DiffTag, Seq<char>)>, color: bool) -> Seq<char>
    decreases cs.len(),
{
    if cs.len() == 0 {
        Seq::empty()
    } else {
        hunk_changes_text(cs.drop_last(), color) + hunk_change_text(cs.last(), color)
    }
}

/// The changes of the first `k` ops rendered.
pub open spec fn hunk_ops_text(ops: Seq<DiffOp>, old: Seq<Seq<char>>, new: Seq<Seq<char>>, k: int, color: bool) -> Seq<char>
    decreases k,
{
    if k <= 0 {
        Seq::empty()
    } else {
        hunk_ops_text(ops, old, new, k - 1, color) + hunk_changes_text(op_changes(ops[k - 1], old, new), color)
    }
}

/// The `@@ -a,b +c,d @@` header of a hunk, in cyan.
pub open spec fn hunk_header(ops: Seq<DiffOp>, color: bool) -> Seq<char> {
    let os = old_start(ops[0]);
    let ns = new_start(ops[0]);
    styled(color, "\x1b[36m"@) + "@@ -"@ + decimal((os + 1) as nat) + ","@ + decimal(
        (old_end(ops.last()) - os) as nat,
    ) + " +"@ + decimal((ns + 1) as nat) + ","@ + decimal((new_end(ops.last()) - ns) as nat)
        + " @@"@ + styled(color, "\x1b[0m"@) + "\n"@
}

/// A hunk as the user sees it.
pub open spec fn hunk_text(h: Hunk, color: bool) -> Seq<char> {
    hunk_header(h.ops(), color) + hunk_ops_text(h.ops(), h.old_lines(), h.new_lines(), h.ops().len() as int, color)
}

fn push_change_head(out: &mut String, tag: DiffTag, s: &crate::ansi::Styler)
    ensures
        final(out)@ == old(out)@ + change_head(tag, s.color),
{
    match tag {
        DiffTag::Delete => {
            out.append(s.red());
            out.append("-");
        },
        DiffTag::Insert => {
            out.append(s.green());
            out.append("+");
        },
        DiffTag::Equal => {
            out.append(s.dim());
            out.append(" ");
        },
    }
    assert(out@ =~= old(out)@ + change_head(tag, s.color));
}

fn push_change_tail(out: &mut String, line: &String, s: &crate::ansi::Styler)
    ensures
        final(out)@ == old(out)@ + change_tail(line@, s.color),
{
    let n = line.as_str().unicode_len();
    let missing = !(n > 0 && line.as_str().get_char(n - 1) == '\n');
    if missing {
        out.append("\n");
    }
    out.append(s.reset());
    if missing {
        out.append("\n\\ No newline at end of file\n");
    }
    assert(out@ =~= old(out)@ + change_tail(line@, s.color));
}

fn push_hunk_change(out: &mut String, tag: DiffTag, line: &String, color: bool)
    ensures
        final(out)@ == old(out)@ + hunk_change_text((tag, line@), color),
{
    let s = crate::ansi::Styler::new(color);
    let ghost o = out@;
    push_change_head(out, tag, &s);
    out.append(line.as_str());
    push_change_tail(out, line, &s);
    assert(out@ =~= o + hunk_change_text((tag, line@), color));
}

/// Append lines `a .. a + n` of `ls`, each as a change with tag `tag`.
fn push_changes(out: &mut String, tag: DiffTag, ls: &Vec<String>, a: usize, n: usize, color: bool)
    requires
        a + n <= ls@.len(),
    ensures
        final(out)@ == old(out)@ + hunk_changes_text(
            Seq::new(n as nat, |t: int| (tag, views(ls@)[a + t])),
            color,
        ),
{
    let ghost cs = Seq::new(n as nat, |t: int| (tag, views(ls@)[a + t]));
    let len = ls.len();
    let mut t: usize = 0;
    while t < n
        invariant
            t <= n,
            len == ls@.len(),
            a + n <= ls@.len(),
            cs == Seq::new(n as nat, |t: int| (tag, views(ls@)[a + t])),
            out@ == old(out)@ + hunk_changes_text(cs.take(t as int), color),
        decreases n - t,
    {
        push_hunk_change(out, tag, &ls[a + t], color);
        assert(cs.take(t + 1).drop_last() =~= cs.take(t as int));
        assert(cs[t as int] == (tag, ls@[a + t]@));
        t = t + 1;
    }
    assert(cs.take(n as int) =~= cs);
}

proof fn lemma_changes_append(a: Seq<(DiffTag, Seq<char>)>, b: Seq<(DiffTag, Seq<char>)>, color: bool)
    ensures
        hunk_changes_text(a + b, color) == hunk_changes_text(a, color) + hunk_changes_text(b, color),
    decreases b.len(),
{
    if b.len() == 0 {
        assert(a + b =~= a);
    } else {
        lemma_changes_append(a, b.drop_last(), color);
        assert((a + b).drop_last() =~= a + b.drop_last());
    }
}

#[verifier::spinoff_prover]
fn push_op_changes(out: &mut String, op: DiffOp, old_lines: &Vec<String>, new_lines: &Vec<String>, color: bool)
    requires
        old_end(op) <= old_lines@.len(),
        new_end(op) <= new_lines@.len(),
    ensures
        final(out)@ == old(out)@ + hunk_changes_text(op_changes(op, views(old_lines@), views(new_lines@)), color),
{
    let ghost ol = views(old_lines@);
    let ghost nl = views(new_lines@);
    match op {
        DiffOp::Equal { old_index, len, .. } => {
            push_changes(out, DiffTag::Equal, old_lines, old_index, len, color);
            assert(op_changes(op, ol, nl) =~= Seq::new(len as nat, |t: int| (DiffTag::Equal, ol[old_index + t])));
        },
        DiffOp::Delete { old_index, old_len, .. } => {
            push_changes(out, DiffTag::Delete, old_lines, old_index, old_len, color);
            assert(op_changes(op, ol, nl) =~= Seq::new(old_len as nat, |t: int| (DiffTag::Delete, ol[old_index + t])));
        },
        DiffOp::Insert { new_index, new_len, .. } => {
            push_changes(out, DiffTag::Insert, new_lines, new_index, new_len, color);
            assert(op_changes(op, ol, nl) =~= Seq::new(new_len as nat, |t: int| (DiffTag::Insert, nl[new_index + t])));
        },
        DiffOp::Replace { old_index, old_len, new_index, new_len } => {
            push_changes(out, DiffTag::Delete, old_lines, old_index, old_len, color);
            push_changes(out, DiffTag::Insert, new_lines, new_index, new_len, color);
            proof {
                let d = Seq::new(old_len as nat, |t: int| (DiffTag::Delete, ol[old_index + t]));
                let i = Seq::new(new_len as nat, |t: int| (DiffTag::Insert, nl[new_index + t]));
                lemma_changes_append(d, i, color);
                assert(op_changes(op, ol, nl) =~= d + i);
            }
        },
    }
}

/// Render one hunk: its header, then every change.
pub fn render_single_hunk(h: &Hunk, color: bool) -> (r: String)
    ensures
        r@ == hunk_text(*h, color),
{
    proof {
        use_type_invariant(h);
    }
    let s = crate::ansi::Styler::new(color);
    let nold = h.old_lines.len();
    let nnew = h.new_lines.len();
    let first = h.ops[0];
    let last = h.ops[h.ops.len() - 1];
    assert(h.ops@[0] == first);
    assert(h.ops@.last() == last);
    assert(old_end(h.ops@[h.ops@.len() - 1]) <= nold && new_end(h.ops@[h.ops@.len() - 1]) <= nnew);
    let (os, ns) = op_start(&first);
    let (oe, ne) = match op_end(&last) {
        Some(e) => e,
        None => { (os, ns) },
    };
    let mut out = String::new();
    out.append(s.cyan());
    out.append("@@ -");
    out.append(decimal_string(os + 1).as_str());
    out.append(",");
    out.append(decimal_string(oe - os).as_str());
    out.append(" +");
    out.append(decimal_string(ns + 1).as_str());
    out.append(",");
    out.append(decimal_string(ne - ns).as_str());
    out.append(" @@");
    out.append(s.reset());
    out.append("\n");
    let ghost head = out@;
    assert(head =~= hunk_header(h.ops(), color));
    let ghost ol = h.old_lines();
    let ghost nl = h.new_lines();
    let mut k: usize = 0;
    while k < h.ops.len()
        invariant
            k <= h.ops@.len(),
            hunk_ok(h.ops@, h.old_lines@.len() as int, h.new_lines@.len() as int),
            ol == views(h.old_lines@),
            nl == views(h.new_lines@),
            out@ == head + hunk_ops_text(h.ops@, ol, nl, k as int, color),
        decreases h.ops@.len() - k,
    {
        let op = h.ops[k];
        assert(h.ops@[k as int] == op);
        assert(old_end(h.ops@[k as int]) <= h.old_lines@.len() && new_end(h.ops@[k as int]) <= h.new_lines@.len());
        push_op_changes(&mut out, op, &h.old_lines, &h.new_lines, color);
        k = k + 1;
        assert(out@ =~= head + hunk_ops_text(h.ops@, ol, nl, k as int, color));
    }
    out
}

/// A new file as the user sees it: every line after a green `+`, and a
/// note when the text does not end with a newline.
pub open spec fn new_file_text(content: Seq<char>, color: bool) -> Seq<char> {
    new_file_lines(lines_of(content), color, lines_of(content).len() as int) + (if content.len() > 0
        && content.last() != '\n' {
        "\\ No newline at end of file\n"@
    } else {
        Seq::empty()
    })
}

/// The first `k` lines of a new file.
pub open spec fn new_file_lines(ls: Seq<Seq<char>>, color: bool, k: int) -> Seq<char>
    decreases k,
{
    if k <= 0 {
        Seq::empty()
    } else {
        new_file_lines(ls, color, k - 1) + styled(color, "\x1b[32m"@) + "+"@ + ls[k - 1] + styled(
            color,
            "\x1b[0m"@,
        ) + "\n"@
    }
}

/// Render the body of a file about to be created.
pub fn render_new_file(content: &str, color: bool) -> (r: String)
    ensures
        r@ == new_file_text(content@, color),
{
    let open = crate::ansi::color_code(color, "\x1b[32m");
    let close = crate::ansi::color_reset(color);
    let lines = split_lines(content);
    let ghost ls = views(lines@);
    let mut out = String::new();
    let mut i: usize = 0;
    while i < lines.len()
        invariant
            i <= lines@.len(),
            ls == views(lines@),
            ls == lines_of(content@),
            out@ == new_file_lines(ls, color, i as int),
            open@ == styled(color, "\x1b[32m"@),
            close@ == styled(color, "\x1b[0m"@),
        decreases lines@.len() - i,
    {
        out.append(open);
        out.append("+");
        out.append(lines[i].as_str());
        out.append(close);
        out.append("\n");
        i = i + 1;
        assert(out@ =~= new_file_lines(ls, color, i as int));
    }
    let n = content.unicode_len();
    if n > 0 && content.get_char(n - 1) != '\n' {
        out.append("\\ No newline at end of file\n");
    }
    assert(out@ =~= new_file_text(content@, color));
    out
}

/// One change `apply` is about to make.
pub enum PendingChange<'a> {
    /// Write a brand-new generated file.
    CreateFile { path: &'a ResolvedConfigFilePath, content: &'a str },
    /// Apply one hunk of a multi-hunk update to an existing generated file.
    UpdateFileHunk { path: &'a ResolvedConfigFilePath, index: usize, total: usize, hunk: &'a Hunk },
    /// Create a symlink in an existing parent directory.
    CreateSymlink { real: &'a ResolvedConfigFilePath, symlink: &'a ResolvedConfigFilePath },
    /// Create a symlink whose parent directory must also be created.
    CreateSymlinkWithParent {
        real: &'a ResolvedConfigFilePath,
        symlink: &'a ResolvedConfigFilePath,
        parent: &'a ResolvedConfigFilePath,
    },
    /// Replace a symlink that points at the wrong target.
    ReplaceWrongSymlink {
        real: &'a ResolvedConfigFilePath,
        symlink: &'a ResolvedConfigFilePath,
        current_target: &'a str,
    },
}

/// A pending change as the user sees it.
pub open spec fn change_text(change: PendingChange, color: bool) -> Seq<char> {
    match change {
        PendingChange::CreateFile { path, content } => "Create "@ + human_path_spec(path.path) + "?\n"@
            + new_file_text(content@, color),
        PendingChange::UpdateFileHunk { path, index, total, hunk } => "Update "@ + human_path_spec(
            path.path,
        ) + " — hunk "@ + decimal(index as nat) + "/"@ + decimal(total as nat) + "?\n"@ + hunk_text(
            *hunk,
            color,
        ),
        PendingChange::CreateSymlink { real: target, symlink } => "Create symlink "@ + human_path_spec(
            symlink.path,
        ) + " -> "@ + human_path_spec(target.path) + "?\n"@,
        PendingChange::CreateSymlinkWithParent { real: target, symlink, parent } => "Create symlink "@
            + human_path_spec(symlink.path) + " -> "@ + human_path_spec(target.path)
            + "? (will also create directory "@ + human_path_spec(parent.path) + ")\n"@,
        PendingChange::ReplaceWrongSymlink { real: target, symlink, current_target } => "Replace symlink "@
            + human_path_spec(symlink.path) + ": currently -> "@ + current_target@ + " -> "@
            + human_path_spec(target.path) + "?\n"@,
    }
}

/// Render a pending change: a one-line question, and for file changes the
/// body or hunk.
pub fn render_change(change: &PendingChange, color: bool) -> (r: String)
    ensures
        r@ == change_text(*change, color),
{
    let mut out = String::new();
    match change {
        PendingChange::CreateFile { path, content } => {
            out.append("Create ");
            out.append(path.human().as_str());
            out.append("?\n");
            out.append(render_new_file(content, color).as_str());
        },
        PendingChange::UpdateFileHunk { path, index, total, hunk } => {
            out.append("Update ");
            out.append(path.human().as_str());
            out.append(" — hunk ");
            out.append(decimal_string(*index).as_str());
            out.append("/");
            out.append(decimal_string(*total).as_str());
            out.append("?\n");
            out.append(render_single_hunk(hunk, color).as_str());
        },
        PendingChange::CreateSymlink { real: target, symlink } => {
            out.append("Create symlink ");
            out.append(symlink.human().as_str());
            out.append(" -> ");
            out.append(target.human().as_str());
            out.append("?\n");
        },
        PendingChange::CreateSymlinkWithParent { real: target, symlink, parent } => {
            out.append("Create symlink ");
            out.append(symlink.human().as_str());
            out.append(" -> ");
            out.append(target.human().as_str());
            out.append("? (will also create directory ");
            out.append(parent.human().as_str());
            out.append(")\n");
        },
        PendingChange::ReplaceWrongSymlink { real: target, symlink, current_target } => {
            out.append("Replace symlink ");
            out.append(symlink.human().as_str());
            out.append(": currently -> ");
            out.append(current_target);
            out.append(" -> ");
            out.append(target.human().as_str());
            out.append("?\n");
        },
    }
    assert(out@ =~= change_text(*change, color));
    out
}

/// Outcome of the pre-apply prompt that fires when the zenops repo has
/// uncommitted changes.
#[derive(Debug, PartialEq, Eq)]
pub enum PreApplyDecision {
    /// Stage everything, commit with `message`, push, then continue.
    CommitAndPush { message: String },
    /// Apply without committing.
    Continue,
    /// Bail out of the apply.
    Abort,
}

/// Parsed answer from the pre-apply prompt.
#[derive(Debug, PartialEq, Eq, Clone, Copy, Structural)]
pub enum PreApplyAnswer {
    /// Commit (a message is asked for next).
    Commit,
    /// Apply without committing.
    Continue,
    /// Abort the apply.
    Abort,
}

/// The answer a line gives to the pre-apply prompt, case and surrounding
/// whitespace aside.
pub open spec fn pre_apply_spec(line: Seq<char>) -> Option<PreApplyAnswer> {
    let l = ascii_lower_seq(trim_spec(line));
    if l == "c"@ || l == "commit"@ {
        Some(PreApplyAnswer::Commit)
    } else if l == ""@ || l == "y"@ || l == "yes"@ {
        Some(PreApplyAnswer::Continue)
    } else if l == "n"@ || l == "no"@ || l == "abort"@ {
        Some(PreApplyAnswer::Abort)
    } else {
        None
    }
}

/// An answer reads the same once trimmed and lowercased, and only the
/// listed words (or nothing) are answers.
pub proof fn lemma_pre_apply_normalized(line: Seq<char>)
    ensures
        pre_apply_spec(line) == pre_apply_spec(ascii_lower_seq(trim_spec(line))),
        pre_apply_spec(line) is None <==> !({
            let l = ascii_lower_seq(trim_spec(line));
            l == "c"@ || l == "commit"@ || l == ""@ || l == "y"@ || l == "yes"@ || l == "n"@ || l == "no"@ || l
                == "abort"@
        }),
{
    crate::text::lemma_trim_lower_idempotent(line);
}

/// Parse an answer to the pre-apply prompt: `c` commits and pushes, `y`
/// or nothing continues without committing, `n` aborts; anything else is
/// `None` so the caller asks again.
pub fn parse_pre_apply_input(line: &str) -> (r: Option<PreApplyAnswer>)
    ensures
        r == pre_apply_spec(line@),
{
    let t = trim(line);
    let l = to_ascii_lowercase(t.as_str());
    let s = l.as_str();
    if str_eq(s, "c") || str_eq(s, "commit") {
        Some(PreApplyAnswer::Commit)
    } else if str_eq(s, "") || str_eq(s, "y") || str_eq(s, "yes") {
        Some(PreApplyAnswer::Continue)
    } else if str_eq(s, "n") || str_eq(s, "no") || str_eq(s, "abort") {
        Some(PreApplyAnswer::Abort)
    } else {
        None
    }
}

/// The answer a line gives to a per-change `[Y/n]` question: blank or yes
/// confirms, no declines, anything else asks again.
pub open spec fn change_answer_spec(line: Seq<char>) -> Option<bool> {
    let l = ascii_lower_seq(trim_spec(line));
    if l == ""@ || l == "y"@ || l == "yes"@ {
        Some(true)
    } else if l == "n"@ || l == "no"@ {
        Some(false)
    } else {
        None
    }
}

/// How a `[Y/n]` answer reads: `n` or `no` declines, nothing, `y` or
/// `yes` confirms, in any case and with surrounding whitespace; any other
/// answer is asked again. Trimming and lowercasing first changes nothing.
pub proof fn lemma_change_answer(line: Seq<char>)
    ensures
        change_answer_spec(line) == change_answer_spec(ascii_lower_seq(trim_spec(line))),
        change_answer_spec(line) == Some(false) <==> ({
            let l = ascii_lower_seq(trim_spec(line));
            l == "n"@ || l == "no"@
        }),
        change_answer_spec(line) == Some(true) <==> ({
            let l = ascii_lower_seq(trim_spec(line));
            l == ""@ || l == "y"@ || l == "yes"@
        }),
        change_answer_spec("n"@) == Some(false) && change_answer_spec("no"@) == Some(false),
        change_answer_spec("N"@) == Some(false) && change_answer_spec(" no "@) == Some(false),
{
    crate::text::lemma_trim_lower_idempotent(line);
    reveal_strlit("n");
    reveal_strlit("no");
    reveal_strlit("y");
    reveal_strlit("yes");
    reveal_strlit("");
    reveal_strlit("N");
    reveal_strlit(" no ");
    reveal_strlit("no ");
    let l = ascii_lower_seq(trim_spec(line));
    if l == "n"@ || l == "no"@ {
        assert(l != ""@ && l != "y"@ && l != "yes"@) by {
            if l == "n"@ {
                assert(l[0] == 'n');
                assert("y"@[0] == 'y');
                assert("yes"@[0] == 'y');
            } else {
                assert(l.len() == 2);
                assert(l[0] == 'n');
            }
        }
    }
    assert(trim_spec("n"@) == "n"@) by {
        assert("n"@.drop_first().len() == 0);
    }
    assert(ascii_lower_seq("n"@) =~= "n"@);
    assert(trim_spec("no"@) == "no"@);
    assert(ascii_lower_seq("no"@) =~= "no"@);
    assert(trim_spec("N"@) == "N"@);
    assert(ascii_lower_seq("N"@) =~= "n"@);
    assert(crate::text::trim_start_spec(" no "@) == "no "@) by {
        assert(" no "@.drop_first() =~= "no "@);
        assert(crate::text::is_ws(" no "@[0]));
        assert(!crate::text::is_ws("no "@[0]));
        assert(crate::text::trim_start_spec("no "@) == "no "@);
    }
    assert(crate::text::trim_end_spec("no "@) == "no"@) by {
        assert("no "@.drop_last() =~= "no"@);
    }
    assert(ascii_lower_seq("no"@) =~= "no"@);
}

/// Parse an answer to a per-change `[Y/n]` question.
pub fn parse_change_answer(line: &str) -> (r: Option<bool>)
    ensures
        r == change_answer_spec(line@),
{
    let t = trim(line);
    let l = to_ascii_lowercase(t.as_str());
    let s = l.as_str();
    if str_eq(s, "") || str_eq(s, "y") || str_eq(s, "yes") {
        Some(true)
    } else if str_eq(s, "n") || str_eq(s, "no") {
        Some(false)
    } else {
        None
    }
}

/// `std::io::Error::new` with kind `UnexpectedEof`: a commit message was
/// asked for and the input ended.
#[verifier::external_body]
fn no_commit_message_error() -> std::io::Error {
    std::io::Error::new(std::io::ErrorKind::UnexpectedEof, "no commit message provided")
}

/// What one read of the commit message settles: the trimmed message,
/// `None` for a blank line (the caller says "Commit message cannot be
/// empty." and asks again), or an error for end of input or an interrupt.
pub fn commit_message_step(outcome: Result<LineOutcome, std::io::Error>) -> (r: Result<Option<String>, Error>)
    ensures
        match outcome {
            Err(_) => r matches Err(Error::PromptRead(_)),
            Ok(LineOutcome::Eof) => r matches Err(Error::PromptRead(_)),
            Ok(LineOutcome::Interrupted) => r matches Err(Error::PromptInterrupted),
            Ok(LineOutcome::Line(l)) => if trim_spec(l@).len() == 0 {
                r matches Ok(None)
            } else {
                r matches Ok(Some(m)) && m@ == trim_spec(l@)
            },
        },
{
    match outcome {
        Err(e) => Err(Error::PromptRead(e)),
        Ok(LineOutcome::Eof) => Err(Error::PromptRead(no_commit_message_error())),
        Ok(LineOutcome::Interrupted) => Err(Error::PromptInterrupted),
        Ok(LineOutcome::Line(line)) => {
            let t = trim(line.as_str());
            if t.unicode_len() == 0 {
                Ok(None)
            } else {
                Ok(Some(t))
            }
        },
    }
}

/// How `apply` consults the user before each change.
pub trait Prompter {
    /// Ask whether to perform a single pending change.
    fn confirm(&mut self, change: PendingChange) -> Result<bool, Error>;

    /// Ask what to do when the zenops config repo has uncommitted changes.
    fn confirm_pre_apply(&mut self) -> Result<PreApplyDecision, Error>;
}

/// Prompter for `--yes`: accepts every change and continues past the
/// pre-apply prompt without committing.
pub struct YesPrompter;

impl Prompter for YesPrompter {
    fn confirm(&mut self, change: PendingChange) -> (r: Result<bool, Error>)
        ensures
            r matches Ok(true),
    {
        Ok(true)
    }

    fn confirm_pre_apply(&mut self) -> (r: Result<PreApplyDecision, Error>)
        ensures
            r matches Ok(PreApplyDecision::Continue),
    {
        Ok(PreApplyDecision::Continue)
    }
}

/// Prompter for `--dry-run`: shows the same per-change preview as the
/// interactive prompter but always answers "no", so nothing is written.
/// The preview accumulates in the prompter for the caller to show.
pub struct DryRunPrompter {
    color: bool,
    out: String,
}

impl DryRunPrompter {
    /// Whether previews are colored.
    pub closed spec fn color(&self) -> bool {
        self.color
    }

    /// The previews shown so far.
    pub closed spec fn shown(&self) -> Seq<char> {
        self.out@
    }

    /// Build a dry-run prompter that uses ANSI color when `color` is true.
    pub fn new(color: bool) -> (r: Self)
        ensures
            r.color() == color,
            r.shown().len() == 0,
    {
        DryRunPrompter { color, out: String::new() }
    }

    /// The previews shown so far.
    pub fn output(&self) -> (r: &str)
        ensures
            r@ == self.shown(),
    {
        self.out.as_str()
    }
}

impl Prompter for DryRunPrompter {
    fn confirm(&mut self, change: PendingChange) -> (r: Result<bool, Error>)
        ensures
            r matches Ok(false),
            final(self).color() == old(self).color(),
            final(self).shown() == old(self).shown() + change_text(change, old(self).color())
                + "[Y/n] (dry-run: skipping)\n"@,
    {
        let text = render_change(&change, self.color);
        self.out.append(text.as_str());
        self.out.append("[Y/n] (dry-run: skipping)\n");
        Ok(false)
    }

    fn confirm_pre_apply(&mut self) -> (r: Result<PreApplyDecision, Error>)
        ensures
            r matches Ok(PreApplyDecision::Continue),
            final(self).shown() == old(self).shown(),
            final(self).color() == old(self).color(),
    {
        Ok(PreApplyDecision::Continue)
    }
}

} // verus!

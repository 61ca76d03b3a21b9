//! Human-readable, column-aligned text renderer.
//!
//! Status / applied-action events are buffered into a single column-aligned
//! block flushed on transition to a different event category or on
//! `finalize`. Pkg-entry events are buffered the same way (so the name
//! column can pad to the widest row). Doctor checks and init summaries
//! render eagerly. The rendered text accumulates in the renderer; the
//! caller hands it to the terminal.

use similar::{ChangeTag, TextDiff};
use vstd::prelude::*;

use crate::ansi::{styled, Styler};
use crate::config_files::{human_path_spec, rel_text, ConfigFilePath};
use crate::git::GitFileStatus;
use crate::text::{owned, push_char, seq_join, views};

use super::{
    AppliedAction, BootstrapSummary, DoctorCheck, DoctorSection, DoctorSeverity, Event, FileStatus,
    InitSummary, Output, OutputError, PkgEntry, PkgEntryState, PkgInstallHints, PkgStatus,
    ResolvedConfigFilePath, Status, SymlinkStatus,
};

verus! {

/// The text styles the renderer uses.
#[derive(Debug, Clone, Copy, PartialEq, Eq, Structural)]
pub enum Style {
    Default,
    Dim,
    ExtraDim,
    Bold,
    Red,
    Green,
    Yellow,
    Cyan,
    Magenta,
    BoldYellow,
}

/// The escape code that opens `style`.
pub open spec fn style_code(style: Style) -> Seq<char> {
    match style {
        Style::Default => ""@,
        Style::Dim => "\x1b[2m"@,
        Style::ExtraDim => "\x1b[2;38;5;248m"@,
        Style::Bold => "\x1b[1m"@,
        Style::Red => "\x1b[31m"@,
        Style::Green => "\x1b[32m"@,
        Style::Yellow => "\x1b[33m"@,
        Style::Cyan => "\x1b[36m"@,
        Style::Magenta => "\x1b[35m"@,
        Style::BoldYellow => "\x1b[1;33m"@,
    }
}

/// What opens `style` under the color switch.
pub open spec fn style_open(style: Style, color: bool) -> Seq<char> {
    match style {
        Style::Default => ""@,
        _ => styled(color, style_code(style)),
    }
}

/// What closes any style under the color switch.
pub open spec fn reset_text(color: bool) -> Seq<char> {
    styled(color, "\x1b[0m"@)
}

impl Style {
    /// The escape code that opens this style, or nothing with color off.
    pub fn open(self, s: &Styler) -> (r: &'static str)
        ensures
            r@ == style_open(self, s.color),
    {
        match self {
            Style::Default => "",
            Style::Dim => s.dim(),
            Style::ExtraDim => s.extra_dim(),
            Style::Bold => s.bold(),
            Style::Red => s.red(),
            Style::Green => s.green(),
            Style::Yellow => s.yellow(),
            Style::Cyan => s.cyan(),
            Style::Magenta => s.magenta(),
            Style::BoldYellow => s.bold_yellow(),
        }
    }
}

/// A run of text in one style.
#[derive(Debug, Clone, PartialEq, Eq)]
pub struct Segment {
    pub text: String,
    pub style: Style,
}

impl Segment {
    pub fn new(style: Style, text: String) -> (r: Self)
        ensures
            r.style == style,
            r.text@ == text@,
    {
        Segment { text, style }
    }
}

/// A segment as its style and text.
pub open spec fn seg_view(s: Segment) -> (Style, Seq<char>) {
    (s.style, s.text@)
}

/// The segments as their styles and texts.
pub open spec fn seg_views(segs: Seq<Segment>) -> Seq<(Style, Seq<char>)> {
    Seq::new(segs.len(), |i: int| seg_view(segs[i]))
}

/// One row of a status block: a styled one-character marker, the path
/// segments, and the description segments.
#[derive(Debug)]
pub struct Line {
    pub marker: char,
    pub marker_style: Style,
    pub path: Vec<Segment>,
    pub description: Vec<Segment>,
}

/// A row as marker, marker style, path and description.
pub type LineView = (char, Style, Seq<(Style, Seq<char>)>, Seq<(Style, Seq<char>)>);

/// The view of a [`Line`].
pub open spec fn line_view(l: Line) -> LineView {
    (l.marker, l.marker_style, seg_views(l.path@), seg_views(l.description@))
}

/// Styled segments rendered one after another, each closed by a reset.
pub open spec fn segs_text(segs: Seq<(Style, Seq<char>)>, color: bool) -> Seq<char>
    decreases segs.len(),
{
    if segs.len() == 0 {
        Seq::empty()
    } else {
        segs_text(segs.drop_last(), color) + style_open(segs.last().0, color) + segs.last().1
            + reset_text(color)
    }
}

/// The number of characters of text in `segs`.
pub open spec fn segs_width(segs: Seq<(Style, Seq<char>)>) -> int
    decreases segs.len(),
{
    if segs.len() == 0 {
        0
    } else {
        segs_width(segs.drop_last()) + segs.last().1.len()
    }
}

/// `n` spaces (none when `n` is not positive).
pub open spec fn spaces(n: int) -> Seq<char> {
    Seq::new(if n > 0 { n as nat } else { 0 }, |i: int| ' ')
}

/// A row rendered with its path column padded to `width` characters.
pub open spec fn line_text(l: LineView, width: int, color: bool) -> Seq<char> {
    style_open(l.1, color) + seq![l.0] + reset_text(color) + "  "@ + segs_text(l.2, color)
        + spaces(width - segs_width(l.2)) + (if l.3.len() > 0 {
        "  "@ + segs_text(l.3, color)
    } else {
        Seq::empty()
    }) + "\n"@
}

/// Append `n` spaces to `out`.
fn push_spaces(out: &mut String, n: u128)
    ensures
        final(out)@ == old(out)@ + spaces(n as int),
{
    let mut i: u128 = 0;
    while i < n
        invariant
            i <= n,
            out@ == old(out)@ + spaces(i as int),
        decreases n - i,
    {
        push_char(out, ' ');
        i = i + 1;
        assert(out@ =~= old(out)@ + spaces(i as int));
    }
}

/// Append the rendering of `segs` to `out`.
fn push_segs(out: &mut String, segs: &Vec<Segment>, s: &Styler)
    ensures
        final(out)@ == old(out)@ + segs_text(seg_views(segs@), s.color),
{
    let mut i: usize = 0;
    while i < segs.len()
        invariant
            i <= segs@.len(),
            out@ == old(out)@ + segs_text(seg_views(segs@).take(i as int), s.color),
        decreases segs@.len() - i,
    {
        let seg = &segs[i];
        out.append(seg.style.open(s));
        out.append(seg.text.as_str());
        out.append(s.reset());
        assert(seg_views(segs@).take(i + 1).drop_last() =~= seg_views(segs@).take(i as int));
        i = i + 1;
        assert(out@ =~= old(out)@ + segs_text(seg_views(segs@).take(i as int), s.color));
    }
    assert(seg_views(segs@).take(segs@.len() as int) =~= seg_views(segs@));
}

/// The number of characters of text in `segs`.
fn width_of(segs: &Vec<Segment>) -> (r: u128)
    ensures
        r == segs_width(seg_views(segs@)),
{
    let mut total: u128 = 0;
    let mut i: usize = 0;
    while i < segs.len()
        invariant
            i <= segs@.len(),
            total == segs_width(seg_views(segs@).take(i as int)),
            total <= i * (usize::MAX as int),
        decreases segs@.len() - i,
    {
        let n = segs[i].text.as_str().unicode_len();
        assert(seg_views(segs@).take(i + 1).drop_last() =~= seg_views(segs@).take(i as int));
        total = total + n as u128;
        i = i + 1;
    }
    assert(seg_views(segs@).take(segs@.len() as int) =~= seg_views(segs@));
    total
}

/// Append one row, its path column padded to `width`.
#[verifier::spinoff_prover]
#[verifier::rlimit(40)]
fn push_line(out: &mut String, line: &Line, width: u128, s: &Styler)
    ensures
        final(out)@ == old(out)@ + line_text(line_view(*line), width as int, s.color),
{
    let ghost o = out@;
    let ghost l = line_view(*line);
    let ghost c = s.color;
    out.append(line.marker_style.open(s));
    push_char(out, line.marker);
    out.append(s.reset());
    out.append("  ");
    let ghost a = style_open(l.1, c) + seq![l.0] + reset_text(c) + "  "@;
    assert(out@ =~= o + a);
    push_segs(out, &line.path, s);
    let w = width_of(&line.path);
    let pad: u128 = if width > w { width - w } else { 0 };
    push_spaces(out, pad);
    let ghost b = a + segs_text(l.2, c) + spaces(width - segs_width(l.2));
    assert(spaces(pad as int) =~= spaces(width - segs_width(l.2)));
    assert(out@ =~= o + b);
    let ghost d: Seq<char> = if l.3.len() > 0 {
        "  "@ + segs_text(l.3, c)
    } else {
        Seq::empty()
    };
    if line.description.len() > 0 {
        out.append("  ");
        push_segs(out, &line.description, s);
    }
    assert(out@ =~= o + b + d);
    out.append("\n");
    assert(out@ =~= o + line_text(l, width as int, c));
}

/// A styled segment of the given text.
fn seg(style: Style, text: &str) -> (r: Segment)
    ensures
        seg_view(r) == (style, text@),
{
    Segment { text: owned(text), style }
}

/// A styled segment of `a` followed by `b`.
fn seg2(style: Style, a: &str, b: &str) -> (r: Segment)
    ensures
        seg_view(r) == (style, a@ + b@),
{
    let mut t = owned(a);
    t.append(b);
    Segment { text: t, style }
}

fn one(a: Segment) -> (r: Vec<Segment>)
    ensures
        seg_views(r@) == seq![seg_view(a)],
{
    let mut v: Vec<Segment> = Vec::new();
    v.push(a);
    assert(seg_views(v@) =~= seq![seg_view(a)]);
    v
}

fn two(a: Segment, b: Segment) -> (r: Vec<Segment>)
    ensures
        seg_views(r@) == seq![seg_view(a), seg_view(b)],
{
    let mut v: Vec<Segment> = Vec::new();
    v.push(a);
    v.push(b);
    assert(seg_views(v@) =~= seq![seg_view(a), seg_view(b)]);
    v
}

fn three(a: Segment, b: Segment, c: Segment) -> (r: Vec<Segment>)
    ensures
        seg_views(r@) == seq![seg_view(a), seg_view(b), seg_view(c)],
{
    let mut v: Vec<Segment> = Vec::new();
    v.push(a);
    v.push(b);
    v.push(c);
    assert(seg_views(v@) =~= seq![seg_view(a), seg_view(b), seg_view(c)]);
    v
}

/// The segments of a path: a zenops-rooted path with a tail splits into
/// an extra-dim `~/.config/zenops` prefix and a default-weight `/tail`;
/// any other path is one dim segment.
pub open spec fn path_segs_spec(p: ResolvedConfigFilePath) -> Seq<(Style, Seq<char>)> {
    if p.path is Zenops && rel_text(p.path).len() > 0 {
        seq![(Style::ExtraDim, "~/.config/zenops"@), (Style::Default, "/"@ + rel_text(p.path))]
    } else {
        seq![(Style::Dim, human_path_spec(p.path))]
    }
}

/// The segments of a `{symlink} → {real}` row.
pub open spec fn symlink_segs_spec(
    symlink: ResolvedConfigFilePath,
    target: ResolvedConfigFilePath,
) -> Seq<(Style, Seq<char>)> {
    seq![(Style::Dim, human_path_spec(symlink.path)), (Style::Bold, " → "@)] + path_segs_spec(target)
}

/// The segments of a git row: `{repo}/{sub}`.
pub open spec fn git_segs_spec(repo: ResolvedConfigFilePath, sub: Seq<char>) -> Seq<(Style, Seq<char>)> {
    seq![(Style::ExtraDim, human_path_spec(repo.path)), (Style::Default, "/"@ + sub)]
}

/// A green check row with a green description.
pub open spec fn ok_line_spec(path: Seq<(Style, Seq<char>)>, desc: Seq<char>) -> LineView {
    ('✓', Style::Green, path, seq![(Style::Green, desc)])
}

fn path_segments(p: &ResolvedConfigFilePath) -> (r: Vec<Segment>)
    ensures
        seg_views(r@) == path_segs_spec(*p),
{
    match &p.path {
        ConfigFilePath::Zenops(rel) => {
            if rel.as_str().unicode_len() > 0 {
                return two(
                    seg(Style::ExtraDim, "~/.config/zenops"),
                    seg2(Style::Default, "/", rel.as_str()),
                );
            }
        },
        _ => {},
    }
    let h = p.human();
    one(seg(Style::Dim, h.as_str()))
}

fn symlink_path_segments(symlink: &ResolvedConfigFilePath, target: &ResolvedConfigFilePath) -> (r:
    Vec<Segment>)
    ensures
        seg_views(r@) == symlink_segs_spec(*symlink, *target),
{
    let h = symlink.human();
    let mut segs = two(seg(Style::Dim, h.as_str()), seg(Style::Bold, " → "));
    let ghost head = seg_views(segs@);
    let mut tail = path_segments(target);
    segs.append(&mut tail);
    assert(seg_views(segs@) =~= head + path_segs_spec(*target));
    segs
}

fn git_path_segments(repo: &ResolvedConfigFilePath, sub: &str) -> (r: Vec<Segment>)
    ensures
        seg_views(r@) == git_segs_spec(*repo, sub@),
{
    let h = repo.human();
    two(seg(Style::ExtraDim, h.as_str()), seg2(Style::Default, "/", sub))
}

fn mk_line(marker: char, marker_style: Style, path: Vec<Segment>, description: Vec<Segment>) -> (r:
    Line)
    ensures
        line_view(r) == (marker, marker_style, seg_views(path@), seg_views(description@)),
{
    Line { marker, marker_style, path, description }
}

fn ok_line(path: Vec<Segment>, description: &str) -> (r: Line)
    ensures
        line_view(r) == ok_line_spec(seg_views(path@), description@),
{
    mk_line('✓', Style::Green, path, one(seg(Style::Green, description)))
}

/// The row a status event shows, if any: clean states (`ok`, `clean`)
/// only with `show_clean`.
pub open spec fn status_line(status: Status, show_clean: bool) -> Option<LineView> {
    match status {
        Status::Generated { path, status: fs, .. } => match fs {
            FileStatus::Okay => if show_clean {
                Some(ok_line_spec(path_segs_spec(path), "ok"@))
            } else {
                None
            },
            FileStatus::Modified => Some(
                ('~', Style::Yellow, path_segs_spec(path), seq![(Style::Yellow, "modified"@)]),
            ),
            FileStatus::New => Some(
                ('+', Style::Yellow, path_segs_spec(path), seq![(Style::Yellow, "missing"@)]),
            ),
        },
        Status::Symlink { real: target, symlink, status: st } => match st {
            SymlinkStatus::Okay => if show_clean {
                Some(ok_line_spec(symlink_segs_spec(symlink, target), "ok"@))
            } else {
                None
            },
            SymlinkStatus::WrongLink(actual) => Some(
                (
                    '✗',
                    Style::Red,
                    symlink_segs_spec(symlink, target),
                    seq![(Style::Red, "wrong target"@), (Style::Dim, " "@ + actual@)],
                ),
            ),
            SymlinkStatus::New => Some(
                (
                    '+',
                    Style::Yellow,
                    symlink_segs_spec(symlink, target),
                    seq![(Style::Yellow, "missing"@)],
                ),
            ),
            SymlinkStatus::IsFile => Some(
                (
                    '✗',
                    Style::Red,
                    path_segs_spec(symlink),
                    seq![(Style::Red, "is a file"@), (Style::Dim, ", expected symlink"@)],
                ),
            ),
            SymlinkStatus::IsDir => Some(
                (
                    '✗',
                    Style::Red,
                    path_segs_spec(symlink),
                    seq![(Style::Red, "is a dir"@), (Style::Dim, ", expected symlink"@)],
                ),
            ),
            SymlinkStatus::IsOther => Some(
                (
                    '✗',
                    Style::Red,
                    path_segs_spec(symlink),
                    seq![
                        (Style::Red, "is not a regular file"@),
                        (Style::Dim, ", expected symlink"@),
                    ],
                ),
            ),
            SymlinkStatus::RealPathIsMissing => Some(
                ('✗', Style::Red, path_segs_spec(target), seq![(Style::Red, "symlink source missing"@)]),
            ),
            SymlinkStatus::DstDirIsMissing { .. } => Some(
                (
                    '✗',
                    Style::Red,
                    path_segs_spec(symlink),
                    seq![(Style::Red, "parent directory missing"@)],
                ),
            ),
        },
        Status::Git { repo, status: g } => match g {
            GitFileStatus::Modified(p) => Some(
                ('M', Style::Yellow, git_segs_spec(repo, p@), seq![(Style::Yellow, "modified"@)]),
            ),
            GitFileStatus::Added(p) => Some(
                ('A', Style::Yellow, git_segs_spec(repo, p@), seq![(Style::Yellow, "added"@)]),
            ),
            GitFileStatus::Deleted(p) => Some(
                ('D', Style::Red, git_segs_spec(repo, p@), seq![(Style::Red, "deleted"@)]),
            ),
            GitFileStatus::Untracked(p) => Some(
                ('?', Style::Cyan, git_segs_spec(repo, p@), seq![(Style::Cyan, "untracked"@)]),
            ),
            GitFileStatus::Other { code, path } => Some(
                (
                    '!',
                    Style::Magenta,
                    git_segs_spec(repo, path@),
                    seq![(Style::Dim, "status "@), (Style::Magenta, code@)],
                ),
            ),
        },
        Status::Pkg { pkg, status: ps } => match ps {
            PkgStatus::Missing { install_command: Some(cmd) } => Some(
                (
                    '✗',
                    Style::Red,
                    seq![(Style::Dim, pkg@)],
                    seq![
                        (Style::Red, "missing"@),
                        (Style::Dim, " — install: "@),
                        (Style::BoldYellow, cmd@),
                    ],
                ),
            ),
            PkgStatus::Missing { install_command: None } => Some(
                ('✗', Style::Red, seq![(Style::Dim, pkg@)], seq![(Style::Red, "missing"@)]),
            ),
            PkgStatus::Okay => if show_clean {
                Some(ok_line_spec(seq![(Style::Dim, pkg@)], "ok"@))
            } else {
                None
            },
        },
        Status::GitRepoClean { repo } => if show_clean {
            Some(ok_line_spec(path_segs_spec(repo), "clean"@))
        } else {
            None
        },
    }
}

/// The row a status event shows, if any.
pub fn status_to_line(status: &Status, show_clean: bool) -> (r: Option<Line>)
    ensures
        match r {
            None => status_line(*status, show_clean) is None,
            Some(l) => status_line(*status, show_clean) == Some(line_view(l)),
        },
{
    match status {
        Status::Generated { path, status: fs, .. } => match fs {
            FileStatus::Okay => if show_clean {
                Some(ok_line(path_segments(path), "ok"))
            } else {
                None
            },
            FileStatus::Modified => Some(
                mk_line('~', Style::Yellow, path_segments(path), one(seg(Style::Yellow, "modified"))),
            ),
            FileStatus::New => Some(
                mk_line('+', Style::Yellow, path_segments(path), one(seg(Style::Yellow, "missing"))),
            ),
        },
        Status::Symlink { real: target, symlink, status: st } => match st {
            SymlinkStatus::Okay => if show_clean {
                Some(ok_line(symlink_path_segments(symlink, target), "ok"))
            } else {
                None
            },
            SymlinkStatus::WrongLink(actual) => Some(
                mk_line(
                    '✗',
                    Style::Red,
                    symlink_path_segments(symlink, target),
                    two(seg(Style::Red, "wrong target"), seg2(Style::Dim, " ", actual.as_str())),
                ),
            ),
            SymlinkStatus::New => Some(
                mk_line(
                    '+',
                    Style::Yellow,
                    symlink_path_segments(symlink, target),
                    one(seg(Style::Yellow, "missing")),
                ),
            ),
            SymlinkStatus::IsFile => Some(
                mk_line(
                    '✗',
                    Style::Red,
                    path_segments(symlink),
                    two(seg(Style::Red, "is a file"), seg(Style::Dim, ", expected symlink")),
                ),
            ),
            SymlinkStatus::IsDir => Some(
                mk_line(
                    '✗',
                    Style::Red,
                    path_segments(symlink),
                    two(seg(Style::Red, "is a dir"), seg(Style::Dim, ", expected symlink")),
                ),
            ),
            SymlinkStatus::IsOther => Some(
                mk_line(
                    '✗',
                    Style::Red,
                    path_segments(symlink),
                    two(
                        seg(Style::Red, "is not a regular file"),
                        seg(Style::Dim, ", expected symlink"),
                    ),
                ),
            ),
            SymlinkStatus::RealPathIsMissing => Some(
                mk_line(
                    '✗',
                    Style::Red,
                    path_segments(target),
                    one(seg(Style::Red, "symlink source missing")),
                ),
            ),
            SymlinkStatus::DstDirIsMissing { .. } => Some(
                mk_line(
                    '✗',
                    Style::Red,
                    path_segments(symlink),
                    one(seg(Style::Red, "parent directory missing")),
                ),
            ),
        },
        Status::Git { repo, status: g } => match g {
            GitFileStatus::Modified(p) => Some(
                mk_line(
                    'M',
                    Style::Yellow,
                    git_path_segments(repo, p.as_str()),
                    one(seg(Style::Yellow, "modified")),
                ),
            ),
            GitFileStatus::Added(p) => Some(
                mk_line(
                    'A',
                    Style::Yellow,
                    git_path_segments(repo, p.as_str()),
                    one(seg(Style::Yellow, "added")),
                ),
            ),
            GitFileStatus::Deleted(p) => Some(
                mk_line(
                    'D',
                    Style::Red,
                    git_path_segments(repo, p.as_str()),
                    one(seg(Style::Red, "deleted")),
                ),
            ),
            GitFileStatus::Untracked(p) => Some(
                mk_line(
                    '?',
                    Style::Cyan,
                    git_path_segments(repo, p.as_str()),
                    one(seg(Style::Cyan, "untracked")),
                ),
            ),
            GitFileStatus::Other { code, path } => Some(
                mk_line(
                    '!',
                    Style::Magenta,
                    git_path_segments(repo, path.as_str()),
                    two(seg(Style::Dim, "status "), seg(Style::Magenta, code.as_str())),
                ),
            ),
        },
        Status::Pkg { pkg, status: ps } => match ps {
            PkgStatus::Missing { install_command: Some(cmd) } => Some(
                mk_line(
                    '✗',
                    Style::Red,
                    one(seg(Style::Dim, pkg.as_str())),
                    three(
                        seg(Style::Red, "missing"),
                        seg(Style::Dim, " — install: "),
                        seg(Style::BoldYellow, cmd.as_str()),
                    ),
                ),
            ),
            PkgStatus::Missing { install_command: None } => Some(
                mk_line(
                    '✗',
                    Style::Red,
                    one(seg(Style::Dim, pkg.as_str())),
                    one(seg(Style::Red, "missing")),
                ),
            ),
            PkgStatus::Okay => if show_clean {
                Some(ok_line(one(seg(Style::Dim, pkg.as_str())), "ok"))
            } else {
                None
            },
        },
        Status::GitRepoClean { repo } => if show_clean {
            Some(ok_line(path_segments(repo), "clean"))
        } else {
            None
        },
    }
}

/// The row an applied action shows.
pub open spec fn action_line(action: AppliedAction) -> LineView {
    match action {
        AppliedAction::UpdatedFile(p) => ok_line_spec(path_segs_spec(p), "updated"@),
        AppliedAction::CreatedFile(p) => ok_line_spec(path_segs_spec(p), "created"@),
        AppliedAction::CreatedSymlink { real: target, symlink } => ok_line_spec(
            symlink_segs_spec(symlink, target),
            "linked"@,
        ),
        AppliedAction::ReplacedSymlink { real: target, symlink } => ok_line_spec(
            symlink_segs_spec(symlink, target),
            "relinked"@,
        ),
        AppliedAction::CreatedDir(p) => ok_line_spec(path_segs_spec(p), "mkdir"@),
    }
}

/// The row an applied action shows.
pub fn action_to_line(action: &AppliedAction) -> (r: Line)
    ensures
        line_view(r) == action_line(*action),
{
    match action {
        AppliedAction::UpdatedFile(p) => ok_line(path_segments(p), "updated"),
        AppliedAction::CreatedFile(p) => ok_line(path_segments(p), "created"),
        AppliedAction::CreatedSymlink { real: target, symlink } => ok_line(
            symlink_path_segments(symlink, target),
            "linked",
        ),
        AppliedAction::ReplacedSymlink { real: target, symlink } => ok_line(
            symlink_path_segments(symlink, target),
            "relinked",
        ),
        AppliedAction::CreatedDir(p) => ok_line(path_segments(p), "mkdir"),
    }
}

} // verus!

verus! {

/// Which side of a line diff a line belongs to.
#[derive(Debug, Clone, Copy, PartialEq, Eq, Structural)]
pub enum DiffTag {
    Equal,
    Delete,
    Insert,
}

/// One line of a line diff, with its newline (one is added when the
/// input's last line has none).
#[derive(Debug)]
pub struct DiffLine {
    pub tag: DiffTag,
    pub text: String,
}

/// The lines of a diff as tags and texts.
pub open spec fn diff_line_views(v: Seq<DiffLine>) -> Seq<(DiffTag, Seq<char>)> {
    Seq::new(v.len(), |i: int| (v[i].tag, v[i].text@))
}

/// The line diff `similar` computes from `old` to `new`.
pub uninterp spec fn line_diff(old: Seq<char>, new: Seq<char>) -> Seq<(DiffTag, Seq<char>)>;

/// `similar::TextDiff::from_lines(old, new).iter_all_changes()`, each
/// change as its tag and its display text.
#[verifier::external_body]
fn diff_by_lines(old: &str, new: &str) -> (r: Vec<DiffLine>)
    ensures
        diff_line_views(r@) == line_diff(old@, new@),
{
    TextDiff::from_lines(old, new).iter_all_changes().map(|c| DiffLine {
        tag: match c.tag() {
            ChangeTag::Equal => DiffTag::Equal,
            ChangeTag::Delete => DiffTag::Delete,
            ChangeTag::Insert => DiffTag::Insert,
        },
        text: c.to_string(),
    }).collect()
}

/// A generated file whose diff is shown after the status block.
#[derive(Debug, Clone)]
pub struct PendingDiff {
    pub path: ResolvedConfigFilePath,
    pub cur_content: Option<String>,
    pub want_content: String,
}

/// One diff line rendered: red `-`, green `+` or dim ` ` before the text.
pub open spec fn change_text(c: (DiffTag, Seq<char>), color: bool) -> Seq<char> {
    match c.0 {
        DiffTag::Delete => styled(color, "\x1b[31m"@) + seq!['-'] + c.1 + reset_text(color),
        DiffTag::Insert => styled(color, "\x1b[32m"@) + seq!['+'] + c.1 + reset_text(color),
        DiffTag::Equal => styled(color, "\x1b[2m"@) + seq![' '] + c.1 + reset_text(color),
    }
}

/// Diff lines rendered one after another.
pub open spec fn changes_text(cs: Seq<(DiffTag, Seq<char>)>, color: bool) -> Seq<char>
    decreases cs.len(),
{
    if cs.len() == 0 {
        Seq::empty()
    } else {
        changes_text(cs.drop_last(), color) + change_text(cs.last(), color)
    }
}

/// The unified diff of a pending generated file: `--- path (current)` (or
/// `--- /dev/null` for a file not yet on disk), `+++ path (generated)`,
/// then the line diff.
pub open spec fn diff_text(d: PendingDiff, color: bool) -> Seq<char> {
    let h = human_path_spec(d.path.path);
    let old_text = match d.cur_content {
        Some(c) => c@,
        None => ""@,
    };
    (if d.cur_content is Some {
        "--- "@ + h + " (current)\n"@
    } else {
        "--- /dev/null\n"@
    }) + "+++ "@ + h + " (generated)\n"@ + changes_text(line_diff(old_text, d.want_content@), color)
}

fn push_diff(out: &mut String, d: &PendingDiff, s: &Styler)
    ensures
        final(out)@ == old(out)@ + diff_text(*d, s.color),
{
    let h = d.path.human();
    let ghost o = out@;
    match &d.cur_content {
        Some(_) => {
            out.append("--- ");
            out.append(h.as_str());
            out.append(" (current)\n");
        },
        None => {
            out.append("--- /dev/null\n");
        },
    }
    out.append("+++ ");
    out.append(h.as_str());
    out.append(" (generated)\n");
    let ghost head = out@;
    let changes = match &d.cur_content {
        Some(c) => diff_by_lines(c.as_str(), d.want_content.as_str()),
        None => diff_by_lines("", d.want_content.as_str()),
    };
    let ghost cs = diff_line_views(changes@);
    let mut i: usize = 0;
    while i < changes.len()
        invariant
            i <= changes@.len(),
            cs == diff_line_views(changes@),
            out@ == head + changes_text(cs.take(i as int), s.color),
        decreases changes@.len() - i,
    {
        let c = &changes[i];
        match c.tag {
            DiffTag::Delete => {
                out.append(s.red());
                out.append("-");
            },
            DiffTag::Insert => {
                out.append(s.green());
                out.append("+");
            },
            DiffTag::Equal => {
                out.append(s.dim());
                out.append(" ");
            },
        }
        out.append(c.text.as_str());
        out.append(s.reset());
        proof {
            reveal_strlit("-");
            reveal_strlit("+");
            reveal_strlit(" ");
        }
        assert(cs.take(i + 1).drop_last() =~= cs.take(i as int));
        i = i + 1;
        assert(out@ =~= head + changes_text(cs.take(i as int), s.color));
    }
    assert(cs.take(changes@.len() as int) =~= cs);
    assert(out@ =~= o + diff_text(*d, s.color));
}

/// The widest path column among `lines`.
pub open spec fn max_width(lines: Seq<LineView>) -> int
    decreases lines.len(),
{
    if lines.len() == 0 {
        0
    } else {
        let m = max_width(lines.drop_last());
        let w = segs_width(lines.last().2);
        if w > m {
            w
        } else {
            m
        }
    }
}

/// The views of a list of rows.
pub open spec fn line_views(lines: Seq<Line>) -> Seq<LineView> {
    Seq::new(lines.len(), |i: int| line_view(lines[i]))
}

/// Rows rendered with their path column padded to `width`.
pub open spec fn lines_text(lines: Seq<LineView>, width: int, color: bool) -> Seq<char>
    decreases lines.len(),
{
    if lines.len() == 0 {
        Seq::empty()
    } else {
        lines_text(lines.drop_last(), width, color) + line_text(lines.last(), width, color)
    }
}

/// Pending diffs rendered, each after a blank line.
pub open spec fn diffs_text(diffs: Seq<PendingDiff>, color: bool) -> Seq<char>
    decreases diffs.len(),
{
    if diffs.len() == 0 {
        Seq::empty()
    } else {
        diffs_text(diffs.drop_last(), color) + "\n"@ + diff_text(diffs.last(), color)
    }
}

/// A status block: its rows, padded to the widest path, then the diffs.
pub open spec fn status_block_text(lines: Seq<LineView>, diffs: Seq<PendingDiff>, color: bool) -> Seq<
    char,
> {
    lines_text(lines, max_width(lines), color) + diffs_text(diffs, color)
}

/// The widest path column among `lines`.
fn lines_max_width(lines: &Vec<Line>) -> (r: u128)
    ensures
        r == max_width(line_views(lines@)),
{
    let mut m: u128 = 0;
    let mut i: usize = 0;
    while i < lines.len()
        invariant
            i <= lines@.len(),
            m == max_width(line_views(lines@).take(i as int)),
        decreases lines@.len() - i,
    {
        let w = width_of(&lines[i].path);
        assert(line_views(lines@).take(i + 1).drop_last() =~= line_views(lines@).take(i as int));
        if w > m {
            m = w;
        }
        i = i + 1;
    }
    assert(line_views(lines@).take(lines@.len() as int) =~= line_views(lines@));
    m
}

/// Append a status block.
fn push_status_block(out: &mut String, lines: &Vec<Line>, diffs: &Vec<PendingDiff>, s: &Styler)
    ensures
        final(out)@ == old(out)@ + status_block_text(line_views(lines@), diffs@, s.color),
{
    let width = lines_max_width(lines);
    let ghost lv = line_views(lines@);
    let mut i: usize = 0;
    while i < lines.len()
        invariant
            i <= lines@.len(),
            lv == line_views(lines@),
            width == max_width(lv),
            out@ == old(out)@ + lines_text(lv.take(i as int), width as int, s.color),
        decreases lines@.len() - i,
    {
        push_line(out, &lines[i], width, s);
        assert(lv.take(i + 1).drop_last() =~= lv.take(i as int));
        i = i + 1;
    }
    assert(lv.take(lines@.len() as int) =~= lv);
    let ghost mid = out@;
    let mut j: usize = 0;
    while j < diffs.len()
        invariant
            j <= diffs@.len(),
            out@ == mid + diffs_text(diffs@.take(j as int), s.color),
        decreases diffs@.len() - j,
    {
        out.append("\n");
        push_diff(out, &diffs[j], s);
        assert(diffs@.take(j + 1).drop_last() =~= diffs@.take(j as int));
        j = j + 1;
        assert(out@ =~= mid + diffs_text(diffs@.take(j as int), s.color));
    }
    assert(diffs@.take(diffs@.len() as int) =~= diffs@);
}

} // verus!

verus! {

/// A buffered `zenops pkg` row.
#[derive(Debug, Clone)]
pub struct PkgRow {
    pub name: String,
    pub description: Option<String>,
    pub state: PkgEntryState,
    pub matched_detect: Option<String>,
    pub install_hints: PkgInstallHints,
}

/// The buffered aggregate-install footer.
#[derive(Debug, Clone)]
pub struct PkgAggregate {
    pub pkg_manager: String,
    pub command: String,
}

/// One install-hint line per populated package manager, for a missing pkg.
pub open spec fn hint_lines(row: PkgRow) -> Seq<Seq<char>> {
    if row.state == PkgEntryState::Missing && row.install_hints.brew@.len() > 0 {
        seq!["brew: "@ + seq_join(views(row.install_hints.brew@), " "@)]
    } else {
        Seq::empty()
    }
}

/// The install-hint lines of a row.
pub fn pkg_hint_lines(row: &PkgRow) -> (r: Vec<String>)
    ensures
        views(r@) == hint_lines(*row),
{
    let mut lines: Vec<String> = Vec::new();
    let missing = match row.state {
        PkgEntryState::Missing => true,
        _ => false,
    };
    if missing && row.install_hints.brew.len() > 0 {
        let mut l = owned("brew: ");
        let joined = crate::text::join_strings(row.install_hints.brew.as_slice(), " ");
        l.append(joined.as_str());
        lines.push(l);
    }
    assert(views(lines@) =~= hint_lines(*row));
    lines
}

/// The marker of a pkg row and its style code.
pub open spec fn state_marker(state: PkgEntryState) -> (Seq<char>, Seq<char>) {
    match state {
        PkgEntryState::Disabled => ("\x1b[2m"@, "-"@),
        PkgEntryState::Installed => ("\x1b[32m"@, "\u{2713}"@),
        PkgEntryState::Missing => ("\x1b[31m"@, "\u{2717}"@),
    }
}

/// Lines under a row, each indented to the description column.
pub open spec fn hint_block(lines: Seq<Seq<char>>, indent: Seq<char>, color: bool) -> Seq<char>
    decreases lines.len(),
{
    if lines.len() == 0 {
        Seq::empty()
    } else {
        hint_block(lines.drop_last(), indent, color) + indent + styled(color, "\x1b[1;33m"@)
            + lines.last() + reset_text(color) + "\n"@
    }
}

/// The styled marker that starts a pkg row, and the space after it.
pub open spec fn pkg_row_marker(row: PkgRow, color: bool) -> Seq<char> {
    styled(color, state_marker(row.state).0) + state_marker(row.state).1 + reset_text(color) + " "@
}

/// The bold name of a pkg row, padded to `width` characters.
pub open spec fn pkg_row_name(row: PkgRow, width: int, color: bool) -> Seq<char> {
    styled(color, "\x1b[1m"@) + row.name@ + spaces(width - row.name@.len()) + reset_text(color)
}

/// The dim description of a pkg row, if any.
pub open spec fn pkg_row_desc(row: PkgRow, color: bool) -> Seq<char> {
    match row.description {
        Some(d) => "  "@ + styled(color, "\x1b[2m"@) + d@ + reset_text(color),
        None => Seq::empty(),
    }
}

/// The first line of a pkg row: styled marker, bold name padded to `width`
/// characters, and the dim description.
pub open spec fn pkg_row_head(row: PkgRow, width: int, color: bool) -> Seq<char> {
    pkg_row_marker(row, color) + pkg_row_name(row, width, color) + pkg_row_desc(row, color) + "\n"@
}

/// The matched detect strategy line of a pkg row, if any.
pub open spec fn pkg_row_detect(row: PkgRow, indent: Seq<char>, color: bool) -> Seq<char> {
    match row.matched_detect {
        Some(det) => indent + styled(color, "\x1b[2m"@) + "detect: "@ + det@ + reset_text(color)
            + "\n"@,
        None => Seq::empty(),
    }
}

/// One pkg row: its first line, then the matched detect strategy and the
/// install hints indented to the description column.
pub open spec fn pkg_row_text(row: PkgRow, width: int, color: bool) -> Seq<char> {
    pkg_row_head(row, width, color) + pkg_row_detect(row, spaces(2 + width + 2), color) + hint_block(
        hint_lines(row),
        spaces(2 + width + 2),
        color,
    )
}

/// The name column width: the longest name in bytes.
pub open spec fn name_width(rows: Seq<PkgRow>) -> int
    decreases rows.len(),
{
    if rows.len() == 0 {
        0
    } else {
        let m = name_width(rows.drop_last());
        let w = (vstd::utf8::encode_utf8(rows.last().name@).len() as usize) as int;
        if w > m {
            w
        } else {
            m
        }
    }
}

/// Pkg rows rendered with their name column `width` wide.
pub open spec fn pkg_rows_text(rows: Seq<PkgRow>, width: int, color: bool) -> Seq<char>
    decreases rows.len(),
{
    if rows.len() == 0 {
        Seq::empty()
    } else {
        pkg_rows_text(rows.drop_last(), width, color) + pkg_row_text(rows.last(), width, color)
    }
}

/// The aggregate-install footer, after a blank line.
pub open spec fn aggregate_text(agg: Option<PkgAggregate>, color: bool) -> Seq<char> {
    match agg {
        Some(a) => "\n"@ + styled(color, "\x1b[1;33m"@) + "To install all missing via "@
            + a.pkg_manager@ + ": "@ + a.command@ + reset_text(color) + "\n"@,
        None => Seq::empty(),
    }
}

/// A pkg block: the rows, then the aggregate footer after a blank line.
pub open spec fn pkg_block_text(rows: Seq<PkgRow>, agg: Option<PkgAggregate>, color: bool) -> Seq<
    char,
> {
    pkg_rows_text(rows, name_width(rows), color) + aggregate_text(agg, color)
}

fn push_pkg_marker(out: &mut String, row: &PkgRow, s: &Styler)
    ensures
        final(out)@ == old(out)@ + pkg_row_marker(*row, s.color),
{
    match row.state {
        PkgEntryState::Disabled => {
            out.append(s.dim());
            out.append("-");
        },
        PkgEntryState::Installed => {
            out.append(s.green());
            out.append("\u{2713}");
        },
        PkgEntryState::Missing => {
            out.append(s.red());
            out.append("\u{2717}");
        },
    }
    out.append(s.reset());
    out.append(" ");
    assert(out@ =~= old(out)@ + pkg_row_marker(*row, s.color));
}

fn push_pkg_name(out: &mut String, row: &PkgRow, width: usize, s: &Styler)
    ensures
        final(out)@ == old(out)@ + pkg_row_name(*row, width as int, s.color),
{
    out.append(s.bold());
    out.append(row.name.as_str());
    let n = row.name.as_str().unicode_len();
    let pad: u128 = if width > n { (width - n) as u128 } else { 0 };
    let ghost mid = out@;
    push_spaces(out, pad);
    assert(spaces(pad as int) =~= spaces(width - row.name@.len()));
    out.append(s.reset());
    assert(out@ =~= old(out)@ + pkg_row_name(*row, width as int, s.color));
}

fn push_pkg_desc(out: &mut String, row: &PkgRow, s: &Styler)
    ensures
        final(out)@ == old(out)@ + pkg_row_desc(*row, s.color),
{
    if let Some(d) = &row.description {
        out.append("  ");
        out.append(s.dim());
        out.append(d.as_str());
        out.append(s.reset());
    }
    assert(out@ =~= old(out)@ + pkg_row_desc(*row, s.color));
}

fn push_pkg_row_head(out: &mut String, row: &PkgRow, width: usize, s: &Styler)
    ensures
        final(out)@ == old(out)@ + pkg_row_head(*row, width as int, s.color),
{
    let ghost o = out@;
    push_pkg_marker(out, row, s);
    push_pkg_name(out, row, width, s);
    push_pkg_desc(out, row, s);
    out.append("\n");
    assert(out@ =~= o + pkg_row_head(*row, width as int, s.color));
}

fn push_pkg_row_detect(out: &mut String, row: &PkgRow, indent: &String, s: &Styler)
    ensures
        final(out)@ == old(out)@ + pkg_row_detect(*row, indent@, s.color),
{
    if let Some(det) = &row.matched_detect {
        out.append(indent.as_str());
        out.append(s.dim());
        out.append("detect: ");
        out.append(det.as_str());
        out.append(s.reset());
        out.append("\n");
    }
    assert(out@ =~= old(out)@ + pkg_row_detect(*row, indent@, s.color));
}

fn push_hint_block(out: &mut String, hints: &Vec<String>, indent: &String, s: &Styler)
    ensures
        final(out)@ == old(out)@ + hint_block(views(hints@), indent@, s.color),
{
    let ghost hv = views(hints@);
    let mut i: usize = 0;
    while i < hints.len()
        invariant
            i <= hints@.len(),
            hv == views(hints@),
            out@ == old(out)@ + hint_block(hv.take(i as int), indent@, s.color),
        decreases hints@.len() - i,
    {
        out.append(indent.as_str());
        out.append(s.bold_yellow());
        out.append(hints[i].as_str());
        out.append(s.reset());
        out.append("\n");
        assert(hv.take(i + 1).drop_last() =~= hv.take(i as int));
        i = i + 1;
        assert(out@ =~= old(out)@ + hint_block(hv.take(i as int), indent@, s.color));
    }
    assert(hv.take(hints@.len() as int) =~= hv);
}

fn push_pkg_row(out: &mut String, row: &PkgRow, width: usize, s: &Styler)
    ensures
        final(out)@ == old(out)@ + pkg_row_text(*row, width as int, s.color),
{
    let ghost o = out@;
    push_pkg_row_head(out, row, width, s);
    let ghost a = out@;
    let mut indent = String::new();
    push_spaces(&mut indent, 2 + width as u128 + 2);
    assert(indent@ =~= spaces(2 + width + 2));
    push_pkg_row_detect(out, row, &indent, s);
    let ghost b = out@;
    let hints = pkg_hint_lines(row);
    push_hint_block(out, &hints, &indent, s);
    assert(out@ =~= o + pkg_row_text(*row, width as int, s.color));
}

fn pkg_name_width(rows: &Vec<PkgRow>) -> (r: usize)
    ensures
        r == name_width(rows@),
{
    let mut m: usize = 0;
    let mut i: usize = 0;
    while i < rows.len()
        invariant
            i <= rows@.len(),
            m == name_width(rows@.take(i as int)),
        decreases rows@.len() - i,
    {
        let w = rows[i].name.as_str().len();
        assert(rows@.take(i + 1).drop_last() =~= rows@.take(i as int));
        if w > m {
            m = w;
        }
        i = i + 1;
    }
    assert(rows@.take(rows@.len() as int) =~= rows@);
    m
}

#[verifier::spinoff_prover]
fn push_pkg_block(out: &mut String, rows: &Vec<PkgRow>, agg: &Option<PkgAggregate>, s: &Styler)
    ensures
        final(out)@ == old(out)@ + pkg_block_text(rows@, *agg, s.color),
{
    let width = pkg_name_width(rows);
    let mut i: usize = 0;
    while i < rows.len()
        invariant
            i <= rows@.len(),
            width == name_width(rows@),
            out@ == old(out)@ + pkg_rows_text(rows@.take(i as int), width as int, s.color),
        decreases rows@.len() - i,
    {
        push_pkg_row(out, &rows[i], width, s);
        assert(rows@.take(i + 1).drop_last() =~= rows@.take(i as int));
        i = i + 1;
    }
    assert(rows@.take(rows@.len() as int) =~= rows@);
    let ghost mid = out@;
    push_aggregate(out, agg, s);
    assert(out@ =~= old(out)@ + pkg_block_text(rows@, *agg, s.color));
}

fn push_aggregate(out: &mut String, agg: &Option<PkgAggregate>, s: &Styler)
    ensures
        final(out)@ == old(out)@ + aggregate_text(*agg, s.color),
{
    if let Some(a) = agg {
        out.append("\n");
        out.append(s.bold_yellow());
        out.append("To install all missing via ");
        out.append(a.pkg_manager.as_str());
        out.append(": ");
        out.append(a.command.as_str());
        out.append(s.reset());
        out.append("\n");
    }
    assert(out@ =~= old(out)@ + aggregate_text(*agg, s.color));
}

} // verus!

verus! {

/// The title of a doctor section.
pub open spec fn section_title(section: DoctorSection) -> Seq<char> {
    match section {
        DoctorSection::System => "System"@,
        DoctorSection::Repo => "Config repo (~/.config/zenops)"@,
        DoctorSection::Config => "Config (~/.config/zenops/config.toml)"@,
        DoctorSection::PkgManager => "Package manager"@,
        DoctorSection::User => "User"@,
        DoctorSection::Shell => "Shell"@,
        DoctorSection::Packages => "Packages"@,
    }
}

/// The title of a doctor section.
pub fn doctor_section_title(section: DoctorSection) -> (r: &'static str)
    ensures
        r@ == section_title(section),
{
    match section {
        DoctorSection::System => "System",
        DoctorSection::Repo => "Config repo (~/.config/zenops)",
        DoctorSection::Config => "Config (~/.config/zenops/config.toml)",
        DoctorSection::PkgManager => "Package manager",
        DoctorSection::User => "User",
        DoctorSection::Shell => "Shell",
        DoctorSection::Packages => "Packages",
    }
}

/// The bold title that starts a section, after a blank line unless it is
/// the first; nothing when `section` is already the current one.
pub open spec fn section_header_text(
    last: Option<DoctorSection>,
    section: DoctorSection,
    color: bool,
) -> Seq<char> {
    if last == Some(section) {
        Seq::empty()
    } else {
        (if last is Some {
            "\n"@
        } else {
            Seq::empty()
        }) + styled(color, "\x1b[1m"@) + section_title(section) + reset_text(color) + "\n"@
    }
}

/// What opens the value of a check of this severity.
pub open spec fn severity_open(severity: DoctorSeverity, color: bool) -> Seq<char> {
    match severity {
        DoctorSeverity::Okay => styled(color, "\x1b[32m"@),
        DoctorSeverity::Info => ""@,
        DoctorSeverity::Warn => styled(color, "\x1b[33m"@),
        DoctorSeverity::Bad => styled(color, "\x1b[31m"@),
    }
}

/// Detail lines, each indented by four spaces.
pub open spec fn details_text(detail: Seq<Seq<char>>) -> Seq<char>
    decreases detail.len(),
{
    if detail.len() == 0 {
        Seq::empty()
    } else {
        details_text(detail.drop_last()) + "    "@ + detail.last() + "\n"@
    }
}

/// The label padded to 14 characters and the value in the severity's color.
pub open spec fn check_value_text(
    label: Seq<char>,
    severity: DoctorSeverity,
    value: Seq<char>,
    color: bool,
) -> Seq<char> {
    "  "@ + label + spaces(14 - label.len()) + " "@ + severity_open(severity, color) + value
        + reset_text(color)
}

/// The dim hint after the value, if any.
pub open spec fn check_hint_text(hint: Option<Seq<char>>, color: bool) -> Seq<char> {
    match hint {
        Some(h) => "  "@ + styled(color, "\x1b[2m"@) + h + reset_text(color),
        None => Seq::empty(),
    }
}

/// A check row: the label padded to 14 characters, the value in the
/// severity's color, the dim hint, then the detail lines.
pub open spec fn check_row_text(
    label: Seq<char>,
    severity: DoctorSeverity,
    value: Seq<char>,
    hint: Option<Seq<char>>,
    detail: Seq<Seq<char>>,
    color: bool,
) -> Seq<char> {
    check_value_text(label, severity, value, color) + check_hint_text(hint, color) + "\n"@
        + details_text(detail)
}

/// The section of a doctor event.
pub open spec fn check_section(check: DoctorCheck) -> DoctorSection {
    match check {
        DoctorCheck::SectionHeader { section } => section,
        DoctorCheck::Check { section, .. } => section,
    }
}

/// What a doctor event renders, given the section currently shown.
pub open spec fn doctor_check_text(last: Option<DoctorSection>, check: DoctorCheck, color: bool) -> Seq<
    char,
> {
    match check {
        DoctorCheck::SectionHeader { section } => section_header_text(last, section, color),
        DoctorCheck::Check { section, label, severity, value, hint, detail } => section_header_text(
            last,
            section,
            color,
        ) + check_row_text(
            label@,
            severity,
            value@,
            match hint {
                Some(h) => Some(h@),
                None => None,
            },
            views(detail@),
            color,
        ),
    }
}

fn push_section_header(out: &mut String, last: Option<DoctorSection>, section: DoctorSection, s: &Styler)
    ensures
        final(out)@ == old(out)@ + section_header_text(last, section, s.color),
{
    let same = match last {
        Some(l) => l == section,
        None => false,
    };
    if same {
        assert(out@ =~= old(out)@ + section_header_text(last, section, s.color));
        return;
    }
    if last.is_some() {
        out.append("\n");
    }
    out.append(s.bold());
    out.append(doctor_section_title(section));
    out.append(s.reset());
    out.append("\n");
    assert(out@ =~= old(out)@ + section_header_text(last, section, s.color));
}

fn push_check_value(out: &mut String, label: &String, severity: DoctorSeverity, value: &String, s: &Styler)
    ensures
        final(out)@ == old(out)@ + check_value_text(label@, severity, value@, s.color),
{
    let ghost o = out@;
    out.append("  ");
    out.append(label.as_str());
    let n = label.as_str().unicode_len();
    let pad: u128 = if n < 14 { (14 - n) as u128 } else { 0 };
    push_spaces(out, pad);
    assert(spaces(pad as int) =~= spaces(14 - label@.len()));
    let ghost a = out@;
    assert(a =~= o + "  "@ + label@ + spaces(14 - label@.len()));
    out.append(" ");
    let color_open = match severity {
        DoctorSeverity::Okay => s.green(),
        DoctorSeverity::Info => "",
        DoctorSeverity::Warn => s.yellow(),
        DoctorSeverity::Bad => s.red(),
    };
    out.append(color_open);
    out.append(value.as_str());
    out.append(s.reset());
    assert(out@ =~= o + check_value_text(label@, severity, value@, s.color));
}

fn push_check_hint(out: &mut String, hint: &Option<String>, s: &Styler)
    ensures
        final(out)@ == old(out)@ + check_hint_text(
            match hint {
                Some(h) => Some(h@),
                None => None,
            },
            s.color,
        ),
{
    if let Some(hh) = hint {
        out.append("  ");
        out.append(s.dim());
        out.append(hh.as_str());
        out.append(s.reset());
    }
    assert(out@ =~= old(out)@ + check_hint_text(
        match hint {
            Some(h) => Some(h@),
            None => None,
        },
        s.color,
    ));
}

fn push_details(out: &mut String, detail: &Vec<String>)
    ensures
        final(out)@ == old(out)@ + details_text(views(detail@)),
{
    let ghost dv = views(detail@);
    let mut i: usize = 0;
    while i < detail.len()
        invariant
            i <= detail@.len(),
            dv == views(detail@),
            out@ == old(out)@ + details_text(dv.take(i as int)),
        decreases detail@.len() - i,
    {
        out.append("    ");
        out.append(detail[i].as_str());
        out.append("\n");
        assert(dv.take(i + 1).drop_last() =~= dv.take(i as int));
        i = i + 1;
        assert(out@ =~= old(out)@ + details_text(dv.take(i as int)));
    }
    assert(dv.take(detail@.len() as int) =~= dv);
}

fn push_check_row(
    out: &mut String,
    label: &String,
    severity: DoctorSeverity,
    value: &String,
    hint: &Option<String>,
    detail: &Vec<String>,
    s: &Styler,
)
    ensures
        final(out)@ == old(out)@ + check_row_text(
            label@,
            severity,
            value@,
            match hint {
                Some(h) => Some(h@),
                None => None,
            },
            views(detail@),
            s.color,
        ),
{
    let ghost o = out@;
    push_check_value(out, label, severity, value, s);
    push_check_hint(out, hint, s);
    out.append("\n");
    push_details(out, detail);
    assert(out@ =~= o + check_row_text(
        label@,
        severity,
        value@,
        match hint {
            Some(h) => Some(h@),
            None => None,
        },
        views(detail@),
        s.color,
    ));
}

fn push_doctor_check(out: &mut String, last: Option<DoctorSection>, check: &DoctorCheck, s: &Styler)
    ensures
        final(out)@ == old(out)@ + doctor_check_text(last, *check, s.color),
{
    match check {
        DoctorCheck::SectionHeader { section } => {
            push_section_header(out, last, *section, s);
        },
        DoctorCheck::Check { section, label, severity, value, hint, detail } => {
            let ghost o = out@;
            push_section_header(out, last, *section, s);
            let ghost a = out@;
            push_check_row(out, label, *severity, value, hint, detail, s);
            assert(out@ =~= o + doctor_check_text(last, *check, s.color));
        },
    }
}

/// `label` and the value on a line of its own, or `missing` without one.
pub open spec fn opt_line(label: Seq<char>, v: Option<String>, missing: Seq<char>) -> Seq<char> {
    match v {
        Some(x) => label + x@ + "\n"@,
        None => missing,
    }
}

fn push_opt_line(out: &mut String, label: &str, v: &Option<String>, missing: &str)
    ensures
        final(out)@ == old(out)@ + opt_line(label@, *v, missing@),
{
    match v {
        Some(x) => {
            out.append(label);
            out.append(x.as_str());
            out.append("\n");
        },
        None => {
            out.append(missing);
        },
    }
    assert(out@ =~= old(out)@ + opt_line(label@, *v, missing@));
}

/// The text of an init summary.
pub open spec fn init_summary_text(summary: InitSummary) -> Seq<char> {
    "Cloned into "@ + summary.clone_path@ + "\n"@ + opt_line("  remote: "@, summary.remote, ""@)
        + opt_line("  shell:  "@, summary.shell, "  shell:  (none configured)\n"@) + "  pkgs:   "@
        + crate::text::decimal(summary.pkg_count as nat) + "\n"@
        + "Next: run `zenops apply` to realize this config on your system.\n"@
}

fn push_init_summary(out: &mut String, summary: &InitSummary)
    ensures
        final(out)@ == old(out)@ + init_summary_text(*summary),
{
    let ghost o = out@;
    out.append("Cloned into ");
    out.append(summary.clone_path.as_str());
    out.append("\n");
    push_opt_line(out, "  remote: ", &summary.remote, "");
    push_opt_line(out, "  shell:  ", &summary.shell, "  shell:  (none configured)\n");
    let ghost a = out@;
    out.append("  pkgs:   ");
    let count = crate::text::decimal_string(summary.pkg_count);
    out.append(count.as_str());
    out.append("\n");
    out.append("Next: run `zenops apply` to realize this config on your system.\n");
    assert(out@ =~= o + init_summary_text(*summary));
}

/// The text of a bootstrap summary.
pub open spec fn bootstrap_summary_text(summary: BootstrapSummary) -> Seq<char> {
    "Initialized fresh zenops repo at "@ + summary.repo_path@ + "\n"@ + opt_line(
        "  shell:  "@,
        summary.shell,
        "  shell:  (none configured)\n"@,
    ) + opt_line("  name:   "@, summary.name, "  name:   (not set)\n"@) + opt_line(
        "  email:  "@,
        summary.email,
        "  email:  (not set)\n"@,
    ) + "Next: edit config.toml, then run `zenops apply`.\n"@
}

fn push_bootstrap_summary(out: &mut String, summary: &BootstrapSummary)
    ensures
        final(out)@ == old(out)@ + bootstrap_summary_text(*summary),
{
    let ghost o = out@;
    out.append("Initialized fresh zenops repo at ");
    out.append(summary.repo_path.as_str());
    out.append("\n");
    push_opt_line(out, "  shell:  ", &summary.shell, "  shell:  (none configured)\n");
    push_opt_line(out, "  name:   ", &summary.name, "  name:   (not set)\n");
    push_opt_line(out, "  email:  ", &summary.email, "  email:  (not set)\n");
    out.append("Next: edit config.toml, then run `zenops apply`.\n");
    assert(out@ =~= o + bootstrap_summary_text(*summary));
}

/// The note shown when no supported package manager is on `PATH`.
pub open spec fn no_pkg_manager_text(supported: Seq<Seq<char>>) -> Seq<char> {
    "note: no known package manager detected on PATH; install guidance will be hidden. Supported managers: "@
        + seq_join(supported, ", "@) + ".\n"@
}

fn push_no_pkg_manager(out: &mut String, supported: &Vec<String>)
    ensures
        final(out)@ == old(out)@ + no_pkg_manager_text(views(supported@)),
{
    out.append(
        "note: no known package manager detected on PATH; install guidance will be hidden. Supported managers: ",
    );
    let joined = crate::text::join_strings(supported.as_slice(), ", ");
    out.append(joined.as_str());
    out.append(".\n");
    assert(out@ =~= old(out)@ + no_pkg_manager_text(views(supported@)));
}

} // verus!

verus! {

/// Which kind of block, if any, is currently buffered.
#[derive(Debug, Clone, Copy, PartialEq, Eq, Structural)]
pub enum Pending {
    /// Nothing is buffered.
    Idle,
    /// Status and applied-action rows (and diffs) are buffered.
    StatusBlock,
    /// Pkg rows (and the aggregate footer) are buffered.
    PkgBlock,
}

/// Human-readable text renderer. Honors `color` for ANSI escapes,
/// `show_diffs` for whether generated files that differ trail their
/// unified diff after the block, and `show_clean` for whether clean-state
/// events get a visible row.
pub struct TerminalRenderer {
    out: String,
    styler: Styler,
    show_diffs: bool,
    show_clean: bool,
    pending: Pending,
    lines: Vec<Line>,
    diffs: Vec<PendingDiff>,
    pkg_rows: Vec<PkgRow>,
    pkg_aggregate: Option<PkgAggregate>,
    last_doctor_section: Option<DoctorSection>,
    finalized: bool,
}

/// The row of a status event, as a sequence of at most one row.
pub open spec fn opt_line_seq(l: Option<LineView>) -> Seq<LineView> {
    match l {
        Some(v) => seq![v],
        None => Seq::empty(),
    }
}

/// The diff a status event queues: generated files that differ, when
/// diffs are shown.
pub open spec fn status_diffs(status: Status, show_diffs: bool) -> Seq<PendingDiff> {
    match status {
        Status::Generated { want_content, cur_content, path, status: fs } => if show_diffs && (fs
            == FileStatus::Modified || fs == FileStatus::New) {
            seq![PendingDiff { path, cur_content, want_content }]
        } else {
            Seq::empty()
        },
        _ => Seq::empty(),
    }
}

impl TerminalRenderer {
    /// Everything rendered so far.
    pub closed spec fn text(&self) -> Seq<char> {
        self.out@
    }

    pub closed spec fn color(&self) -> bool {
        self.styler.color
    }

    pub closed spec fn shows_diffs(&self) -> bool {
        self.show_diffs
    }

    pub closed spec fn shows_clean(&self) -> bool {
        self.show_clean
    }

    /// The kind of block buffered.
    pub closed spec fn pending(&self) -> Pending {
        self.pending
    }

    /// The buffered status rows.
    pub closed spec fn lines(&self) -> Seq<LineView> {
        line_views(self.lines@)
    }

    /// The buffered diffs.
    pub closed spec fn diffs(&self) -> Seq<PendingDiff> {
        self.diffs@
    }

    /// The buffered pkg rows.
    pub closed spec fn pkg_rows(&self) -> Seq<PkgRow> {
        self.pkg_rows@
    }

    /// The buffered aggregate footer.
    pub closed spec fn aggregate(&self) -> Option<PkgAggregate> {
        self.pkg_aggregate
    }

    /// The doctor section currently shown.
    pub closed spec fn last_section(&self) -> Option<DoctorSection> {
        self.last_doctor_section
    }

    pub closed spec fn is_finalized(&self) -> bool {
        self.finalized
    }

    /// What flushing the buffered block writes.
    pub open spec fn pending_text(&self) -> Seq<char> {
        match self.pending() {
            Pending::Idle => Seq::empty(),
            Pending::StatusBlock => status_block_text(self.lines(), self.diffs(), self.color()),
            Pending::PkgBlock => pkg_block_text(self.pkg_rows(), self.aggregate(), self.color()),
        }
    }

    /// What switching to `kind` writes: the buffered block, unless it is
    /// already of that kind.
    pub open spec fn enter_text(&self, kind: Pending) -> Seq<char> {
        if self.pending() != kind {
            self.pending_text()
        } else {
            Seq::empty()
        }
    }

    /// The buffered status rows after switching to `kind`.
    pub open spec fn lines_after(&self, kind: Pending) -> Seq<LineView> {
        if self.pending() != kind && self.pending() == Pending::StatusBlock {
            Seq::empty()
        } else {
            self.lines()
        }
    }

    /// The buffered diffs after switching to `kind`.
    pub open spec fn diffs_after(&self, kind: Pending) -> Seq<PendingDiff> {
        if self.pending() != kind && self.pending() == Pending::StatusBlock {
            Seq::empty()
        } else {
            self.diffs()
        }
    }

    /// The buffered pkg rows after switching to `kind`.
    pub open spec fn rows_after(&self, kind: Pending) -> Seq<PkgRow> {
        if self.pending() != kind && self.pending() == Pending::PkgBlock {
            Seq::empty()
        } else {
            self.pkg_rows()
        }
    }

    /// The buffered footer after switching to `kind`.
    pub open spec fn aggregate_after(&self, kind: Pending) -> Option<PkgAggregate> {
        if self.pending() != kind && self.pending() == Pending::PkgBlock {
            None
        } else {
            self.aggregate()
        }
    }

    /// The settings and the doctor and finalize state are unchanged.
    pub open spec fn same_settings(&self, other: &Self) -> bool {
        &&& other.color() == self.color()
        &&& other.shows_diffs() == self.shows_diffs()
        &&& other.shows_clean() == self.shows_clean()
        &&& other.is_finalized() == self.is_finalized()
    }

    /// A renderer with nothing rendered or buffered.
    pub fn new(color: bool, show_diffs: bool, show_clean: bool) -> (r: Self)
        ensures
            r.text().len() == 0,
            r.color() == color,
            r.shows_diffs() == show_diffs,
            r.shows_clean() == show_clean,
            r.pending() == Pending::Idle,
            r.lines().len() == 0,
            r.diffs().len() == 0,
            r.pkg_rows().len() == 0,
            r.aggregate() is None,
            r.last_section() is None,
            !r.is_finalized(),
    {
        let r = TerminalRenderer {
            out: String::new(),
            styler: Styler::new(color),
            show_diffs,
            show_clean,
            pending: Pending::Idle,
            lines: Vec::new(),
            diffs: Vec::new(),
            pkg_rows: Vec::new(),
            pkg_aggregate: None,
            last_doctor_section: None,
            finalized: false,
        };
        assert(r.lines() =~= Seq::<LineView>::empty());
        r
    }

    /// Everything rendered so far.
    pub fn output(&self) -> (r: &str)
        ensures
            r@ == self.text(),
    {
        self.out.as_str()
    }

    /// The rendered text, giving up the renderer.
    pub fn into_output(self) -> (r: String)
        ensures
            r@ == self.text(),
    {
        self.out
    }

    /// Write out the buffered block and empty its buffers.
    fn flush_pending(&mut self)
        ensures
            final(self).text() == old(self).text() + old(self).pending_text(),
            final(self).pending() == Pending::Idle,
            final(self).lines() == old(self).lines_after(Pending::Idle),
            final(self).diffs() == old(self).diffs_after(Pending::Idle),
            final(self).pkg_rows() == old(self).rows_after(Pending::Idle),
            final(self).aggregate() == old(self).aggregate_after(Pending::Idle),
            final(self).last_section() == old(self).last_section(),
            old(self).same_settings(&*final(self)),
    {
        match self.pending {
            Pending::Idle => {
                assert(self.out@ =~= old(self).out@ + Seq::<char>::empty());
            },
            Pending::StatusBlock => {
                let mut lines: Vec<Line> = Vec::new();
                std::mem::swap(&mut lines, &mut self.lines);
                let mut diffs: Vec<PendingDiff> = Vec::new();
                std::mem::swap(&mut diffs, &mut self.diffs);
                push_status_block(&mut self.out, &lines, &diffs, &self.styler);
                assert(self.lines() =~= Seq::<LineView>::empty());
            },
            Pending::PkgBlock => {
                let mut rows: Vec<PkgRow> = Vec::new();
                std::mem::swap(&mut rows, &mut self.pkg_rows);
                let mut agg: Option<PkgAggregate> = None;
                std::mem::swap(&mut agg, &mut self.pkg_aggregate);
                push_pkg_block(&mut self.out, &rows, &agg, &self.styler);
            },
        }
        self.pending = Pending::Idle;
    }

    /// Open or stay in `kind`, flushing a different buffered block first.
    fn enter(&mut self, kind: Pending)
        ensures
            final(self).text() == old(self).text() + old(self).enter_text(kind),
            final(self).pending() == kind,
            final(self).lines() == old(self).lines_after(kind),
            final(self).diffs() == old(self).diffs_after(kind),
            final(self).pkg_rows() == old(self).rows_after(kind),
            final(self).aggregate() == old(self).aggregate_after(kind),
            final(self).last_section() == old(self).last_section(),
            old(self).same_settings(&*final(self)),
    {
        if self.pending != kind {
            self.flush_pending();
            self.pending = kind;
        } else {
            assert(self.out@ =~= old(self).out@ + Seq::<char>::empty());
        }
    }
}

impl Output for TerminalRenderer {
    /// Render or buffer one event. Status and applied-action rows buffer in
    /// the status block, pkg rows and the footer in the pkg block; a
    /// different block is flushed first. Doctor checks, summaries and the
    /// no-package-manager note flush any block and render at once.
    fn push(&mut self, event: Event) -> (r: Result<(), OutputError>)
        ensures
            r is Ok,
            old(self).same_settings(&*final(self)),
            match event {
                Event::Status(st) => {
                    &&& final(self).text() == old(self).text() + old(self).enter_text(
                        Pending::StatusBlock,
                    )
                    &&& final(self).pending() == Pending::StatusBlock
                    &&& final(self).lines() == old(self).lines_after(Pending::StatusBlock)
                        + opt_line_seq(status_line(st, old(self).shows_clean()))
                    &&& final(self).diffs() == old(self).diffs_after(Pending::StatusBlock)
                        + status_diffs(st, old(self).shows_diffs())
                    &&& final(self).pkg_rows() == old(self).rows_after(Pending::StatusBlock)
                    &&& final(self).aggregate() == old(self).aggregate_after(Pending::StatusBlock)
                    &&& final(self).last_section() == old(self).last_section()
                },
                Event::AppliedAction(a) => {
                    &&& final(self).text() == old(self).text() + old(self).enter_text(
                        Pending::StatusBlock,
                    )
                    &&& final(self).pending() == Pending::StatusBlock
                    &&& final(self).lines() == old(self).lines_after(Pending::StatusBlock).push(
                        action_line(a),
                    )
                    &&& final(self).diffs() == old(self).diffs_after(Pending::StatusBlock)
                    &&& final(self).pkg_rows() == old(self).rows_after(Pending::StatusBlock)
                    &&& final(self).aggregate() == old(self).aggregate_after(Pending::StatusBlock)
                    &&& final(self).last_section() == old(self).last_section()
                },
                Event::PkgEntry(PkgEntry::Pkg { name, description, state, matched_detect, install_hints, .. }) => {
                    &&& final(self).text() == old(self).text() + old(self).enter_text(Pending::PkgBlock)
                    &&& final(self).pending() == Pending::PkgBlock
                    &&& final(self).pkg_rows() == old(self).rows_after(Pending::PkgBlock).push(
                        PkgRow { name, description, state, matched_detect, install_hints },
                    )
                    &&& final(self).aggregate() == old(self).aggregate_after(Pending::PkgBlock)
                    &&& final(self).lines() == old(self).lines_after(Pending::PkgBlock)
                    &&& final(self).diffs() == old(self).diffs_after(Pending::PkgBlock)
                    &&& final(self).last_section() == old(self).last_section()
                },
                Event::PkgEntry(PkgEntry::AggregateInstall { pkg_manager, command, .. }) => {
                    &&& final(self).text() == old(self).text() + old(self).enter_text(Pending::PkgBlock)
                    &&& final(self).pending() == Pending::PkgBlock
                    &&& final(self).pkg_rows() == old(self).rows_after(Pending::PkgBlock)
                    &&& final(self).aggregate() == Some(PkgAggregate { pkg_manager, command })
                    &&& final(self).lines() == old(self).lines_after(Pending::PkgBlock)
                    &&& final(self).diffs() == old(self).diffs_after(Pending::PkgBlock)
                    &&& final(self).last_section() == old(self).last_section()
                },
                Event::PkgEntry(PkgEntry::NoPackageManagerDetected { supported }) => {
                    &&& final(self).text() == old(self).text() + old(self).enter_text(Pending::Idle)
                        + no_pkg_manager_text(views(supported@))
                    &&& final(self).pending() == Pending::Idle
                    &&& final(self).lines() == old(self).lines_after(Pending::Idle)
                    &&& final(self).diffs() == old(self).diffs_after(Pending::Idle)
                    &&& final(self).pkg_rows() == old(self).rows_after(Pending::Idle)
                    &&& final(self).aggregate() == old(self).aggregate_after(Pending::Idle)
                    &&& final(self).last_section() == old(self).last_section()
                },
                Event::DoctorCheck(check) => {
                    &&& final(self).text() == old(self).text() + old(self).enter_text(Pending::Idle)
                        + doctor_check_text(old(self).last_section(), check, old(self).color())
                    &&& final(self).pending() == Pending::Idle
                    &&& final(self).lines() == old(self).lines_after(Pending::Idle)
                    &&& final(self).diffs() == old(self).diffs_after(Pending::Idle)
                    &&& final(self).pkg_rows() == old(self).rows_after(Pending::Idle)
                    &&& final(self).aggregate() == old(self).aggregate_after(Pending::Idle)
                    &&& final(self).last_section() == Some(check_section(check))
                },
                Event::InitSummary(summary) => {
                    &&& final(self).text() == old(self).text() + old(self).enter_text(Pending::Idle)
                        + init_summary_text(summary)
                    &&& final(self).pending() == Pending::Idle
                    &&& final(self).lines() == old(self).lines_after(Pending::Idle)
                    &&& final(self).diffs() == old(self).diffs_after(Pending::Idle)
                    &&& final(self).pkg_rows() == old(self).rows_after(Pending::Idle)
                    &&& final(self).aggregate() == old(self).aggregate_after(Pending::Idle)
                    &&& final(self).last_section() == old(self).last_section()
                },
                Event::BootstrapSummary(summary) => {
                    &&& final(self).text() == old(self).text() + old(self).enter_text(Pending::Idle)
                        + bootstrap_summary_text(summary)
                    &&& final(self).pending() == Pending::Idle
                    &&& final(self).lines() == old(self).lines_after(Pending::Idle)
                    &&& final(self).diffs() == old(self).diffs_after(Pending::Idle)
                    &&& final(self).pkg_rows() == old(self).rows_after(Pending::Idle)
                    &&& final(self).aggregate() == old(self).aggregate_after(Pending::Idle)
                    &&& final(self).last_section() == old(self).last_section()
                },
            },
    {
        match event {
            Event::Status(status) => {
                self.enter(Pending::StatusBlock);
                let ghost lines0 = self.lines();
                let ghost diffs0 = self.diffs();
                let line = status_to_line(&status, self.show_clean);
                match line {
                    Some(l) => {
                        self.lines.push(l);
                        assert(self.lines() =~= lines0 + opt_line_seq(
                            status_line(status, old(self).shows_clean()),
                        ));
                    },
                    None => {
                        assert(self.lines() =~= lines0 + opt_line_seq(
                            status_line(status, old(self).shows_clean()),
                        ));
                    },
                }
                let ghost st = status;
                if self.show_diffs {
                    match status {
                        Status::Generated { want_content, cur_content, path, status: fs } => {
                            let differs = match fs {
                                FileStatus::Modified => true,
                                FileStatus::New => true,
                                FileStatus::Okay => false,
                            };
                            if differs {
                                self.diffs.push(PendingDiff { path, cur_content, want_content });
                            }
                        },
                        _ => {},
                    }
                }
                assert(self.diffs() =~= diffs0 + status_diffs(st, old(self).shows_diffs()));
                Ok(())
            },
            Event::AppliedAction(action) => {
                self.enter(Pending::StatusBlock);
                let ghost lines0 = self.lines();
                let l = action_to_line(&action);
                self.lines.push(l);
                assert(self.lines() =~= lines0.push(action_line(action)));
                Ok(())
            },
            Event::PkgEntry(entry) => {
                match entry {
                    PkgEntry::NoPackageManagerDetected { supported } => {
                        self.enter(Pending::Idle);
                        push_no_pkg_manager(&mut self.out, &supported);
                    },
                    PkgEntry::Pkg { name, key: _, description, state, matched_detect, install_hints } => {
                        self.enter(Pending::PkgBlock);
                        self.pkg_rows.push(
                            PkgRow { name, description, state, matched_detect, install_hints },
                        );
                    },
                    PkgEntry::AggregateInstall { pkg_manager, command, packages: _ } => {
                        self.enter(Pending::PkgBlock);
                        self.pkg_aggregate = Some(PkgAggregate { pkg_manager, command });
                    },
                }
                Ok(())
            },
            Event::DoctorCheck(check) => {
                self.enter(Pending::Idle);
                push_doctor_check(&mut self.out, self.last_doctor_section, &check, &self.styler);
                self.last_doctor_section = Some(
                    match &check {
                        DoctorCheck::SectionHeader { section } => *section,
                        DoctorCheck::Check { section, .. } => *section,
                    },
                );
                Ok(())
            },
            Event::InitSummary(summary) => {
                self.enter(Pending::Idle);
                push_init_summary(&mut self.out, &summary);
                Ok(())
            },
            Event::BootstrapSummary(summary) => {
                self.enter(Pending::Idle);
                push_bootstrap_summary(&mut self.out, &summary);
                Ok(())
            },
        }
    }

    /// Write out whatever block is buffered; a second call does nothing.
    fn finalize(&mut self) -> (r: Result<(), OutputError>)
        ensures
            r is Ok,
            old(self).is_finalized() ==> *final(self) == *old(self),
            !old(self).is_finalized() ==> {
                &&& final(self).text() == old(self).text() + old(self).pending_text()
                &&& final(self).pending() == Pending::Idle
                &&& final(self).is_finalized()
                &&& final(self).last_section() == old(self).last_section()
            },
    {
        if self.finalized {
            return Ok(());
        }
        self.finalized = true;
        self.flush_pending();
        Ok(())
    }
}

} // verus!

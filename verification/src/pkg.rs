//! The parts of a `[pkg.<key>]` table that the library reasons about.

use indexmap::IndexMap;
use vstd::prelude::*;

use crate::expand::{ExpandLookup, ExpandStr};
use crate::shell::ShellInitAction;
use crate::text::{owned, replace_first, replace_first_char, seq_join, str_eq};

verus! {

/// The shells a pkg's init actions can target.
#[derive(Debug, Clone, Copy, PartialEq, Eq, Structural)]
pub enum Shell {
    Bash,
    Zsh,
}

/// Operating systems a pkg may opt into supporting.
#[derive(Debug, Clone, Copy, PartialEq, Eq, Structural)]
pub enum Os {
    Linux,
    Macos,
}

impl Os {
    /// The operating system named by `std::env::consts::OS`, when it is
    /// one a pkg can name.
    pub fn from_os_name(name: &str) -> (r: Option<Os>)
        ensures
            r == (if name@ == "linux"@ {
                Some(Os::Linux)
            } else if name@ == "macos"@ {
                Some(Os::Macos)
            } else {
                None::<Os>
            }),
    {
        if crate::text::str_eq(name, "linux") {
            Some(Os::Linux)
        } else if crate::text::str_eq(name, "macos") {
            Some(Os::Macos)
        } else {
            None
        }
    }
}

/// Per-package-manager install hints.
#[derive(Debug, Clone, PartialEq)]
pub struct InstallHint {
    pub brew: BrewHint,
}

/// The Homebrew packages that provide a pkg.
#[derive(Debug, Clone, PartialEq)]
pub struct BrewHint {
    pub packages: Vec<String>,
}

impl Default for BrewHint {
    fn default() -> (r: Self)
        ensures
            r.packages@.len() == 0,
    {
        BrewHint { packages: Vec::new() }
    }
}

impl Default for InstallHint {
    fn default() -> (r: Self)
        ensures
            r.brew.packages@.len() == 0,
    {
        InstallHint { brew: BrewHint::default() }
    }
}


/// The directories listed in a `PATH` value: the fields between `:`
/// separators, empty ones kept (Unix rules), with `cur` the part of a
/// field already read.
pub open spec fn path_fields(s: Seq<char>, cur: Seq<char>) -> Seq<Seq<char>>
    decreases s.len(),
{
    if s.len() == 0 {
        seq![cur]
    } else if s[0] == ':' {
        seq![cur] + path_fields(s.drop_first(), Seq::empty())
    } else {
        path_fields(s.drop_first(), cur.push(s[0]))
    }
}

/// Where `binary` would be in directory `dir`, as `Path::join` puts it
/// (Unix rules: an absolute `binary` stands for itself).
pub open spec fn which_candidate(dir: Seq<char>, binary: Seq<char>) -> Seq<char> {
    if binary.len() > 0 && binary[0] == '/' {
        binary
    } else {
        crate::config_files::path_join(dir, binary)
    }
}

/// The paths where a lookup of `binary` on the `PATH` value `path_var`
/// looks for it, in order; the first that is a file is the one found.
pub fn which_candidates(path_var: &str, binary: &str) -> (r: Vec<String>)
    ensures
        crate::text::views(r@) == Seq::new(
            path_fields(path_var@, Seq::empty()).len(),
            |i: int| which_candidate(path_fields(path_var@, Seq::empty())[i], binary@),
        ),
{
    let cs = crate::text::str_chars(path_var);
    let ghost s = path_var@;
    let ghost goal = path_fields(s, Seq::empty());
    let mut dirs: Vec<String> = Vec::new();
    let mut cur: Vec<char> = Vec::new();
    let mut i: usize = 0;
    assert(s.skip(0) =~= s);
    assert(crate::text::views(dirs@) =~= Seq::<Seq<char>>::empty());
    assert(Seq::<Seq<char>>::empty() + goal =~= goal);
    while i < cs.len()
        invariant
            cs@ == s,
            i <= s.len(),
            crate::text::views(dirs@) + path_fields(s.skip(i as int), cur@) == goal,
        decreases s.len() - i,
    {
        let c = cs[i];
        assert(s.skip(i as int).drop_first() =~= s.skip(i + 1));
        assert(s.skip(i as int)[0] == c);
        if c == ':' {
            let ghost before = crate::text::views(dirs@);
            let d = crate::text::string_from_range(cur.as_slice(), 0, cur.len());
            assert(cur@.subrange(0, cur@.len() as int) =~= cur@);
            dirs.push(d);
            cur = Vec::new();
            assert(crate::text::views(dirs@) =~= before.push(d@));
            assert(before + (seq![d@] + path_fields(s.skip(i + 1), Seq::empty())) =~= before.push(d@) + path_fields(
                s.skip(i + 1),
                Seq::empty(),
            ));
            assert(cur@ =~= Seq::<char>::empty());
        } else {
            cur.push(c);
        }
        i = i + 1;
    }
    assert(s.skip(i as int) =~= Seq::<char>::empty());
    let ghost before = crate::text::views(dirs@);
    let d = crate::text::string_from_range(cur.as_slice(), 0, cur.len());
    assert(cur@.subrange(0, cur@.len() as int) =~= cur@);
    dirs.push(d);
    assert(crate::text::views(dirs@) =~= before + seq![d@]);
    let absolute = binary.unicode_len() > 0 && binary.get_char(0) == '/';
    let mut out: Vec<String> = Vec::new();
    let mut k: usize = 0;
    while k < dirs.len()
        invariant
            k <= dirs@.len(),
            crate::text::views(dirs@) == goal,
            absolute == (binary@.len() > 0 && binary@[0] == '/'),
            crate::text::views(out@) == Seq::new(k as nat, |m: int| which_candidate(goal[m], binary@)),
        decreases dirs@.len() - k,
    {
        let cand = if absolute {
            crate::text::owned(binary)
        } else {
            crate::config_files::join_path(dirs[k].as_str(), binary)
        };
        assert(dirs@[k as int]@ == goal[k as int]);
        assert(cand@ == which_candidate(goal[k as int], binary@));
        let ghost prev = crate::text::views(out@);
        out.push(cand);
        assert(crate::text::views(out@) =~= prev.push(cand@));
        assert(crate::text::views(out@) =~= Seq::new((k + 1) as nat, |m: int| which_candidate(goal[m], binary@)));
        k = k + 1;
    }
    out
}

/// A question about the host that only the filesystem can answer.
#[derive(Debug, Clone, PartialEq)]
pub enum HostQuery {
    /// Does this path exist?
    File(String),
    /// Is this binary found in a directory on `PATH`?
    Which(String),
}

/// A question about the host, at the level of specifications.
pub ghost enum QueryView {
    File(Seq<char>),
    Which(Seq<char>),
}

impl View for HostQuery {
    type V = QueryView;

    open spec fn view(&self) -> QueryView {
        match self {
            HostQuery::File(p) => QueryView::File(p@),
            HostQuery::Which(b) => QueryView::Which(b@),
        }
    }
}

/// A question and what the host answered.
#[derive(Debug, Clone, PartialEq)]
pub struct HostAnswer {
    pub query: HostQuery,
    pub found: bool,
}

/// What detect checks know of the host: its operating system (when it is
/// one a pkg can name), the home directory, and the questions answered so
/// far.
pub struct DetectHost<'a> {
    pub os: Option<Os>,
    pub home: &'a str,
    pub answers: &'a [HostAnswer],
}

/// A result, or the question the host must answer before it can be had.
#[derive(Debug, PartialEq)]
pub enum Probed<T> {
    Known(T),
    Needs(HostQuery),
}

/// A detect outcome, at the level of specifications.
pub ghost enum Detected {
    Known(bool),
    Needs(QueryView),
}

/// The outcome a `Probed<bool>` stands for.
pub open spec fn detected_of(r: Probed<bool>) -> Detected {
    match r {
        Probed::Known(b) => Detected::Known(b),
        Probed::Needs(q) => Detected::Needs(q@),
    }
}

/// Position of the first answer to `q`.
pub open spec fn answer_index(answers: Seq<HostAnswer>, q: QueryView) -> Option<int>
    decreases answers.len(),
{
    if answers.len() == 0 {
        None
    } else if answers[0].query@ == q {
        Some(0)
    } else {
        match answer_index(answers.drop_first(), q) {
            Some(i) => Some(i + 1),
            None => None,
        }
    }
}

proof fn lemma_answer_index(answers: Seq<HostAnswer>, q: QueryView, i: int)
    requires
        0 <= i <= answers.len(),
        forall|j: int| 0 <= j < i ==> answers[j].query@ != q,
    ensures
        i < answers.len() && answers[i].query@ == q ==> answer_index(answers, q) == Some(i),
        i == answers.len() ==> answer_index(answers, q) is None,
    decreases i,
{
    if i > 0 {
        lemma_answer_index(answers.drop_first(), q, i - 1);
    }
}

/// The host's answer to `q`, or the need to ask it.
pub open spec fn ask(host: &DetectHost, q: QueryView) -> Detected {
    match answer_index(host.answers@, q) {
        Some(i) => Detected::Known(host.answers@[i].found),
        None => Detected::Needs(q),
    }
}

fn same_query(a: &HostQuery, b: &HostQuery) -> (r: bool)
    ensures
        r == (a@ == b@),
{
    match (a, b) {
        (HostQuery::File(x), HostQuery::File(y)) => str_eq(x.as_str(), y.as_str()),
        (HostQuery::Which(x), HostQuery::Which(y)) => str_eq(x.as_str(), y.as_str()),
        _ => false,
    }
}

/// Ask the host `q`: its recorded answer, or the need to ask.
fn ask_host(host: &DetectHost, q: HostQuery) -> (r: Probed<bool>)
    ensures
        detected_of(r) == ask(host, q@),
        r matches Probed::Needs(n) ==> answer_index(host.answers@, n@) is None,
{
    let mut i: usize = 0;
    while i < host.answers.len()
        invariant
            i <= host.answers@.len(),
            forall|j: int| 0 <= j < i ==> host.answers@[j].query@ != q@,
        decreases host.answers@.len() - i,
    {
        if same_query(&host.answers[i].query, &q) {
            proof {
                lemma_answer_index(host.answers@, q@, i as int);
            }
            return Probed::Known(host.answers[i].found);
        }
        i = i + 1;
    }
    proof {
        lemma_answer_index(host.answers@, q@, i as int);
    }
    Probed::Needs(q)
}

/// A detect strategy: a check, gated to some operating systems when `os`
/// is not empty.
#[derive(Debug, PartialEq)]
pub struct DetectStrategy {
    pub os: Vec<Os>,
    pub kind: DetectKind,
}

/// The checks: `File` and `Which` are leaves, `Any` and `All` combine
/// other strategies.
#[derive(Debug, PartialEq)]
pub enum DetectKind {
    File { path: ExpandStr },
    Which { binary: ExpandStr },
    /// Matches when any child matches, trying them in order.
    Any { of: Vec<DetectStrategy> },
    /// Matches when every child matches; an empty list matches.
    All { of: Vec<DetectStrategy> },
}

/// An empty gate lets every host through; otherwise the host's operating
/// system must be known and listed.
pub open spec fn os_allows(os: Seq<Os>, cur: Option<Os>) -> bool {
    os.len() == 0 || (cur matches Some(c) && os.contains(c))
}

/// What a strategy finds on the host.
pub open spec fn detect_strategy<L: ExpandLookup>(s: DetectStrategy, host: &DetectHost, lookup: &L) -> Detected
    decreases s,
{
    if !os_allows(s.os@, host.os) {
        Detected::Known(false)
    } else {
        detect_kind(s.kind, host, lookup)
    }
}

/// What a check finds on the host. A leaf whose template does not expand
/// finds nothing.
pub open spec fn detect_kind<L: ExpandLookup>(k: DetectKind, host: &DetectHost, lookup: &L) -> Detected
    decreases k,
{
    match k {
        DetectKind::File { path } => match path.expansion(lookup) {
            Err(_) => Detected::Known(false),
            Ok(p) => ask(host, QueryView::File(replace_first(p, '~', host.home@))),
        },
        DetectKind::Which { binary } => match binary.expansion(lookup) {
            Err(_) => Detected::Known(false),
            Ok(b) => ask(host, QueryView::Which(b)),
        },
        DetectKind::Any { of } => detect_any(of@, host, lookup),
        DetectKind::All { of } => detect_all(of@, host, lookup),
    }
}

/// The first child that matches (or needs an answer) decides.
pub open spec fn detect_any<L: ExpandLookup>(list: Seq<DetectStrategy>, host: &DetectHost, lookup: &L) -> Detected
    decreases list,
{
    if list.len() == 0 {
        Detected::Known(false)
    } else {
        match detect_strategy(list[0], host, lookup) {
            Detected::Known(false) => detect_any(list.subrange(1, list.len() as int), host, lookup),
            v => v,
        }
    }
}

/// The first child that misses (or needs an answer) decides.
pub open spec fn detect_all<L: ExpandLookup>(list: Seq<DetectStrategy>, host: &DetectHost, lookup: &L) -> Detected
    decreases list,
{
    if list.len() == 0 {
        Detected::Known(true)
    } else {
        match detect_strategy(list[0], host, lookup) {
            Detected::Known(true) => detect_all(list.subrange(1, list.len() as int), host, lookup),
            v => v,
        }
    }
}

/// Once every child of a combinator has a known outcome, `any` matches
/// exactly when some child matches and `all` exactly when every child
/// does; in particular `all` of no children matches and `any` of none
/// does not.
pub proof fn lemma_combinators_decide<L: ExpandLookup>(list: Seq<DetectStrategy>, host: &DetectHost, lookup: &L)
    requires
        forall|i: int| 0 <= i < list.len() ==> (#[trigger] detect_strategy(list[i], host, lookup)) is Known,
    ensures
        detect_any(list, host, lookup) == Detected::Known(
            exists|i: int| 0 <= i < list.len() && #[trigger] detect_strategy(list[i], host, lookup) == Detected::Known(true),
        ),
        detect_all(list, host, lookup) == Detected::Known(
            forall|i: int| 0 <= i < list.len() ==> #[trigger] detect_strategy(list[i], host, lookup) == Detected::Known(true),
        ),
    decreases list.len(),
{
    if list.len() > 0 {
        let rest = list.subrange(1, list.len() as int);
        assert forall|i: int| 0 <= i < rest.len() implies (#[trigger] detect_strategy(rest[i], host, lookup)) is Known by {
            assert(rest[i] == list[i + 1]);
            assert(detect_strategy(list[i + 1], host, lookup) is Known);
        }
        lemma_combinators_decide(rest, host, lookup);
        assert(detect_strategy(list[0], host, lookup) is Known);
        if exists|i: int| 0 <= i < list.len() && #[trigger] detect_strategy(list[i], host, lookup) == Detected::Known(true) {
            let i = choose|i: int| 0 <= i < list.len() && #[trigger] detect_strategy(list[i], host, lookup) == Detected::Known(true);
            if i > 0 {
                assert(rest[i - 1] == list[i]);
                assert(detect_strategy(rest[i - 1], host, lookup) == Detected::Known(true));
            }
        } else {
            assert forall|i: int| 0 <= i < rest.len() implies #[trigger] detect_strategy(rest[i], host, lookup) != Detected::Known(true) by {
                assert(rest[i] == list[i + 1]);
                assert(detect_strategy(list[i + 1], host, lookup) != Detected::Known(true));
            }
        }
        if forall|i: int| 0 <= i < list.len() ==> #[trigger] detect_strategy(list[i], host, lookup) == Detected::Known(true) {
            assert forall|i: int| 0 <= i < rest.len() implies #[trigger] detect_strategy(rest[i], host, lookup) == Detected::Known(true) by {
                assert(rest[i] == list[i + 1]);
                assert(detect_strategy(list[i + 1], host, lookup) == Detected::Known(true));
            }
        } else {
            let i = choose|i: int| 0 <= i < list.len() && !(#[trigger] detect_strategy(list[i], host, lookup) == Detected::Known(true));
            if i > 0 {
                assert(rest[i - 1] == list[i]);
                assert(detect_strategy(rest[i - 1], host, lookup) != Detected::Known(true));
            }
        }
    }
}

/// Whether `cur` is one of `list`.
fn os_listed(list: &Vec<Os>, cur: Os) -> (r: bool)
    ensures
        r == list@.contains(cur),
{
    let mut i: usize = 0;
    while i < list.len()
        invariant
            i <= list@.len(),
            forall|j: int| 0 <= j < i ==> list@[j] != cur,
        decreases list@.len() - i,
    {
        if list[i] == cur {
            return true;
        }
        i = i + 1;
    }
    false
}

/// Whether `sh` is one of `list`.
fn shell_listed(list: &Vec<Shell>, sh: Shell) -> (r: bool)
    ensures
        r == list@.contains(sh),
{
    let mut i: usize = 0;
    while i < list.len()
        invariant
            i <= list@.len(),
            forall|j: int| 0 <= j < i ==> list@[j] != sh,
        decreases list@.len() - i,
    {
        if list[i] == sh {
            return true;
        }
        i = i + 1;
    }
    false
}

impl DetectStrategy {
    /// Apply the OS gate, then the check.
    pub fn check<L: ExpandLookup>(&self, host: &DetectHost, lookup: &L) -> (r: Probed<bool>)
        ensures
            detected_of(r) == detect_strategy(*self, host, lookup),
            r matches Probed::Needs(q) ==> answer_index(host.answers@, q@) is None,
        decreases *self,
    {
        if self.os.len() > 0 {
            match host.os {
                None => {
                    return Probed::Known(false);
                },
                Some(cur) => {
                    if !os_listed(&self.os, cur) {
                        return Probed::Known(false);
                    }
                },
            }
        }
        self.kind.check(host, lookup)
    }
}

impl DetectKind {
    /// Run the check on the host.
    pub fn check<L: ExpandLookup>(&self, host: &DetectHost, lookup: &L) -> (r: Probed<bool>)
        ensures
            detected_of(r) == detect_kind(*self, host, lookup),
            r matches Probed::Needs(q) ==> answer_index(host.answers@, q@) is None,
        decreases *self,
    {
        match self {
            DetectKind::File { path } => match path.expand_to_string(lookup) {
                Err(_) => Probed::Known(false),
                Ok(expanded) => {
                    let resolved = replace_first_char(expanded.as_str(), '~', host.home);
                    ask_host(host, HostQuery::File(resolved))
                },
            },
            DetectKind::Which { binary } => match binary.expand_to_string(lookup) {
                Err(_) => Probed::Known(false),
                Ok(b) => ask_host(host, HostQuery::Which(b)),
            },
            DetectKind::Any { of } => check_list(of, false, host, lookup),
            DetectKind::All { of } => check_list(of, true, host, lookup),
        }
    }
}

/// `all` (when `every`) or `any` over `list`, stopping at the first child
/// that decides.
fn check_list<L: ExpandLookup>(list: &Vec<DetectStrategy>, every: bool, host: &DetectHost, lookup: &L) -> (r: Probed<bool>)
    ensures
        detected_of(r) == (if every {
            detect_all(list@, host, lookup)
        } else {
            detect_any(list@, host, lookup)
        }),
        r matches Probed::Needs(q) ==> answer_index(host.answers@, q@) is None,
    decreases *list,
{
    let ghost whole = if every {
        detect_all(list@, host, lookup)
    } else {
        detect_any(list@, host, lookup)
    };
    let mut i: usize = 0;
    assert(list@.subrange(0, list@.len() as int) =~= list@);
    while i < list.len()
        invariant
            i <= list@.len(),
            whole == (if every {
                detect_all(list@, host, lookup)
            } else {
                detect_any(list@, host, lookup)
            }),
            whole == (if every {
                detect_all(list@.subrange(i as int, list@.len() as int), host, lookup)
            } else {
                detect_any(list@.subrange(i as int, list@.len() as int), host, lookup)
            }),
        decreases list@.len() - i,
    {
        let ghost rest = list@.subrange(i as int, list@.len() as int);
        proof {
            assert(rest[0] == list@[i as int]);
            assert(rest.subrange(1, rest.len() as int) =~= list@.subrange(i + 1, list@.len() as int));
        }
        let r = list[i].check(host, lookup);
        match r {
            Probed::Known(b) => {
                if b != every {
                    return Probed::Known(b);
                }
            },
            Probed::Needs(q) => {
                return Probed::Needs(q);
            },
        }
        i = i + 1;
    }
    assert(list@.subrange(i as int, list@.len() as int).len() == 0);
    Probed::Known(every)
}


/// How an operating system is named in configuration.
pub open spec fn os_name(o: Os) -> Seq<char> {
    match o {
        Os::Linux => "linux"@,
        Os::Macos => "macos"@,
    }
}

/// The names of `list`, joined with `,`.
pub open spec fn os_list_text(list: Seq<Os>) -> Seq<char>
    decreases list.len(),
{
    if list.len() == 0 {
        Seq::empty()
    } else if list.len() == 1 {
        os_name(list[0])
    } else {
        os_list_text(list.drop_last()) + ","@ + os_name(list.last())
    }
}

/// How a strategy reads in messages: its OS gate, if any, then its check.
pub open spec fn strategy_text(s: DetectStrategy) -> Seq<char>
    decreases s,
{
    let gate = if s.os@.len() > 0 {
        "[os="@ + os_list_text(s.os@) + "] "@
    } else {
        Seq::empty()
    };
    gate + kind_text(s.kind)
}

/// How a check reads: a path's template, `which` and a binary's template,
/// or a combinator with its children in brackets.
pub open spec fn kind_text(k: DetectKind) -> Seq<char>
    decreases k,
{
    match k {
        DetectKind::File { path } => path@,
        DetectKind::Which { binary } => "which "@ + binary@,
        DetectKind::Any { of } => "any("@ + list_text(of@) + ")"@,
        DetectKind::All { of } => "all("@ + list_text(of@) + ")"@,
    }
}

/// The children's texts joined with `, `.
pub open spec fn list_text(list: Seq<DetectStrategy>) -> Seq<char>
    decreases list,
{
    if list.len() == 0 {
        Seq::empty()
    } else if list.len() == 1 {
        strategy_text(list[0])
    } else {
        list_text(list.subrange(0, list.len() - 1)) + ", "@ + strategy_text(list[list.len() - 1])
    }
}

fn os_list_string(list: &Vec<Os>) -> (r: String)
    ensures
        r@ == os_list_text(list@),
{
    let mut out = String::new();
    let mut i: usize = 0;
    while i < list.len()
        invariant
            i <= list@.len(),
            out@ == os_list_text(list@.take(i as int)),
        decreases list@.len() - i,
    {
        assert(list@.take(i + 1).drop_last() =~= list@.take(i as int));
        if i > 0 {
            out.append(",");
        }
        match list[i] {
            Os::Linux => out.append("linux"),
            Os::Macos => out.append("macos"),
        }
        i = i + 1;
        assert(i == 1 ==> out@ =~= os_list_text(list@.take(i as int)));
    }
    assert(list@.take(list@.len() as int) =~= list@);
    out
}

impl DetectStrategy {
    /// How the strategy reads in messages.
    pub fn describe(&self) -> (r: String)
        ensures
            r@ == strategy_text(*self),
        decreases *self,
    {
        let mut out = String::new();
        if self.os.len() > 0 {
            out.append("[os=");
            let names = os_list_string(&self.os);
            out.append(names.as_str());
            out.append("] ");
        }
        let k = self.kind.describe();
        out.append(k.as_str());
        proof {
            if self.os@.len() == 0 {
                assert(out@ =~= Seq::<char>::empty() + kind_text(self.kind));
            }
        }
        out
    }
}

impl DetectKind {
    /// How the check reads in messages.
    pub fn describe(&self) -> (r: String)
        ensures
            r@ == kind_text(*self),
        decreases *self,
    {
        match self {
            DetectKind::File { path } => owned(path.as_template()),
            DetectKind::Which { binary } => {
                let mut out = owned("which ");
                out.append(binary.as_template());
                out
            },
            DetectKind::Any { of } => {
                let mut out = owned("any(");
                let inner = describe_list(of);
                out.append(inner.as_str());
                out.append(")");
                out
            },
            DetectKind::All { of } => {
                let mut out = owned("all(");
                let inner = describe_list(of);
                out.append(inner.as_str());
                out.append(")");
                out
            },
        }
    }
}

fn describe_list(list: &Vec<DetectStrategy>) -> (r: String)
    ensures
        r@ == list_text(list@),
    decreases *list,
{
    let mut out = String::new();
    let mut i: usize = 0;
    while i < list.len()
        invariant
            i <= list@.len(),
            out@ == list_text(list@.take(i as int)),
        decreases list@.len() - i,
    {
        let ghost before = out@;
        proof {
            let t = list@.take(i + 1);
            assert(t.subrange(0, t.len() - 1) =~= list@.take(i as int));
            assert(t[t.len() - 1] == list@[i as int]);
        }
        if i > 0 {
            out.append(", ");
        }
        let child = list[i].describe();
        out.append(child.as_str());
        i = i + 1;
        assert(i == 1 ==> out@ =~= list_text(list@.take(i as int)));
    }
    assert(list@.take(list@.len() as int) =~= list@);
    out
}


/// Whether a pkg is expected on the host.
#[derive(Debug, Clone, Copy, PartialEq, Eq, Structural)]
pub enum PkgEnable {
    /// Expect the pkg; a detect miss still counts as not installed, and is
    /// surfaced as a health signal.
    On,
    /// Use the pkg when detect matches; a miss is a non-event.
    Detect,
    Disabled,
}

impl Default for PkgEnable {
    fn default() -> (r: Self)
        ensures
            r == PkgEnable::On,
    {
        PkgEnable::On
    }
}

/// Init actions for each shell.
#[derive(Debug, PartialEq)]
pub struct PerShellActions {
    pub bash: Vec<ShellInitAction>,
    pub zsh: Vec<ShellInitAction>,
}

impl PerShellActions {
    /// The actions for `shell`.
    pub fn for_shell(&self, shell: Shell) -> (r: &[ShellInitAction])
        ensures
            r@ == match shell {
                Shell::Bash => self.bash@,
                Shell::Zsh => self.zsh@,
            },
    {
        match shell {
            Shell::Bash => self.bash.as_slice(),
            Shell::Zsh => self.zsh.as_slice(),
        }
    }
}

/// A pkg's init actions for each stage of shell start-up.
#[derive(Debug, PartialEq)]
pub struct PkgShellConfig {
    pub env_init: PerShellActions,
    pub login_init: PerShellActions,
    pub interactive_init: PerShellActions,
}

/// A `[pkg.<key>]` table.
#[derive(Debug)]
pub struct PkgConfig {
    pub enable: PkgEnable,
    pub detect: Option<DetectStrategy>,
    pub inputs: IndexMap<String, String>,
    /// When not empty, the pkg is only installed on these systems.
    pub supported_os: Vec<Os>,
    /// When not empty, the pkg only applies to these shells.
    pub supported_shells: Vec<Shell>,
    /// Display label used in place of the table's key.
    pub name: Option<String>,
    pub description: Option<String>,
    pub install_hint: InstallHint,
    pub shell: PkgShellConfig,
    /// The pkg's `[[pkg.<key>.configs]]` entries.
    pub configs: Vec<crate::pkg_configs::PkgConfigFiles>,
}

/// The pkg's detect strategy run against the host, with the pkg's inputs
/// shadowing the system's.
pub open spec fn pkg_detect(p: &PkgConfig, d: DetectStrategy, host: &DetectHost, system_inputs: &IndexMap<String, String>) -> Detected {
    detect_strategy(d, host, &[&p.inputs, system_inputs])
}

/// Whether the pkg counts as installed: on a supported system, not
/// disabled, and matching its detect strategy when it has one.
pub open spec fn installed(p: &PkgConfig, host: &DetectHost, system_inputs: &IndexMap<String, String>) -> Detected {
    if !os_allows(p.supported_os@, host.os) {
        Detected::Known(false)
    } else {
        match p.enable {
            PkgEnable::Disabled => Detected::Known(false),
            _ => match p.detect {
                None => Detected::Known(true),
                Some(d) => pkg_detect(p, d, host, system_inputs),
            },
        }
    }
}

/// For `enable = "on"` on a supported system with a detect strategy: what
/// that strategy finds. `None` in every other case.
pub open spec fn on_and_detected(p: &PkgConfig, host: &DetectHost, system_inputs: &IndexMap<String, String>) -> Option<Detected> {
    if p.enable != PkgEnable::On || !os_allows(p.supported_os@, host.os) {
        None
    } else {
        match p.detect {
            None => None,
            Some(d) => Some(pkg_detect(p, d, host, system_inputs)),
        }
    }
}

/// For a pkg that is `on`, supported here and has a detect strategy,
/// "on and detected" is exactly "installed" (so "on but missing" is its
/// negation); for any other pkg neither says anything.
pub proof fn lemma_on_detect_is_installed(p: &PkgConfig, host: &DetectHost, system_inputs: &IndexMap<String, String>)
    ensures
        (p.enable == PkgEnable::On && os_allows(p.supported_os@, host.os) && p.detect is Some) ==> on_and_detected(
            p,
            host,
            system_inputs,
        ) == Some(installed(p, host, system_inputs)),
        !(p.enable == PkgEnable::On && os_allows(p.supported_os@, host.os) && p.detect is Some) ==> on_and_detected(
            p,
            host,
            system_inputs,
        ) is None,
{
}

impl PkgConfig {
    /// Whether the pkg may be installed on a host running `os`.
    pub fn supports_current_os(&self, os: Option<Os>) -> (r: bool)
        ensures
            r == os_allows(self.supported_os@, os),
    {
        if self.supported_os.len() == 0 {
            true
        } else {
            match os {
                Some(cur) => os_listed(&self.supported_os, cur),
                None => false,
            }
        }
    }

    /// Whether the pkg applies to the user's shell.
    pub fn supports_shell(&self, shell: Option<Shell>) -> (r: bool)
        ensures
            r == (self.supported_shells@.len() == 0 || (shell matches Some(s) && self.supported_shells@.contains(s))),
    {
        if self.supported_shells.len() == 0 {
            return true;
        }
        match shell {
            None => false,
            Some(sh) => shell_listed(&self.supported_shells, sh),
        }
    }

    /// Whether the pkg is installed on the host.
    pub fn is_installed(&self, host: &DetectHost, system_inputs: &IndexMap<String, String>) -> (r: Probed<bool>)
        ensures
            detected_of(r) == installed(self, host, system_inputs),
            r matches Probed::Needs(q) ==> answer_index(host.answers@, q@) is None,
    {
        if !self.supports_current_os(host.os) {
            return Probed::Known(false);
        }
        match self.enable {
            PkgEnable::Disabled => Probed::Known(false),
            _ => match &self.detect {
                None => Probed::Known(true),
                Some(d) => {
                    let lookup = [&self.inputs, system_inputs];
                    d.check(host, &lookup)
                },
            },
        }
    }

    /// Health signal: `enable = "on"` with a detect strategy that misses on
    /// a supported host.
    pub fn enable_on_but_detect_missing(&self, host: &DetectHost, system_inputs: &IndexMap<String, String>) -> (r: Probed<bool>)
        ensures
            match on_and_detected(self, host, system_inputs) {
                None => r == Probed::<bool>::Known(false),
                Some(Detected::Known(b)) => r == Probed::<bool>::Known(!b),
                Some(Detected::Needs(q)) => r matches Probed::Needs(n) && n@ == q,
            },
            r matches Probed::Needs(q) ==> answer_index(host.answers@, q@) is None,
    {
        if self.enable != PkgEnable::On {
            return Probed::Known(false);
        }
        if !self.supports_current_os(host.os) {
            return Probed::Known(false);
        }
        match &self.detect {
            None => Probed::Known(false),
            Some(d) => {
                let lookup = [&self.inputs, system_inputs];
                match d.check(host, &lookup) {
                    Probed::Known(b) => Probed::Known(!b),
                    Probed::Needs(q) => Probed::Needs(q),
                }
            },
        }
    }

    /// Clean-state signal: `enable = "on"` with a detect strategy that
    /// matches on a supported host.
    pub fn enable_on_and_detect_matches(&self, host: &DetectHost, system_inputs: &IndexMap<String, String>) -> (r: Probed<bool>)
        ensures
            match on_and_detected(self, host, system_inputs) {
                None => r == Probed::<bool>::Known(false),
                Some(v) => detected_of(r) == v,
            },
            r matches Probed::Needs(q) ==> answer_index(host.answers@, q@) is None,
    {
        if self.enable != PkgEnable::On {
            return Probed::Known(false);
        }
        if !self.supports_current_os(host.os) {
            return Probed::Known(false);
        }
        match &self.detect {
            None => Probed::Known(false),
            Some(d) => {
                let lookup = [&self.inputs, system_inputs];
                d.check(host, &lookup)
            },
        }
    }

    pub fn is_disabled(&self) -> (r: bool)
        ensures
            r == (self.enable == PkgEnable::Disabled),
    {
        self.enable == PkgEnable::Disabled
    }

    /// The top-level detect strategy, when it matches on the host.
    pub fn matched_detect(&self, host: &DetectHost, system_inputs: &IndexMap<String, String>) -> (r: Probed<Option<&DetectStrategy>>)
        ensures
            match r {
                Probed::Known(Some(d)) => self.detect == Some(*d) && installed(self, host, system_inputs)
                    == Detected::Known(true),
                Probed::Known(None) => self.detect is None || installed(self, host, system_inputs)
                    == Detected::Known(false),
                Probed::Needs(q) => installed(self, host, system_inputs) == Detected::Needs(q@)
                    && answer_index(host.answers@, q@) is None,
            },
    {
        if !self.supports_current_os(host.os) {
            return Probed::Known(None);
        }
        match self.enable {
            PkgEnable::Disabled => Probed::Known(None),
            _ => match &self.detect {
                None => Probed::Known(None),
                Some(d) => {
                    let lookup = [&self.inputs, system_inputs];
                    match d.check(host, &lookup) {
                        Probed::Known(true) => Probed::Known(Some(d)),
                        Probed::Known(false) => Probed::Known(None),
                        Probed::Needs(q) => Probed::Needs(q),
                    }
                },
            },
        }
    }

    /// The pkg's own inputs.
    pub fn inputs(&self) -> (r: &IndexMap<String, String>)
        ensures
            *r == self.inputs,
    {
        &self.inputs
    }
}

} // verus!

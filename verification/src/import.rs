//! The decisions of `zenops import`: which layout a home-relative path
//! has, which pkg key it gets, which brew packages provide it, and the
//! yes/no confirmation.

use vstd::prelude::*;

use crate::error::Error;
use crate::init::{read_trimmed_line, reply_fits, reply_of, trimmed_answer, Reply};
use crate::line_prompter::{asked_once, asked_then_said, failed_at, heard_at, Exchange, LinePrompter};
use crate::safe_path::{is_single_component, SinglePathComponent};
use crate::text::{
    ascii_lower_seq, owned, seq_join, split_whitespace, str_eq, to_ascii_lowercase, views, words,
};

verus! {

/// What `zenops import` can refuse.
#[derive(Debug, Clone, PartialEq, Eq)]
pub enum ImportError {
    /// The path to import does not exist.
    SourceMissing(String),
    /// The path to import is itself a symlink.
    SourceIsSymlink(String),
    /// The path is neither `~/.config/<dir>` nor `~/.<name>`.
    UnsupportedLayout(String),
    /// No valid pkg key can be derived from the path.
    NoDerivablePkgKey(String),
    /// A new pkg needs an install hint and there is no one to ask.
    MissingInstallHint(String),
    /// Two configs entries claim the path equally: the path and the pkg
    /// keys of the candidates.
    AmbiguousConfigMatch { path: String, candidates: Vec<String> },
    /// A file is already in the repo where the import would put one.
    DestExists(String),
    /// The source holds no regular file to import.
    SourceEmpty(String),
    /// A `~/.config/<x>` import names a file rather than a directory.
    ExpectedDirectory(String),
    /// The source is not under `$HOME`.
    PathNotUnderHome(String),
    /// The source is the zenops repo itself, or inside it.
    CannotImportZenopsRepo(String),
    /// Flags that only describe a new pkg were given for an import into
    /// an already-managed config.
    ExtendFlagsInvalid { flags: Vec<&'static str> },
    /// A directory inside an already-managed config was given.
    ExtendDirectoryNotSupported(String),
    /// `--brew ""` was given.
    EmptyBrewPackage,
    /// `config.toml` is not valid TOML: the parser's message.
    ConfigParse(String),
    /// `--source` leaves the zenops repo.
    SourceOverrideEscapesRepo(String),
    /// The pkg key already names a pkg with configs entries.
    PkgKeyTaken { pkg: String },
    /// The user declined the final confirmation.
    Aborted,
}

/// The layout of a home-relative path.
#[derive(Debug, Clone, PartialEq, Eq)]
pub enum Layout {
    /// `~/.config/<dir>` — a single component under `.config/`.
    DotConfig { dir: String },
    /// `~/.<name>` — a single dot-prefixed component at the home root;
    /// `name` keeps the leading dot.
    Home { name: String },
}

/// The components of a path, as `Path::components` yields them on the
/// Unix target this library is built for.
pub uninterp spec fn std_path_components(p: Seq<char>) -> Seq<Seq<char>>;

/// `Path::components`, each component as text.
#[verifier::external_body]
pub(crate) fn path_components(p: &str) -> (r: Vec<String>)
    ensures
        views(r@) == std_path_components(p@),
{
    std::path::Path::new(p).components().map(|c| c.as_os_str().to_string_lossy().into_owned()).collect()
}

/// The layout of a path with components `comps` (the path's text is
/// `tail`), or the error that refuses it.
pub open spec fn layout_of(comps: Seq<Seq<char>>, tail: Seq<char>) -> Result<(bool, Seq<char>), ImportError> {
    if comps.len() == 2 && comps[0] == ".config"@ && comps[1].len() > 0 && is_single_component(
        comps[1],
    ) {
        Ok((true, comps[1]))
    } else if comps.len() == 1 && comps[0] == ".config"@ {
        Err(ImportError::UnsupportedLayout(owned_spec(".config"@)))
    } else if comps.len() == 1 && comps[0].len() > 1 && comps[0][0] == '.' && is_single_component(
        comps[0],
    ) {
        Ok((false, comps[0]))
    } else {
        Err(ImportError::UnsupportedLayout(owned_spec(tail)))
    }
}

/// Some `String` with the given text.
pub open spec fn owned_spec(s: Seq<char>) -> String {
    choose|o: String| o@ == s
}

/// Whether `r` is the classification `spec` stands for.
pub open spec fn layout_matches(r: Result<Layout, ImportError>, spec: Result<(bool, Seq<char>), ImportError>) -> bool {
    match spec {
        Ok((true, d)) => r matches Ok(Layout::DotConfig { dir }) && dir@ == d,
        Ok((false, n)) => r matches Ok(Layout::Home { name }) && name@ == n,
        Err(ImportError::UnsupportedLayout(s)) => r matches Err(ImportError::UnsupportedLayout(t))
            && t@ == s@,
        Err(_) => false,
    }
}

/// Classify a path from its components: `.config/<dir>` with a single
/// component `dir`, or a single dot-prefixed component at the home root.
pub fn classify_components(comps: &Vec<String>, tail: &str) -> (r: Result<Layout, ImportError>)
    ensures
        layout_matches(r, layout_of(views(comps@), tail@)),
{
    proof {
        reveal_strlit(".config");
        assert(views(comps@).len() == comps@.len());
    }
    let n = comps.len();
    if n == 2 && str_eq(comps[0].as_str(), ".config") && comps[1].as_str().unicode_len() > 0 {
        if SinglePathComponent::try_new(comps[1].as_str()).is_ok() {
            assert(views(comps@)[1] == comps@[1]@);
            return Ok(Layout::DotConfig { dir: comps[1].clone() });
        }
    }
    if n == 1 && str_eq(comps[0].as_str(), ".config") {
        return Err(ImportError::UnsupportedLayout(owned(".config")));
    }
    if n == 1 {
        let name = comps[0].as_str();
        if name.unicode_len() > 1 && name.get_char(0) == '.' && SinglePathComponent::try_new(name).is_ok() {
            return Ok(Layout::Home { name: owned(name) });
        }
    }
    Err(ImportError::UnsupportedLayout(owned(tail)))
}

/// Classify the home-relative tail of an import path.
pub fn classify(tail: &str) -> (r: Result<Layout, ImportError>)
    ensures
        layout_matches(r, layout_of(std_path_components(tail@), tail@)),
{
    let comps = path_components(tail);
    classify_components(&comps, tail)
}

/// The pkg key derived from a layout: the `.config` dir, or the home name
/// without its leading dot.
pub open spec fn derived_key(layout: Layout) -> Seq<char> {
    match layout {
        Layout::DotConfig { dir } => dir@,
        Layout::Home { name } => if name@.len() > 0 && name@[0] == '.' {
            name@.drop_first()
        } else {
            name@
        },
    }
}

/// The pkg key: the explicit override, else the one derived from the
/// layout; it must be a single path component.
pub fn derive_pkg_key(layout: &Layout, pkg_override: Option<&str>) -> (r: Result<String, ImportError>)
    ensures
        ({
            let cand = match pkg_override {
                Some(o) => o@,
                None => derived_key(*layout),
            };
            &&& is_single_component(cand) ==> (r matches Ok(k) && k@ == cand)
            &&& !is_single_component(cand) ==> (r matches Err(ImportError::NoDerivablePkgKey(c))
                && c@ == cand)
        }),
{
    let candidate = match pkg_override {
        Some(s) => owned(s),
        None => match layout {
            Layout::DotConfig { dir } => dir.clone(),
            Layout::Home { name } => {
                let n = name.as_str().unicode_len();
                if n > 0 && name.as_str().get_char(0) == '.' {
                    let cs = crate::text::str_chars(name.as_str());
                    let s = crate::text::string_from_range(cs.as_slice(), 1, n);
                    assert(s@ =~= name@.drop_first());
                    s
                } else {
                    name.clone()
                }
            },
        },
    };
    match SinglePathComponent::try_new(candidate.as_str()) {
        Ok(_) => Ok(candidate),
        Err(_) => Err(ImportError::NoDerivablePkgKey(candidate)),
    }
}

/// The prompt for the brew packages of a new pkg.
pub fn brew_prompt(pkg_key: &str) -> (r: String)
    ensures
        r@ == "Brew package(s) for `"@ + pkg_key@ + "` ["@ + pkg_key@ + "]: "@,
{
    let mut p = owned("Brew package(s) for `");
    p.append(pkg_key);
    p.append("` [");
    p.append(pkg_key);
    p.append("]: ");
    p
}

/// The brew packages an answer names: its words, or the pkg key itself
/// for a blank answer.
pub fn brew_from_answer(pkg_key: &str, answer: Option<String>) -> (r: Vec<String>)
    ensures
        views(r@) == match answer {
            Some(a) => words(a@),
            None => seq![pkg_key@],
        },
{
    match answer {
        Some(line) => split_whitespace(line.as_str()),
        None => {
            let mut v: Vec<String> = Vec::new();
            v.push(owned(pkg_key));
            assert(views(v@) =~= seq![pkg_key@]);
            v
        },
    }
}

/// The brew packages of the install hint: `--brew` when given, none with
/// `--no-install-hint` or for an existing pkg, else the answer to a
/// prompt; without a prompter a new pkg is an error.
pub fn resolve_brew<P: LinePrompter>(
    pkg_key: &str,
    brew: &[String],
    no_install_hint: bool,
    created_pkg: bool,
    prompter: Option<&mut P>,
) -> (r: Result<Vec<String>, Error>)
    ensures
        brew@.len() > 0 ==> (r matches Ok(v) && views(v@) == views(brew@)),
        brew@.len() == 0 && (no_install_hint || !created_pkg) ==> (r matches Ok(v) && v@.len() == 0),
        brew@.len() == 0 && !no_install_hint && created_pkg && prompter is None ==> (r matches Err(
            Error::Import(ImportError::MissingInstallHint(k)),
        ) && k@ == pkg_key@),
{
    if brew.len() > 0 {
        let mut v: Vec<String> = Vec::new();
        let mut i: usize = 0;
        while i < brew.len()
            invariant
                i <= brew@.len(),
                views(v@) == views(brew@).take(i as int),
            decreases brew@.len() - i,
        {
            let s = owned(brew[i].as_str());
            assert(s@ == views(brew@)[i as int]);
            let ghost before = views(v@);
            v.push(s);
            assert(views(v@) =~= before.push(s@));
            assert(views(brew@).take(i + 1) =~= views(brew@).take(i as int).push(views(brew@)[i as int]));
            i = i + 1;
            assert(views(v@) =~= views(brew@).take(i as int));
        }
        assert(views(brew@).take(brew@.len() as int) =~= views(brew@));
        return Ok(v);
    }
    if no_install_hint || !created_pkg {
        return Ok(Vec::new());
    }
    match prompter {
        Some(p) => {
            let prompt = brew_prompt(pkg_key);
            let answer = read_trimmed_line(p, prompt.as_str())?;
            Ok(brew_from_answer(pkg_key, answer))
        },
        None => Err(Error::Import(ImportError::MissingInstallHint(owned(pkg_key)))),
    }
}

/// Show `prompt`, read a line and trim it; a blank line or end of input
/// is `None`.
pub fn read_trimmed<P: LinePrompter>(p: &mut P, prompt: &str) -> (r: Result<Option<String>, Error>)
    ensures
        r matches Ok(Some(t)) ==> t@.len() > 0,
        old(p).obeys_transcript() ==> final(p).obeys_transcript(),
        old(p).obeys_transcript() ==> asked_once(old(p).transcript(), final(p).transcript(), prompt@),
        old(p).obeys_transcript() ==> reply_fits(
            reply_of(heard_at(final(p).transcript(), old(p).transcript().len() as int)),
            r,
        ),
{
    read_trimmed_line(p, prompt)
}

/// What an answer to a yes/no question settles.
#[derive(Debug, Clone, Copy, PartialEq, Eq, Structural)]
pub enum ConfirmAnswer {
    Yes,
    No,
    /// The answer was neither; ask again.
    Retry,
}

/// What an answer to a yes/no question means: blank, `n` or `no` is no,
/// `y` or `yes` is yes (in any case), anything else asks again.
pub open spec fn confirm_answer_spec(answer: Option<Seq<char>>) -> ConfirmAnswer {
    match answer {
        None => ConfirmAnswer::No,
        Some(a) => {
            let l = ascii_lower_seq(a);
            if l == "n"@ || l == "no"@ {
                ConfirmAnswer::No
            } else if l == "y"@ || l == "yes"@ {
                ConfirmAnswer::Yes
            } else {
                ConfirmAnswer::Retry
            }
        },
    }
}

/// Decide an answer to a yes/no question.
pub fn confirm_answer(answer: Option<&str>) -> (r: ConfirmAnswer)
    ensures
        r == confirm_answer_spec(
            match answer {
                Some(a) => Some(a@),
                None => None,
            },
        ),
{
    match answer {
        None => ConfirmAnswer::No,
        Some(a) => {
            let l = to_ascii_lowercase(a);
            let s = l.as_str();
            if str_eq(s, "n") || str_eq(s, "no") {
                ConfirmAnswer::No
            } else if str_eq(s, "y") || str_eq(s, "yes") {
                ConfirmAnswer::Yes
            } else {
                ConfirmAnswer::Retry
            }
        },
    }
}

/// The prompt of a yes/no question.
pub fn confirm_prompt(prompt: &str) -> (r: String)
    ensures
        r@ == prompt@ + " [y/N]: "@,
{
    let mut p = owned(prompt);
    p.append(" [y/N]: ");
    p
}

/// What one round of the yes/no question `prompt` does to a transcript
/// `before`, leaving `after`, and returns as `r`: the question is asked; an
/// answer that is neither yes nor no is followed by "Please answer y or n."
/// and gives [`ConfirmAnswer::Retry`] (or the write's failure); any other
/// answer gives its decision; a failed or interrupted read gives its error.
pub open spec fn confirm_once_fits(
    before: Seq<Exchange>,
    after: Seq<Exchange>,
    prompt: Seq<char>,
    r: Result<ConfirmAnswer, Error>,
) -> bool {
    let question = prompt + " [y/N]: "@;
    let retry = "Please answer y or n."@;
    match reply_of(heard_at(after, before.len() as int)) {
        Reply::ReadFailed => asked_once(before, after, question) && r matches Err(Error::PromptRead(_)),
        Reply::Interrupted => asked_once(before, after, question) && r matches Err(Error::PromptInterrupted),
        Reply::Answer(a) => {
            let d = confirm_answer_spec(a);
            if d is Retry {
                &&& asked_then_said(before, after, question, retry)
                &&& if failed_at(after, before.len() + 1int) {
                    r matches Err(Error::PromptRead(_))
                } else {
                    r == Ok::<ConfirmAnswer, Error>(ConfirmAnswer::Retry)
                }
            } else {
                asked_once(before, after, question) && r == Ok::<ConfirmAnswer, Error>(d)
            }
        },
    }
}

/// Ask a yes/no question once; on an answer that is neither, show
/// "Please answer y or n." and return [`ConfirmAnswer::Retry`] so the
/// caller asks again.
pub fn confirm_once<P: LinePrompter>(p: &mut P, prompt: &str) -> (r: Result<ConfirmAnswer, Error>)
    ensures
        old(p).obeys_transcript() ==> final(p).obeys_transcript(),
        old(p).obeys_transcript() ==> confirm_once_fits(
            old(p).transcript(),
            final(p).transcript(),
            prompt@,
            r,
        ),
{
    let question = confirm_prompt(prompt);
    let answer = read_trimmed_line(p, question.as_str())?;
    let decision = match &answer {
        Some(a) => confirm_answer(Some(a.as_str())),
        None => confirm_answer(None),
    };
    if let ConfirmAnswer::Retry = decision {
        match p.writeln("Please answer y or n.") {
            Ok(()) => {},
            Err(e) => {
                return Err(Error::PromptRead(e));
            },
        }
    }
    Ok(decision)
}

/// A path's components joined with `/`, whatever the platform separator.
pub fn path_to_forward_slash(p: &str) -> (r: String)
    ensures
        r@ == seq_join(std_path_components(p@), "/"@),
{
    let comps = path_components(p);
    crate::text::join_strings(comps.as_slice(), "/")
}

} // verus!

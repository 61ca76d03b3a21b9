//! The decisions behind `zenops init`: which shell the environment names,
//! what the bootstrap prompts ask and accept, and the `config.toml` the
//! bootstrap form writes.

use vstd::prelude::*;

use crate::error::Error;
use crate::line_prompter::{
    asked_once, asked_then_said, failed_at, heard_at, heard_of, Exchange, Heard, LineOutcome,
    LinePrompter,
};
use crate::text::{ascii_lower_seq, owned, str_chars, str_eq, to_ascii_lowercase, trim, trim_spec};

verus! {

/// The two shells the bootstrap config writer knows how to spell.
#[derive(Debug, Clone, Copy, PartialEq, Eq, Structural)]
pub enum BootstrapShell {
    Bash,
    Zsh,
}

/// The name a [`BootstrapShell`] is written as.
pub open spec fn shell_text(s: BootstrapShell) -> Seq<char> {
    match s {
        BootstrapShell::Bash => "bash"@,
        BootstrapShell::Zsh => "zsh"@,
    }
}

impl BootstrapShell {
    pub fn as_str(self) -> (r: &'static str)
        ensures
            r@ == shell_text(self),
    {
        match self {
            BootstrapShell::Bash => "bash",
            BootstrapShell::Zsh => "zsh",
        }
    }
}

/// The last component of a path, as `Path::file_name` gives it (Unix path
/// rules).
pub uninterp spec fn path_file_name(path: Seq<char>) -> Option<Seq<char>>;

/// `Path::new(path).file_name()`, as text.
#[verifier::external_body]
pub(crate) fn file_name_of(path: &str) -> (r: Option<String>)
    ensures
        match path_file_name(path@) {
            None => r is None,
            Some(n) => r matches Some(s) && s@ == n,
        },
{
    std::path::Path::new(path).file_name().and_then(|n| n.to_str()).map(|n| n.to_string())
}

/// The shell a program name stands for.
pub open spec fn shell_named(name: Seq<char>) -> Option<BootstrapShell> {
    if name == "bash"@ {
        Some(BootstrapShell::Bash)
    } else if name == "zsh"@ {
        Some(BootstrapShell::Zsh)
    } else {
        None
    }
}

/// The shell a program name stands for: `bash` or `zsh`, nothing else.
pub fn shell_from_name(name: &str) -> (r: Option<BootstrapShell>)
    ensures
        r == shell_named(name@),
{
    if str_eq(name, "bash") {
        Some(BootstrapShell::Bash)
    } else if str_eq(name, "zsh") {
        Some(BootstrapShell::Zsh)
    } else {
        None
    }
}

/// The shell named by the last component of `$SHELL`.
pub fn detect_shell_from_env(shell_var: Option<&str>) -> (r: Option<BootstrapShell>)
    ensures
        r == match shell_var {
            None => None,
            Some(p) => match path_file_name(p@) {
                None => None,
                Some(n) => shell_named(n),
            },
        },
{
    match shell_var {
        None => None,
        Some(path) => match file_name_of(path) {
            None => None,
            Some(name) => shell_from_name(name.as_str()),
        },
    }
}

/// What a read means once its line is trimmed: an answer (`None` for end
/// of input or a blank line), a failed read, or an interrupt.
pub enum Reply {
    Answer(Option<Seq<char>>),
    ReadFailed,
    Interrupted,
}

/// What a read that heard `h` means.
pub open spec fn reply_of(h: Heard) -> Reply {
    match h {
        Heard::Line(l) => if trim_spec(l).len() == 0 {
            Reply::Answer(None)
        } else {
            Reply::Answer(Some(trim_spec(l)))
        },
        Heard::Eof => Reply::Answer(None),
        Heard::Interrupted => Reply::Interrupted,
        Heard::Failed => Reply::ReadFailed,
    }
}

/// An optional string by its characters.
pub open spec fn answer_view(o: Option<String>) -> Option<Seq<char>> {
    match o {
        Some(s) => Some(s@),
        None => None,
    }
}

/// `r` is what the library returns for `reply`.
pub open spec fn reply_fits(reply: Reply, r: Result<Option<String>, Error>) -> bool {
    match reply {
        Reply::Answer(a) => match r {
            Ok(x) => answer_view(x) == a,
            Err(_) => false,
        },
        Reply::ReadFailed => r matches Err(Error::PromptRead(_)),
        Reply::Interrupted => r matches Err(Error::PromptInterrupted),
    }
}

/// The answer a read gives once trimmed: `None` for end of input or a
/// blank line, an error for a failed read or an interrupt.
pub fn trimmed_answer(outcome: Result<LineOutcome, std::io::Error>) -> (r: Result<
    Option<String>,
    Error,
>)
    ensures
        match outcome {
            Err(_) => r matches Err(Error::PromptRead(_)),
            Ok(LineOutcome::Eof) => r matches Ok(None),
            Ok(LineOutcome::Interrupted) => r matches Err(Error::PromptInterrupted),
            Ok(LineOutcome::Line(l)) => if trim_spec(l@).len() == 0 {
                r matches Ok(None)
            } else {
                r matches Ok(Some(t)) && t@ == trim_spec(l@)
            },
        },
        reply_fits(reply_of(heard_of(outcome)), r),
{
    match outcome {
        Err(e) => Err(Error::PromptRead(e)),
        Ok(LineOutcome::Eof) => Ok(None),
        Ok(LineOutcome::Interrupted) => Err(Error::PromptInterrupted),
        Ok(LineOutcome::Line(line)) => {
            let t = trim(line.as_str());
            if t.unicode_len() == 0 {
                Ok(None)
            } else {
                Ok(Some(t))
            }
        },
    }
}

/// Show `prompt`, read a line and trim it; a blank line or end of input
/// is `None`.
pub fn read_trimmed_line<P: LinePrompter>(prompter: &mut P, prompt: &str) -> (r: Result<
    Option<String>,
    Error,
>)
    ensures
        r matches Ok(Some(t)) ==> t@.len() > 0,
        old(prompter).obeys_transcript() ==> final(prompter).obeys_transcript(),
        old(prompter).obeys_transcript() ==> asked_once(
            old(prompter).transcript(),
            final(prompter).transcript(),
            prompt@,
        ),
        old(prompter).obeys_transcript() ==> reply_fits(
            reply_of(heard_at(final(prompter).transcript(), old(prompter).transcript().len() as int)),
            r,
        ),
{
    let outcome = prompter.read_line(prompt);
    trimmed_answer(outcome)
}

/// The prompt for a value with an optional default: `label [default]: `
/// or `label: `.
pub fn default_prompt(label: &str, default: Option<&str>) -> (r: String)
    ensures
        r@ == match default {
            Some(d) => label@ + " ["@ + d@ + "]: "@,
            None => label@ + ": "@,
        },
{
    let mut out = owned(label);
    match default {
        Some(d) => {
            out.append(" [");
            out.append(d);
            out.append("]: ");
        },
        None => {
            out.append(": ");
        },
    }
    out
}

/// The answer, or the default when there was none.
pub fn answer_or_default(answer: Option<String>, default: Option<&str>) -> (r: Option<String>)
    ensures
        match answer {
            Some(a) => r == Some(a),
            None => match default {
                Some(d) => r matches Some(s) && s@ == d@,
                None => r is None,
            },
        },
{
    match answer {
        Some(a) => Some(a),
        None => match default {
            Some(d) => Some(owned(d)),
            None => None,
        },
    }
}

/// Ask for a value, offering `default`; a blank answer takes the default.
pub fn prompt_with_default<P: LinePrompter>(
    prompter: &mut P,
    label: &str,
    default: Option<&str>,
) -> (r: Result<Option<String>, Error>)
    ensures
        r matches Ok(None) ==> default is None,
        r matches Ok(Some(s)) ==> (s@.len() > 0 || (default matches Some(d) && s@ == d@)),
        old(prompter).obeys_transcript() ==> final(prompter).obeys_transcript(),
        old(prompter).obeys_transcript() ==> asked_once(
            old(prompter).transcript(),
            final(prompter).transcript(),
            match default {
                Some(d) => label@ + " ["@ + d@ + "]: "@,
                None => label@ + ": "@,
            },
        ),
        old(prompter).obeys_transcript() ==> reply_fits(
            match reply_of(heard_at(final(prompter).transcript(), old(prompter).transcript().len() as int)) {
                Reply::Answer(None) => Reply::Answer(
                    match default {
                        Some(d) => Some(d@),
                        None => None,
                    },
                ),
                other => other,
            },
            r,
        ),
{
    let prompt = default_prompt(label, default);
    let answer = read_trimmed_line(prompter, prompt.as_str())?;
    Ok(answer_or_default(answer, default))
}

/// What an answer to the shell prompt settles.
#[derive(Debug, Clone, Copy, PartialEq, Eq, Structural)]
pub enum ShellAnswer {
    /// The shell to configure, or none.
    Chosen(Option<BootstrapShell>),
    /// The answer named no shell; ask again.
    Retry,
}

/// The text of the shell question.
pub open spec fn shell_prompt_text(default: Option<BootstrapShell>) -> Seq<char> {
    match default {
        Some(d) => "Shell (bash/zsh/none) ["@ + shell_text(d) + "]: "@,
        None => "Shell (bash/zsh/none) [none]: "@,
    }
}

/// The prompt for the shell question.
pub fn shell_prompt(default: Option<BootstrapShell>) -> (r: String)
    ensures
        r@ == shell_prompt_text(default),
{
    match default {
        Some(d) => {
            let mut out = owned("Shell (bash/zsh/none) [");
            out.append(d.as_str());
            out.append("]: ");
            out
        },
        None => owned("Shell (bash/zsh/none) [none]: "),
    }
}

/// What an answer to the shell prompt means, case aside.
pub open spec fn shell_answer_spec(answer: Option<Seq<char>>, default: Option<BootstrapShell>) -> ShellAnswer {
    match answer {
        None => ShellAnswer::Chosen(default),
        Some(a) => {
            let n = ascii_lower_seq(a);
            if n == "bash"@ {
                ShellAnswer::Chosen(Some(BootstrapShell::Bash))
            } else if n == "zsh"@ {
                ShellAnswer::Chosen(Some(BootstrapShell::Zsh))
            } else if n == "none"@ {
                ShellAnswer::Chosen(None)
            } else {
                ShellAnswer::Retry
            }
        },
    }
}

/// Decide an answer to the shell prompt: blank keeps the default, `bash`,
/// `zsh` and `none` (in any case) choose, anything else asks again.
pub fn shell_answer(answer: Option<&str>, default: Option<BootstrapShell>) -> (r: ShellAnswer)
    ensures
        r == shell_answer_spec(
            match answer {
                Some(a) => Some(a@),
                None => None,
            },
            default,
        ),
{
    match answer {
        None => ShellAnswer::Chosen(default),
        Some(a) => {
            let n = to_ascii_lowercase(a);
            if str_eq(n.as_str(), "bash") {
                ShellAnswer::Chosen(Some(BootstrapShell::Bash))
            } else if str_eq(n.as_str(), "zsh") {
                ShellAnswer::Chosen(Some(BootstrapShell::Zsh))
            } else if str_eq(n.as_str(), "none") {
                ShellAnswer::Chosen(None)
            } else {
                ShellAnswer::Retry
            }
        },
    }
}

/// The message shown before the shell question is asked again.
pub fn shell_retry_message() -> (r: &'static str)
    ensures
        r@ == "Please answer bash, zsh, or none."@,
{
    "Please answer bash, zsh, or none."
}

/// What one round of the shell question does to a transcript `before`,
/// leaving `after`, and returns as `r`: the question is asked; an answer
/// that names no shell is followed by the retry message and gives
/// [`ShellAnswer::Retry`] (or the write's failure); any other answer gives
/// its decision; a failed or interrupted read gives its error.
pub open spec fn shell_once_fits(
    before: Seq<Exchange>,
    after: Seq<Exchange>,
    default: Option<BootstrapShell>,
    r: Result<ShellAnswer, Error>,
) -> bool {
    let prompt = shell_prompt_text(default);
    let retry = "Please answer bash, zsh, or none."@;
    match reply_of(heard_at(after, before.len() as int)) {
        Reply::ReadFailed => asked_once(before, after, prompt) && r matches Err(Error::PromptRead(_)),
        Reply::Interrupted => asked_once(before, after, prompt) && r matches Err(Error::PromptInterrupted),
        Reply::Answer(a) => {
            let d = shell_answer_spec(a, default);
            if d is Retry {
                &&& asked_then_said(before, after, prompt, retry)
                &&& if failed_at(after, before.len() + 1int) {
                    r matches Err(Error::PromptRead(_))
                } else {
                    r == Ok::<ShellAnswer, Error>(ShellAnswer::Retry)
                }
            } else {
                asked_once(before, after, prompt) && r == Ok::<ShellAnswer, Error>(d)
            }
        },
    }
}

/// Ask the shell question once. When the answer names no shell, the
/// retry message is shown and [`ShellAnswer::Retry`] comes back; the caller
/// asks again until a shell (or none) is chosen.
pub fn prompt_shell_once<P: LinePrompter>(prompter: &mut P, default: Option<BootstrapShell>) -> (r:
    Result<ShellAnswer, Error>)
    ensures
        old(prompter).obeys_transcript() ==> final(prompter).obeys_transcript(),
        old(prompter).obeys_transcript() ==> shell_once_fits(
            old(prompter).transcript(),
            final(prompter).transcript(),
            default,
            r,
        ),
{
    let prompt = shell_prompt(default);
    let answer = read_trimmed_line(prompter, prompt.as_str())?;
    let decision = match &answer {
        Some(a) => shell_answer(Some(a.as_str()), default),
        None => shell_answer(None, default),
    };
    if let ShellAnswer::Retry = decision {
        match prompter.writeln(shell_retry_message()) {
            Ok(()) => {},
            Err(e) => {
                return Err(Error::PromptRead(e));
            },
        }
    }
    Ok(decision)
}

/// `c` as it appears inside a TOML basic string.
pub open spec fn toml_escape_char(c: char) -> Seq<char> {
    if c == '\\' {
        seq!['\\', '\\']
    } else if c == '"' {
        seq!['\\', '"']
    } else {
        seq![c]
    }
}

/// `s` with `\` and `"` escaped.
pub open spec fn toml_escape(s: Seq<char>) -> Seq<char>
    decreases s.len(),
{
    if s.len() == 0 {
        Seq::empty()
    } else {
        toml_escape(s.drop_last()) + toml_escape_char(s.last())
    }
}

/// `s` as a TOML basic string: quoted, with `\` and `"` escaped.
pub fn toml_string(s: &str) -> (r: String)
    ensures
        r@ == seq!['"'] + toml_escape(s@) + seq!['"'],
{
    let cs = str_chars(s);
    let mut out = String::new();
    crate::text::push_char(&mut out, '"');
    let mut i: usize = 0;
    while i < cs.len()
        invariant
            i <= cs@.len(),
            cs@ == s@,
            out@ == seq!['"'] + toml_escape(cs@.take(i as int)),
        decreases cs@.len() - i,
    {
        let c = cs[i];
        if c == '\\' {
            crate::text::push_char(&mut out, '\\');
            crate::text::push_char(&mut out, '\\');
        } else if c == '"' {
            crate::text::push_char(&mut out, '\\');
            crate::text::push_char(&mut out, '"');
        } else {
            crate::text::push_char(&mut out, c);
        }
        assert(cs@.take(i + 1).drop_last() =~= cs@.take(i as int));
        i = i + 1;
        assert(out@ =~= seq!['"'] + toml_escape(cs@.take(i as int)));
    }
    assert(cs@.take(cs@.len() as int) =~= cs@);
    crate::text::push_char(&mut out, '"');
    out
}

/// The `[shell]` table of the bootstrap config.
pub open spec fn shell_table(shell: Option<BootstrapShell>) -> Seq<char> {
    match shell {
        Some(s) => "[shell]\ntype = \""@ + shell_text(s) + "\"\n"@,
        None => Seq::empty(),
    }
}

/// One `key = "value"` line of the `[user]` table; `lead` is `key = `.
pub open spec fn user_line(lead: Seq<char>, value: Option<&str>) -> Seq<char> {
    match value {
        Some(v) => lead + seq!['"'] + toml_escape(v@) + seq!['"'] + "\n"@,
        None => Seq::empty(),
    }
}

/// The bootstrap `config.toml`: a `[shell]` table when a shell was chosen,
/// then, when a name or an email was given, a `[user]` table with them,
/// separated from the shell table by a blank line.
pub open spec fn bootstrap_config(
    shell: Option<BootstrapShell>,
    name: Option<&str>,
    email: Option<&str>,
) -> Seq<char> {
    let head = shell_table(shell);
    if name is None && email is None {
        head
    } else {
        let sep = if head.len() > 0 { "\n"@ } else { Seq::empty() };
        head + sep + "[user]\n"@ + user_line("name = "@, name) + user_line("email = "@, email)
    }
}

/// Render the bootstrap `config.toml`.
pub fn render_bootstrap_config(
    shell: Option<BootstrapShell>,
    name: Option<&str>,
    email: Option<&str>,
) -> (r: String)
    ensures
        r@ == bootstrap_config(shell, name, email),
{
    let mut body = String::new();
    if let Some(s) = shell {
        body.append("[shell]\ntype = \"");
        body.append(s.as_str());
        body.append("\"\n");
    }
    let ghost head = body@;
    assert(head =~= shell_table(shell));
    if name.is_some() || email.is_some() {
        if body.unicode_len() > 0 {
            body.append("\n");
        }
        let ghost sep: Seq<char> = if head.len() > 0 { "\n"@ } else { Seq::empty() };
        assert(body@ =~= head + sep);
        body.append("[user]\n");
        let ghost upto_user = body@;
        if let Some(n) = name {
            body.append("name = ");
            let q = toml_string(n);
            body.append(q.as_str());
            body.append("\n");
        }
        assert(body@ =~= upto_user + user_line("name = "@, name));
        let ghost upto_name = body@;
        if let Some(e) = email {
            body.append("email = ");
            let q = toml_string(e);
            body.append(q.as_str());
            body.append("\n");
        }
        assert(body@ =~= upto_name + user_line("email = "@, email));
        assert(body@ =~= head + sep + "[user]\n"@ + user_line("name = "@, name) + user_line("email = "@, email));
    }
    body
}

// ---------- before and after the clone or the bootstrap ----------

/// Why `zenops init` refuses to start.
#[derive(Debug, Clone, PartialEq, Eq)]
pub enum InitError {
    /// The repo directory exists and holds something.
    DirNotEmpty(String),
    /// The repo directory exists (bootstrap never touches it).
    DirExists(String),
    /// The repo directory already holds a `.git` directory.
    GitDirExists(String),
    /// The bootstrap prompts need a terminal.
    NeedsTty,
    /// The cloned repo has no `config.toml` at its root.
    NoConfigToml(String),
}

/// What is at the repo directory before a clone.
#[derive(Debug, Clone, Copy, PartialEq, Eq, Structural)]
pub enum RepoDirState {
    Missing,
    Empty,
    NotEmpty,
}

/// What to do before cloning into the repo directory.
#[derive(Debug, Clone, Copy, PartialEq, Eq, Structural)]
pub enum ClonePreflight {
    /// Remove the empty directory so `git clone` can create it.
    RemoveEmptyDir,
    /// Create the directory's parent, when it has one.
    CreateParent,
}

/// A clone goes into a missing or empty directory only.
pub fn preflight_clone(dir: &str, state: RepoDirState) -> (r: Result<ClonePreflight, InitError>)
    ensures
        match state {
            RepoDirState::Missing => r == Ok::<ClonePreflight, InitError>(ClonePreflight::CreateParent),
            RepoDirState::Empty => r == Ok::<ClonePreflight, InitError>(ClonePreflight::RemoveEmptyDir),
            RepoDirState::NotEmpty => r matches Err(InitError::DirNotEmpty(p)) && p@ == dir@,
        },
{
    match state {
        RepoDirState::Missing => Ok(ClonePreflight::CreateParent),
        RepoDirState::Empty => Ok(ClonePreflight::RemoveEmptyDir),
        RepoDirState::NotEmpty => Err(InitError::DirNotEmpty(owned(dir))),
    }
}

/// A bootstrap goes into a directory that does not exist; one holding
/// `.git` gets the more specific refusal.
pub fn preflight_bootstrap(dir: &str, dir_exists: bool, git_dir_exists: bool) -> (r: Result<(), InitError>)
    ensures
        !dir_exists ==> r is Ok,
        dir_exists && git_dir_exists ==> (r matches Err(InitError::GitDirExists(p)) && p@ == dir@),
        dir_exists && !git_dir_exists ==> (r matches Err(InitError::DirExists(p)) && p@ == dir@),
{
    if dir_exists {
        if git_dir_exists {
            return Err(InitError::GitDirExists(owned(dir)));
        }
        return Err(InitError::DirExists(owned(dir)));
    }
    Ok(())
}

/// A value read from `git config` (or `git remote get-url`): its trimmed
/// output, unless that is empty or the command failed.
pub open spec fn read_value(raw: Option<Seq<char>>) -> Option<Seq<char>> {
    match raw {
        Some(r) => if trim_spec(r).len() > 0 {
            Some(trim_spec(r))
        } else {
            None
        },
        None => None,
    }
}

/// The trimmed output of a `git` query, unless it is empty or the query
/// failed.
pub fn git_read_value(raw: Option<&str>) -> (r: Option<String>)
    ensures
        match (r, read_value(
            match raw {
                Some(s) => Some(s@),
                None => None,
            },
        )) {
            (Some(v), Some(w)) => v@ == w,
            (None, None) => true,
            _ => false,
        },
{
    match raw {
        Some(s) => {
            let t = trim(s);
            if t.unicode_len() > 0 {
                Some(t)
            } else {
                None
            }
        },
        None => None,
    }
}

/// The summary of a clone: where it went, its `origin` remote (from the
/// raw output of `git remote get-url origin`, when that ran), the
/// configured shell and how many pkgs the configuration has.
pub fn clone_summary(
    clone_path: &str,
    remote_raw: Option<&str>,
    shell: Option<crate::pkg::Shell>,
    pkg_count: usize,
) -> (r: crate::output::InitSummary)
    ensures
        r.clone_path@ == clone_path@,
        match (r.remote, read_value(
            match remote_raw {
                Some(s) => Some(s@),
                None => None,
            },
        )) {
            (Some(v), Some(w)) => v@ == w,
            (None, None) => true,
            _ => false,
        },
        match shell {
            Some(crate::pkg::Shell::Bash) => r.shell matches Some(s) && s@ == "bash"@,
            Some(crate::pkg::Shell::Zsh) => r.shell matches Some(s) && s@ == "zsh"@,
            None => r.shell is None,
        },
        r.pkg_count == pkg_count,
{
    let shell_name = match shell {
        Some(crate::pkg::Shell::Bash) => Some(owned("bash")),
        Some(crate::pkg::Shell::Zsh) => Some(owned("zsh")),
        None => None,
    };
    crate::output::InitSummary {
        clone_path: owned(clone_path),
        remote: git_read_value(remote_raw),
        shell: shell_name,
        pkg_count,
    }
}

} // verus!

//! Rendering of the shell profile pieces zenops writes: per-pkg init
//! actions, the environment block and the alias block.

use indexmap::IndexMap;
use vstd::prelude::*;

use crate::error::Error;
use crate::expand::{ExpandError, ExpandFault, ExpandLookup, ExpandStr};
use crate::input_map::{index_map_entries, input_map_entry, input_map_len};
use crate::text::{owned, push_char};

verus! {

/// One line a pkg contributes to a shell profile.
#[derive(Debug, Clone, PartialEq)]
pub struct ShellInitAction {
    /// Skip the line quietly when a placeholder cannot be resolved.
    pub optional: bool,
    /// The line itself.
    pub kind: ActionKind,
}

/// The kinds of shell init lines.
#[derive(Debug, Clone, PartialEq)]
pub enum ActionKind {
    /// `# text`.
    Comment { text: ExpandStr },
    /// `. "path"`, with a leading `~/` written as `$HOME/`.
    Source { path: ExpandStr },
    /// `eval "$(command)"`.
    EvalOutput { command: Vec<ExpandStr> },
    /// `source <(command)`.
    SourceOutput { command: Vec<ExpandStr> },
    /// `export NAME="value"`.
    Export { name: ExpandStr, value: ExpandStr },
    /// The line as written.
    Line { line: ExpandStr },
    /// `export PATH="value:$PATH"`.
    PathPrepend { value: ExpandStr },
    /// `export PATH="$PATH:value"`.
    PathAppend { value: ExpandStr },
}

/// `s` with a leading `~/` written as `$HOME/`.
pub open spec fn home_tilde_spec(s: Seq<char>) -> Seq<char> {
    if s.len() >= 2 && s[0] == '~' && s[1] == '/' {
        "$HOME/"@ + s.skip(2)
    } else {
        s
    }
}

/// `s` with a leading `~/` written as `$HOME/`, so POSIX shells expand it
/// inside double quotes.
pub fn home_tilde_to_var(s: &str) -> (r: String)
    ensures
        r@ == home_tilde_spec(s@),
{
    let n = s.unicode_len();
    if n >= 2 && s.get_char(0) == '~' && s.get_char(1) == '/' {
        let mut out = owned("$HOME/");
        let cs = crate::text::str_chars(s);
        let rest = crate::text::string_from_range(cs.as_slice(), 2, n);
        out.append(rest.as_str());
        assert(rest@ =~= s@.skip(2));
        out
    } else {
        owned(s)
    }
}

/// Prefix `w` onto a successful result.
pub open spec fn prefixed(w: Seq<char>, r: Result<Seq<char>, ExpandFault>) -> Result<Seq<char>, ExpandFault> {
    match r {
        Ok(s) => Ok(w + s),
        Err(e) => Err(e),
    }
}

/// Suffix `w` onto a successful result.
pub open spec fn suffixed(r: Result<Seq<char>, ExpandFault>, w: Seq<char>) -> Result<Seq<char>, ExpandFault> {
    match r {
        Ok(s) => Ok(s + w),
        Err(e) => Err(e),
    }
}

/// The command parts expanded and joined with single spaces; the first
/// part that fails decides the error.
pub open spec fn command_spec<L: ExpandLookup>(parts: Seq<ExpandStr>, lookup: &L) -> Result<Seq<char>, ExpandFault>
    decreases parts.len(),
{
    if parts.len() == 0 {
        Ok(Seq::empty())
    } else {
        match command_spec(parts.drop_last(), lookup) {
            Err(e) => Err(e),
            Ok(pre) => match parts.last().expansion(lookup) {
                Err(e) => Err(e),
                Ok(x) => Ok(pre + (if parts.len() > 1 {
                    " "@
                } else {
                    Seq::empty()
                }) + x),
            },
        }
    }
}

/// The text of one init line.
pub open spec fn action_body_spec<L: ExpandLookup>(kind: ActionKind, lookup: &L) -> Result<Seq<char>, ExpandFault> {
    match kind {
        ActionKind::Comment { text } => prefixed("# "@, text.expansion(lookup)),
        ActionKind::Source { path } => match path.expansion(lookup) {
            Ok(p) => Ok(". \""@ + home_tilde_spec(p) + "\""@),
            Err(e) => Err(e),
        },
        ActionKind::EvalOutput { command } => suffixed(
            prefixed("eval \"$("@, command_spec(command@, lookup)),
            ")\""@,
        ),
        ActionKind::SourceOutput { command } => suffixed(
            prefixed("source <("@, command_spec(command@, lookup)),
            ")"@,
        ),
        ActionKind::Export { name, value } => match name.expansion(lookup) {
            Err(e) => Err(e),
            Ok(n) => match value.expansion(lookup) {
                Err(e) => Err(e),
                Ok(v) => Ok("export "@ + n + "=\""@ + v + "\""@),
            },
        },
        ActionKind::Line { line } => line.expansion(lookup),
        ActionKind::PathPrepend { value } => match value.expansion(lookup) {
            Ok(p) => Ok("export PATH=\""@ + home_tilde_spec(p) + ":$PATH\""@),
            Err(e) => Err(e),
        },
        ActionKind::PathAppend { value } => match value.expansion(lookup) {
            Ok(p) => Ok("export PATH=\"$PATH:"@ + home_tilde_spec(p) + "\""@),
            Err(e) => Err(e),
        },
    }
}

/// Write the command parts, expanded and joined with single spaces.
pub fn write_command<L: ExpandLookup>(buf: &mut String, command: &Vec<ExpandStr>, lookup: &L) -> (r:
    Result<(), ExpandError>)
    ensures
        match command_spec(command@, lookup) {
            Ok(s) => r is Ok && final(buf)@ == old(buf)@ + s,
            Err(e) => r matches Err(err) && err.fault() == e,
        },
{
    let mut i: usize = 0;
    while i < command.len()
        invariant
            i <= command@.len(),
            command_spec(command@.take(i as int), lookup) matches Ok(s) && buf@ == old(buf)@ + s,
        decreases command@.len() - i,
    {
        assert(command@.take(i + 1).drop_last() =~= command@.take(i as int));
        let ghost before = buf@;
        if i > 0 {
            push_char(buf, ' ');
            proof {
                reveal_strlit(" ");
            }
        }
        match command[i].write_expanded(lookup, buf) {
            Ok(()) => {},
            Err(e) => {
                proof {
                    lemma_command_prefix_err(command@, lookup, i + 1);
                }
                return Err(e);
            },
        }
        i = i + 1;
        assert(buf@ =~= before + (if i > 1 { " "@ } else { Seq::empty() }) + command@[i - 1].expansion(lookup)->Ok_0);
    }
    assert(command@.take(command@.len() as int) =~= command@);
    Ok(())
}

/// Once a prefix of the parts fails, so does the whole command.
proof fn lemma_command_prefix_err<L: ExpandLookup>(parts: Seq<ExpandStr>, lookup: &L, k: int)
    requires
        0 <= k <= parts.len(),
        command_spec(parts.take(k), lookup) is Err,
    ensures
        command_spec(parts, lookup) == command_spec(parts.take(k), lookup),
    decreases parts.len() - k,
{
    if k == parts.len() {
        assert(parts.take(k) =~= parts);
    } else {
        assert(parts.take(k + 1).drop_last() =~= parts.take(k));
        lemma_command_prefix_err(parts, lookup, k + 1);
    }
}

/// Write the text of one init line.
pub fn write_action_body<L: ExpandLookup>(buf: &mut String, kind: &ActionKind, lookup: &L) -> (r:
    Result<(), ExpandError>)
    ensures
        match action_body_spec(*kind, lookup) {
            Ok(s) => r is Ok && final(buf)@ == old(buf)@ + s,
            Err(e) => r matches Err(err) && err.fault() == e,
        },
{
    let ghost o = buf@;
    match kind {
        ActionKind::Comment { text } => {
            buf.append("# ");
            text.write_expanded(lookup, buf)?;
        },
        ActionKind::Source { path } => {
            let expanded = path.expand_to_string(lookup)?;
            buf.append(". \"");
            let h = home_tilde_to_var(expanded.as_str());
            buf.append(h.as_str());
            buf.append("\"");
        },
        ActionKind::EvalOutput { command } => {
            buf.append("eval \"$(");
            write_command(buf, command, lookup)?;
            buf.append(")\"");
        },
        ActionKind::SourceOutput { command } => {
            buf.append("source <(");
            write_command(buf, command, lookup)?;
            buf.append(")");
        },
        ActionKind::Export { name, value } => {
            buf.append("export ");
            name.write_expanded(lookup, buf)?;
            buf.append("=\"");
            value.write_expanded(lookup, buf)?;
            buf.append("\"");
        },
        ActionKind::Line { line } => {
            line.write_expanded(lookup, buf)?;
        },
        ActionKind::PathPrepend { value } => {
            let expanded = value.expand_to_string(lookup)?;
            buf.append("export PATH=\"");
            let h = home_tilde_to_var(expanded.as_str());
            buf.append(h.as_str());
            buf.append(":$PATH\"");
        },
        ActionKind::PathAppend { value } => {
            let expanded = value.expand_to_string(lookup)?;
            buf.append("export PATH=\"$PATH:");
            let h = home_tilde_to_var(expanded.as_str());
            buf.append(h.as_str());
            buf.append("\"");
        },
    }
    assert(buf@ =~= o + action_body_spec(*kind, lookup)->Ok_0);
    Ok(())
}

/// What writing an action amounts to: its text, nothing for an optional
/// line whose placeholder is unresolved, or the error.
pub open spec fn action_spec<L: ExpandLookup>(action: ShellInitAction, lookup: &L) -> Result<Option<Seq<char>>, ExpandFault> {
    match action_body_spec(action.kind, lookup) {
        Ok(s) => Ok(Some(s)),
        Err(ExpandFault::Unresolved(n)) => if action.optional {
            Ok(None)
        } else {
            Err(ExpandFault::Unresolved(n))
        },
        Err(e) => Err(e),
    }
}

/// Write one init line. Returns `true` when it was written, `false` when
/// an optional line was skipped for an unresolved placeholder; `buf` is
/// unchanged unless the line is written.
pub fn write_action<L: ExpandLookup>(buf: &mut String, action: &ShellInitAction, lookup: &L) -> (r:
    Result<bool, ExpandError>)
    ensures
        match action_spec(*action, lookup) {
            Ok(Some(s)) => r == Ok::<bool, ExpandError>(true) && final(buf)@ == old(buf)@ + s,
            Ok(None) => r == Ok::<bool, ExpandError>(false) && final(buf)@ == old(buf)@,
            Err(e) => r matches Err(err) && err.fault() == e && final(buf)@ == old(buf)@,
        },
{
    let mut line = String::new();
    match write_action_body(&mut line, &action.kind, lookup) {
        Ok(()) => {
            buf.append(line.as_str());
            assert(line@ =~= Seq::<char>::empty() + line@);
            Ok(true)
        },
        Err(ExpandError::Unresolved(n)) => {
            if action.optional {
                Ok(false)
            } else {
                Err(ExpandError::Unresolved(n))
            }
        },
        Err(e) => Err(e),
    }
}

/// The library error for an expansion failure in pkg `pkg`.
pub open spec fn expand_err_spec(e: ExpandFault, pkg: Seq<char>) -> (Seq<char>, Option<Seq<char>>) {
    match e {
        ExpandFault::Unresolved(n) => (pkg, Some(n)),
        ExpandFault::Unterminated => (pkg, None),
    }
}

/// Whether `err` is the library error for expansion fault `e` in pkg `pkg`.
pub open spec fn is_expand_err(err: Error, e: ExpandFault, pkg: Seq<char>) -> bool {
    match e {
        ExpandFault::Unresolved(n) => err matches Error::UnresolvedInput { pkg: p, input } && p@ == pkg
            && input@ == n,
        ExpandFault::Unterminated => err matches Error::TemplateUnterminated { pkg: p } && p@ == pkg,
    }
}

/// Attach the pkg name to an expansion error.
pub fn map_expand_err(e: ExpandError, pkg_name: &str) -> (r: Error)
    ensures
        is_expand_err(r, e.fault(), pkg_name@),
{
    match e {
        ExpandError::Unresolved(input) => Error::UnresolvedInput { pkg: owned(pkg_name), input },
        ExpandError::Unterminated => Error::TemplateUnterminated { pkg: owned(pkg_name) },
    }
}

} // verus!

verus! {

/// A pkg's inputs followed by the system inputs, as one lookup.
pub open spec fn pair_lookup<'a>(
    inputs: &'a IndexMap<String, String>,
    system: &'a IndexMap<String, String>,
) -> [&'a IndexMap<String, String>; 2] {
    [inputs, system]
}

/// One action to render: the pkg it belongs to, the pkg's inputs, and the
/// action.
pub type PkgAction<'a> = (&'a str, &'a IndexMap<String, String>, &'a ShellInitAction);

/// The lines the actions render to, each with whether it is a comment, or
/// the pkg and fault of the first action that fails.
pub open spec fn rendered_spec<'a>(
    actions: Seq<PkgAction<'a>>,
    system: &'a IndexMap<String, String>,
) -> Result<Seq<(bool, Seq<char>)>, (Seq<char>, ExpandFault)>
    decreases actions.len(),
{
    if actions.len() == 0 {
        Ok(Seq::empty())
    } else {
        match rendered_spec(actions.drop_last(), system) {
            Err(e) => Err(e),
            Ok(v) => {
                let (pkg, inputs, action) = actions.last();
                match action_spec(*action, &pair_lookup(inputs, system)) {
                    Err(e) => Err((pkg@, e)),
                    Ok(None) => Ok(v),
                    Ok(Some(s)) => Ok(v.push((action.kind is Comment, s))),
                }
            },
        }
    }
}

/// Line `i` of the rendered inits and its newline, then a blank line when
/// a non-comment ends the list or is followed by a comment.
pub open spec fn init_entry_text(em: Seq<(bool, Seq<char>)>, i: int) -> Seq<char> {
    em[i].1 + "\n"@ + (if !em[i].0 && (i + 1 == em.len() || em[i + 1].0) {
        "\n"@
    } else {
        Seq::empty()
    })
}

/// The first `k` rendered init lines.
pub open spec fn inits_text(em: Seq<(bool, Seq<char>)>, k: int) -> Seq<char>
    decreases k,
{
    if k <= 0 {
        Seq::empty()
    } else {
        inits_text(em, k - 1) + init_entry_text(em, k - 1)
    }
}

/// Once a prefix of the actions fails, so do all of them.
proof fn lemma_rendered_prefix_err<'a>(
    actions: Seq<PkgAction<'a>>,
    system: &'a IndexMap<String, String>,
    k: int,
)
    requires
        0 <= k <= actions.len(),
        rendered_spec(actions.take(k), system) is Err,
    ensures
        rendered_spec(actions, system) == rendered_spec(actions.take(k), system),
    decreases actions.len() - k,
{
    if k == actions.len() {
        assert(actions.take(k) =~= actions);
    } else {
        assert(actions.take(k + 1).drop_last() =~= actions.take(k));
        lemma_rendered_prefix_err(actions, system, k + 1);
    }
}

/// The views of rendered lines.
pub open spec fn rendered_views(v: Seq<(bool, String)>) -> Seq<(bool, Seq<char>)> {
    Seq::new(v.len(), |i: int| (v[i].0, v[i].1@))
}

/// Render the pkgs' shell init actions: every action is rendered first
/// (optional ones with an unresolved placeholder are dropped), then the
/// lines are written one per line, with a blank line after a non-comment
/// that ends the list or is followed by a comment. On an error nothing is
/// written.
pub fn write_pkg_inits(
    buf: &mut String,
    actions: &[PkgAction],
    system_inputs: &IndexMap<String, String>,
) -> (r: Result<(), Error>)
    ensures
        match rendered_spec(actions@, system_inputs) {
            Ok(em) => r is Ok && final(buf)@ == old(buf)@ + inits_text(em, em.len() as int),
            Err((pkg, e)) => r matches Err(err) && is_expand_err(err, e, pkg) && final(buf)@ == old(
                buf,
            )@,
        },
{
    let mut rendered: Vec<(bool, String)> = Vec::new();
    let mut i: usize = 0;
    assert(actions@.take(0) =~= Seq::<PkgAction>::empty());
    assert(rendered_views(rendered@) =~= Seq::<(bool, Seq<char>)>::empty());
    while i < actions.len()
        invariant
            i <= actions@.len(),
            buf@ == old(buf)@,
            rendered_spec(actions@.take(i as int), system_inputs) == Ok::<
                Seq<(bool, Seq<char>)>,
                (Seq<char>, ExpandFault),
            >(rendered_views(rendered@)),
        decreases actions@.len() - i,
    {
        let (pkg_name, inputs, action) = actions[i];
        assert(actions@.take(i + 1).drop_last() =~= actions@.take(i as int));
        assert(actions@.take(i + 1).last() == actions@[i as int]);
        let lookup = [inputs, system_inputs];
        assert(lookup == pair_lookup(inputs, system_inputs));
        let mut line = String::new();
        let ghost before = rendered_views(rendered@);
        match write_action(&mut line, action, &lookup) {
            Ok(true) => {
                let is_comment = match &action.kind {
                    ActionKind::Comment { .. } => true,
                    _ => false,
                };
                assert(line@ =~= Seq::<char>::empty() + line@);
                rendered.push((is_comment, line));
                assert(rendered_views(rendered@) =~= before.push((action.kind is Comment, line@)));
            },
            Ok(false) => {},
            Err(e) => {
                proof {
                    lemma_rendered_prefix_err(actions@, system_inputs, i + 1);
                }
                return Err(map_expand_err(e, pkg_name));
            },
        }
        i = i + 1;
    }
    assert(actions@.take(actions@.len() as int) =~= actions@);
    let ghost em = rendered_views(rendered@);
    let n = rendered.len();
    let mut j: usize = 0;
    while j < n
        invariant
            j <= n,
            n == rendered@.len(),
            em == rendered_views(rendered@),
            buf@ == old(buf)@ + inits_text(em, j as int),
        decreases n - j,
    {
        let ghost b = buf@;
        buf.append(rendered[j].1.as_str());
        buf.append("\n");
        let is_comment = rendered[j].0;
        let is_last = j + 1 == n;
        let next_is_comment = if j + 1 < n { rendered[j + 1].0 } else { false };
        if !is_comment && (is_last || next_is_comment) {
            buf.append("\n");
        }
        assert(buf@ =~= b + init_entry_text(em, j as int));
        j = j + 1;
    }
    Ok(())
}

/// `lead`, name, `=`, value and a newline for each entry; then a blank
/// line when there were any.
pub open spec fn assignments_text(entries: Seq<(Seq<char>, Seq<char>)>, lead: Seq<char>) -> Seq<char> {
    if entries.len() == 0 {
        Seq::empty()
    } else {
        assignment_lines(entries, lead, entries.len() as int) + "\n"@
    }
}

/// The first `k` assignment lines.
pub open spec fn assignment_lines(entries: Seq<(Seq<char>, Seq<char>)>, lead: Seq<char>, k: int) -> Seq<char>
    decreases k,
{
    if k <= 0 {
        Seq::empty()
    } else {
        assignment_lines(entries, lead, k - 1) + lead + entries[k - 1].0 + "="@ + entries[k - 1].1
            + "\n"@
    }
}

fn write_assignments(buf: &mut String, map: &IndexMap<String, String>, lead: &str)
    ensures
        final(buf)@ == old(buf)@ + assignments_text(index_map_entries(*map), lead@),
{
    let n = input_map_len(map);
    if n == 0 {
        assert(buf@ =~= old(buf)@ + Seq::<char>::empty());
        return;
    }
    let ghost es = index_map_entries(*map);
    let mut i: usize = 0;
    while i < n
        invariant
            i <= n,
            n == es.len(),
            es == index_map_entries(*map),
            buf@ == old(buf)@ + assignment_lines(es, lead@, i as int),
        decreases n - i,
    {
        let (name, value) = input_map_entry(map, i);
        buf.append(lead);
        buf.append(name.as_str());
        buf.append("=");
        buf.append(value.as_str());
        buf.append("\n");
        i = i + 1;
        assert(buf@ =~= old(buf)@ + assignment_lines(es, lead@, i as int));
    }
    buf.append("\n");
}

/// Write `export NAME=value` for each environment entry, in order, then
/// a blank line; nothing for an empty environment.
pub fn write_environment(buf: &mut String, environment: &IndexMap<String, String>)
    ensures
        final(buf)@ == old(buf)@ + assignments_text(index_map_entries(*environment), "export "@),
{
    write_assignments(buf, environment, "export ");
}

/// Write `alias name=value` for each alias, in order, then a blank line;
/// nothing when there are no aliases.
pub fn write_aliases(buf: &mut String, alias: &IndexMap<String, String>)
    ensures
        final(buf)@ == old(buf)@ + assignments_text(index_map_entries(*alias), "alias "@),
{
    write_assignments(buf, alias, "alias ");
}

} // verus!

use indexmap::IndexMap;
use zenops::error::Error;
use zenops::expand::{ExpandError, ExpandStr};
use zenops::shell::{
    home_tilde_to_var, write_action, write_aliases, write_environment, write_pkg_inits, ActionKind,
    ShellInitAction,
};

fn lookup() -> IndexMap<String, String> {
    let mut m = IndexMap::new();
    m.insert("name".to_string(), "octocat".to_string());
    m.insert("path".to_string(), "~/.cargo/bin".to_string());
    m
}

fn render(kind: ActionKind, optional: bool) -> Result<(bool, String), ExpandError> {
    let action = ShellInitAction { optional, kind };
    let mut buf = String::new();
    let wrote = write_action(&mut buf, &action, &lookup())?;
    Ok((wrote, buf))
}

fn es(s: &'static str) -> ExpandStr {
    ExpandStr::new_static(s)
}

#[test]
fn write_action_comment_emits_hash_prefix() {
    let (wrote, body) = render(ActionKind::Comment { text: es("hi ${name}") }, false).unwrap();
    assert!(wrote);
    assert_eq!(body, "# hi octocat");
}

#[test]
fn write_action_source_translates_tilde_to_home_var() {
    let (_, body) = render(ActionKind::Source { path: es("${path}/env") }, false).unwrap();
    assert_eq!(body, r#". "$HOME/.cargo/bin/env""#);
}

#[test]
fn write_action_eval_output_joins_command_parts() {
    let (_, body) = render(
        ActionKind::EvalOutput { command: vec![es("starship"), es("init"), es("${name}")] },
        false,
    )
    .unwrap();
    assert_eq!(body, r#"eval "$(starship init octocat)""#);
}

#[test]
fn write_action_source_output_uses_process_substitution() {
    let (_, body) = render(
        ActionKind::SourceOutput { command: vec![es("zoxide"), es("init"), es("zsh")] },
        false,
    )
    .unwrap();
    assert_eq!(body, "source <(zoxide init zsh)");
}

#[test]
fn write_action_export_quotes_value() {
    let (_, body) = render(ActionKind::Export { name: es("EDITOR"), value: es("vim") }, false).unwrap();
    assert_eq!(body, r#"export EDITOR="vim""#);
}

#[test]
fn write_action_line_writes_raw_template() {
    let (_, body) = render(ActionKind::Line { line: es("setopt no_beep") }, false).unwrap();
    assert_eq!(body, "setopt no_beep");
}

#[test]
fn write_action_path_prepend_renders_export_with_home_var() {
    let (_, body) = render(ActionKind::PathPrepend { value: es("${path}") }, false).unwrap();
    assert_eq!(body, r#"export PATH="$HOME/.cargo/bin:$PATH""#);
}

#[test]
fn write_action_path_append_renders_export_with_home_var() {
    let (_, body) = render(ActionKind::PathAppend { value: es("${path}") }, false).unwrap();
    assert_eq!(body, r#"export PATH="$PATH:$HOME/.cargo/bin""#);
}

#[test]
fn write_action_path_prepend_passes_absolute_through_unchanged() {
    let (_, body) = render(ActionKind::PathPrepend { value: es("/usr/local/bin") }, false).unwrap();
    assert_eq!(body, r#"export PATH="/usr/local/bin:$PATH""#);
}

#[test]
fn write_action_optional_unresolved_skips_silently() {
    let action = ShellInitAction { optional: true, kind: ActionKind::Line { line: es("missing ${nope}") } };
    let mut buf = String::from("PRESERVE");
    let wrote = write_action(&mut buf, &action, &lookup()).unwrap();
    assert!(!wrote);
    assert_eq!(buf, "PRESERVE", "buffer must be truncated back to original length on optional skip",);
}

#[test]
fn write_action_required_unresolved_truncates_and_propagates() {
    let action = ShellInitAction { optional: false, kind: ActionKind::Line { line: es("missing ${nope}") } };
    let mut buf = String::from("PRESERVE");
    let err = write_action(&mut buf, &action, &lookup()).unwrap_err();
    assert!(matches!(err, ExpandError::Unresolved(_)));
    assert_eq!(buf, "PRESERVE");
}

#[test]
fn write_action_optional_unterminated_still_errors() {
    let action = ShellInitAction { optional: true, kind: ActionKind::Line { line: es("a ${oops") } };
    let mut buf = String::new();
    assert_eq!(write_action(&mut buf, &action, &lookup()).unwrap_err(), ExpandError::Unterminated);
    assert_eq!(buf, "");
}

fn action(optional: bool, kind: ActionKind) -> ShellInitAction {
    ShellInitAction { optional, kind }
}

#[test]
fn write_pkg_inits_inserts_blank_line_between_groups() {
    let inputs: IndexMap<String, String> = IndexMap::new();
    let pkg_inputs: IndexMap<String, String> = IndexMap::new();
    let header = action(false, ActionKind::Comment { text: es("group A") });
    let line_a = action(false, ActionKind::Line { line: es("alpha") });
    let header_b = action(false, ActionKind::Comment { text: es("group B") });
    let line_b = action(false, ActionKind::Line { line: es("beta") });
    let actions = vec![
        ("pkg", &pkg_inputs, &header),
        ("pkg", &pkg_inputs, &line_a),
        ("pkg", &pkg_inputs, &header_b),
        ("pkg", &pkg_inputs, &line_b),
    ];
    let mut buf = String::new();
    write_pkg_inits(&mut buf, &actions, &inputs).unwrap();
    assert_eq!(buf, "# group A\nalpha\n\n# group B\nbeta\n\n");
}

#[test]
fn write_pkg_inits_skips_optional_unresolved_actions_without_emitting_blank() {
    let inputs: IndexMap<String, String> = IndexMap::new();
    let pkg_inputs: IndexMap<String, String> = IndexMap::new();
    let line = action(false, ActionKind::Line { line: es("alpha") });
    let skipped = action(true, ActionKind::Line { line: es("missing ${nope}") });
    let actions = vec![("pkg", &pkg_inputs, &line), ("pkg", &pkg_inputs, &skipped)];
    let mut buf = String::new();
    write_pkg_inits(&mut buf, &actions, &inputs).unwrap();
    assert_eq!(buf, "alpha\n\n");
}

#[test]
fn write_pkg_inits_required_unresolved_returns_unresolved_input() {
    let inputs: IndexMap<String, String> = IndexMap::new();
    let pkg_inputs: IndexMap<String, String> = IndexMap::new();
    let line = action(false, ActionKind::Line { line: es("missing ${nope}") });
    let actions = vec![("mypkg", &pkg_inputs, &line)];
    let mut buf = String::new();
    let err = write_pkg_inits(&mut buf, &actions, &inputs).unwrap_err();
    match err {
        Error::UnresolvedInput { pkg, input } => {
            assert_eq!(pkg, "mypkg");
            assert_eq!(input, "nope");
        }
        other => panic!("expected UnresolvedInput, got {other:?}"),
    }
    assert_eq!(buf, "");
}

#[test]
fn write_pkg_inits_pkg_inputs_shadow_system_inputs() {
    let mut system: IndexMap<String, String> = IndexMap::new();
    system.insert("v".to_string(), "system".to_string());
    let mut pkg_inputs: IndexMap<String, String> = IndexMap::new();
    pkg_inputs.insert("v".to_string(), "pkg".to_string());
    let none: IndexMap<String, String> = IndexMap::new();
    let line = action(false, ActionKind::Line { line: es("${v}") });
    let actions = vec![("a", &pkg_inputs, &line), ("b", &none, &line)];
    let mut buf = String::new();
    write_pkg_inits(&mut buf, &actions, &system).unwrap();
    assert_eq!(buf, "pkg\nsystem\n\n");
}

#[test]
fn write_environment_emits_blank_line_after_non_empty_block() {
    let mut env: IndexMap<String, String> = IndexMap::new();
    env.insert("FOO".to_string(), "bar".to_string());
    let mut buf = String::new();
    write_environment(&mut buf, &env);
    assert_eq!(buf, "export FOO=bar\n\n");
}

#[test]
fn write_environment_empty_writes_nothing() {
    let env: IndexMap<String, String> = IndexMap::new();
    let mut buf = String::from("KEEP");
    write_environment(&mut buf, &env);
    assert_eq!(buf, "KEEP");
}

#[test]
fn write_aliases_emits_blank_line_after_non_empty_block() {
    let mut alias: IndexMap<String, String> = IndexMap::new();
    alias.insert("ll".to_string(), "\"ls -l\"".to_string());
    let mut buf = String::new();
    write_aliases(&mut buf, &alias);
    assert_eq!(buf, "alias ll=\"ls -l\"\n\n");
}

#[test]
fn write_aliases_empty_writes_nothing() {
    let alias: IndexMap<String, String> = IndexMap::new();
    let mut buf = String::from("KEEP");
    write_aliases(&mut buf, &alias);
    assert_eq!(buf, "KEEP");
}

#[test]
fn home_tilde_to_var_replaces_tilde_prefix() {
    assert_eq!(home_tilde_to_var("~/foo"), "$HOME/foo");
}

#[test]
fn home_tilde_to_var_passes_other_paths_through() {
    assert_eq!(home_tilde_to_var("/etc/foo"), "/etc/foo");
    assert_eq!(home_tilde_to_var("relative/foo"), "relative/foo");
    assert_eq!(home_tilde_to_var(""), "");
}

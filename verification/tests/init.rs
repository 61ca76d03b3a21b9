use zenops::init::{
    detect_shell_from_env, prompt_shell_once, prompt_with_default, render_bootstrap_config,
    toml_string, BootstrapShell, ShellAnswer,
};
use zenops::error::Error;
use zenops::line_prompter::BufReadPrompter;

/// Ask the shell question until it is settled.
fn prompt_shell(
    prompter: &mut BufReadPrompter,
    default: Option<BootstrapShell>,
) -> Result<Option<BootstrapShell>, Error> {
    loop {
        if let ShellAnswer::Chosen(s) = prompt_shell_once(prompter, default)? {
            return Ok(s);
        }
    }
}

#[test]
fn detect_shell_from_env_bash() {
    assert_eq!(detect_shell_from_env(Some("/bin/bash")), Some(BootstrapShell::Bash));
}

#[test]
fn detect_shell_from_env_zsh() {
    assert_eq!(detect_shell_from_env(Some("/usr/bin/zsh")), Some(BootstrapShell::Zsh));
}

#[test]
fn detect_shell_from_env_other() {
    assert_eq!(detect_shell_from_env(Some("/usr/local/bin/fish")), None);
    assert_eq!(detect_shell_from_env(Some("")), None);
    assert_eq!(detect_shell_from_env(None), None);
}

#[test]
fn render_empty_config() {
    assert_eq!(render_bootstrap_config(None, None, None), "");
}

#[test]
fn render_shell_only() {
    assert_eq!(
        render_bootstrap_config(Some(BootstrapShell::Bash), None, None),
        "[shell]\ntype = \"bash\"\n"
    );
}

#[test]
fn render_user_only() {
    assert_eq!(
        render_bootstrap_config(None, Some("Alice"), Some("a@example.com")),
        "[user]\nname = \"Alice\"\nemail = \"a@example.com\"\n"
    );
}

#[test]
fn render_full() {
    assert_eq!(
        render_bootstrap_config(Some(BootstrapShell::Zsh), Some("Alice"), Some("a@example.com"),),
        "[shell]\ntype = \"zsh\"\n\n[user]\nname = \"Alice\"\nemail = \"a@example.com\"\n"
    );
}

#[test]
fn render_name_only() {
    assert_eq!(render_bootstrap_config(None, Some("Alice"), None), "[user]\nname = \"Alice\"\n");
}

#[test]
fn toml_string_escapes_quotes_and_backslashes() {
    assert_eq!(toml_string(r#"a"b\c"#), r#""a\"b\\c""#);
}

#[test]
fn prompt_with_default_blank_line_uses_default() {
    let input = b"\n";
    let mut prompter = BufReadPrompter::new(&input[..], Vec::<u8>::new());
    let answer = prompt_with_default(&mut prompter, "Name", Some("Alice")).unwrap();
    assert_eq!(answer, Some("Alice".to_string()));
}

#[test]
fn prompt_with_default_explicit_input_overrides() {
    let input = b"Bob\n";
    let mut prompter = BufReadPrompter::new(&input[..], Vec::<u8>::new());
    let answer = prompt_with_default(&mut prompter, "Name", Some("Alice")).unwrap();
    assert_eq!(answer, Some("Bob".to_string()));
}

#[test]
fn prompt_with_default_no_default_blank_returns_none() {
    let input = b"\n";
    let mut prompter = BufReadPrompter::new(&input[..], Vec::<u8>::new());
    let answer = prompt_with_default(&mut prompter, "Email", None).unwrap();
    assert_eq!(answer, None);
}

#[test]
fn prompt_shell_accepts_named_choice() {
    let input = b"bash\n";
    let mut prompter = BufReadPrompter::new(&input[..], Vec::<u8>::new());
    let answer = prompt_shell(&mut prompter, None).unwrap();
    assert_eq!(answer, Some(BootstrapShell::Bash));
}

#[test]
fn prompt_shell_blank_uses_default() {
    let input = b"\n";
    let mut prompter = BufReadPrompter::new(&input[..], Vec::<u8>::new());
    let answer = prompt_shell(&mut prompter, Some(BootstrapShell::Zsh)).unwrap();
    assert_eq!(answer, Some(BootstrapShell::Zsh));
}

#[test]
fn prompt_shell_none_keyword_clears_default() {
    let input = b"none\n";
    let mut prompter = BufReadPrompter::new(&input[..], Vec::<u8>::new());
    let answer = prompt_shell(&mut prompter, Some(BootstrapShell::Bash)).unwrap();
    assert_eq!(answer, None);
}

#[test]
fn prompt_shell_rejects_invalid_then_accepts() {
    let input = b"fish\nzsh\n";
    let mut prompter = BufReadPrompter::new(&input[..], Vec::<u8>::new());
    let answer = prompt_shell(&mut prompter, None).unwrap();
    assert_eq!(answer, Some(BootstrapShell::Zsh));
    let written = String::from_utf8(prompter.into_writer()).unwrap();
    assert!(written.contains("Please answer bash, zsh, or none."));
}

#[test]
fn prompt_with_default_shows_label_and_default() {
    let input = b"  Carol  \n";
    let mut prompter = BufReadPrompter::new(&input[..], Vec::<u8>::new());
    let answer = prompt_with_default(&mut prompter, "Name", Some("Alice")).unwrap();
    assert_eq!(answer, Some("Carol".to_string()));
    assert_eq!(prompter.writer(), b"Name [Alice]: ");
}

#[test]
fn prompt_shell_is_case_insensitive_and_shows_default() {
    let input = b"ZSH\n";
    let mut prompter = BufReadPrompter::new(&input[..], Vec::<u8>::new());
    let answer = prompt_shell(&mut prompter, Some(BootstrapShell::Bash)).unwrap();
    assert_eq!(answer, Some(BootstrapShell::Zsh));
    assert_eq!(prompter.writer(), b"Shell (bash/zsh/none) [bash]: ");
}

#[test]
fn prompt_at_end_of_input_takes_default() {
    let input = b"";
    let mut prompter = BufReadPrompter::new(&input[..], Vec::<u8>::new());
    let answer = prompt_with_default(&mut prompter, "Email", Some("a@b")).unwrap();
    assert_eq!(answer, Some("a@b".to_string()));
}

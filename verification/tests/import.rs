use zenops::error::Error;
use zenops::import::{
    classify, confirm_once, derive_pkg_key, path_to_forward_slash, resolve_brew, ConfirmAnswer,
    ImportError, Layout,
};
use zenops::line_prompter::BufReadPrompter;

/// Ask a yes/no question until it is answered.
fn confirm(p: &mut BufReadPrompter, prompt: &str) -> Result<bool, Error> {
    loop {
        match confirm_once(p, prompt)? {
            ConfirmAnswer::Yes => return Ok(true),
            ConfirmAnswer::No => return Ok(false),
            ConfirmAnswer::Retry => {}
        }
    }
}

#[test]
fn classify_dot_config() {
    let layout = classify(".config/helix").unwrap();
    assert!(matches!(&layout, Layout::DotConfig { dir } if dir == "helix"));
}

#[test]
fn classify_home_dotfile() {
    let layout = classify(".zshrc").unwrap();
    assert!(matches!(&layout, Layout::Home { name } if name == ".zshrc"));
}

#[test]
fn classify_home_dotdir() {
    let layout = classify(".ssh").unwrap();
    assert!(matches!(&layout, Layout::Home { name } if name == ".ssh"));
}

#[test]
fn classify_rejects_dot_config_subdir() {
    let err = classify(".config/helix/themes").unwrap_err();
    assert!(matches!(err, ImportError::UnsupportedLayout(_)));
}

#[test]
fn classify_rejects_non_dot_home() {
    let err = classify("dotfiles").unwrap_err();
    assert!(matches!(err, ImportError::UnsupportedLayout(_)));
}

#[test]
fn classify_rejects_nested_home_dotdir() {
    let err = classify(".ssh/config").unwrap_err();
    assert!(matches!(err, ImportError::UnsupportedLayout(_)));
}

#[test]
fn classify_rejects_config_root_itself() {
    assert_eq!(classify(".config").unwrap_err(), ImportError::UnsupportedLayout(".config".to_string()));
    assert_eq!(classify(".").unwrap_err(), ImportError::UnsupportedLayout(".".to_string()));
}

#[test]
fn derive_pkg_key_strips_leading_dot_for_home() {
    let layout = Layout::Home { name: ".zshrc".into() };
    let key = derive_pkg_key(&layout, None).unwrap();
    assert_eq!(key.as_str(), "zshrc");
}

#[test]
fn derive_pkg_key_uses_dir_for_dotconfig() {
    let layout = Layout::DotConfig { dir: "helix".into() };
    let key = derive_pkg_key(&layout, None).unwrap();
    assert_eq!(key.as_str(), "helix");
}

#[test]
fn derive_pkg_key_honors_override() {
    let layout = Layout::DotConfig { dir: "nvim".into() };
    let key = derive_pkg_key(&layout, Some("neovim")).unwrap();
    assert_eq!(key.as_str(), "neovim");
}

#[test]
fn derive_pkg_key_rejects_multi_component_override() {
    let layout = Layout::DotConfig { dir: "nvim".into() };
    let err = derive_pkg_key(&layout, Some("a/b")).unwrap_err();
    assert_eq!(err, ImportError::NoDerivablePkgKey("a/b".to_string()));
}

#[test]
fn resolve_brew_uses_explicit_flag() {
    let got = resolve_brew::<BufReadPrompter>("foo", &["a".into(), "b".into()], false, true, None).unwrap();
    assert_eq!(got, vec!["a".to_string(), "b".to_string()]);
}

#[test]
fn resolve_brew_no_install_hint_returns_empty() {
    let got = resolve_brew::<BufReadPrompter>("foo", &[], true, true, None).unwrap();
    assert!(got.is_empty());
}

#[test]
fn resolve_brew_existing_pkg_returns_empty() {
    let got = resolve_brew::<BufReadPrompter>("foo", &[], false, false, None).unwrap();
    assert!(got.is_empty());
}

#[test]
fn resolve_brew_new_pkg_no_prompter_errors() {
    let err = resolve_brew::<BufReadPrompter>("foo", &[], false, true, None).unwrap_err();
    match err {
        Error::Import(ImportError::MissingInstallHint(k)) => assert_eq!(k, "foo"),
        other => panic!("unexpected: {other:?}"),
    }
}

#[test]
fn resolve_brew_prompts_uses_default_on_blank() {
    let input = b"\n";
    let mut p = BufReadPrompter::new(&input[..], Vec::<u8>::new());
    let got = resolve_brew("foo", &[], false, true, Some(&mut p)).unwrap();
    assert_eq!(got, vec!["foo".to_string()]);
    assert_eq!(p.writer(), b"Brew package(s) for `foo` [foo]: ");
}

#[test]
fn resolve_brew_prompts_splits_whitespace() {
    let input = b"a b  c\n";
    let mut p = BufReadPrompter::new(&input[..], Vec::<u8>::new());
    let got = resolve_brew("foo", &[], false, true, Some(&mut p)).unwrap();
    assert_eq!(got, vec!["a".to_string(), "b".to_string(), "c".to_string()],);
}

#[test]
fn confirm_yes_then_no() {
    let mut p = BufReadPrompter::new(&b"y\n"[..], Vec::<u8>::new());
    assert!(confirm(&mut p, "Apply?").unwrap());
    let mut p = BufReadPrompter::new(&b"n\n"[..], Vec::<u8>::new());
    assert!(!confirm(&mut p, "Apply?").unwrap());
    let mut p = BufReadPrompter::new(&b"\n"[..], Vec::<u8>::new());
    assert!(!confirm(&mut p, "Apply?").unwrap());
}

#[test]
fn confirm_asks_again_until_answered() {
    let mut p = BufReadPrompter::new(&b"maybe\nYES\n"[..], Vec::<u8>::new());
    assert!(confirm(&mut p, "Apply?").unwrap());
    let written = String::from_utf8(p.into_writer()).unwrap();
    assert_eq!(written, "Apply? [y/N]: Please answer y or n.\nApply? [y/N]: ");
}

#[test]
fn path_to_forward_slash_joins_components() {
    assert_eq!(path_to_forward_slash("a/b//c/"), "a/b/c");
    assert_eq!(path_to_forward_slash(".config/helix"), ".config/helix");
}

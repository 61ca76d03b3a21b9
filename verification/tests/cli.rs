use zenops::ColorChoice;

#[test]
fn always_and_never_ignore_the_stream() {
    assert!(ColorChoice::Always.enabled(false, true));
    assert!(!ColorChoice::Never.enabled(true, false));
}

#[test]
fn auto_needs_a_terminal_and_no_no_color() {
    assert!(ColorChoice::Auto.enabled(true, false));
    assert!(!ColorChoice::Auto.enabled(false, false));
    assert!(!ColorChoice::Auto.enabled(true, true));
    assert_eq!(ColorChoice::default(), ColorChoice::Auto);
}

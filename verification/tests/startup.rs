use rab_browser::{env_flag_enabled, parse_startup_args, NEW_TAB_URL};

#[test]
fn mcp_flag_does_not_replace_initial_url() {
    let (enabled, url) =
        parse_startup_args(false, &["--mcp".to_owned(), "https://example.org".to_owned()]);
    assert!(enabled);
    assert_eq!(url, "https://example.org");
}

#[test]
fn start_without_arguments_opens_the_new_tab_page() {
    let (enabled, url) = parse_startup_args(false, &[]);
    assert!(!enabled);
    assert_eq!(url, NEW_TAB_URL);
    let (enabled, url) = parse_startup_args(
        true,
        &["https://a.example".to_owned(), "https://b.example".to_owned()],
    );
    assert!(enabled);
    assert_eq!(url, "https://a.example");
}

#[test]
fn switch_values_that_mean_off() {
    for off in ["", "  ", "0", "false", "FALSE", " No ", "off", "Off"] {
        assert!(!env_flag_enabled(off), "{off:?}");
    }
    for on in ["1", "true", "yes", "on", "enabled", "offf"] {
        assert!(env_flag_enabled(on), "{on:?}");
    }
}

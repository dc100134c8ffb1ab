use rab_browser::{tab_states, on_favicon_changed, TabManager, TabState};

#[test]
fn sidebar_marks_tabs_without_a_live_view_as_suspended() {
    let mut tabs = TabManager::new();
    let a = tabs.add_tab("https://a.example");
    let b = tabs.add_tab("https://b.example");
    on_favicon_changed(&mut tabs, a, "https://a.example/icon.png");
    let states = tab_states(&tabs, &[b]);
    assert_eq!(
        states,
        vec![
            TabState {
                id: a.get(),
                url: "https://a.example".to_owned(),
                title: String::new(),
                favicon_url: Some("https://a.example/icon.png".to_owned()),
                can_go_back: false,
                can_go_forward: false,
                suspended: true,
            },
            TabState {
                id: b.get(),
                url: "https://b.example".to_owned(),
                title: String::new(),
                favicon_url: None,
                can_go_back: false,
                can_go_forward: false,
                suspended: false,
            },
        ]
    );
    assert!(tab_states(&TabManager::new(), &[]).is_empty());
}

use std::collections::BTreeMap;

use rab_browser::{
    current_tab_is_new, is_new_tab_url, is_only_new_tab, resolve_tab_id, update_history_flags,
    TabHistory, TabManager, NEW_TAB_URL,
};

#[test]
fn identifies_the_only_new_tab() {
    let mut tabs = TabManager::new();
    let new_tab = tabs.add_tab(NEW_TAB_URL);
    assert!(is_only_new_tab(&tabs, new_tab));

    tabs.add_tab("https://example.com");
    assert!(!is_only_new_tab(&tabs, new_tab));
}

#[test]
fn recognizes_new_tab_pages() {
    assert!(is_new_tab_url("about:blank"));
    assert!(is_new_tab_url(NEW_TAB_URL));
    assert!(!is_new_tab_url("https://example.com"));
    let mut tabs = TabManager::new();
    assert!(!current_tab_is_new(&tabs));
    tabs.add_tab("about:blank");
    assert!(current_tab_is_new(&tabs));
    tabs.add_tab("https://example.com");
    assert!(!current_tab_is_new(&tabs));
}

#[test]
fn resolves_raw_ids_of_open_tabs_only() {
    let mut tabs = TabManager::new();
    let first = tabs.add_tab("https://a.example");
    let second = tabs.add_tab("https://b.example");
    assert_eq!(resolve_tab_id(&tabs, first.get()), Some(first));
    assert_eq!(resolve_tab_id(&tabs, second.get()), Some(second));
    assert_eq!(resolve_tab_id(&tabs, 99), None);
    tabs.remove_tab(first);
    assert_eq!(resolve_tab_id(&tabs, first.get()), None);
}

#[test]
fn copies_back_forward_flags_from_the_tab_history() {
    let mut tabs = TabManager::new();
    let id = tabs.add_tab("https://a.example");
    let mut histories = BTreeMap::new();
    let mut history = TabHistory::new("https://a.example".to_owned());
    history.record_page_load("https://b.example".to_owned());
    histories.insert(id.get(), history);
    update_history_flags(&mut tabs, &histories, id);
    assert!(tabs.tab(id).unwrap().can_go_back);
    assert!(!tabs.tab(id).unwrap().can_go_forward);

    let other = tabs.add_tab("https://c.example");
    update_history_flags(&mut tabs, &histories, other);
    assert!(!tabs.tab(other).unwrap().can_go_back);
}

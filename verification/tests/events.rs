use std::collections::BTreeMap;

use rab_browser::{
    close_tab_state, on_content_url_changed, on_favicon_changed, on_navigated, on_page_loaded,
    on_tab_opened, on_title_changed, plan_navigation, step_history, switch_selection,
    toggle_current_bookmark, BookmarkManager,
    CloseTabOutcome, HistoryManager, HistoryStep, SearchEngine, TabHistory, TabManager,
    NEW_TAB_URL,
};

#[test]
fn page_loads_update_tab_history_and_flags() {
    let mut tabs = TabManager::new();
    let mut history = HistoryManager::new();
    let mut histories = BTreeMap::new();
    let id = tabs.add_tab(NEW_TAB_URL);
    histories.insert(id.get(), TabHistory::new(NEW_TAB_URL.to_owned()));

    assert!(on_page_loaded(&mut tabs, &mut history, &mut histories, id, NEW_TAB_URL));
    assert!(history.entries().is_empty());

    assert!(on_title_changed(&mut tabs, &mut history, id, "Example"));
    assert!(on_page_loaded(&mut tabs, &mut history, &mut histories, id, "https://example.com"));
    assert_eq!(tabs.tab(id).unwrap().url, "https://example.com");
    assert_eq!(history.entries()[0].title, "Example");
    assert!(!tabs.tab(id).unwrap().can_go_back);

    assert!(on_content_url_changed(&mut tabs, &mut history, &mut histories, "https://example.com/#a"));
    assert!(tabs.tab(id).unwrap().can_go_back);
    assert_eq!(history.entries().len(), 2);
    assert!(on_title_changed(&mut tabs, &mut history, id, "Anchor"));
    assert_eq!(history.entries()[1].title, "Anchor");

    assert_eq!(step_history(&mut tabs, &mut histories, HistoryStep::Back), Some(id));
    assert!(!tabs.tab(id).unwrap().can_go_back);
    assert!(tabs.tab(id).unwrap().can_go_forward);
    assert_eq!(step_history(&mut tabs, &mut histories, HistoryStep::Back), None);
    assert_eq!(step_history(&mut tabs, &mut histories, HistoryStep::Forward), Some(id));

    let gone = tabs.add_tab("https://gone.example");
    tabs.remove_tab(gone);
    assert!(!on_page_loaded(&mut tabs, &mut history, &mut histories, gone, "https://x.example"));
}

#[test]
fn favicons_and_navigation_of_the_selected_tab() {
    let mut tabs = TabManager::new();
    let id = tabs.add_tab(NEW_TAB_URL);
    assert!(on_favicon_changed(&mut tabs, id, "https://example.com/icon.png"));
    assert_eq!(
        tabs.tab(id).unwrap().favicon_url.as_deref(),
        Some("https://example.com/icon.png")
    );
    assert!(on_favicon_changed(&mut tabs, id, ""));
    assert_eq!(tabs.tab(id).unwrap().favicon_url, None);

    let plan = plan_navigation(&tabs, "rust wry", SearchEngine::Bing).unwrap();
    assert_eq!(plan.id, id);
    assert_eq!(plan.url, "https://www.bing.com/search?q=rust+wry");
    assert!(plan.replace_history);
    assert!(on_navigated(&mut tabs, id, &plan.url));
    let plan = plan_navigation(&tabs, "example.com", SearchEngine::Bing).unwrap();
    assert!(!plan.replace_history);
    assert!(plan_navigation(&TabManager::new(), "x", SearchEngine::Google).is_none());
}

#[test]
fn bookmarks_of_the_selected_tab() {
    let mut tabs = TabManager::new();
    let mut bookmarks = BookmarkManager::new();
    let id = tabs.add_tab(NEW_TAB_URL);
    assert!(!toggle_current_bookmark(&tabs, &mut bookmarks));
    tabs.tab_mut(id).unwrap().url = "https://example.com".to_owned();
    tabs.tab_mut(id).unwrap().title = "  ".to_owned();
    assert!(toggle_current_bookmark(&tabs, &mut bookmarks));
    assert_eq!(bookmarks.bookmarks()[0].title, "https://example.com");
    assert!(toggle_current_bookmark(&tabs, &mut bookmarks));
    assert!(bookmarks.bookmarks().is_empty());
}

#[test]
fn closing_tabs() {
    let mut tabs = TabManager::new();
    let mut histories = BTreeMap::new();
    let mut last_active = BTreeMap::new();
    let mut playing = BTreeMap::new();
    let only = tabs.add_tab(NEW_TAB_URL);
    assert_eq!(
        close_tab_state(&mut tabs, &mut histories, &mut last_active, &mut playing, only),
        CloseTabOutcome::Ignored
    );
    let page = tabs.add_tab("https://example.com");
    last_active.insert(page.get(), 5);
    assert_eq!(
        close_tab_state(&mut tabs, &mut histories, &mut last_active, &mut playing, page),
        CloseTabOutcome::Show(only)
    );
    assert!(last_active.is_empty());
    tabs.tab_mut(only).unwrap().url = "https://example.org".to_owned();
    assert_eq!(
        close_tab_state(&mut tabs, &mut histories, &mut last_active, &mut playing, only),
        CloseTabOutcome::NeedsReplacement
    );
    assert!(tabs.tabs().is_empty());
}

#[test]
fn opening_and_switching_tabs_stamps_the_tab_left_behind() {
    let mut tabs = TabManager::new();
    let mut histories = BTreeMap::new();
    let mut last_active = BTreeMap::new();
    let a = tabs.add_tab("https://a.example");
    on_tab_opened(&mut histories, &mut last_active, None, a, "https://a.example", 5);
    assert!(last_active.is_empty());
    assert_eq!(histories[&a.get()].entries(), ["https://a.example"]);
    let b = tabs.add_tab("https://b.example");
    on_tab_opened(&mut histories, &mut last_active, Some(a), b, "https://b.example", 7);
    assert_eq!(last_active.get(&a.get()), Some(&7));
    assert_eq!(histories.len(), 2);

    assert_eq!(switch_selection(&mut tabs, &mut last_active, b, 9), None);
    assert_eq!(switch_selection(&mut tabs, &mut last_active, a, 11), Some(Some(b)));
    assert_eq!(tabs.current_id(), Some(a));
    assert_eq!(last_active.get(&b.get()), Some(&11));
    let mut other = TabManager::new();
    other.add_tab("x");
    other.add_tab("y");
    let c = other.add_tab("z");
    assert_eq!(switch_selection(&mut tabs, &mut last_active, c, 13), None);
    assert_eq!(tabs.current_id(), Some(a));
}

use rab_browser::{
    clamp_tab_suspend_grace, AppSettings, Bookmark, BookmarkManager, HistoryEntry, HistoryManager,
    Locale, SearchEngine, TabManager, Theme, DEFAULT_TAB_SUSPEND_GRACE_SECS, MAX_TAB_SUSPEND_GRACE_SECS, MIN_TAB_SUSPEND_GRACE_SECS,
};

#[test]
fn manages_current_tab_and_unique_ids() {
    let mut manager = TabManager::new();
    let first = manager.add_tab("https://example.com");
    let second = manager.add_tab("https://example.org");
    assert_ne!(first, second);
    assert_eq!(manager.current_id(), Some(second));
    assert!(manager.select_tab(first));
    assert_eq!(manager.current_tab().unwrap().url, "https://example.com");
    manager.remove_tab(first);
    assert_eq!(manager.current_id(), Some(second));
}

#[test]
fn toggles_bookmarks_by_url() {
    let mut bookmarks = BookmarkManager::new();

    assert!(bookmarks.toggle("https://example.com", "Example"));
    assert!(bookmarks.contains("https://example.com"));
    assert_eq!(
        bookmarks.bookmarks().iter().collect::<Vec<_>>(),
        vec![&Bookmark {
            url: "https://example.com".to_owned(),
            title: "Example".to_owned(),
        }]
    );

    assert!(!bookmarks.toggle("https://example.com", "Updated title"));
    assert!(!bookmarks.contains("https://example.com"));
    assert_eq!(bookmarks.bookmarks().iter().count(), 0);
}

#[test]
fn app_settings_use_expected_defaults() {
    assert_eq!(AppSettings::default().search_engine, SearchEngine::Google);
    assert_eq!(AppSettings::default().theme, Theme::Dark);
}

#[test]
fn history_skips_consecutive_duplicates_and_discards_old_entries() {
    let mut history = HistoryManager::with_capacity(2);

    history.record("https://example.com", "Example");
    history.record("https://example.com", "Duplicate");
    history.record("https://example.org", "Example Org");
    history.record("https://example.net", "Example Net");

    assert_eq!(
        history.entries().iter().collect::<Vec<_>>(),
        vec![
            &HistoryEntry {
                url: "https://example.org".to_owned(),
                title: "Example Org".to_owned(),
            },
            &HistoryEntry {
                url: "https://example.net".to_owned(),
                title: "Example Net".to_owned(),
            },
        ]
    );

    history.clear();
    assert_eq!(history.entries().iter().count(), 0);
}

#[test]
fn removing_the_selected_tab_selects_the_highest_remaining_key() {
    let mut manager = TabManager::new();
    let first = manager.add_tab("https://a.example");
    let second = manager.add_tab("https://b.example");
    let third = manager.add_tab("https://c.example");
    assert!(manager.select_tab(second));
    let removed = manager.remove_tab(second).unwrap();
    assert_eq!(removed.url, "https://b.example");
    assert_eq!(manager.current_id(), Some(third));
    assert!(manager.remove_tab(second).is_none());
    manager.remove_tab(third);
    assert_eq!(manager.current_id(), Some(first));
    manager.remove_tab(first);
    assert_eq!(manager.current_id(), None);
    assert!(manager.tabs().is_empty());
}

#[test]
fn tab_keys_are_never_reused() {
    let mut manager = TabManager::new();
    let first = manager.add_tab("https://a.example");
    manager.remove_tab(first);
    let second = manager.add_tab("https://b.example");
    assert_ne!(first, second);
    assert_eq!(first.get(), 1);
    assert_eq!(second.get(), 2);
    let mut defaulted = TabManager::default();
    assert_eq!(defaulted.add_tab("x").get(), 0);
}

#[test]
fn new_tabs_start_fresh_and_can_be_edited_in_place() {
    let mut manager = TabManager::new();
    let id = manager.add_tab("https://example.com");
    let tab = manager.tab(id).unwrap();
    assert_eq!(tab.title, "");
    assert_eq!(tab.favicon_url, None);
    assert!(!tab.can_go_back && !tab.can_go_forward);
    manager.tab_mut(id).unwrap().title = "Example".to_owned();
    assert_eq!(manager.current_tab().unwrap().title, "Example");
    manager.current_tab_mut().unwrap().can_go_back = true;
    assert!(manager.tabs()[0].can_go_back);
    assert!(!manager.select_tab(manager.tabs()[0].id.clone()) == false);
}

#[test]
fn toggling_an_absent_url_twice_restores_the_list() {
    let mut bookmarks = BookmarkManager::default();
    bookmarks.toggle("https://a.example", "A");
    assert!(bookmarks.toggle("https://b.example", "B"));
    assert!(!bookmarks.toggle("https://b.example", "other"));
    let urls: Vec<&str> = bookmarks.bookmarks().iter().map(|b| b.url.as_str()).collect();
    assert_eq!(urls, ["https://a.example"]);
    assert!(!bookmarks.remove("https://b.example"));
    assert!(bookmarks.remove("https://a.example"));
    assert!(bookmarks.bookmarks().is_empty());
}

#[test]
fn history_keeps_at_most_its_capacity_and_renames_the_latest_visit() {
    let mut history = HistoryManager::new();
    for i in 0..250 {
        history.record(&format!("https://example.com/{i}"), "page");
    }
    assert_eq!(history.entries().len(), 200);
    assert_eq!(history.entries()[0].url, "https://example.com/50");
    history.record("https://example.com/a", "first");
    history.record("https://example.com/b", "second");
    history.record("https://example.com/a", "third");
    history.update_latest_title("https://example.com/a", "renamed");
    let n = history.entries().len();
    assert_eq!(history.entries()[n - 1].title, "renamed");
    assert_eq!(history.entries()[n - 3].title, "first");
    history.update_latest_title("https://missing.example", "nothing");
    assert_eq!(history.entries().len(), n);

    let mut none = HistoryManager::with_capacity(0);
    none.record("https://example.com", "x");
    assert!(none.entries().is_empty());
}

#[test]
fn engine_and_theme_names_round_trip() {
    for engine in [SearchEngine::Google, SearchEngine::DuckDuckGo, SearchEngine::Bing] {
        assert_eq!(engine.as_str().parse::<SearchEngine>(), Ok(engine));
    }
    assert_eq!(SearchEngine::Google.as_str(), "google");
    assert_eq!("yahoo".parse::<SearchEngine>(), Err(()));
    assert_eq!(Theme::Light.as_str(), "light");
    assert_eq!("dark".parse::<Theme>(), Ok(Theme::Dark));
    assert_eq!("Dark".parse::<Theme>(), Err(()));
    assert_eq!(SearchEngine::default(), SearchEngine::Google);
    assert_eq!(Theme::default(), Theme::Dark);
}

#[test]
fn locale_names_round_trip() {
    for locale in [Locale::Ja, Locale::En] {
        assert_eq!(locale.as_str().parse::<Locale>(), Ok(locale));
    }
    assert_eq!(Locale::En.as_str(), "en");
    assert_eq!(Locale::parse_name("fr"), None);
    assert_eq!(AppSettings::default().locale, Locale::Ja);
}

#[test]
fn suspend_grace_is_clamped_and_defaults_to_five_minutes() {
    assert_eq!(clamp_tab_suspend_grace(0), MIN_TAB_SUSPEND_GRACE_SECS);
    assert_eq!(clamp_tab_suspend_grace(10), 10);
    assert_eq!(clamp_tab_suspend_grace(600), 600);
    assert_eq!(clamp_tab_suspend_grace(u64::MAX), MAX_TAB_SUSPEND_GRACE_SECS);
    assert_eq!(AppSettings::default().tab_suspend_grace_secs, DEFAULT_TAB_SUSPEND_GRACE_SECS);
    assert_eq!(DEFAULT_TAB_SUSPEND_GRACE_SECS, 300);
    assert!(AppSettings::default().tab_suspend_enabled);
}

#[test]
fn browser_errors_carry_their_message() {
    let error = rab_browser::BrowserError::new("load failed");
    assert_eq!(error.message(), "load failed");
    assert_eq!(error.clone(), error);
}

#[test]
fn a_run_of_visits_leaves_the_latest_ones() {
    let mut history = HistoryManager::with_capacity(3);
    let urls = ["https://a", "https://b", "https://c", "https://d", "https://e"];
    for url in urls {
        history.record(url, "t");
    }
    let kept: Vec<&str> = history.entries().iter().map(|e| e.url.as_str()).collect();
    assert_eq!(kept, ["https://c", "https://d", "https://e"]);
}

#[test]
fn tab_ids_count_from_one_across_closes() {
    let mut tabs = TabManager::new();
    let first = tabs.add_tab("a");
    let second = tabs.add_tab("b");
    tabs.remove_tab(second);
    tabs.select_tab(first);
    let third = tabs.add_tab("c");
    tabs.remove_tab(first);
    let fourth = tabs.add_tab("d");
    assert_eq!([first.get(), second.get(), third.get(), fourth.get()], [1, 2, 3, 4]);
}

#[test]
fn bookmarks_keep_the_order_they_were_added_in() {
    let mut bookmarks = BookmarkManager::new();
    bookmarks.toggle("https://a", "A");
    bookmarks.toggle("https://b", "B");
    bookmarks.toggle("https://c", "C");
    bookmarks.remove("https://b");
    bookmarks.toggle("https://a", "A");
    bookmarks.toggle("https://d", "D");
    bookmarks.toggle("https://a", "A2");
    let urls: Vec<&str> = bookmarks.bookmarks().iter().map(|b| b.url.as_str()).collect();
    assert_eq!(urls, ["https://c", "https://d", "https://a"]);
    assert!(bookmarks.contains("https://d"));
    assert!(!bookmarks.contains("https://b"));
}

use rab_browser::{TabHistory, NEW_TAB_URL};

fn entries(history: &TabHistory) -> Vec<&str> {
    history.entries().iter().map(String::as_str).collect()
}

#[test]
fn first_navigation_replaces_new_tab_history() {
    let mut history = TabHistory::new(NEW_TAB_URL.to_owned());

    history.record_page_load("https://example.com".to_owned());

    assert_eq!(entries(&history), ["https://example.com"]);
    assert!(!history.can_go_back());
}

#[test]
fn later_navigations_are_added_to_history() {
    let mut history = TabHistory::new(NEW_TAB_URL.to_owned());
    history.record_page_load("https://example.com".to_owned());

    history.record_page_load("https://example.org".to_owned());

    assert_eq!(entries(&history), ["https://example.com", "https://example.org"]);
    assert!(history.can_go_back());
}

#[test]
fn back_and_forward_move_the_cursor_and_loads_land_on_it() {
    let mut history = TabHistory::new("https://a.example".to_owned());
    history.record_page_load("https://b.example".to_owned());
    history.record_page_load("https://c.example".to_owned());
    assert!(history.go_back());
    history.record_page_load("https://b2.example".to_owned());
    assert_eq!(
        entries(&history),
        ["https://a.example", "https://b2.example", "https://c.example"]
    );
    assert!(history.can_go_forward());
    assert!(history.go_forward());
    history.record_page_load("https://c.example".to_owned());
    assert!(!history.go_forward());
    assert!(history.go_back());
    assert!(history.go_back());
    assert!(!history.go_back());
    history.record_page_load("https://a.example".to_owned());
    history.record_page_load("https://d.example".to_owned());
    assert_eq!(entries(&history), ["https://a.example", "https://d.example"]);
    assert!(!history.can_go_forward());
}

#[test]
fn reloading_the_same_address_adds_nothing() {
    let mut history = TabHistory::new("https://a.example".to_owned());
    history.record_page_load("https://a.example".to_owned());
    assert_eq!(entries(&history), ["https://a.example"]);
    assert!(!history.can_go_back());
}

use std::collections::BTreeMap;

use rab_browser::{
    next_tab_suspend_deadline, restart_tab_suspend_grace, tab_suspend_deadline, tabs_to_suspend,
    TabManager, DEFAULT_TAB_SUSPEND_GRACE_SECS,
};

#[test]
fn excludes_active_and_playing_tabs_from_suspension() {
    let mut tabs = TabManager::new();
    let id = tabs.add_tab("https://example.com");
    let last_used: u64 = 1_000_000;
    let last_active = BTreeMap::from([(id.get(), last_used)]);
    let mut playing_media = BTreeMap::new();

    let grace = DEFAULT_TAB_SUSPEND_GRACE_SECS * 1000;
    assert_eq!(
        tab_suspend_deadline(id, &last_active, &playing_media, None, grace),
        Some(last_used + grace)
    );
    assert_eq!(
        tab_suspend_deadline(id, &last_active, &playing_media, Some(id), grace),
        None
    );

    playing_media.insert(id.get(), true);
    assert_eq!(
        tab_suspend_deadline(id, &last_active, &playing_media, None, grace),
        None
    );
}

#[test]
fn restarting_tab_suspend_grace_resets_last_active_for_backgrounded_tabs() {
    let mut tabs = TabManager::new();
    let stale = tabs.add_tab("https://stale.example.com");
    let untracked = tabs.add_tab("https://untracked.example.com");
    let now: u64 = 10_000_000;
    let mut last_active = BTreeMap::from([(stale.get(), now - 3600 * 1000)]);

    restart_tab_suspend_grace(&[stale, untracked], &mut last_active, now);

    assert_eq!(last_active.get(&stale.get()), Some(&now));
    assert_eq!(last_active.get(&untracked.get()), Some(&now));
}

#[test]
fn schedules_and_picks_idle_tabs() {
    let mut tabs = TabManager::new();
    let a = tabs.add_tab("https://a.example");
    let b = tabs.add_tab("https://b.example");
    let c = tabs.add_tab("https://c.example");
    let last_active = BTreeMap::from([(a.get(), 100), (b.get(), 50), (c.get(), 10)]);
    let playing = BTreeMap::from([(b.get(), false)]);
    let loaded = [a, b, c];
    assert_eq!(
        next_tab_suspend_deadline(&loaded, &last_active, &playing, Some(c), 30),
        Some(80)
    );
    assert_eq!(
        tabs_to_suspend(&loaded, &last_active, &playing, Some(c), 30, 100),
        vec![b]
    );
    assert_eq!(
        tabs_to_suspend(&loaded, &last_active, &playing, None, 30, 130),
        vec![a, b, c]
    );
    assert!(tabs_to_suspend(&loaded, &last_active, &playing, Some(c), 30, 79).is_empty());
    assert_eq!(next_tab_suspend_deadline(&[c], &last_active, &playing, Some(c), 30), None);
}

#[test]
fn raising_the_grace_period_suspends_no_more_tabs() {
    let mut tabs = TabManager::new();
    let a = tabs.add_tab("https://a.example");
    let b = tabs.add_tab("https://b.example");
    let last_active = BTreeMap::from([(a.get(), 0), (b.get(), 40)]);
    let playing = BTreeMap::new();
    let loaded = [a, b];
    let now: u64 = 100;
    assert_eq!(tabs_to_suspend(&loaded, &last_active, &playing, None, 60, now), vec![a, b]);
    assert_eq!(tabs_to_suspend(&loaded, &last_active, &playing, None, 90, now), vec![a]);
    assert!(tabs_to_suspend(&loaded, &last_active, &playing, None, 120, now).is_empty());
    // A tab that is no longer loaded is never picked, whatever the grace period.
    assert!(tabs_to_suspend(&[b], &last_active, &playing, None, 0, now) == vec![b]);
    assert!(tabs_to_suspend(&[], &last_active, &playing, None, 0, now).is_empty());
}

#[test]
fn restarted_tabs_are_not_due_at_once() {
    let mut tabs = TabManager::new();
    let a = tabs.add_tab("https://a.example");
    let now: u64 = 5_000;
    let mut last_active = BTreeMap::from([(a.get(), 0)]);
    let playing = BTreeMap::new();
    assert_eq!(tabs_to_suspend(&[a], &last_active, &playing, None, 1_000, now), vec![a]);
    restart_tab_suspend_grace(&[a], &mut last_active, now);
    assert!(tabs_to_suspend(&[a], &last_active, &playing, None, 1_000, now).is_empty());
}

use vstd::prelude::*;

use std::collections::BTreeMap;

use crate::tab_history::TabHistory;
use crate::tabs::{Tab, TabId, TabManager};
use crate::text::str_eq;

verus! {

/// The address of the browser's own new-tab page.
pub const NEW_TAB_URL: &'static str = "rab://newtab/";

/// `url` shows the empty new-tab page rather than real content.
pub open spec fn is_new_tab(url: Seq<char>) -> bool {
    url == "about:blank"@ || url == NEW_TAB_URL@
}

/// Whether `url` is the empty page a new tab shows.
pub fn is_new_tab_url(url: &str) -> (r: bool)
    ensures
        r == is_new_tab(url@),
{
    str_eq(url, "about:blank") || str_eq(url, NEW_TAB_URL)
}

/// The tab with key `id` is the only tab, and it shows the new-tab page.
pub open spec fn only_new_tab(tabs: &TabManager, id: TabId) -> bool {
    &&& tabs.keys().len() == 1
    &&& tabs.tab_map().contains_key(id.value())
    &&& is_new_tab(tabs.tab_map()[id.value()].url@)
}

/// Whether the tab with key `id` is the only tab and shows the new-tab page
/// (closing it would leave nothing worth replacing it with).
pub fn is_only_new_tab(tabs: &TabManager, id: TabId) -> (r: bool)
    requires
        tabs.wf(),
    ensures
        r == only_new_tab(tabs, id),
{
    proof {
        tabs.lemma_wf_facts();
    }
    if tabs.tabs().len() != 1 {
        return false;
    }
    match tabs.tab(id) {
        Some(tab) => is_new_tab_url(tab.url.as_str()),
        None => false,
    }
}

/// The selected tab shows the new-tab page.
pub open spec fn current_is_new_tab(tabs: &TabManager) -> bool {
    match tabs.current_key() {
        Some(k) => is_new_tab(tabs.tab_map()[k].url@),
        None => false,
    }
}

/// Whether the selected tab shows the new-tab page.
pub fn current_tab_is_new(tabs: &TabManager) -> (r: bool)
    requires
        tabs.wf(),
    ensures
        r == current_is_new_tab(tabs),
{
    match tabs.current_tab() {
        Some(tab) => is_new_tab_url(tab.url.as_str()),
        None => false,
    }
}

/// Some tab records `raw_id` as its identifier.
pub open spec fn has_tab_with_raw_id(tabs: Seq<Tab>, raw_id: u64) -> bool {
    exists|i: int| 0 <= i < tabs.len() && tabs[i].id.value() == raw_id
}

/// Turns a raw number received from the UI or a tool into the identifier of an open tab.
pub fn resolve_tab_id(tabs: &TabManager, raw_id: u64) -> (r: Option<TabId>)
    ensures
        r is Some <==> has_tab_with_raw_id(tabs.tab_list(), raw_id),
        r matches Some(id) ==> id.value() == raw_id,
{
    let list = tabs.tabs();
    let n = list.len();
    let mut i: usize = 0;
    while i < n
        invariant
            n == list@.len(),
            list@ == tabs.tab_list(),
            i <= n,
            forall|j: int| 0 <= j < i ==> list@[j].id.value() != raw_id,
        decreases n - i,
    {
        let id = list[i].id;
        if id.get() == raw_id {
            return Some(id);
        }
        i = i + 1;
    }
    None
}

/// Copies a tab's back/forward possibilities from its history onto the tab.
pub fn update_history_flags(tabs: &mut TabManager, histories: &BTreeMap<u64, TabHistory>, id: TabId)
    requires
        old(tabs).wf(),
        forall|k: u64| #[trigger] histories@.contains_key(k) ==> histories@[k].wf(),
    ensures
        final(tabs).wf(),
        final(tabs).keys() == old(tabs).keys(),
        final(tabs).current_key() == old(tabs).current_key(),
        final(tabs).next_key() == old(tabs).next_key(),
        (histories@.contains_key(id.value()) && old(tabs).keys().contains(id.value())) ==> {
            let i = old(tabs).key_index(id.value());
            let h = histories@[id.value()]@;
            let t = old(tabs).tab_list()[i];
            final(tabs).tab_list() == old(tabs).tab_list().update(
                i,
                Tab { can_go_back: h.can_go_back(), can_go_forward: h.can_go_forward(), ..t },
            )
        },
        !(histories@.contains_key(id.value()) && old(tabs).keys().contains(id.value()))
            ==> final(tabs).tab_list() == old(tabs).tab_list(),
{
    let history = match histories.get(&id.get()) {
        Some(h) => h,
        None => {
            return;
        },
    };
    let back = history.can_go_back();
    let forward = history.can_go_forward();
    match tabs.tab_mut(id) {
        Some(tab) => {
            tab.can_go_back = back;
            tab.can_go_forward = forward;
        },
        None => {},
    }
}

} // verus!

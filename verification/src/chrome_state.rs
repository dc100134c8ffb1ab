//! What the sidebar UI is told about the tabs.

use vstd::prelude::*;

use crate::tabs::{Tab, TabId, TabManager};

verus! {

/// One tab as the sidebar shows it.
#[derive(Clone, Debug, PartialEq, Eq)]
pub struct TabState {
    pub id: u64,
    pub url: String,
    pub title: String,
    pub favicon_url: Option<String>,
    pub can_go_back: bool,
    pub can_go_forward: bool,
    /// The tab has no live view: it was suspended and reloads when shown.
    pub suspended: bool,
}

/// `s` shows tab `t`, whose view is live exactly when `live`.
pub open spec fn shows_tab(s: TabState, t: Tab, live: bool) -> bool {
    &&& s.id == t.id.value()
    &&& s.url@ == t.url@
    &&& s.title@ == t.title@
    &&& match s.favicon_url {
        Some(f) => t.favicon_url is Some && f@ == t.favicon_url->0@,
        None => t.favicon_url is None,
    }
    &&& s.can_go_back == t.can_go_back
    &&& s.can_go_forward == t.can_go_forward
    &&& s.suspended == !live
}

/// The sidebar's view of `tabs`, in key order; a tab is suspended unless it is among
/// `loaded`, the tabs whose views are live.
pub fn tab_states(tabs: &TabManager, loaded: &[TabId]) -> (r: Vec<TabState>)
    ensures
        r@.len() == tabs.tab_list().len(),
        forall|i: int|
            0 <= i < r@.len() ==> shows_tab(
                #[trigger] r@[i],
                tabs.tab_list()[i],
                loaded@.contains(tabs.tab_list()[i].id),
            ),
{
    let list = tabs.tabs();
    let n = list.len();
    let mut out: Vec<TabState> = Vec::new();
    let mut i: usize = 0;
    while i < n
        invariant
            n == list@.len(),
            list@ == tabs.tab_list(),
            i <= n,
            out@.len() == i,
            forall|j: int|
                0 <= j < i ==> shows_tab(
                    #[trigger] out@[j],
                    tabs.tab_list()[j],
                    loaded@.contains(tabs.tab_list()[j].id),
                ),
        decreases n - i,
    {
        let tab = &list[i];
        let live = is_loaded(loaded, tab.id);
        let favicon_url = match &tab.favicon_url {
            Some(f) => Some(f.clone()),
            None => None,
        };
        out.push(
            TabState {
                id: tab.id.get(),
                url: tab.url.clone(),
                title: tab.title.clone(),
                favicon_url,
                can_go_back: tab.can_go_back,
                can_go_forward: tab.can_go_forward,
                suspended: !live,
            },
        );
        i = i + 1;
    }
    out
}

/// Whether `id` is among `loaded`.
fn is_loaded(loaded: &[TabId], id: TabId) -> (r: bool)
    ensures
        r == loaded@.contains(id),
{
    let n = loaded.len();
    let mut i: usize = 0;
    while i < n
        invariant
            n == loaded@.len(),
            i <= n,
            forall|j: int| 0 <= j < i ==> loaded@[j] != id,
        decreases n - i,
    {
        if loaded[i] == id {
            return true;
        }
        i = i + 1;
    }
    false
}

} // verus!

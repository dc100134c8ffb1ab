//! How the browser state reacts to what the pages and the chrome UI report.
//!
//! The event loop performs the engine work (loading, drawing) and hands each report to one
//! of these functions, which update tabs, the browsing history, each tab's back/forward list
//! and the bookmarks, and say whether the chrome UI needs a fresh state.

use std::collections::BTreeMap;

use vstd::prelude::*;

use crate::bookmarks::{has_url, toggled, BookmarkManager};
use crate::history::{recorded, retitled, HistoryManager};
use crate::navigation::{is_new_tab, is_new_tab_url, is_only_new_tab, only_new_tab};
use crate::settings::SearchEngine;
use crate::url_input::{normalize_url, normalized_url};
use crate::tab_history::{TabHistory, TabHistoryView};
use crate::tabs::{Tab, TabId, TabManager};
use crate::text::{is_whitespace_char, lemma_trimmed_empty_iff_blank, trim, trimmed};

verus! {

/// Every back/forward list in `histories` is well formed.
pub open spec fn histories_wf(histories: Map<u64, TabHistory>) -> bool {
    forall|k: u64| #[trigger] histories.contains_key(k) ==> histories[k].wf()
}

/// `new` is `old` after its page changed to `url`: the favicon is dropped when
/// `reset_favicon`, and the back/forward flags follow `flags` when given.
pub open spec fn tab_after_url_change(
    old: Tab,
    new: Tab,
    url: Seq<char>,
    reset_favicon: bool,
    flags: Option<(bool, bool)>,
) -> bool {
    &&& new.id == old.id
    &&& new.url@ == url
    &&& new.title == old.title
    &&& (if reset_favicon {
        new.favicon_url is None
    } else {
        new.favicon_url == old.favicon_url
    })
    &&& match flags {
        Some((back, forward)) => new.can_go_back == back && new.can_go_forward == forward,
        None => new.can_go_back == old.can_go_back && new.can_go_forward == old.can_go_forward,
    }
}

/// The effect of the page of tab `id` changing to `url` (`found`: the tab exists): the tab
/// takes the new address (dropping its favicon when `reset_favicon`) and its back/forward
/// flags from its list; the browsing history records the visit, titled with the tab's title,
/// unless `url` is the new-tab page; the tab's own list records the load.
pub open spec fn url_change_applied(
    tabs0: TabManager,
    tabs1: TabManager,
    history0: HistoryManager,
    history1: HistoryManager,
    histories0: Map<u64, TabHistory>,
    histories1: Map<u64, TabHistory>,
    id: TabId,
    url: Seq<char>,
    reset_favicon: bool,
    found: bool,
) -> bool {
    let k = id.value();
    let i = tabs0.key_index(k);
    &&& tabs1.wf()
    &&& history1.wf()
    &&& histories_wf(histories1)
    &&& found == tabs0.keys().contains(k)
    &&& tabs1.keys() == tabs0.keys()
    &&& tabs1.current_key() == tabs0.current_key()
    &&& tabs1.next_key() == tabs0.next_key()
    &&& tabs1.tab_list().len() == tabs0.tab_list().len()
    &&& forall|j: int|
        0 <= j < tabs0.tab_list().len() && j != i ==> #[trigger] tabs1.tab_list()[j]
            == tabs0.tab_list()[j]
    &&& found ==> tab_after_url_change(
        tabs0.tab_list()[i],
        tabs1.tab_list()[i],
        url,
        reset_favicon,
        if histories1.contains_key(k) {
            Some((histories1[k]@.can_go_back(), histories1[k]@.can_go_forward()))
        } else {
            None
        },
    )
    &&& !found ==> tabs1.tab_list() == tabs0.tab_list()
    &&& history1.capacity() == history0.capacity()
    &&& history1@ == if is_new_tab(url) {
        history0@
    } else {
        recorded(
            history0@,
            history0.capacity(),
            url,
            if found {
                tabs0.tab_list()[i].title@
            } else {
                Seq::empty()
            },
        )
    }
    &&& histories1.dom() == histories0.dom()
    &&& forall|key: u64|
        #[trigger] histories1.contains_key(key) ==> histories1[key]@ == if key == k {
            histories0[key]@.after_load(url)
        } else {
            histories0[key]@
        }
}

/// The common part of a finished load and an in-page address change.
fn record_url_change(
    tabs: &mut TabManager,
    history: &mut HistoryManager,
    histories: &mut BTreeMap<u64, TabHistory>,
    id: TabId,
    url: &str,
    reset_favicon: bool,
) -> (r: bool)
    requires
        old(tabs).wf(),
        old(history).wf(),
        histories_wf(old(histories)@),
    ensures
        url_change_applied(
            *old(tabs),
            *final(tabs),
            *old(history),
            *final(history),
            old(histories)@,
            final(histories)@,
            id,
            url@,
            reset_favicon,
            r,
        ),
{
    let key = id.get();
    let ghost i = tabs.key_index(key);
    proof {
        old(tabs).lemma_wf_facts();
        if old(tabs).keys().contains(key) {
            assert(0 <= i < old(tabs).keys().len());
            old(tabs).lemma_key_index(i);
        }
    }
    let exists = match tabs.tab_mut(id) {
        Some(tab) => {
            tab.url = url.to_owned();
            if reset_favicon {
                tab.favicon_url = None;
            }
            true
        },
        None => false,
    };
    let ghost t1 = *tabs;
    proof {
        if exists {
            assert(t1.keys() == old(tabs).keys());
            assert(t1.key_index(key) == i);
            t1.lemma_key_index(i);
            assert(t1.tab_list()[i].title == old(tabs).tab_list()[i].title);
        }
    }
    if !is_new_tab_url(url) {
        let title = match tabs.tab(id) {
            Some(tab) => tab.title.clone(),
            None => String::new(),
        };
        history.record(url, title.as_str());
    }
    match histories.remove(&key) {
        Some(mut tab_history) => {
            tab_history.record_page_load(url.to_owned());
            histories.insert(key, tab_history);
        },
        None => {},
    }
    proof {
        assert forall|k: u64| #[trigger] histories@.contains_key(k) implies histories@[k].wf() by {
            assert(old(histories)@.contains_key(k));
        }
        assert(histories@.dom() =~= old(histories)@.dom());
        if exists {
            tabs.lemma_key_index(i);
        }
    }
    update_history_flags_after(tabs, histories, id);
    exists
}

/// Copies a tab's back/forward flags from its list, as `update_history_flags` does, with the
/// position-wise facts this module needs.
fn update_history_flags_after(tabs: &mut TabManager, histories: &BTreeMap<u64, TabHistory>, id: TabId)
    requires
        old(tabs).wf(),
        histories_wf(histories@),
    ensures
        final(tabs).wf(),
        final(tabs).keys() == old(tabs).keys(),
        final(tabs).current_key() == old(tabs).current_key(),
        final(tabs).next_key() == old(tabs).next_key(),
        final(tabs).tab_list().len() == old(tabs).tab_list().len(),
        forall|j: int|
            0 <= j < old(tabs).tab_list().len() && j != old(tabs).key_index(id.value()) ==> #[trigger] final(tabs).tab_list()[j]
                == old(tabs).tab_list()[j],
        old(tabs).keys().contains(id.value()) ==> {
            let i = old(tabs).key_index(id.value());
            let t = old(tabs).tab_list()[i];
            let u = final(tabs).tab_list()[i];
            &&& u.id == t.id && u.url == t.url && u.title == t.title && u.favicon_url
                == t.favicon_url
            &&& if histories@.contains_key(id.value()) {
                u.can_go_back == histories@[id.value()]@.can_go_back() && u.can_go_forward
                    == histories@[id.value()]@.can_go_forward()
            } else {
                u.can_go_back == t.can_go_back && u.can_go_forward == t.can_go_forward
            }
        },
        !old(tabs).keys().contains(id.value()) ==> final(tabs).tab_list() == old(tabs).tab_list(),
{
    proof {
        old(tabs).lemma_wf_facts();
        if old(tabs).keys().contains(id.value()) {
            let i = old(tabs).key_index(id.value());
            assert(0 <= i < old(tabs).keys().len());
        }
    }
    crate::navigation::update_history_flags(tabs, histories, id);
}

/// A tab finished loading `url`; returns whether the tab is still open (the chrome UI
/// then needs a fresh state).
pub fn on_page_loaded(
    tabs: &mut TabManager,
    history: &mut HistoryManager,
    histories: &mut BTreeMap<u64, TabHistory>,
    id: TabId,
    url: &str,
) -> (r: bool)
    requires
        old(tabs).wf(),
        old(history).wf(),
        histories_wf(old(histories)@),
    ensures
        url_change_applied(
            *old(tabs),
            *final(tabs),
            *old(history),
            *final(history),
            old(histories)@,
            final(histories)@,
            id,
            url@,
            true,
            r,
        ),
{
    record_url_change(tabs, history, histories, id, url, true)
}

/// The page in the selected tab changed its address without a load (history API);
/// returns whether a tab is selected.
pub fn on_content_url_changed(
    tabs: &mut TabManager,
    history: &mut HistoryManager,
    histories: &mut BTreeMap<u64, TabHistory>,
    url: &str,
) -> (r: bool)
    requires
        old(tabs).wf(),
        old(history).wf(),
        histories_wf(old(histories)@),
    ensures
        r == old(tabs).current_key() is Some,
        !r ==> *final(tabs) == *old(tabs) && *final(history) == *old(history) && final(histories)@
            == old(histories)@,
        r ==> exists|id: TabId|
            old(tabs).current_key() == Some(id.value()) && url_change_applied(
                *old(tabs),
                *final(tabs),
                *old(history),
                *final(history),
                old(histories)@,
                final(histories)@,
                id,
                url@,
                false,
                true,
            ),
{
    proof {
        old(tabs).lemma_wf_facts();
    }
    match tabs.current_id() {
        Some(id) => {
            record_url_change(tabs, history, histories, id, url, false);
            true
        },
        None => false,
    }
}

/// A page reported its title; returns whether the tab is still open. The latest visit of
/// the tab's address in the browsing history is renamed too, unless it is the new-tab page.
pub fn on_title_changed(
    tabs: &mut TabManager,
    history: &mut HistoryManager,
    id: TabId,
    title: &str,
) -> (r: bool)
    requires
        old(tabs).wf(),
        old(history).wf(),
    ensures
        final(tabs).wf(),
        final(history).wf(),
        r == old(tabs).keys().contains(id.value()),
        final(tabs).keys() == old(tabs).keys(),
        final(tabs).current_key() == old(tabs).current_key(),
        final(tabs).next_key() == old(tabs).next_key(),
        final(history).capacity() == old(history).capacity(),
        !r ==> *final(tabs) == *old(tabs) && *final(history) == *old(history),
        r ==> {
            let i = old(tabs).key_index(id.value());
            let t = old(tabs).tab_list()[i];
            &&& final(tabs).tab_list().len() == old(tabs).tab_list().len()
            &&& forall|j: int|
                0 <= j < old(tabs).tab_list().len() && j != i ==> #[trigger] final(tabs).tab_list()[j]
                    == old(tabs).tab_list()[j]
            &&& final(tabs).tab_list()[i].title@ == title@
            &&& final(tabs).tab_list()[i].id == t.id
            &&& final(tabs).tab_list()[i].url == t.url
            &&& final(tabs).tab_list()[i].favicon_url == t.favicon_url
            &&& final(tabs).tab_list()[i].can_go_back == t.can_go_back
            &&& final(tabs).tab_list()[i].can_go_forward == t.can_go_forward
            &&& final(history)@ == if is_new_tab(t.url@) {
                old(history)@
            } else {
                retitled(old(history)@, t.url@, title@)
            }
        },
{
    proof {
        old(tabs).lemma_wf_facts();
        if old(tabs).keys().contains(id.value()) {
            let i = old(tabs).key_index(id.value());
            assert(0 <= i < old(tabs).keys().len());
        }
    }
    let url = match tabs.tab_mut(id) {
        Some(tab) => {
            tab.title = title.to_owned();
            tab.url.clone()
        },
        None => {
            return false;
        },
    };
    if !is_new_tab_url(url.as_str()) {
        history.update_latest_title(url.as_str(), title);
    }
    true
}

/// A page reported its favicon (`url`, empty when it has none); returns whether the tab is
/// still open.
pub fn on_favicon_changed(tabs: &mut TabManager, id: TabId, url: &str) -> (r: bool)
    requires
        old(tabs).wf(),
    ensures
        final(tabs).wf(),
        r == old(tabs).keys().contains(id.value()),
        final(tabs).keys() == old(tabs).keys(),
        final(tabs).current_key() == old(tabs).current_key(),
        final(tabs).next_key() == old(tabs).next_key(),
        !r ==> *final(tabs) == *old(tabs),
        r ==> {
            let i = old(tabs).key_index(id.value());
            let t = old(tabs).tab_list()[i];
            &&& final(tabs).tab_list() == old(tabs).tab_list().update(
                i,
                final(tabs).tab_list()[i],
            )
            &&& final(tabs).tab_list()[i].id == t.id
            &&& final(tabs).tab_list()[i].url == t.url
            &&& final(tabs).tab_list()[i].title == t.title
            &&& final(tabs).tab_list()[i].can_go_back == t.can_go_back
            &&& final(tabs).tab_list()[i].can_go_forward == t.can_go_forward
            &&& match final(tabs).tab_list()[i].favicon_url {
                Some(f) => url@.len() > 0 && f@ == url@,
                None => url@.len() == 0,
            }
        },
{
    proof {
        old(tabs).lemma_wf_facts();
        if old(tabs).keys().contains(id.value()) {
            let i = old(tabs).key_index(id.value());
            assert(0 <= i < old(tabs).keys().len());
        }
    }
    let favicon = if url.unicode_len() == 0 {
        None
    } else {
        Some(url.to_owned())
    };
    match tabs.tab_mut(id) {
        Some(tab) => {
            tab.favicon_url = favicon;
            true
        },
        None => false,
    }
}

/// The title a bookmark of `t` gets: its title, or its address when the title is blank.
pub open spec fn bookmark_title(t: Tab) -> Seq<char> {
    if trimmed(t.title@).len() == 0 {
        t.url@
    } else {
        t.title@
    }
}

/// Bookmarking a page keeps its title: when the title holds any character that is not white
/// space, a new bookmark is the page's address with exactly that title; only a title made of
/// white space alone (or empty) is replaced by the address.
pub proof fn law_bookmark_keeps_the_page_title(v: Seq<(Seq<char>, Seq<char>)>, t: Tab)
    requires
        !has_url(v, t.url@),
    ensures
        (exists|i: int| 0 <= i < t.title@.len() && !is_whitespace_char(t.title@[i])) ==> toggled(
            v,
            t.url@,
            bookmark_title(t),
        ) == v.push((t.url@, t.title@)),
        (forall|i: int| 0 <= i < t.title@.len() ==> is_whitespace_char(t.title@[i])) ==> toggled(
            v,
            t.url@,
            bookmark_title(t),
        ) == v.push((t.url@, t.url@)),
{
    lemma_trimmed_empty_iff_blank(t.title@);
}

/// Toggles the bookmark of the selected tab unless it shows the new-tab page; returns whether
/// the bookmarks changed.
pub fn toggle_current_bookmark(tabs: &TabManager, bookmarks: &mut BookmarkManager) -> (r: bool)
    requires
        tabs.wf(),
        old(bookmarks).wf(),
    ensures
        final(bookmarks).wf(),
        r == (tabs.current_key() is Some && !is_new_tab(
            tabs.tab_map()[tabs.current_key()->0].url@,
        )),
        r ==> final(bookmarks)@ == toggled(
            old(bookmarks)@,
            tabs.tab_map()[tabs.current_key()->0].url@,
            bookmark_title(tabs.tab_map()[tabs.current_key()->0]),
        ),
        !r ==> final(bookmarks)@ == old(bookmarks)@,
{
    match tabs.current_tab() {
        Some(tab) => {
            if is_new_tab_url(tab.url.as_str()) {
                return false;
            }
            let blank = trim(tab.title.as_str()).unicode_len() == 0;
            let title = if blank {
                tab.url.as_str()
            } else {
                tab.title.as_str()
            };
            bookmarks.toggle(tab.url.as_str(), title);
            true
        },
        None => false,
    }
}

/// Where a navigation request goes: the selected tab, the normalized address, and whether
/// the load should replace the current history entry (when leaving the new-tab page).
#[derive(Clone, Debug, PartialEq, Eq)]
pub struct NavigationPlan {
    pub id: TabId,
    pub url: String,
    pub replace_history: bool,
}

/// Plans a navigation of the selected tab to the address-bar input `input`; `None` when no
/// tab is selected.
pub fn plan_navigation(tabs: &TabManager, input: &str, engine: SearchEngine) -> (r: Option<
    NavigationPlan,
>)
    requires
        tabs.wf(),
    ensures
        r is None <==> tabs.current_key() is None,
        r matches Some(p) ==> {
            &&& tabs.current_key() == Some(p.id.value())
            &&& p.url@ == normalized_url(input@, engine)
            &&& p.replace_history == is_new_tab(tabs.tab_map()[p.id.value()].url@)
        },
{
    let id = match tabs.current_id() {
        Some(id) => id,
        None => {
            return None;
        },
    };
    proof {
        tabs.lemma_wf_facts();
    }
    let url = normalize_url(input, engine);
    let replace_history = match tabs.tab(id) {
        Some(tab) => is_new_tab_url(tab.url.as_str()),
        None => false,
    };
    Some(NavigationPlan { id, url, replace_history })
}

/// The engine accepted a navigation of tab `id` to `url`: the tab shows the new address and
/// forgets its favicon. Returns whether the tab is still open.
pub fn on_navigated(tabs: &mut TabManager, id: TabId, url: &str) -> (r: bool)
    requires
        old(tabs).wf(),
    ensures
        final(tabs).wf(),
        r == old(tabs).keys().contains(id.value()),
        final(tabs).keys() == old(tabs).keys(),
        final(tabs).current_key() == old(tabs).current_key(),
        final(tabs).next_key() == old(tabs).next_key(),
        !r ==> *final(tabs) == *old(tabs),
        r ==> {
            let i = old(tabs).key_index(id.value());
            &&& final(tabs).tab_list() == old(tabs).tab_list().update(
                i,
                final(tabs).tab_list()[i],
            )
            &&& tab_after_url_change(
                old(tabs).tab_list()[i],
                final(tabs).tab_list()[i],
                url@,
                true,
                None,
            )
        },
{
    proof {
        old(tabs).lemma_wf_facts();
        if old(tabs).keys().contains(id.value()) {
            let i = old(tabs).key_index(id.value());
            assert(0 <= i < old(tabs).keys().len());
        }
    }
    match tabs.tab_mut(id) {
        Some(tab) => {
            tab.url = url.to_owned();
            tab.favicon_url = None;
            true
        },
        None => false,
    }
}

/// What closing a tab requires of the caller next.
#[derive(Clone, Copy, Debug, PartialEq, Eq, Structural)]
pub enum CloseTabOutcome {
    /// The tab was the only one and showed the new-tab page; nothing changed.
    Ignored,
    /// The last tab was closed; a fresh new-tab tab has to be opened.
    NeedsReplacement,
    /// The tab was closed; this tab is now selected and has to be shown.
    Show(TabId),
}

/// Closes tab `id` in the browser state, forgetting its back/forward list, idle time and
/// media state. Closing the only tab while it shows the new-tab page is ignored.
pub fn close_tab_state(
    tabs: &mut TabManager,
    histories: &mut BTreeMap<u64, TabHistory>,
    last_active: &mut BTreeMap<u64, u64>,
    playing_media: &mut BTreeMap<u64, bool>,
    id: TabId,
) -> (r: CloseTabOutcome)
    requires
        old(tabs).wf(),
    ensures
        final(tabs).wf(),
        only_new_tab(&*old(tabs), id) ==> {
            &&& r == CloseTabOutcome::Ignored
            &&& *final(tabs) == *old(tabs)
            &&& final(histories)@ == old(histories)@
            &&& final(last_active)@ == old(last_active)@
            &&& final(playing_media)@ == old(playing_media)@
        },
        !only_new_tab(&*old(tabs), id) ==> {
            &&& final(histories)@ == old(histories)@.remove(id.value())
            &&& final(last_active)@ == old(last_active)@.remove(id.value())
            &&& final(playing_media)@ == old(playing_media)@.remove(id.value())
            &&& !final(tabs).keys().contains(id.value())
            &&& final(tabs).next_key() == old(tabs).next_key()
            &&& (old(tabs).keys().contains(id.value()) ==> {
                let i = old(tabs).key_index(id.value());
                &&& final(tabs).keys() == old(tabs).keys().remove(i)
                &&& final(tabs).tab_list() == old(tabs).tab_list().remove(i)
            })
            &&& (!old(tabs).keys().contains(id.value()) ==> final(tabs).keys() == old(tabs).keys()
                && final(tabs).tab_list() == old(tabs).tab_list())
            &&& final(tabs).current_key() == if old(tabs).current_key() == Some(id.value()) {
                if final(tabs).keys().len() == 0 {
                    None
                } else {
                    Some(final(tabs).keys().last())
                }
            } else {
                old(tabs).current_key()
            }
            &&& match r {
                CloseTabOutcome::Ignored => false,
                CloseTabOutcome::NeedsReplacement => final(tabs).current_key() is None
                    && final(tabs).keys().len() == 0,
                CloseTabOutcome::Show(t) => final(tabs).current_key() == Some(t.value()),
            }
        },
{
    if is_only_new_tab(tabs, id) {
        return CloseTabOutcome::Ignored;
    }
    let key = id.get();
    histories.remove(&key);
    last_active.remove(&key);
    playing_media.remove(&key);
    tabs.remove_tab(id);
    proof {
        tabs.lemma_wf_facts();
        if tabs.keys().contains(id.value()) {
            let j = choose|j: int| 0 <= j < tabs.keys().len() && tabs.keys()[j] == id.value();
            let old_keys = old(tabs).keys();
            let i = old(tabs).key_index(id.value());
            old(tabs).lemma_wf_facts();
            let oj = if j < i { j } else { j + 1 };
            assert(tabs.keys()[j] == old_keys[oj]);
            old(tabs).lemma_key_index(i);
            assert(old_keys[i] == id.value());
            if oj < i {
                assert(old_keys[oj] < old_keys[i]);
            } else {
                assert(old_keys[i] < old_keys[oj]);
            }
        }
    }
    match tabs.current_id() {
        Some(current) => CloseTabOutcome::Show(current),
        None => CloseTabOutcome::NeedsReplacement,
    }
}

/// A tab `id` was opened on `url` while `previous` was selected (its view is ready): the tab
/// gets a back/forward list holding only `url`, and `previous`, now in the background, is
/// stamped with `now` as the moment it lost focus.
pub fn on_tab_opened(
    histories: &mut BTreeMap<u64, TabHistory>,
    last_active: &mut BTreeMap<u64, u64>,
    previous: Option<TabId>,
    id: TabId,
    url: &str,
    now: u64,
)
    requires
        histories_wf(old(histories)@),
    ensures
        histories_wf(final(histories)@),
        final(histories)@.dom() == old(histories)@.dom().insert(id.value()),
        final(histories)@[id.value()]@ == (TabHistoryView {
            entries: seq![url@],
            cursor: 0,
            pending_traversal: false,
        }),
        forall|k: u64|
            #[trigger] old(histories)@.contains_key(k) && k != id.value() ==> final(histories)@[k]
                == old(histories)@[k],
        final(last_active)@ == match previous {
            Some(p) => old(last_active)@.insert(p.value(), now),
            None => old(last_active)@,
        },
{
    match previous {
        Some(p) => {
            last_active.insert(p.get(), now);
        },
        None => {},
    }
    histories.insert(id.get(), TabHistory::new(url.to_owned()));
    proof {
        assert(histories@.dom() =~= old(histories)@.dom().insert(id.value()));
        assert forall|k: u64| #[trigger] histories@.contains_key(k) implies histories@[k].wf() by {
            if k != id.value() {
                assert(old(histories)@.contains_key(k));
            }
        }
    }
}

/// Moves the selection to tab `id`, whose view is ready. Nothing happens when there is no
/// such tab or it is already selected; otherwise the tab selected before, now in the
/// background, is stamped with `now` as the moment it lost focus, and returned (inside
/// `Some`) so its view can be hidden.
pub fn switch_selection(
    tabs: &mut TabManager,
    last_active: &mut BTreeMap<u64, u64>,
    id: TabId,
    now: u64,
) -> (r: Option<Option<TabId>>)
    requires
        old(tabs).wf(),
    ensures
        final(tabs).wf(),
        r is Some <==> old(tabs).keys().contains(id.value()) && old(tabs).current_key() != Some(
            id.value(),
        ),
        r is None ==> *final(tabs) == *old(tabs) && final(last_active)@ == old(last_active)@,
        r matches Some(previous) ==> {
            &&& final(tabs).keys() == old(tabs).keys()
            &&& final(tabs).tab_list() == old(tabs).tab_list()
            &&& final(tabs).next_key() == old(tabs).next_key()
            &&& final(tabs).current_key() == Some(id.value())
            &&& match previous {
                Some(p) => old(tabs).current_key() == Some(p.value()) && final(last_active)@
                    == old(last_active)@.insert(p.value(), now),
                None => old(tabs).current_key() is None && final(last_active)@
                    == old(last_active)@,
            }
        },
{
    let previous = tabs.current_id();
    let already = match previous {
        Some(p) => p.get() == id.get(),
        None => false,
    };
    if already || tabs.tab(id).is_none() {
        return None;
    }
    tabs.select_tab(id);
    match previous {
        Some(p) => {
            last_active.insert(p.get(), now);
        },
        None => {},
    }
    Some(previous)
}

/// Which way a history step goes.
#[derive(Clone, Copy, Debug, PartialEq, Eq, Structural)]
pub enum HistoryStep {
    Back,
    Forward,
}

/// A tab is selected, it has a back/forward list, and that list can take `step`.
pub open spec fn can_step(tabs: TabManager, histories: Map<u64, TabHistory>, step: HistoryStep) -> bool {
    match tabs.current_key() {
        Some(k) => histories.contains_key(k) && match step {
            HistoryStep::Back => histories[k]@.can_go_back(),
            HistoryStep::Forward => histories[k]@.can_go_forward(),
        },
        None => false,
    }
}

/// Steps the selected tab's back/forward list; returns the tab whose engine view has to
/// follow, or `None` when there is no selected tab, no list, or nowhere to go.
pub fn step_history(
    tabs: &mut TabManager,
    histories: &mut BTreeMap<u64, TabHistory>,
    step: HistoryStep,
) -> (r: Option<TabId>)
    requires
        old(tabs).wf(),
        histories_wf(old(histories)@),
    ensures
        final(tabs).wf(),
        histories_wf(final(histories)@),
        final(tabs).keys() == old(tabs).keys(),
        final(tabs).current_key() == old(tabs).current_key(),
        final(histories)@.dom() == old(histories)@.dom(),
        r is Some <==> can_step(*old(tabs), old(histories)@, step),
        r is None ==> *final(tabs) == *old(tabs) && final(histories)@ == old(histories)@,
        r matches Some(id) ==> {
            let k = id.value();
            let h = old(histories)@[k]@;
            &&& old(tabs).current_key() == Some(k)
            &&& old(histories)@.contains_key(k)
            &&& (match step {
                HistoryStep::Back => h.can_go_back() && final(histories)@[k]@ == h.after_back(),
                HistoryStep::Forward => h.can_go_forward() && final(histories)@[k]@
                    == h.after_forward(),
            })
            &&& forall|key: u64|
                #[trigger] final(histories)@.contains_key(key) && key != k ==> final(histories)@[key]
                    == old(histories)@[key]
            &&& old(tabs).keys().contains(k)
            &&& final(tabs).tab_list() == old(tabs).tab_list().update(
                old(tabs).key_index(k),
                Tab {
                    can_go_back: final(histories)@[k]@.can_go_back(),
                    can_go_forward: final(histories)@[k]@.can_go_forward(),
                    ..old(tabs).tab_list()[old(tabs).key_index(k)]
                },
            )
        },
{
    proof {
        old(tabs).lemma_wf_facts();
    }
    let id = match tabs.current_id() {
        Some(id) => id,
        None => {
            return None;
        },
    };
    let key = id.get();
    let possible = match histories.get(&key) {
        Some(h) => match step {
            HistoryStep::Back => h.can_go_back(),
            HistoryStep::Forward => h.can_go_forward(),
        },
        None => false,
    };
    if !possible {
        return None;
    }
    let mut tab_history = match histories.remove(&key) {
        Some(h) => h,
        None => {
            return None;
        },
    };
    match step {
        HistoryStep::Back => {
            tab_history.go_back();
        },
        HistoryStep::Forward => {
            tab_history.go_forward();
        },
    }
    histories.insert(key, tab_history);
    proof {
        assert(histories@.dom() =~= old(histories)@.dom());
        assert forall|k: u64| #[trigger] histories@.contains_key(k) implies histories@[k].wf() by {
            assert(old(histories)@.contains_key(k));
        }
    }
    update_history_flags_after(tabs, histories, id);
    Some(id)
}

} // verus!

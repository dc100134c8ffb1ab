use vstd::prelude::*;

verus! {

/// Stable identifier assigned to a tab by [`TabManager`].
#[derive(Clone, Copy, Debug, PartialEq, Eq, Structural, PartialOrd, Ord, Hash)]
pub struct TabId(u64);

impl TabId {
    /// The raw number behind this identifier.
    pub closed spec fn value(self) -> u64 {
        self.0
    }

    pub fn get(self) -> (r: u64)
        ensures
            r == self.value(),
    {
        self.0
    }
}

/// Two identifiers are equal exactly when their raw numbers are.
pub broadcast proof fn lemma_tab_id_value_injective(a: TabId, b: TabId)
    ensures
        #[trigger] a.value() == #[trigger] b.value() <==> a == b,
{
}

/// State belonging to one browser tab.
#[derive(Clone, Debug, PartialEq, Eq)]
pub struct Tab {
    pub id: TabId,
    pub url: String,
    pub title: String,
    pub favicon_url: Option<String>,
    pub can_go_back: bool,
    pub can_go_forward: bool,
}

impl Tab {
    /// A tab that was just opened on `url`: no title, no favicon, no history to walk.
    pub open spec fn is_fresh(self, id: TabId, url: Seq<char>) -> bool {
        &&& self.id == id
        &&& self.url@ == url
        &&& self.title@ == Seq::<char>::empty()
        &&& self.favicon_url is None
        &&& !self.can_go_back
        &&& !self.can_go_forward
    }

    fn new(id: TabId, url: &str) -> (r: Self)
        ensures
            r.is_fresh(id, url@),
    {
        Tab {
            id,
            url: url.to_owned(),
            title: String::new(),
            favicon_url: None,
            can_go_back: false,
            can_go_forward: false,
        }
    }
}

/// Owns the tabs and the currently selected tab.
///
/// Tabs are kept in increasing identifier order, each stored under the key it was
/// created with, so walking them gives the order in which they were opened.
#[derive(Debug)]
pub struct TabManager {
    ids: Vec<u64>,
    tabs: Vec<Tab>,
    current: Option<TabId>,
    next_id: u64,
}

/// `s` is strictly increasing.
pub open spec fn strictly_increasing(s: Seq<u64>) -> bool {
    forall|i: int, j: int| 0 <= i < j < s.len() ==> s[i] < s[j]
}

/// `after` is `before` once `add_tab(url)` opened the tab `r`: a fresh key above every key
/// in use, the tab appended fresh and selected, and the next key one higher.
pub open spec fn opens_tab(before: TabManager, after: TabManager, url: Seq<char>, r: TabId) -> bool {
    &&& after.wf()
    &&& r.value() == before.next_key()
    &&& forall|i: int| 0 <= i < before.keys().len() ==> before.keys()[i] < r.value()
    &&& after.keys() == before.keys().push(r.value())
    &&& after.tab_list().len() == before.tab_list().len() + 1
    &&& after.tab_list().drop_last() == before.tab_list()
    &&& after.tab_list().last().is_fresh(r, url)
    &&& after.current_key() == Some(r.value())
    &&& after.next_key() == before.next_key() + 1
}

/// `after` is `before` once `remove_tab(id)` returned `r`: the tab is gone (and returned)
/// when it existed, and a closed selection moves to the highest remaining key.
pub open spec fn closes_tab(before: TabManager, after: TabManager, id: TabId, r: Option<Tab>) -> bool {
    &&& after.wf()
    &&& after.next_key() == before.next_key()
    &&& !before.keys().contains(id.value()) ==> {
        &&& r is None
        &&& after.keys() == before.keys()
        &&& after.tab_list() == before.tab_list()
        &&& after.current_key() == before.current_key()
    }
    &&& before.keys().contains(id.value()) ==> {
        let i = before.key_index(id.value());
        &&& r == Some(before.tab_list()[i])
        &&& after.keys() == before.keys().remove(i)
        &&& after.tab_list() == before.tab_list().remove(i)
    }
    &&& after.current_key() == if before.current_key() == Some(id.value()) {
        if after.keys().len() == 0 {
            None
        } else {
            Some(after.keys().last())
        }
    } else {
        before.current_key()
    }
}

/// `after` is `before` once `select_tab(id)` returned `r`: the tab is selected when it exists,
/// and nothing else changes.
pub open spec fn selects_tab(before: TabManager, after: TabManager, id: TabId, r: bool) -> bool {
    &&& after.wf()
    &&& r == before.keys().contains(id.value())
    &&& after.keys() == before.keys()
    &&& after.tab_list() == before.tab_list()
    &&& after.next_key() == before.next_key()
    &&& after.current_key() == if r {
        Some(id.value())
    } else {
        before.current_key()
    }
}

impl TabManager {
    /// The keys of the tabs, in increasing order.
    pub closed spec fn keys(&self) -> Seq<u64> {
        self.ids@
    }

    /// The tabs, in the order of their keys.
    pub closed spec fn tab_list(&self) -> Seq<Tab> {
        self.tabs@
    }

    /// The key of the selected tab, if any.
    pub closed spec fn current_key(&self) -> Option<u64> {
        match self.current {
            Some(id) => Some(id.value()),
            None => None,
        }
    }

    /// The key the next opened tab will get.
    pub closed spec fn next_key(&self) -> u64 {
        self.next_id
    }

    /// Position of key `k` among the keys.
    pub open spec fn key_index(&self, k: u64) -> int {
        choose|i: int| 0 <= i < self.keys().len() && self.keys()[i] == k
    }

    /// The tabs as a map from key to tab.
    pub open spec fn tab_map(&self) -> Map<u64, Tab> {
        Map::new(|k: u64| self.keys().contains(k), |k: u64| self.tab_list()[self.key_index(k)])
    }

    /// Well-formedness: one tab per key, keys strictly increasing and below the next key,
    /// and a selection exactly when there are tabs, naming one of them.
    pub closed spec fn wf(&self) -> bool {
        &&& self.ids@.len() == self.tabs@.len()
        &&& strictly_increasing(self.ids@)
        &&& forall|i: int| 0 <= i < self.ids@.len() ==> self.ids@[i] < self.next_id
        &&& (self.current is None <==> self.ids@.len() == 0)
        &&& (self.current matches Some(id) ==> self.ids@.contains(id.value()))
    }

    /// Under well-formedness, the selection is one of the tabs and is absent exactly when
    /// there are none, and the lists have one tab per key.
    pub proof fn lemma_wf_facts(&self)
        requires
            self.wf(),
        ensures
            self.keys().len() == self.tab_list().len(),
            strictly_increasing(self.keys()),
            forall|i: int| 0 <= i < self.keys().len() ==> self.keys()[i] < self.next_key(),
            self.current_key() is None <==> self.keys().len() == 0,
            self.current_key() matches Some(k) ==> self.keys().contains(k),
    {
    }

    /// In a strictly increasing key list, the position of a present key is the one it sits at.
    pub proof fn lemma_key_index(&self, i: int)
        requires
            self.wf(),
            0 <= i < self.keys().len(),
        ensures
            self.key_index(self.keys()[i]) == i,
            self.tab_map().contains_key(self.keys()[i]),
            self.tab_map()[self.keys()[i]] == self.tab_list()[i],
    {
        let k = self.keys()[i];
        assert(self.keys().contains(k));
        let j = self.key_index(k);
        assert(0 <= j < self.keys().len() && self.keys()[j] == k);
        if j < i {
            assert(self.keys()[j] < self.keys()[i]);
        } else if i < j {
            assert(self.keys()[i] < self.keys()[j]);
        }
    }

    pub fn new() -> (r: Self)
        ensures
            r.wf(),
            r.keys() == Seq::<u64>::empty(),
            r.tab_list() == Seq::<Tab>::empty(),
            r.current_key() is None,
            r.next_key() == 1,
    {
        TabManager { ids: Vec::new(), tabs: Vec::new(), current: None, next_id: 1 }
    }

    /// Finds the position of key `k`.
    fn find(&self, k: u64) -> (r: Option<usize>)
        requires
            self.wf(),
        ensures
            r matches Some(i) ==> i < self.keys().len() && self.keys()[i as int] == k
                && self.key_index(k) == i,
            r is None <==> !self.keys().contains(k),
    {
        let n = self.ids.len();
        let mut i: usize = 0;
        while i < n
            invariant
                self.wf(),
                n == self.ids@.len(),
                i <= n,
                forall|j: int| 0 <= j < i ==> self.ids@[j] != k,
            decreases n - i,
        {
            if self.ids[i] == k {
                proof {
                    self.lemma_key_index(i as int);
                }
                return Some(i);
            }
            i = i + 1;
        }
        proof {
            if self.keys().contains(k) {
                let j = choose|j: int| 0 <= j < self.keys().len() && self.keys()[j] == k;
                assert(self.ids@[j] == k);
            }
        }
        None
    }

    /// Whether another tab can still get a fresh key (what `add_tab` needs).
    pub fn has_free_key(&self) -> (r: bool)
        ensures
            r == (self.next_key() < u64::MAX),
    {
        self.next_id < u64::MAX
    }

    /// Opens a tab on `url` under a fresh key and selects it.
    pub fn add_tab(&mut self, url: &str) -> (r: TabId)
        requires
            old(self).wf(),
            old(self).next_key() < u64::MAX,
        ensures
            opens_tab(*old(self), *final(self), url@, r),
    {
        let id = TabId(self.next_id);
        self.next_id = self.next_id + 1;
        self.ids.push(id.0);
        self.tabs.push(Tab::new(id, url));
        self.current = Some(id);
        proof {
            assert(self.ids@.last() == id.0);
            assert(self.ids@.contains(id.0));
            assert(self.tabs@.drop_last() =~= old(self).tabs@);
        }
        id
    }

    /// Closes the tab with key `id`, returning it. When the closed tab was selected,
    /// the tab with the highest remaining key becomes selected.
    pub fn remove_tab(&mut self, id: TabId) -> (r: Option<Tab>)
        requires
            old(self).wf(),
        ensures
            closes_tab(*old(self), *final(self), id, r),
    {
        let found = self.find(id.0);
        let removed = match found {
            Some(i) => {
                self.ids.remove(i);
                let tab = self.tabs.remove(i);
                proof {
                    let old_ids = old(self).ids@;
                    assert(self.ids@ =~= old_ids.remove(i as int));
                    assert forall|a: int, b: int| 0 <= a < b < self.ids@.len() implies self.ids@[a]
                        < self.ids@[b] by {
                        let oa = if a < i { a } else { a + 1 };
                        let ob = if b < i { b } else { b + 1 };
                        assert(self.ids@[a] == old_ids[oa]);
                        assert(self.ids@[b] == old_ids[ob]);
                    }
                    assert forall|a: int| 0 <= a < self.ids@.len() implies self.ids@[a]
                        < self.next_id by {
                        let oa = if a < i { a } else { a + 1 };
                        assert(self.ids@[a] == old_ids[oa]);
                    }
                }
                Some(tab)
            },
            None => None,
        };
        let was_current = match self.current {
            Some(c) => c.0 == id.0,
            None => false,
        };
        if was_current {
            let n = self.ids.len();
            if n == 0 {
                self.current = None;
            } else {
                let last = self.ids[n - 1];
                self.current = Some(TabId(last));
                proof {
                    assert(self.ids@.contains(last));
                }
            }
        } else {
            proof {
                if let Some(c) = self.current {
                    let old_ids = old(self).ids@;
                    assert(old_ids.contains(c.0));
                    let j = choose|j: int| 0 <= j < old_ids.len() && old_ids[j] == c.0;
                    if let Some(i) = found {
                        assert(j != i);
                        let nj = if j < i { j } else { j - 1 };
                        assert(self.ids@[nj] == c.0);
                    }
                    assert(self.ids@.contains(c.0));
                }
            }
        }
        removed
    }

    /// Selects the tab with key `id`; returns whether it exists.
    pub fn select_tab(&mut self, id: TabId) -> (r: bool)
        requires
            old(self).wf(),
        ensures
            selects_tab(*old(self), *final(self), id, r),
    {
        match self.find(id.0) {
            Some(_) => {
                self.current = Some(id);
                true
            },
            None => false,
        }
    }

    /// The selected tab.
    pub fn current_tab(&self) -> (r: Option<&Tab>)
        requires
            self.wf(),
        ensures
            r is None <==> self.current_key() is None,
            r matches Some(t) ==> *t == self.tab_map()[self.current_key()->0],
    {
        match self.current {
            Some(id) => self.tab(id),
            None => None,
        }
    }

    /// The selected tab, for changing it in place.
    pub fn current_tab_mut(&mut self) -> (r: Option<&mut Tab>)
        requires
            old(self).wf(),
        ensures
            r is None <==> old(self).current_key() is None,
            r is None ==> *final(self) == *old(self),
            r matches Some(t) ==> {
                let i = old(self).key_index(old(self).current_key()->0);
                &&& *t == old(self).tab_list()[i]
                &&& final(self).tab_list() == old(self).tab_list().update(i, *final(t))
                &&& final(self).keys() == old(self).keys()
                &&& final(self).current_key() == old(self).current_key()
                &&& final(self).next_key() == old(self).next_key()
                &&& final(self).wf()
            },
    {
        match self.current {
            Some(id) => self.tab_mut(id),
            None => None,
        }
    }

    /// The tab with key `id`.
    pub fn tab(&self, id: TabId) -> (r: Option<&Tab>)
        requires
            self.wf(),
        ensures
            r is None <==> !self.tab_map().contains_key(id.value()),
            r matches Some(t) ==> *t == self.tab_map()[id.value()],
    {
        match self.find(id.0) {
            Some(i) => Some(&self.tabs[i]),
            None => None,
        }
    }

    /// The tab with key `id`, for changing it in place.
    pub fn tab_mut(&mut self, id: TabId) -> (r: Option<&mut Tab>)
        requires
            old(self).wf(),
        ensures
            r is None <==> !old(self).keys().contains(id.value()),
            r is None ==> *final(self) == *old(self),
            r matches Some(t) ==> {
                let i = old(self).key_index(id.value());
                &&& *t == old(self).tab_list()[i]
                &&& final(self).tab_list() == old(self).tab_list().update(i, *final(t))
                &&& final(self).keys() == old(self).keys()
                &&& final(self).current_key() == old(self).current_key()
                &&& final(self).next_key() == old(self).next_key()
                &&& final(self).wf()
            },
    {
        match self.find(id.0) {
            Some(i) => Some(&mut self.tabs[i]),
            None => None,
        }
    }

    /// All tabs, in increasing key order.
    pub fn tabs(&self) -> (r: &[Tab])
        ensures
            r@ == self.tab_list(),
    {
        self.tabs.as_slice()
    }

    /// The key of the selected tab.
    pub fn current_id(&self) -> (r: Option<TabId>)
        ensures
            r is None <==> self.current_key() is None,
            r matches Some(id) ==> self.current_key() == Some(id.value()),
    {
        self.current
    }
}

/// Tab keys are unique and never handed out twice: the key the next tab gets lies above
/// every key in use (and `remove_tab` keeps it while `add_tab` moves it up by one).
pub proof fn law_next_key_is_unused(tabs: &TabManager)
    requires
        tabs.wf(),
    ensures
        !tabs.keys().contains(tabs.next_key()),
        forall|i: int, j: int|
            0 <= i < tabs.keys().len() && 0 <= j < tabs.keys().len() && i != j ==> tabs.keys()[i]
                != tabs.keys()[j],
{
    tabs.lemma_wf_facts();
    assert forall|i: int, j: int|
        0 <= i < tabs.keys().len() && 0 <= j < tabs.keys().len() && i != j implies tabs.keys()[i]
        != tabs.keys()[j] by {
        if i < j {
            assert(tabs.keys()[i] < tabs.keys()[j]);
        } else {
            assert(tabs.keys()[j] < tabs.keys()[i]);
        }
    }
}

/// One call on a tab manager, with what it returned: `add_tab(url)` giving the new tab's id,
/// `remove_tab(id)` giving the removed tab, or `select_tab(id)` giving whether it existed.
pub enum TabCall {
    Open(Seq<char>, TabId),
    Close(TabId, Option<Tab>),
    Select(TabId, bool),
}

/// `after` is `before` once `call` was made, as that call's contract states it.
pub open spec fn call_made(before: TabManager, after: TabManager, call: TabCall) -> bool {
    match call {
        TabCall::Open(url, r) => opens_tab(before, after, url, r),
        TabCall::Close(id, r) => closes_tab(before, after, id, r),
        TabCall::Select(id, r) => selects_tab(before, after, id, r),
    }
}

/// How many of the first `s` calls opened a tab.
pub open spec fn opened_before(calls: Seq<TabCall>, s: int) -> nat
    decreases s,
{
    if s <= 0 {
        0
    } else {
        opened_before(calls, s - 1) + if calls[s - 1] is Open {
            1nat
        } else {
            0nat
        }
    }
}

/// Tab ids count 1, 2, … over the life of a manager made by `new`, whatever tabs are closed
/// or selected in between, so no id is ever handed out twice.
///
/// `states` are the manager before each call of `calls` and after the last one; `new` leaves
/// the next key at 1. The tab opened by a call gets 1 plus the number of tabs opened before.
pub proof fn law_tab_ids_count_from_one(states: Seq<TabManager>, calls: Seq<TabCall>)
    requires
        states.len() == calls.len() + 1,
        states[0].next_key() == 1,
        forall|s: int| 0 <= s < calls.len() ==> call_made(states[s], states[s + 1], #[trigger] calls[s]),
    ensures
        forall|s: int|
            0 <= s < calls.len() && #[trigger] calls[s] is Open ==> calls[s]->Open_1.value() == 1
                + opened_before(calls, s),
        forall|s: int, t: int|
            0 <= s < t < calls.len() && #[trigger] calls[s] is Open && #[trigger] calls[t] is Open
                ==> calls[s]->Open_1.value() < calls[t]->Open_1.value(),
{
    assert forall|s: int| 0 <= s < calls.len() && #[trigger] calls[s] is Open implies calls[s]->Open_1.value()
        == 1 + opened_before(calls, s) by {
        lemma_next_key_counts(states, calls, s);
    }
    assert forall|s: int, t: int|
        0 <= s < t < calls.len() && #[trigger] calls[s] is Open && #[trigger] calls[t] is Open
        implies calls[s]->Open_1.value() < calls[t]->Open_1.value() by {
        lemma_next_key_counts(states, calls, s);
        lemma_next_key_counts(states, calls, t);
        lemma_opened_before_grows(calls, s + 1, t);
    }
}

/// Before call `s`, the next key is 1 plus the number of tabs opened so far.
proof fn lemma_next_key_counts(states: Seq<TabManager>, calls: Seq<TabCall>, s: int)
    requires
        states.len() == calls.len() + 1,
        states[0].next_key() == 1,
        forall|s: int| 0 <= s < calls.len() ==> call_made(states[s], states[s + 1], #[trigger] calls[s]),
        0 <= s <= calls.len(),
    ensures
        states[s].next_key() == 1 + opened_before(calls, s),
    decreases s,
{
    if s > 0 {
        lemma_next_key_counts(states, calls, s - 1);
        assert(call_made(states[s - 1], states[s], calls[s - 1]));
    }
}

/// The count never goes down.
proof fn lemma_opened_before_grows(calls: Seq<TabCall>, s: int, t: int)
    requires
        0 <= s <= t,
    ensures
        opened_before(calls, s) <= opened_before(calls, t),
    decreases t - s,
{
    if s < t {
        lemma_opened_before_grows(calls, s, t - 1);
    }
}

impl Default for TabManager {
    /// An empty manager whose first tab gets key 0.
    fn default() -> (r: Self)
        ensures
            r.wf(),
            r.keys() == Seq::<u64>::empty(),
            r.tab_list() == Seq::<Tab>::empty(),
            r.current_key() is None,
            r.next_key() == 0,
    {
        TabManager { ids: Vec::new(), tabs: Vec::new(), current: None, next_id: 0 }
    }
}

} // verus!

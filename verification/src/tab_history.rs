use vstd::prelude::*;

use crate::navigation::{is_new_tab, is_new_tab_url};
use crate::text::str_eq;

verus! {

/// The back/forward list of one tab, as seen by the specification.
pub struct TabHistoryView {
    pub entries: Seq<Seq<char>>,
    pub cursor: nat,
    pub pending_traversal: bool,
}

impl TabHistoryView {
    /// Well-formedness: at least one entry, and the cursor points at one of them.
    pub open spec fn wf(self) -> bool {
        &&& self.entries.len() > 0
        &&& self.cursor < self.entries.len()
    }

    /// The list after a page finished loading `url`.
    ///
    /// A load that completes a back/forward step overwrites the entry the cursor moved to.
    /// Reloading the current URL changes nothing. The first real page replaces a lone
    /// new-tab entry. Any other load drops the forward entries and appends `url`.
    pub open spec fn after_load(self, url: Seq<char>) -> TabHistoryView {
        if self.pending_traversal {
            TabHistoryView {
                entries: self.entries.update(self.cursor as int, url),
                cursor: self.cursor,
                pending_traversal: false,
            }
        } else if self.entries[self.cursor as int] == url {
            self
        } else if self.entries.len() == 1 && self.cursor == 0 && is_new_tab(self.entries[0]) {
            TabHistoryView { entries: seq![url], cursor: 0, pending_traversal: false }
        } else {
            TabHistoryView {
                entries: self.entries.take(self.cursor as int + 1).push(url),
                cursor: self.cursor + 1,
                pending_traversal: false,
            }
        }
    }

    pub open spec fn can_go_back(self) -> bool {
        self.cursor > 0
    }

    pub open spec fn can_go_forward(self) -> bool {
        self.cursor + 1 < self.entries.len()
    }

    /// The list after a step back (unchanged when there is nothing behind).
    pub open spec fn after_back(self) -> TabHistoryView {
        if self.can_go_back() {
            TabHistoryView {
                entries: self.entries,
                cursor: (self.cursor - 1) as nat,
                pending_traversal: true,
            }
        } else {
            self
        }
    }

    /// The list after a step forward (unchanged when there is nothing ahead).
    pub open spec fn after_forward(self) -> TabHistoryView {
        if self.can_go_forward() {
            TabHistoryView {
                entries: self.entries,
                cursor: self.cursor + 1,
                pending_traversal: true,
            }
        } else {
            self
        }
    }
}

/// The back/forward list of one tab, kept beside the engine's own so the UI can tell
/// whether back and forward are possible.
#[derive(Debug)]
pub struct TabHistory {
    entries: Vec<String>,
    cursor: usize,
    pending_traversal: bool,
}

impl View for TabHistory {
    type V = TabHistoryView;

    closed spec fn view(&self) -> TabHistoryView {
        TabHistoryView {
            entries: self.entries@.map_values(|s: String| s@),
            cursor: self.cursor as nat,
            pending_traversal: self.pending_traversal,
        }
    }
}

impl TabHistory {
    pub open spec fn wf(&self) -> bool {
        self@.wf()
    }

    /// A list holding only `url`.
    pub fn new(url: String) -> (r: Self)
        ensures
            r.wf(),
            r@.entries == seq![url@],
            r@.cursor == 0,
            !r@.pending_traversal,
    {
        let mut entries = Vec::new();
        entries.push(url);
        let r = TabHistory { entries, cursor: 0, pending_traversal: false };
        assert(r@.entries =~= seq![url@]);
        r
    }

    /// Records that the tab finished loading `url`.
    pub fn record_page_load(&mut self, url: String)
        requires
            old(self).wf(),
        ensures
            final(self).wf(),
            final(self)@ == old(self)@.after_load(url@),
    {
        let ghost old_entries = self.entries@;
        if self.pending_traversal {
            self.pending_traversal = false;
            let c = self.cursor;
            let ghost u = url@;
            self.entries[c] = url;
            assert(self@.entries =~= old(self)@.entries.update(c as int, u));
            return;
        }
        if str_eq(self.entries[self.cursor].as_str(), url.as_str()) {
            return;
        }
        if self.entries.len() == 1 && self.cursor == 0 && is_new_tab_url(self.entries[0].as_str()) {
            let ghost u = url@;
            self.entries[0] = url;
            assert(self@.entries =~= seq![u]);
            return;
        }
        let ghost u = url@;
        self.entries.truncate(self.cursor + 1);
        self.entries.push(url);
        self.cursor = self.entries.len() - 1;
        assert(self@.entries =~= old(self)@.entries.take(old(self)@.cursor as int + 1).push(u));
    }

    /// Steps back; returns whether there was an entry behind the cursor.
    pub fn go_back(&mut self) -> (r: bool)
        requires
            old(self).wf(),
        ensures
            final(self).wf(),
            r == old(self)@.can_go_back(),
            final(self)@ == old(self)@.after_back(),
    {
        if self.cursor == 0 {
            return false;
        }
        self.cursor = self.cursor - 1;
        self.pending_traversal = true;
        true
    }

    /// Steps forward; returns whether there was an entry ahead of the cursor.
    pub fn go_forward(&mut self) -> (r: bool)
        requires
            old(self).wf(),
        ensures
            final(self).wf(),
            r == old(self)@.can_go_forward(),
            final(self)@ == old(self)@.after_forward(),
    {
        let n = self.entries.len();
        assert(self@.entries.len() == n);
        if self.cursor + 1 >= n {
            return false;
        }
        self.cursor = self.cursor + 1;
        self.pending_traversal = true;
        true
    }

    pub fn can_go_back(&self) -> (r: bool)
        ensures
            r == self@.can_go_back(),
    {
        self.cursor > 0
    }

    pub fn can_go_forward(&self) -> (r: bool)
        requires
            self.wf(),
        ensures
            r == self@.can_go_forward(),
    {
        let n = self.entries.len();
        assert(self@.entries.len() == n);
        self.cursor + 1 < n
    }

    /// The recorded URLs, oldest first.
    pub fn entries(&self) -> (r: &[String])
        ensures
            r@.map_values(|s: String| s@) == self@.entries,
    {
        self.entries.as_slice()
    }
}

/// Loading a page never breaks the list, and a load that starts a new branch leaves the
/// cursor on the new last entry with nothing ahead of it.
pub proof fn law_load_keeps_history_well_formed(h: TabHistoryView, url: Seq<char>)
    requires
        h.wf(),
    ensures
        h.after_load(url).wf(),
        h.after_load(url).entries[h.after_load(url).cursor as int] == url,
        !h.after_load(url).pending_traversal,
        !h.pending_traversal && h.entries[h.cursor as int] != url ==> !h.after_load(
            url,
        ).can_go_forward(),
{
}

/// A step back followed by a step forward returns to the same entry (and vice versa),
/// whenever the first step was possible.
pub proof fn law_back_forward_inverse(h: TabHistoryView)
    requires
        h.wf(),
    ensures
        h.can_go_back() ==> h.after_back().after_forward().entries == h.entries
            && h.after_back().after_forward().cursor == h.cursor,
        h.can_go_forward() ==> h.after_forward().after_back().entries == h.entries
            && h.after_forward().after_back().cursor == h.cursor,
        h.after_back().wf(),
        h.after_forward().wf(),
{
}

/// Reloading the page the cursor shows changes nothing, wherever the cursor stands: with no
/// back/forward step waiting to land, a load of the current entry's URL keeps every entry,
/// the cursor, and so the way back and the way forward.
pub proof fn law_reload_changes_nothing(h: TabHistoryView, url: Seq<char>)
    requires
        h.wf(),
        !h.pending_traversal,
        h.entries[h.cursor as int] == url,
    ensures
        h.after_load(url).entries == h.entries,
        h.after_load(url).cursor == h.cursor,
        h.after_load(url).can_go_back() == h.can_go_back(),
        h.after_load(url).can_go_forward() == h.can_go_forward(),
{
}

/// A step back that lands and a reload of the page it landed on keep the forward entry.
pub proof fn law_reload_after_back_keeps_forward(h: TabHistoryView, url: Seq<char>)
    requires
        h.wf(),
        h.can_go_back(),
        h.entries[h.cursor - 1] == url,
    ensures
        h.after_back().after_load(url).after_load(url).entries == h.entries,
        h.after_back().after_load(url).after_load(url).cursor == h.cursor - 1,
        h.after_back().after_load(url).after_load(url).can_go_forward(),
{
    assert(h.entries.update(h.cursor - 1, url) =~= h.entries);
}

} // verus!

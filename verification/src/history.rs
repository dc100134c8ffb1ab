use vstd::prelude::*;

use crate::text::str_eq;

verus! {

/// One page in the browser-wide browsing history.
#[derive(Clone, Debug, PartialEq, Eq)]
pub struct HistoryEntry {
    pub url: String,
    pub title: String,
}

/// A history entry as a pair of URL and title.
pub open spec fn entry_view(e: HistoryEntry) -> (Seq<char>, Seq<char>) {
    (e.url@, e.title@)
}

/// The number of entries a history keeps unless told otherwise.
pub const DEFAULT_HISTORY_CAPACITY: usize = 200;

/// The history after visiting `url` titled `title`: a visit that repeats the latest URL
/// is not recorded; otherwise it is appended and, when that makes the history longer than
/// `capacity`, the oldest entry is dropped.
pub open spec fn recorded(
    v: Seq<(Seq<char>, Seq<char>)>,
    capacity: nat,
    url: Seq<char>,
    title: Seq<char>,
) -> Seq<(Seq<char>, Seq<char>)> {
    if v.len() > 0 && v.last().0 == url {
        v
    } else {
        let w = v.push((url, title));
        if w.len() > capacity {
            w.remove(0)
        } else {
            w
        }
    }
}

/// `i` is the last position of `v` whose URL is `url`.
pub open spec fn is_last_url_index(v: Seq<(Seq<char>, Seq<char>)>, url: Seq<char>, i: int) -> bool {
    &&& 0 <= i < v.len()
    &&& v[i].0 == url
    &&& forall|j: int| i < j < v.len() ==> v[j].0 != url
}

/// The history after renaming the most recent visit of `url` to `title`
/// (unchanged when `url` was never visited).
pub open spec fn retitled(v: Seq<(Seq<char>, Seq<char>)>, url: Seq<char>, title: Seq<char>) -> Seq<
    (Seq<char>, Seq<char>),
> {
    if exists|i: int| is_last_url_index(v, url, i) {
        let i = choose|i: int| is_last_url_index(v, url, i);
        v.update(i, (url, title))
    } else {
        v
    }
}

/// No two neighbouring entries share a URL.
pub open spec fn no_adjacent_repeats(v: Seq<(Seq<char>, Seq<char>)>) -> bool {
    forall|i: int| 0 <= i < v.len() - 1 ==> #[trigger] v[i].0 != v[i + 1].0
}

/// Owns the bounded in-memory browsing history.
#[derive(Debug)]
pub struct HistoryManager {
    entries: Vec<HistoryEntry>,
    capacity: usize,
}

impl View for HistoryManager {
    type V = Seq<(Seq<char>, Seq<char>)>;

    closed spec fn view(&self) -> Seq<(Seq<char>, Seq<char>)> {
        self.entries@.map_values(|e: HistoryEntry| entry_view(e))
    }
}

impl HistoryManager {
    /// The most entries this history keeps.
    pub closed spec fn capacity(&self) -> nat {
        self.capacity as nat
    }

    /// Well-formedness: within capacity, and no visit repeats the one before it.
    pub open spec fn wf(&self) -> bool {
        &&& self@.len() <= self.capacity()
        &&& no_adjacent_repeats(self@)
    }

    pub fn new() -> (r: Self)
        ensures
            r.wf(),
            r@ == Seq::<(Seq<char>, Seq<char>)>::empty(),
            r.capacity() == DEFAULT_HISTORY_CAPACITY,
    {
        Self::with_capacity(DEFAULT_HISTORY_CAPACITY)
    }

    /// An empty history that keeps at most `capacity` entries.
    pub fn with_capacity(capacity: usize) -> (r: Self)
        ensures
            r.wf(),
            r@ == Seq::<(Seq<char>, Seq<char>)>::empty(),
            r.capacity() == capacity,
    {
        let r = HistoryManager { entries: Vec::new(), capacity };
        assert(r@ =~= Seq::<(Seq<char>, Seq<char>)>::empty());
        r
    }

    /// Records a navigation unless it repeats the most recent URL.
    pub fn record(&mut self, url: &str, title: &str)
        requires
            old(self).wf(),
        ensures
            final(self).wf(),
            final(self).capacity() == old(self).capacity(),
            final(self)@ == recorded(old(self)@, old(self).capacity(), url@, title@),
    {
        let n = self.entries.len();
        if n > 0 && str_eq(self.entries[n - 1].url.as_str(), url) {
            return;
        }
        let ghost v = self@;
        self.entries.push(HistoryEntry { url: url.to_owned(), title: title.to_owned() });
        assert(self@ =~= v.push((url@, title@)));
        proof {
            lemma_push_keeps_no_repeats(v, url@, title@);
        }
        if self.entries.len() > self.capacity {
            let ghost w = self@;
            self.entries.remove(0);
            assert(self@ =~= w.remove(0));
            proof {
                lemma_drop_first_keeps_no_repeats(w);
            }
        }
    }

    /// Forgets every entry.
    pub fn clear(&mut self)
        requires
            old(self).wf(),
        ensures
            final(self).wf(),
            final(self).capacity() == old(self).capacity(),
            final(self)@ == Seq::<(Seq<char>, Seq<char>)>::empty(),
    {
        self.entries.clear();
        assert(self@ =~= Seq::<(Seq<char>, Seq<char>)>::empty());
    }

    /// Renames the most recent visit of `url`, if any.
    pub fn update_latest_title(&mut self, url: &str, title: &str)
        requires
            old(self).wf(),
        ensures
            final(self).wf(),
            final(self).capacity() == old(self).capacity(),
            final(self)@ == retitled(old(self)@, url@, title@),
    {
        let n = self.entries.len();
        let mut k: usize = n;
        while k > 0
            invariant
                n == self.entries@.len(),
                self@ == old(self)@,
                self.capacity == old(self).capacity,
                no_adjacent_repeats(self@),
                self@.len() <= self.capacity(),
                k <= n,
                forall|j: int| k <= j < n ==> self@[j].0 != url@,
            decreases k,
        {
            let i = k - 1;
            if str_eq(self.entries[i].url.as_str(), url) {
                let ghost v = self@;
                assert(is_last_url_index(v, url@, i as int));
                proof {
                    let c = choose|c: int| is_last_url_index(v, url@, c);
                    if c < i {
                        assert(v[i as int].0 != url@);
                    }
                    if i < c {
                        assert(v[c].0 != url@);
                    }
                }
                self.entries[i].title = title.to_owned();
                assert(self@ =~= v.update(i as int, (url@, title@)));
                proof {
                    assert forall|j: int| 0 <= j < self@.len() - 1 implies #[trigger] self@[j].0
                        != self@[j + 1].0 by {
                        assert(self@[j].0 == v[j].0);
                        assert(self@[j + 1].0 == v[j + 1].0);
                    }
                }
                return;
            }
            k = i;
        }
        proof {
            let v = self@;
            if exists|i: int| is_last_url_index(v, url@, i) {
                let c = choose|c: int| is_last_url_index(v, url@, c);
                assert(v[c].0 != url@);
            }
        }
    }

    /// The entries, oldest first.
    pub fn entries(&self) -> (r: &[HistoryEntry])
        ensures
            r@.map_values(|e: HistoryEntry| entry_view(e)) == self@,
    {
        self.entries.as_slice()
    }
}

impl Default for HistoryManager {
    fn default() -> (r: Self)
        ensures
            r.wf(),
            r@ == Seq::<(Seq<char>, Seq<char>)>::empty(),
            r.capacity() == DEFAULT_HISTORY_CAPACITY,
    {
        Self::with_capacity(DEFAULT_HISTORY_CAPACITY)
    }
}

/// Appending an entry whose URL differs from the latest keeps neighbours distinct.
proof fn lemma_push_keeps_no_repeats(
    v: Seq<(Seq<char>, Seq<char>)>,
    url: Seq<char>,
    title: Seq<char>,
)
    requires
        no_adjacent_repeats(v),
        !(v.len() > 0 && v.last().0 == url),
    ensures
        no_adjacent_repeats(v.push((url, title))),
{
    let w = v.push((url, title));
    assert forall|i: int| 0 <= i < w.len() - 1 implies #[trigger] w[i].0 != w[i + 1].0 by {
        assert(w[i] == v[i]);
        if i + 1 < v.len() {
            assert(w[i + 1] == v[i + 1]);
        }
    }
}

/// Dropping the oldest entry keeps neighbours distinct.
proof fn lemma_drop_first_keeps_no_repeats(w: Seq<(Seq<char>, Seq<char>)>)
    requires
        no_adjacent_repeats(w),
        w.len() > 0,
    ensures
        no_adjacent_repeats(w.remove(0)),
{
    let u = w.remove(0);
    assert forall|i: int| 0 <= i < u.len() - 1 implies #[trigger] u[i].0 != u[i + 1].0 by {
        assert(u[i] == w[i + 1]);
        assert(u[i + 1] == w[i + 2]);
    }
}

/// Recording never lets the history outgrow its capacity, never stores a visit right after
/// an identical one, and (for a non-zero capacity) leaves the visited URL as the latest entry.
pub proof fn law_record_bounded(
    v: Seq<(Seq<char>, Seq<char>)>,
    capacity: nat,
    url: Seq<char>,
    title: Seq<char>,
)
    requires
        v.len() <= capacity,
        no_adjacent_repeats(v),
    ensures
        recorded(v, capacity, url, title).len() <= capacity,
        no_adjacent_repeats(recorded(v, capacity, url, title)),
        capacity > 0 ==> recorded(v, capacity, url, title).last().0 == url,
{
    if !(v.len() > 0 && v.last().0 == url) {
        lemma_push_keeps_no_repeats(v, url, title);
        let w = v.push((url, title));
        if w.len() > capacity {
            lemma_drop_first_keeps_no_repeats(w);
            if capacity > 0 {
                assert(w.remove(0)[w.len() - 2] == w[w.len() - 1]);
            }
        }
    }
}

/// Recording the same URL twice in a row stores it once: the second visit changes nothing.
pub proof fn law_record_idempotent(
    v: Seq<(Seq<char>, Seq<char>)>,
    capacity: nat,
    url: Seq<char>,
    title: Seq<char>,
    other_title: Seq<char>,
)
    requires
        capacity > 0,
        v.len() <= capacity,
        no_adjacent_repeats(v),
    ensures
        recorded(recorded(v, capacity, url, title), capacity, url, other_title) == recorded(
            v,
            capacity,
            url,
            title,
        ),
{
    law_record_bounded(v, capacity, url, title);
}

/// The history after recording each visit of `visits` in turn, starting from `v`.
pub open spec fn recorded_all(
    v: Seq<(Seq<char>, Seq<char>)>,
    capacity: nat,
    visits: Seq<(Seq<char>, Seq<char>)>,
) -> Seq<(Seq<char>, Seq<char>)>
    decreases visits.len(),
{
    if visits.len() == 0 {
        v
    } else {
        let last = visits.last();
        recorded(recorded_all(v, capacity, visits.drop_last()), capacity, last.0, last.1)
    }
}

/// A fresh history that records a run of visits, none repeating the URL of the visit just
/// before it, holds exactly the last `capacity` of them (all of them while there are fewer),
/// oldest first.
pub proof fn law_history_keeps_the_latest_visits(
    capacity: nat,
    visits: Seq<(Seq<char>, Seq<char>)>,
)
    requires
        no_adjacent_repeats(visits),
    ensures
        recorded_all(Seq::empty(), capacity, visits) == visits.subrange(
            if visits.len() > capacity {
                visits.len() - capacity
            } else {
                0
            },
            visits.len() as int,
        ),
    decreases visits.len(),
{
    let n = visits.len() as int;
    if n == 0 {
        assert(visits.subrange(0, 0) =~= Seq::<(Seq<char>, Seq<char>)>::empty());
    } else {
        let w = visits.drop_last();
        assert forall|i: int| 0 <= i < w.len() - 1 implies #[trigger] w[i].0 != w[i + 1].0 by {
            assert(w[i] == visits[i]);
            assert(w[i + 1] == visits[i + 1]);
        }
        law_history_keeps_the_latest_visits(capacity, w);
        let start = if n - 1 > capacity {
            n - 1 - capacity
        } else {
            0
        };
        let r = recorded_all(Seq::empty(), capacity, w);
        assert(r == w.subrange(start, n - 1));
        if r.len() > 0 {
            assert(r.last() == visits[n - 2]);
            assert(visits[n - 2].0 != visits[n - 1].0);
        }
        let pushed = r.push(visits.last());
        assert(pushed =~= visits.subrange(start, n));
        if pushed.len() > capacity {
            assert(pushed.remove(0) =~= visits.subrange(start + 1, n));
        }
    }
}

/// Renaming a page renames its most recent visit, wherever that visit stands in the history,
/// and leaves every other entry as it was: when `i` is the last position whose URL is `url`,
/// the entry at `i` becomes `(url, title)`; when no entry has that URL, nothing changes.
pub proof fn law_retitle_renames_the_latest_visit(
    v: Seq<(Seq<char>, Seq<char>)>,
    url: Seq<char>,
    title: Seq<char>,
    i: int,
)
    requires
        0 <= i < v.len(),
        v[i].0 == url,
        forall|j: int| i < j < v.len() ==> v[j].0 != url,
    ensures
        retitled(v, url, title).len() == v.len(),
        retitled(v, url, title)[i] == (url, title),
        forall|j: int| 0 <= j < v.len() && j != i ==> #[trigger] retitled(v, url, title)[j] == v[j],
{
    assert(is_last_url_index(v, url, i));
    let c = choose|c: int| is_last_url_index(v, url, c);
    if c < i {
        assert(v[i].0 != url);
    }
    if i < c {
        assert(v[c].0 != url);
    }
}

/// Renaming a page that was never visited changes nothing.
pub proof fn law_retitle_unvisited_changes_nothing(
    v: Seq<(Seq<char>, Seq<char>)>,
    url: Seq<char>,
    title: Seq<char>,
)
    requires
        forall|j: int| 0 <= j < v.len() ==> v[j].0 != url,
    ensures
        retitled(v, url, title) == v,
{
}

} // verus!

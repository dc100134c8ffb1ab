use vstd::prelude::*;

use crate::text::str_eq;

verus! {

/// A bookmark kept for the lifetime of the browser process.
#[derive(Clone, Debug, PartialEq, Eq)]
pub struct Bookmark {
    pub url: String,
    pub title: String,
}

/// A bookmark as a pair of URL and title.
pub open spec fn bookmark_view(b: Bookmark) -> (Seq<char>, Seq<char>) {
    (b.url@, b.title@)
}

/// Some entry of `v` has URL `url`.
pub open spec fn has_url(v: Seq<(Seq<char>, Seq<char>)>, url: Seq<char>) -> bool {
    exists|i: int| 0 <= i < v.len() && v[i].0 == url
}

/// `i` is the first position of `v` whose URL is `url`.
pub open spec fn is_first_url_index(v: Seq<(Seq<char>, Seq<char>)>, url: Seq<char>, i: int) -> bool {
    &&& 0 <= i < v.len()
    &&& v[i].0 == url
    &&& forall|j: int| 0 <= j < i ==> v[j].0 != url
}

/// The first position of `v` whose URL is `url` (meaningful when `has_url(v, url)`).
pub open spec fn first_url_index(v: Seq<(Seq<char>, Seq<char>)>, url: Seq<char>) -> int {
    choose|i: int| is_first_url_index(v, url, i)
}

/// `v` without the first entry for `url`, or `v` itself when there is none.
pub open spec fn without_url(v: Seq<(Seq<char>, Seq<char>)>, url: Seq<char>) -> Seq<
    (Seq<char>, Seq<char>),
> {
    if has_url(v, url) {
        v.remove(first_url_index(v, url))
    } else {
        v
    }
}

/// The effect of toggling `url`: remove its entry when present, else append it with `title`.
pub open spec fn toggled(v: Seq<(Seq<char>, Seq<char>)>, url: Seq<char>, title: Seq<char>) -> Seq<
    (Seq<char>, Seq<char>),
> {
    if has_url(v, url) {
        without_url(v, url)
    } else {
        v.push((url, title))
    }
}

/// No URL occurs twice in `v`.
pub open spec fn urls_unique(v: Seq<(Seq<char>, Seq<char>)>) -> bool {
    forall|i: int, j: int| 0 <= i < j < v.len() ==> v[i].0 != v[j].0
}

/// Owns the in-memory bookmark list.
#[derive(Debug)]
pub struct BookmarkManager {
    bookmarks: Vec<Bookmark>,
}

impl View for BookmarkManager {
    type V = Seq<(Seq<char>, Seq<char>)>;

    closed spec fn view(&self) -> Seq<(Seq<char>, Seq<char>)> {
        self.bookmarks@.map_values(|b: Bookmark| bookmark_view(b))
    }
}

impl BookmarkManager {
    /// Well-formedness: every URL is bookmarked at most once.
    pub open spec fn wf(&self) -> bool {
        urls_unique(self@)
    }

    pub fn new() -> (r: Self)
        ensures
            r.wf(),
            r@ == Seq::<(Seq<char>, Seq<char>)>::empty(),
    {
        let r = BookmarkManager { bookmarks: Vec::new() };
        assert(r@ =~= Seq::<(Seq<char>, Seq<char>)>::empty());
        r
    }

    /// The position of the first bookmark for `url`.
    fn position(&self, url: &str) -> (r: Option<usize>)
        ensures
            r is None <==> !has_url(self@, url@),
            r matches Some(i) ==> i == first_url_index(self@, url@) && is_first_url_index(
                self@,
                url@,
                i as int,
            ),
    {
        let n = self.bookmarks.len();
        let mut i: usize = 0;
        while i < n
            invariant
                n == self.bookmarks@.len(),
                self@.len() == n,
                i <= n,
                forall|j: int| 0 <= j < i ==> self@[j].0 != url@,
            decreases n - i,
        {
            if str_eq(self.bookmarks[i].url.as_str(), url) {
                proof {
                    assert(is_first_url_index(self@, url@, i as int));
                    let k = first_url_index(self@, url@);
                    assert(is_first_url_index(self@, url@, k));
                    if k < i {
                        assert(self@[k].0 != url@);
                    }
                    if i < k {
                        assert(self@[i as int].0 != url@);
                    }
                }
                return Some(i);
            }
            i = i + 1;
        }
        None
    }

    /// Removes the entry at position `i`.
    fn remove_at(&mut self, i: usize)
        requires
            i < old(self)@.len(),
        ensures
            final(self)@ == old(self)@.remove(i as int),
    {
        self.bookmarks.remove(i);
        assert(self@ =~= old(self)@.remove(i as int));
    }

    /// Adds a bookmark for a new URL or removes the existing bookmark.
    ///
    /// Returns `true` when the bookmark was added and `false` when it was removed.
    pub fn toggle(&mut self, url: &str, title: &str) -> (r: bool)
        requires
            old(self).wf(),
        ensures
            final(self).wf(),
            r == !has_url(old(self)@, url@),
            final(self)@ == toggled(old(self)@, url@, title@),
    {
        match self.position(url) {
            Some(i) => {
                self.remove_at(i);
                proof {
                    lemma_remove_keeps_unique(old(self)@, i as int);
                }
                false
            },
            None => {
                self.bookmarks.push(Bookmark { url: url.to_owned(), title: title.to_owned() });
                assert(self@ =~= old(self)@.push((url@, title@)));
                true
            },
        }
    }

    /// Removes a bookmark by URL. Returns `true` if it existed.
    pub fn remove(&mut self, url: &str) -> (r: bool)
        requires
            old(self).wf(),
        ensures
            final(self).wf(),
            r == has_url(old(self)@, url@),
            final(self)@ == without_url(old(self)@, url@),
    {
        match self.position(url) {
            Some(i) => {
                self.remove_at(i);
                proof {
                    lemma_remove_keeps_unique(old(self)@, i as int);
                }
                true
            },
            None => false,
        }
    }

    /// Whether `url` is bookmarked.
    pub fn contains(&self, url: &str) -> (r: bool)
        ensures
            r == has_url(self@, url@),
    {
        self.position(url).is_some()
    }

    /// The bookmarks, oldest first.
    pub fn bookmarks(&self) -> (r: &[Bookmark])
        ensures
            r@.map_values(|b: Bookmark| bookmark_view(b)) == self@,
    {
        self.bookmarks.as_slice()
    }
}

impl Default for BookmarkManager {
    fn default() -> (r: Self)
        ensures
            r.wf(),
            r@ == Seq::<(Seq<char>, Seq<char>)>::empty(),
    {
        BookmarkManager::new()
    }
}

/// Removing one entry keeps URLs unique.
proof fn lemma_remove_keeps_unique(v: Seq<(Seq<char>, Seq<char>)>, i: int)
    requires
        urls_unique(v),
        0 <= i < v.len(),
    ensures
        urls_unique(v.remove(i)),
{
    let w = v.remove(i);
    assert forall|a: int, b: int| 0 <= a < b < w.len() implies w[a].0 != w[b].0 by {
        let oa = if a < i { a } else { a + 1 };
        let ob = if b < i { b } else { b + 1 };
        assert(w[a] == v[oa]);
        assert(w[b] == v[ob]);
    }
}

/// The first position of a URL is the only position satisfying the "first" condition.
proof fn lemma_first_url_index(v: Seq<(Seq<char>, Seq<char>)>, url: Seq<char>, i: int)
    requires
        is_first_url_index(v, url, i),
    ensures
        first_url_index(v, url) == i,
{
    let k = first_url_index(v, url);
    assert(is_first_url_index(v, url, k));
    if k < i {
        assert(v[k].0 != url);
    }
    if i < k {
        assert(v[i].0 != url);
    }
}

/// Toggling a URL that is not bookmarked, and then toggling it again (with any title),
/// leaves the bookmark list exactly as it was.
pub proof fn law_toggle_twice_restores(
    v: Seq<(Seq<char>, Seq<char>)>,
    url: Seq<char>,
    title: Seq<char>,
    other_title: Seq<char>,
)
    requires
        !has_url(v, url),
    ensures
        toggled(toggled(v, url, title), url, other_title) == v,
{
    let w = v.push((url, title));
    assert(w[v.len() as int].0 == url);
    assert(has_url(w, url));
    assert forall|j: int| 0 <= j < v.len() implies w[j].0 != url by {
        assert(w[j] == v[j]);
    }
    lemma_first_url_index(w, url, v.len() as int);
    assert(w.remove(v.len() as int) =~= v);
}

/// After a toggle, the URL is bookmarked exactly when the toggle reported an addition,
/// and URLs stay unique.
pub proof fn law_toggle_membership(v: Seq<(Seq<char>, Seq<char>)>, url: Seq<char>, title: Seq<char>)
    requires
        urls_unique(v),
    ensures
        has_url(toggled(v, url, title), url) == !has_url(v, url),
        urls_unique(toggled(v, url, title)),
{
    if has_url(v, url) {
        let i0 = choose|i: int| 0 <= i < v.len() && v[i].0 == url;
        assert forall|j: int| 0 <= j < i0 implies v[j].0 != url by {
            assert(v[j].0 != v[i0].0);
        }
        lemma_first_url_index(v, url, i0);
        let w = v.remove(i0);
        lemma_remove_keeps_unique(v, i0);
        if has_url(w, url) {
            let j = choose|j: int| 0 <= j < w.len() && w[j].0 == url;
            let oj = if j < i0 { j } else { j + 1 };
            assert(w[j] == v[oj]);
            if oj < i0 {
                assert(v[oj].0 != v[i0].0);
            } else {
                assert(v[i0].0 != v[oj].0);
            }
        }
    } else {
        let w = v.push((url, title));
        assert(w[v.len() as int].0 == url);
        assert forall|a: int, b: int| 0 <= a < b < w.len() implies w[a].0 != w[b].0 by {
            if b == v.len() {
                assert(w[a] == v[a]);
            } else {
                assert(w[a] == v[a]);
                assert(w[b] == v[b]);
            }
        }
    }
}

/// One call on a bookmark list: `toggle(url, title)` or `remove(url)`.
pub enum BookmarkCall {
    Toggle(Seq<char>, Seq<char>),
    Remove(Seq<char>),
}

/// The bookmarks after `calls`, made in turn on an empty list, as the contracts of `toggle`
/// and `remove` state each step.
pub open spec fn bookmarks_after(calls: Seq<BookmarkCall>) -> Seq<(Seq<char>, Seq<char>)>
    decreases calls.len(),
{
    if calls.len() == 0 {
        Seq::empty()
    } else {
        let v = bookmarks_after(calls.drop_last());
        match calls.last() {
            BookmarkCall::Toggle(url, title) => toggled(v, url, title),
            BookmarkCall::Remove(url) => without_url(v, url),
        }
    }
}

/// The bookmarks that `calls` added, in the order they were added.
pub open spec fn bookmarks_added(calls: Seq<BookmarkCall>) -> Seq<(Seq<char>, Seq<char>)>
    decreases calls.len(),
{
    if calls.len() == 0 {
        Seq::empty()
    } else {
        let before = calls.drop_last();
        match calls.last() {
            BookmarkCall::Toggle(url, title) => if has_url(bookmarks_after(before), url) {
                bookmarks_added(before)
            } else {
                bookmarks_added(before).push((url, title))
            },
            BookmarkCall::Remove(_) => bookmarks_added(before),
        }
    }
}

/// `idx` picks the entries of `v` out of `added`, in order: `v` is `added` with some
/// entries left out.
pub open spec fn picks_in_order(
    v: Seq<(Seq<char>, Seq<char>)>,
    added: Seq<(Seq<char>, Seq<char>)>,
    idx: Seq<int>,
) -> bool {
    &&& idx.len() == v.len()
    &&& forall|k: int| 0 <= k < v.len() ==> 0 <= #[trigger] idx[k] < added.len() && v[k] == added[idx[k]]
    &&& forall|a: int, b: int| 0 <= a < b < idx.len() ==> #[trigger] idx[a] < #[trigger] idx[b]
}

/// Over any run of `toggle` and `remove` calls on a new bookmark list, no URL is bookmarked
/// twice and the bookmarks stay in the order they were added, oldest first: the list is the
/// added bookmarks with the removed ones left out.
pub proof fn law_bookmarks_keep_their_order(calls: Seq<BookmarkCall>)
    ensures
        urls_unique(bookmarks_after(calls)),
        exists|idx: Seq<int>| picks_in_order(bookmarks_after(calls), bookmarks_added(calls), idx),
{
    let idx = lemma_bookmark_run(calls);
}

/// The run law, with the positions of the bookmarks among the added ones.
proof fn lemma_bookmark_run(calls: Seq<BookmarkCall>) -> (idx: Seq<int>)
    ensures
        urls_unique(bookmarks_after(calls)),
        picks_in_order(bookmarks_after(calls), bookmarks_added(calls), idx),
    decreases calls.len(),
{
    if calls.len() == 0 {
        Seq::empty()
    } else {
        let before = calls.drop_last();
        let idx0 = lemma_bookmark_run(before);
        let v = bookmarks_after(before);
        let added = bookmarks_added(before);
        let url = match calls.last() {
            BookmarkCall::Toggle(u, _) => u,
            BookmarkCall::Remove(u) => u,
        };
        if has_url(v, url) {
            let p = first_url_index(v, url);
            lemma_has_url_first(v, url);
            lemma_remove_keeps_unique(v, p);
            let w = v.remove(p);
            let idx = idx0.remove(p);
            assert(bookmarks_after(calls) == w);
            assert(bookmarks_added(calls) == added);
            assert forall|k: int| 0 <= k < w.len() implies 0 <= #[trigger] idx[k] < added.len()
                && w[k] == added[idx[k]] by {
                if k < p {
                    assert(idx[k] == idx0[k]);
                } else {
                    assert(idx[k] == idx0[k + 1]);
                }
            }
            assert forall|a: int, b: int| 0 <= a < b < idx.len() implies #[trigger] idx[a]
                < #[trigger] idx[b] by {
                let oa = if a < p { a } else { a + 1 };
                let ob = if b < p { b } else { b + 1 };
                assert(idx[a] == idx0[oa]);
                assert(idx[b] == idx0[ob]);
            }
            idx
        } else {
            match calls.last() {
                BookmarkCall::Toggle(u, t) => {
                    law_toggle_membership(v, u, t);
                    let w = v.push((u, t));
                    let added1 = added.push((u, t));
                    let idx = idx0.push(added.len() as int);
                    assert(bookmarks_after(calls) == w);
                    assert(bookmarks_added(calls) == added1);
                    assert forall|k: int| 0 <= k < w.len() implies 0 <= #[trigger] idx[k]
                        < added1.len() && w[k] == added1[idx[k]] by {
                        if k < v.len() {
                            assert(idx[k] == idx0[k]);
                        }
                    }
                    assert forall|a: int, b: int| 0 <= a < b < idx.len() implies #[trigger] idx[a]
                        < #[trigger] idx[b] by {
                        assert(idx[a] == idx0[a]);
                        if b < v.len() {
                            assert(idx[b] == idx0[b]);
                        }
                    }
                    idx
                },
                BookmarkCall::Remove(u) => {
                    assert(bookmarks_after(calls) == v);
                    idx0
                },
            }
        }
    }
}

/// A bookmarked URL has a first position.
proof fn lemma_has_url_first(v: Seq<(Seq<char>, Seq<char>)>, url: Seq<char>)
    requires
        has_url(v, url),
    ensures
        is_first_url_index(v, url, first_url_index(v, url)),
{
    let i = choose|i: int| 0 <= i < v.len() && v[i].0 == url;
    lemma_some_first_url(v, url, i);
}

/// A URL found at `i` has a first position.
proof fn lemma_some_first_url(v: Seq<(Seq<char>, Seq<char>)>, url: Seq<char>, i: int)
    requires
        0 <= i < v.len(),
        v[i].0 == url,
    ensures
        exists|k: int| is_first_url_index(v, url, k),
    decreases i,
{
    if forall|j: int| 0 <= j < i ==> v[j].0 != url {
        assert(is_first_url_index(v, url, i));
    } else {
        let j = choose|j: int| 0 <= j < i && v[j].0 == url;
        lemma_some_first_url(v, url, j);
    }
}

} // verus!

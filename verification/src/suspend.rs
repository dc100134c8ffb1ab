//! When background tabs are suspended to free memory.
//!
//! Times are milliseconds on a monotonic clock chosen by the caller; every background tab
//! remembers when it last lost focus, and becomes eligible for suspension once it has been
//! idle for the grace period.

use std::collections::BTreeMap;

use vstd::prelude::*;

use crate::tabs::TabId;

verus! {

/// When the tab with key `id` becomes eligible for suspension: never while it is the
/// selected tab or plays media, never when it has not been seen losing focus, and otherwise
/// `grace` after it last lost focus.
pub open spec fn suspend_deadline(
    id: u64,
    last_active: Map<u64, u64>,
    playing_media: Map<u64, bool>,
    active: Option<u64>,
    grace: u64,
) -> Option<int> {
    if active == Some(id) || (playing_media.contains_key(id) && playing_media[id]) {
        None
    } else if last_active.contains_key(id) {
        Some(last_active[id] + grace)
    } else {
        None
    }
}

/// The deadline of `id` is due at time `now`.
pub open spec fn suspend_due(
    id: u64,
    last_active: Map<u64, u64>,
    playing_media: Map<u64, bool>,
    active: Option<u64>,
    grace: u64,
    now: u64,
) -> bool {
    match suspend_deadline(id, last_active, playing_media, active, grace) {
        Some(d) => d <= now,
        None => false,
    }
}

/// Every remembered time plus `grace` stays within the clock's range.
pub open spec fn deadlines_fit(last_active: Map<u64, u64>, grace: u64) -> bool {
    forall|k: u64| #[trigger] last_active.contains_key(k) ==> last_active[k] + grace <= u64::MAX
}

/// The key of an optional tab identifier.
pub open spec fn key_of(id: Option<TabId>) -> Option<u64> {
    match id {
        Some(t) => Some(t.value()),
        None => None,
    }
}

/// When the tab `id` may be suspended.
///
/// Only reads when the tab last lost focus; whether it is still loaded does not matter, so
/// a later change of the grace period never brings a suspended tab back.
pub fn tab_suspend_deadline(
    id: TabId,
    last_active: &BTreeMap<u64, u64>,
    playing_media: &BTreeMap<u64, bool>,
    active: Option<TabId>,
    grace: u64,
) -> (r: Option<u64>)
    requires
        deadlines_fit(last_active@, grace),
    ensures
        match r {
            Some(d) => suspend_deadline(
                id.value(),
                last_active@,
                playing_media@,
                key_of(active),
                grace,
            ) == Some(d as int),
            None => suspend_deadline(
                id.value(),
                last_active@,
                playing_media@,
                key_of(active),
                grace,
            ) is None,
        },
{
    let key = id.get();
    let is_active = match active {
        Some(a) => a.get() == key,
        None => false,
    };
    let playing = match playing_media.get(&key) {
        Some(p) => *p,
        None => false,
    };
    if is_active || playing {
        return None;
    }
    match last_active.get(&key) {
        Some(t) => {
            assert(last_active@.contains_key(key));
            Some(*t + grace)
        },
        None => None,
    }
}

/// Restarts the grace period of every tab in `backgrounded`, as if each had just lost focus
/// at `now`, so that time spent while suspension was switched off does not count.
pub fn restart_tab_suspend_grace(backgrounded: &[TabId], last_active: &mut BTreeMap<u64, u64>, now: u64)
    ensures
        forall|k: u64|
            #[trigger] final(last_active)@.contains_key(k) <==> (old(last_active)@.contains_key(k)
                || exists|i: int| 0 <= i < backgrounded@.len() && backgrounded@[i].value() == k),
        forall|k: u64|
            #[trigger] final(last_active)@.contains_key(k) ==> final(last_active)@[k] == if exists|
                i: int,
            |
                0 <= i < backgrounded@.len() && backgrounded@[i].value() == k {
                now
            } else {
                old(last_active)@[k]
            },
{
    let n = backgrounded.len();
    let mut i: usize = 0;
    while i < n
        invariant
            n == backgrounded@.len(),
            i <= n,
            forall|k: u64|
                #[trigger] last_active@.contains_key(k) <==> (old(last_active)@.contains_key(k)
                    || exists|j: int| 0 <= j < i && backgrounded@[j].value() == k),
            forall|k: u64|
                #[trigger] last_active@.contains_key(k) ==> last_active@[k] == if exists|j: int|
                    0 <= j < i && backgrounded@[j].value() == k {
                    now
                } else {
                    old(last_active)@[k]
                },
        decreases n - i,
    {
        let key = backgrounded[i].get();
        last_active.insert(key, now);
        proof {
            assert forall|k: u64| #[trigger]
                last_active@.contains_key(k) <==> (old(last_active)@.contains_key(k) || exists|
                    j: int,
                | 0 <= j < i + 1 && backgrounded@[j].value() == k) by {
                if k == key {
                    assert(backgrounded@[i as int].value() == k);
                }
            }
            assert forall|k: u64| #[trigger] last_active@.contains_key(k) implies last_active@[k]
                == if exists|j: int| 0 <= j < i + 1 && backgrounded@[j].value() == k {
                now
            } else {
                old(last_active)@[k]
            } by {
                if k == key {
                    assert(backgrounded@[i as int].value() == k);
                } else {
                    if exists|j: int| 0 <= j < i + 1 && backgrounded@[j].value() == k {
                        let j = choose|j: int| 0 <= j < i + 1 && backgrounded@[j].value() == k;
                        assert(j != i);
                    }
                }
            }
        }
        i = i + 1;
    }
}

/// The earliest moment at which one of the loaded tabs `loaded` becomes eligible for
/// suspension, so the event loop knows when to wake up next.
pub fn next_tab_suspend_deadline(
    loaded: &[TabId],
    last_active: &BTreeMap<u64, u64>,
    playing_media: &BTreeMap<u64, bool>,
    active: Option<TabId>,
    grace: u64,
) -> (r: Option<u64>)
    requires
        deadlines_fit(last_active@, grace),
    ensures
        r is None <==> forall|i: int|
            0 <= i < loaded@.len() ==> #[trigger] suspend_deadline(
                loaded@[i].value(),
                last_active@,
                playing_media@,
                key_of(active),
                grace,
            ) is None,
        r matches Some(d) ==> {
            &&& exists|i: int|
                0 <= i < loaded@.len() && #[trigger] suspend_deadline(
                    loaded@[i].value(),
                    last_active@,
                    playing_media@,
                    key_of(active),
                    grace,
                ) == Some(d as int)
            &&& forall|i: int|
                0 <= i < loaded@.len() ==> match #[trigger] suspend_deadline(
                    loaded@[i].value(),
                    last_active@,
                    playing_media@,
                    key_of(active),
                    grace,
                ) {
                    Some(e) => d <= e,
                    None => true,
                }
        },
{
    let n = loaded.len();
    let mut best: Option<u64> = None;
    let mut i: usize = 0;
    while i < n
        invariant
            n == loaded@.len(),
            i <= n,
            deadlines_fit(last_active@, grace),
            best is None <==> forall|j: int|
                0 <= j < i ==> #[trigger] suspend_deadline(
                    loaded@[j].value(),
                    last_active@,
                    playing_media@,
                    key_of(active),
                    grace,
                ) is None,
            best matches Some(d) ==> {
                &&& exists|j: int|
                    0 <= j < i && #[trigger] suspend_deadline(
                        loaded@[j].value(),
                        last_active@,
                        playing_media@,
                        key_of(active),
                        grace,
                    ) == Some(d as int)
                &&& forall|j: int|
                    0 <= j < i ==> match #[trigger] suspend_deadline(
                        loaded@[j].value(),
                        last_active@,
                        playing_media@,
                        key_of(active),
                        grace,
                    ) {
                        Some(e) => d <= e,
                        None => true,
                    }
            },
        decreases n - i,
    {
        let candidate = tab_suspend_deadline(loaded[i], last_active, playing_media, active, grace);
        let ghost prev = best;
        match candidate {
            Some(c) => {
                match best {
                    Some(b) => {
                        if c < b {
                            best = Some(c);
                        }
                    },
                    None => {
                        best = Some(c);
                    },
                }
            },
            None => {},
        }
        proof {
            let di = suspend_deadline(
                loaded@[i as int].value(),
                last_active@,
                playing_media@,
                key_of(active),
                grace,
            );
            if let Some(d) = best {
                if best == candidate {
                    assert(di == Some(d as int));
                } else {
                    let j = choose|j: int|
                        0 <= j < i && #[trigger] suspend_deadline(
                            loaded@[j].value(),
                            last_active@,
                            playing_media@,
                            key_of(active),
                            grace,
                        ) == Some(d as int);
                    assert(0 <= j < i + 1);
                }
            }
        }
        i = i + 1;
    }
    best
}

/// The loaded tabs, in the order given, whose suspension deadline has passed at `now`.
pub open spec fn due_tabs(
    loaded: Seq<TabId>,
    last_active: Map<u64, u64>,
    playing_media: Map<u64, bool>,
    active: Option<u64>,
    grace: u64,
    now: u64,
) -> Seq<TabId> {
    loaded.filter(|t: TabId| suspend_due(t.value(), last_active, playing_media, active, grace, now))
}

/// The loaded tabs `loaded` whose idle time has run out at `now`; their views can be dropped.
pub fn tabs_to_suspend(
    loaded: &[TabId],
    last_active: &BTreeMap<u64, u64>,
    playing_media: &BTreeMap<u64, bool>,
    active: Option<TabId>,
    grace: u64,
    now: u64,
) -> (r: Vec<TabId>)
    requires
        deadlines_fit(last_active@, grace),
    ensures
        r@ == due_tabs(loaded@, last_active@, playing_media@, key_of(active), grace, now),
{
    let ghost pred = |t: TabId|
        suspend_due(t.value(), last_active@, playing_media@, key_of(active), grace, now);
    let n = loaded.len();
    let mut out: Vec<TabId> = Vec::new();
    let mut i: usize = 0;
    while i < n
        invariant
            n == loaded@.len(),
            i <= n,
            deadlines_fit(last_active@, grace),
            pred == (|t: TabId|
                suspend_due(t.value(), last_active@, playing_media@, key_of(active), grace, now)),
            out@ == loaded@.take(i as int).filter(pred),
        decreases n - i,
    {
        reveal_with_fuel(Seq::<_>::filter, 1);
        let id = loaded[i];
        let due = match tab_suspend_deadline(id, last_active, playing_media, active, grace) {
            Some(d) => d <= now,
            None => false,
        };
        if due {
            out.push(id);
        }
        assert(loaded@.take(i + 1).drop_last() =~= loaded@.take(i as int));
        i = i + 1;
    }
    assert(loaded@.take(n as int) =~= loaded@);
    out
}

/// The selected tab and tabs playing media are never suspended.
pub proof fn law_active_and_playing_never_suspended(
    id: u64,
    last_active: Map<u64, u64>,
    playing_media: Map<u64, bool>,
    active: Option<u64>,
    grace: u64,
    now: u64,
)
    requires
        active == Some(id) || (playing_media.contains_key(id) && playing_media[id]),
    ensures
        suspend_deadline(id, last_active, playing_media, active, grace) is None,
        !suspend_due(id, last_active, playing_media, active, grace, now),
{
}

/// Right after the grace period restarts at `now`, a positive grace period keeps every
/// restarted tab loaded: none of them is due at `now`.
pub proof fn law_restart_defers_suspension(
    id: u64,
    last_active: Map<u64, u64>,
    playing_media: Map<u64, bool>,
    active: Option<u64>,
    grace: u64,
    now: u64,
)
    requires
        grace > 0,
        last_active.contains_key(id),
        last_active[id] == now,
    ensures
        !suspend_due(id, last_active, playing_media, active, grace, now),
{
}

/// A tab with a deadline is due exactly from that deadline on.
pub proof fn law_due_from_deadline(
    id: u64,
    last_active: Map<u64, u64>,
    playing_media: Map<u64, bool>,
    active: Option<u64>,
    grace: u64,
    d: int,
    now: u64,
)
    requires
        suspend_deadline(id, last_active, playing_media, active, grace) == Some(d),
    ensures
        suspend_due(id, last_active, playing_media, active, grace, now) <==> d <= now,
{
}

/// Changing the grace period only moves deadlines: a tab that is due under a longer grace
/// period is due under any shorter one, so raising the setting never makes more tabs due.
pub proof fn law_longer_grace_suspends_no_more(
    id: u64,
    last_active: Map<u64, u64>,
    playing_media: Map<u64, bool>,
    active: Option<u64>,
    shorter: u64,
    longer: u64,
    now: u64,
)
    requires
        shorter <= longer,
    ensures
        suspend_due(id, last_active, playing_media, active, longer, now) ==> suspend_due(
            id,
            last_active,
            playing_media,
            active,
            shorter,
            now,
        ),
{
}

/// Suspension only ever picks tabs that are loaded: it never brings a tab back.
pub proof fn law_suspension_only_removes(
    loaded: Seq<TabId>,
    last_active: Map<u64, u64>,
    playing_media: Map<u64, bool>,
    active: Option<u64>,
    grace: u64,
    now: u64,
)
    ensures
        forall|t: TabId|
            #[trigger] due_tabs(loaded, last_active, playing_media, active, grace, now).contains(t)
                ==> loaded.contains(t) && suspend_due(
                t.value(),
                last_active,
                playing_media,
                active,
                grace,
                now,
            ),
{
    let pred = |t: TabId| suspend_due(t.value(), last_active, playing_media, active, grace, now);
    assert forall|t: TabId|
        #[trigger] loaded.filter(pred).contains(t) implies loaded.contains(t) && pred(t) by {
        lemma_filter_subset(loaded, pred, t);
    }
}

/// What a filter keeps comes from the filtered sequence and passes the test.
proof fn lemma_filter_subset(s: Seq<TabId>, pred: spec_fn(TabId) -> bool, t: TabId)
    requires
        s.filter(pred).contains(t),
    ensures
        s.contains(t),
        pred(t),
    decreases s.len(),
{
    reveal_with_fuel(Seq::<_>::filter, 1);
    if s.len() == 0 {
        assert(s.filter(pred).len() == 0);
    } else {
        let rest = s.drop_last();
        let sub = rest.filter(pred);
        let j = choose|j: int| 0 <= j < s.filter(pred).len() && s.filter(pred)[j] == t;
        if pred(s.last()) && j == sub.len() {
            assert(s.filter(pred) == sub.push(s.last()));
            assert(s[s.len() - 1] == t);
        } else {
            if pred(s.last()) {
                assert(s.filter(pred) == sub.push(s.last()));
                assert(sub[j] == t);
            } else {
                assert(s.filter(pred) == sub);
            }
            assert(sub.contains(t));
            lemma_filter_subset(rest, pred, t);
            let k = choose|k: int| 0 <= k < rest.len() && rest[k] == t;
            assert(s[k] == t);
        }
    }
}

} // verus!

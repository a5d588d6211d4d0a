//! The cache of discovery handles: requests for one backend share one
//! subscription, which is dropped once nobody has asked for it for the
//! cache's time to live.
//!
//! The cache holds handles only. The cells that they point to belong to
//! the registry, so a handle stays good after its entry has been evicted.
//! Time is a count of milliseconds that the caller supplies.

use vstd::prelude::*;
use crate::discover::{
    event_target, is_for, law_watch_shows_last_event, lemma_replay_keeps_cells, replay, BrowseView,
    EventView, MdnsDiscover, Name, NotConfigured, Receiver, WatchView,
};
use crate::queue::deadline_after;

verus! {

/// One entry of the cache.
#[derive(Debug)]
pub struct CacheEntry {
    name: Name,
    rx: Receiver,
    deadline: u64,
}

/// An entry as a value of mathematics: the backend, the handle on its
/// cell, and the time at which the entry is dropped unless it is asked for
/// before.
pub struct EntryView {
    pub name: Seq<char>,
    pub rx: Receiver,
    pub deadline: u64,
}

impl View for CacheEntry {
    type V = EntryView;

    closed spec fn view(&self) -> EntryView {
        EntryView { name: self.name@, rx: self.rx, deadline: self.deadline }
    }
}

impl Clone for CacheEntry {
    fn clone(&self) -> (copy: Self)
        ensures
            copy@ == self@,
    {
        CacheEntry { name: self.name.clone(), rx: self.rx, deadline: self.deadline }
    }
}

/// What a caller gets from the cache: the handle on the backend's cell,
/// and whether a subscription was made for this call.
#[derive(Clone, Copy, Debug, PartialEq, Eq, Structural)]
pub struct Lookup {
    pub rx: Receiver,
    pub fresh: bool,
}

/// The cache of discovery handles.
#[derive(Debug)]
pub struct DiscoveryCache {
    ttl: u64,
    entries: Vec<CacheEntry>,
}

/// A cache as a value of mathematics.
pub struct CacheView {
    /// How many milliseconds an entry lives without being asked for.
    pub ttl: u64,
    /// The entries, oldest subscription first.
    pub entries: Seq<EntryView>,
}

/// `i` is the place of the entry for `name`.
pub open spec fn is_entry_of(entries: Seq<EntryView>, name: Seq<char>, i: int) -> bool {
    0 <= i < entries.len() && entries[i].name == name
}

/// Whether there is an entry for `name`.
pub open spec fn has_entry(entries: Seq<EntryView>, name: Seq<char>) -> bool {
    exists|i: int| is_entry_of(entries, name, i)
}

/// The place of the entry for `name`.
pub open spec fn entry_of(entries: Seq<EntryView>, name: Seq<char>) -> int {
    choose|i: int| is_entry_of(entries, name, i)
}

/// No two entries are for the same backend.
pub open spec fn distinct_entries(entries: Seq<EntryView>) -> bool {
    forall|i: int, j: int|
        0 <= i < j < entries.len() ==> (#[trigger] entries[i]).name != (#[trigger] entries[j]).name
}

/// The entries that are still alive at the time `now`: those whose
/// deadline lies after it, in their order.
pub open spec fn live(entries: Seq<EntryView>, now: u64) -> Seq<EntryView>
    decreases entries.len(),
{
    if entries.len() == 0 {
        entries
    } else {
        let rest = live(entries.drop_last(), now);
        if entries.last().deadline > now {
            rest.push(entries.last())
        } else {
            rest
        }
    }
}

/// The live entries are the entries whose deadline lies after `now`, and
/// no two of them are for the same backend where that held before.
pub proof fn lemma_live(entries: Seq<EntryView>, now: u64)
    ensures
        live(entries, now).len() <= entries.len(),
        forall|i: int|
            0 <= i < live(entries, now).len() ==> (#[trigger] live(entries, now)[i]).deadline > now
                && entries.contains(live(entries, now)[i]),
        forall|i: int|
            0 <= i < entries.len() && (#[trigger] entries[i]).deadline > now ==> live(
                entries,
                now,
            ).contains(entries[i]),
        distinct_entries(entries) ==> distinct_entries(live(entries, now)),
    decreases entries.len(),
{
    if entries.len() > 0 {
        let head = entries.drop_last();
        let last = entries.last();
        lemma_live(head, now);
        let rest = live(head, now);
        let out = live(entries, now);
        assert forall|i: int| 0 <= i < out.len() implies (#[trigger] out[i]).deadline > now
            && entries.contains(out[i]) by {
            if i < rest.len() {
                assert(out[i] == rest[i]);
                let k = choose|k: int| 0 <= k < head.len() && head[k] == rest[i];
                assert(entries[k] == out[i]);
            } else {
                assert(entries[entries.len() - 1] == out[i]);
            }
        }
        assert forall|i: int| 0 <= i < entries.len() && (#[trigger] entries[i]).deadline
            > now implies out.contains(entries[i]) by {
            if i < head.len() {
                assert(head[i] == entries[i]);
                let k = choose|k: int| 0 <= k < rest.len() && rest[k] == head[i];
                assert(out[k] == entries[i]);
            } else {
                assert(out[out.len() - 1] == entries[i]);
            }
        }
        if distinct_entries(entries) {
            assert(distinct_entries(head)) by {
                assert forall|i: int, j: int| 0 <= i < j < head.len() implies (
                #[trigger] head[i]).name != (#[trigger] head[j]).name by {
                    assert(head[i] == entries[i]);
                    assert(head[j] == entries[j]);
                }
            }
            assert forall|i: int, j: int| 0 <= i < j < out.len() implies (#[trigger] out[i]).name
                != (#[trigger] out[j]).name by {
                if j < rest.len() {
                    assert(out[i] == rest[i]);
                    assert(out[j] == rest[j]);
                } else {
                    assert(out[i] == rest[i]);
                    let k = choose|k: int| 0 <= k < head.len() && head[k] == rest[i];
                    assert(entries[k] == out[i]);
                    assert(entries[entries.len() - 1] == out[j]);
                }
            }
        }
    }
}

/// Where no two entries are for the same backend, the entry for a backend
/// has one place only.
pub proof fn lemma_entry_unique(entries: Seq<EntryView>, name: Seq<char>, i: int)
    requires
        distinct_entries(entries),
        is_entry_of(entries, name, i),
    ensures
        has_entry(entries, name),
        entry_of(entries, name) == i,
{
    let p = entry_of(entries, name);
    assert(is_entry_of(entries, name, p));
    if p < i {
        assert(entries[p].name != entries[i].name);
    } else if i < p {
        assert(entries[i].name != entries[p].name);
    }
}

impl CacheView {
    /// No two entries are for the same backend.
    pub open spec fn wf(self) -> bool {
        distinct_entries(self.entries)
    }

    /// The cache after the entries that nobody asked for in time have
    /// been dropped.
    pub open spec fn evicted(self, now: u64) -> CacheView {
        CacheView { entries: live(self.entries, now), ..self }
    }

    /// What a caller that asks for `name` at the time `now` gets, where
    /// `names` are the slots of the configured backends: the handle of the
    /// live entry for `name` where there is one; else a handle from a
    /// subscription made for this call, where `name` is configured; else
    /// nothing.
    pub open spec fn lookup(self, names: Map<Seq<char>, usize>, name: Seq<char>, now: u64) -> Option<
        Lookup,
    > {
        let alive = live(self.entries, now);
        if has_entry(alive, name) {
            Some(Lookup { rx: alive[entry_of(alive, name)].rx, fresh: false })
        } else if names.contains_key(name) {
            Some(Lookup { rx: Receiver { slot: names[name] }, fresh: true })
        } else {
            None
        }
    }

    /// The cache after a caller has asked for `name` at the time `now`:
    /// stale entries are dropped; the live entry for `name` gets a new
    /// deadline, one time to live after `now`; where there is none and
    /// `name` is configured, an entry for it is added behind the others.
    pub open spec fn discovered(self, names: Map<Seq<char>, usize>, name: Seq<char>, now: u64) -> CacheView {
        let alive = live(self.entries, now);
        let deadline = deadline_after(now, self.ttl);
        if has_entry(alive, name) {
            let p = entry_of(alive, name);
            CacheView { entries: alive.update(p, EntryView { deadline, ..alive[p] }), ..self }
        } else if names.contains_key(name) {
            CacheView {
                entries: alive.push(EntryView { name, rx: Receiver { slot: names[name] }, deadline }),
                ..self
            }
        } else {
            CacheView { entries: alive, ..self }
        }
    }
}

/// The view of a list of entries.
pub open spec fn entries_view(entries: Seq<CacheEntry>) -> Seq<EntryView> {
    Seq::new(entries.len(), |i: int| entries[i]@)
}

impl View for DiscoveryCache {
    type V = CacheView;

    closed spec fn view(&self) -> CacheView {
        CacheView { ttl: self.ttl, entries: entries_view(self.entries@) }
    }
}

impl DiscoveryCache {
    /// An empty cache whose entries live `ttl` milliseconds without being
    /// asked for.
    pub fn new(ttl: u64) -> (cache: DiscoveryCache)
        ensures
            cache@.wf(),
            cache@ == (CacheView { ttl, entries: Seq::empty() }),
    {
        let cache = DiscoveryCache { ttl, entries: Vec::new() };
        assert(cache@.entries =~= Seq::empty());
        cache
    }

    /// The time to live of the gateway's cache: sixty seconds, in
    /// milliseconds.
    pub fn default_ttl() -> (ttl: u64)
        ensures
            ttl == 60_000,
    {
        60_000
    }

    /// How many entries the cache holds.
    pub fn len(&self) -> (n: usize)
        ensures
            n == self@.entries.len(),
    {
        self.entries.len()
    }

    /// Drops the entries that nobody asked for in time: those whose
    /// deadline does not lie after `now`. Hands back how many were
    /// dropped.
    pub fn evict(&mut self, now: u64) -> (dropped: usize)
        requires
            old(self)@.wf(),
        ensures
            final(self)@.wf(),
            final(self)@ == old(self)@.evicted(now),
            dropped == old(self)@.entries.len() - final(self)@.entries.len(),
    {
        let ghost before = self@.entries;
        let mut kept: Vec<CacheEntry> = Vec::new();
        let mut i: usize = 0;
        while i < self.entries.len()
            invariant
                i <= self.entries@.len(),
                entries_view(self.entries@) == before,
                entries_view(kept@) == live(before.take(i as int), now),
            decreases self.entries@.len() - i,
        {
            assert(before.take(i + 1).drop_last() =~= before.take(i as int));
            if self.entries[i].deadline > now {
                kept.push(self.entries[i].clone());
                assert(entries_view(kept@) =~= live(before.take(i as int), now).push(before[i as int]));
            }
            i += 1;
        }
        proof {
            assert(before.take(before.len() as int) =~= before);
            lemma_live(before, now);
        }
        let dropped = self.entries.len() - kept.len();
        self.entries = kept;
        dropped
    }

    /// The place of the entry for `name`.
    fn position(&self, name: &Name) -> (place: Option<usize>)
        requires
            self@.wf(),
        ensures
            match place {
                Some(i) => has_entry(self@.entries, name@) && entry_of(self@.entries, name@) == i
                    && i < self@.entries.len(),
                None => !has_entry(self@.entries, name@),
            },
    {
        let mut i: usize = 0;
        while i < self.entries.len()
            invariant
                self@.wf(),
                i <= self.entries@.len(),
                forall|j: int| 0 <= j < i ==> self@.entries[j].name != name@,
            decreases self.entries@.len() - i,
        {
            if self.entries[i].name == *name {
                proof {
                    lemma_entry_unique(self@.entries, name@, i as int);
                }
                return Some(i);
            }
            i += 1;
        }
        proof {
            if has_entry(self@.entries, name@) {
                let p = entry_of(self@.entries, name@);
                assert(is_entry_of(self@.entries, name@, p));
            }
        }
        None
    }

    /// Gives a caller that asks at the time `now` the handle on the cell
    /// of the backend `name`. Entries that nobody asked for in time are
    /// dropped first. Where a live entry for `name` is left, the caller
    /// gets its handle, and the entry lives on for another time to live.
    /// Else a subscription is made with the registry: its handle is kept
    /// in a new entry and handed out as fresh. `NotConfigured` with the
    /// name where the registry knows no such backend.
    pub fn discover(&mut self, registry: &MdnsDiscover, name: &Name, now: u64) -> (found: Result<
        Lookup,
        NotConfigured,
    >)
        requires
            old(self)@.wf(),
        ensures
            final(self)@.wf(),
            final(self)@ == old(self)@.discovered(registry.names(), name@, now),
            match found {
                Ok(lookup) => old(self)@.lookup(registry.names(), name@, now) == Some(lookup),
                Err(e) => old(self)@.lookup(registry.names(), name@, now).is_none() && e.0@
                    == name@,
            },
    {
        let _ = self.evict(now);
        let deadline = now.saturating_add(self.ttl);
        let ghost alive = self@.entries;
        match self.position(name) {
            Some(place) => {
                let rx = self.entries[place].rx;
                self.entries[place].deadline = deadline;
                proof {
                    assert(self@.entries =~= alive.update(
                        place as int,
                        EntryView { deadline, ..alive[place as int] },
                    ));
                }
                Ok(Lookup { rx, fresh: false })
            },
            None => match registry.call(name) {
                Ok(rx) => {
                    self.entries.push(CacheEntry { name: name.clone(), rx, deadline });
                    proof {
                        assert(self@.entries =~= alive.push(EntryView { name: name@, rx, deadline }));
                        assert forall|i: int, j: int|
                            0 <= i < j < self@.entries.len() implies (#[trigger] self@.entries[i]).name
                            != (#[trigger] self@.entries[j]).name by {
                            if j == alive.len() {
                                assert(!is_entry_of(alive, name@, i));
                            }
                        }
                    }
                    Ok(Lookup { rx, fresh: true })
                },
                Err(e) => Err(e),
            },
        }
    }
}

/// Every entry holds the handle that the registry gives for its backend.
pub open spec fn agrees(entries: Seq<EntryView>, names: Map<Seq<char>, usize>) -> bool {
    forall|i: int|
        0 <= i < entries.len() ==> names.contains_key((#[trigger] entries[i]).name)
            && entries[i].rx.slot == names[entries[i].name]
}

/// A cache whose entries hold the registry's handles hands out the
/// registry's handles, and goes on holding them.
pub proof fn lemma_discovered_agrees(
    cache: CacheView,
    names: Map<Seq<char>, usize>,
    name: Seq<char>,
    now: u64,
)
    requires
        cache.wf(),
        agrees(cache.entries, names),
    ensures
        agrees(cache.evicted(now).entries, names),
        agrees(cache.discovered(names, name, now).entries, names),
        cache.lookup(names, name, now).is_some() <==> names.contains_key(name),
        cache.lookup(names, name, now).is_some() ==> cache.lookup(names, name, now).unwrap().rx.slot
            == names[name],
{
    let alive = live(cache.entries, now);
    lemma_live(cache.entries, now);
    assert forall|i: int| 0 <= i < alive.len() implies names.contains_key(
        (#[trigger] alive[i]).name,
    ) && alive[i].rx.slot == names[alive[i].name] by {
        let k = choose|k: int| 0 <= k < cache.entries.len() && cache.entries[k] == alive[i];
        assert(names.contains_key(cache.entries[k].name));
    }
    if has_entry(alive, name) {
        let p = entry_of(alive, name);
        assert(is_entry_of(alive, name, p));
        assert(names.contains_key(alive[p].name));
    }
}

/// Two callers that ask for one backend within the time to live get the
/// same handle, and no subscription is made for the second.
pub proof fn law_callers_share_handle(
    cache: CacheView,
    names: Map<Seq<char>, usize>,
    name: Seq<char>,
    first: u64,
    second: u64,
)
    requires
        cache.wf(),
        cache.lookup(names, name, first).is_some(),
        first <= second < deadline_after(first, cache.ttl),
    ensures
        cache.discovered(names, name, first).lookup(names, name, second) == Some(
            Lookup { rx: cache.lookup(names, name, first).unwrap().rx, fresh: false },
        ),
{
    let alive = live(cache.entries, first);
    lemma_live(cache.entries, first);
    let after = cache.discovered(names, name, first);
    let deadline = deadline_after(first, cache.ttl);
    let rx = cache.lookup(names, name, first).unwrap().rx;
    let p: int = if has_entry(alive, name) {
        entry_of(alive, name)
    } else {
        alive.len() as int
    };
    if has_entry(alive, name) {
        assert(is_entry_of(alive, name, p));
    } else {
        assert forall|i: int| 0 <= i < alive.len() implies (#[trigger] alive[i]).name != name by {
            assert(!is_entry_of(alive, name, i));
        }
    }
    assert(after.entries[p] == EntryView { name, rx, deadline });
    assert(distinct_entries(after.entries));
    lemma_live(after.entries, second);
    let later = live(after.entries, second);
    assert(later.contains(after.entries[p]));
    let k = choose|k: int| 0 <= k < later.len() && later[k] == after.entries[p];
    lemma_entry_unique(later, name, k);
}

/// Once an entry has not been asked for during the time to live it is
/// gone: the next caller gets a handle from a fresh subscription.
pub proof fn law_idle_entry_is_evicted(
    cache: CacheView,
    names: Map<Seq<char>, usize>,
    name: Seq<char>,
    first: u64,
    second: u64,
)
    requires
        cache.wf(),
        names.contains_key(name),
        second >= deadline_after(first, cache.ttl),
        first <= second,
    ensures
        !has_entry(cache.discovered(names, name, first).evicted(second).entries, name),
        cache.discovered(names, name, first).lookup(names, name, second) == Some(
            Lookup { rx: Receiver { slot: names[name] }, fresh: true },
        ),
{
    let alive = live(cache.entries, first);
    lemma_live(cache.entries, first);
    let after = cache.discovered(names, name, first);
    let deadline = deadline_after(first, cache.ttl);
    let p: int = if has_entry(alive, name) {
        entry_of(alive, name)
    } else {
        alive.len() as int
    };
    if has_entry(alive, name) {
        assert(is_entry_of(alive, name, p));
    } else {
        assert forall|i: int| 0 <= i < alive.len() implies (#[trigger] alive[i]).name != name by {
            assert(!is_entry_of(alive, name, i));
        }
    }
    assert(after.entries[p].name == name && after.entries[p].deadline == deadline);
    assert(distinct_entries(after.entries));
    lemma_live(after.entries, second);
    let later = live(after.entries, second);
    if has_entry(later, name) {
        let k = entry_of(later, name);
        assert(is_entry_of(later, name, k));
        let j = choose|j: int| 0 <= j < after.entries.len() && after.entries[j] == later[k];
        lemma_entry_unique(after.entries, name, j);
        lemma_entry_unique(after.entries, name, p);
    }
}

/// A handle stays good after its entry is gone: whatever the cache holds,
/// the cell behind the handle shows what the last event for it said.
pub proof fn law_handle_outlives_entry(
    cache: CacheView,
    now: u64,
    rx: Receiver,
    cells: Seq<WatchView>,
    browses: Seq<BrowseView>,
    events: Seq<(int, EventView)>,
    k: int,
)
    requires
        rx.slot < cells.len(),
        !has_entry(cache.evicted(now).entries, cells[rx.slot as int].name),
        0 <= k < events.len(),
        is_for(browses, events, k, rx.slot),
        forall|j: int| k < j < events.len() ==> !is_for(browses, events, j, rx.slot),
    ensures
        rx.slot < replay(cells, browses, events).len(),
        replay(cells, browses, events)[rx.slot as int].value == event_target(
            browses[events[k].0],
            events[k].1,
        ).unwrap().1,
{
    law_watch_shows_last_event(cells, browses, events, k, rx.slot);
    lemma_replay_keeps_cells(cells, browses, events);
}

} // verus!

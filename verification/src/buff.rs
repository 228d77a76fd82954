//! Buff timers: a queue of countdowns that fire their action key (or a
//! reminder sound) when they expire.
//!
//! Times are milliseconds of a monotonic clock, handed in by the caller.
//! Each schedule is stamped with a generation; a queued expiry whose
//! generation is no longer the timer's current one is stale and is dropped
//! without firing.

use vstd::prelude::*;
use crate::config::{BuffTimer, BuffTimerV};
use crate::namemap::{NameMap, entries_view, find_key, insert_spec, lookup, remove_spec};
use crate::text::{owned, str_eq};

verus! {

/// What happens when a timer expires.
#[derive(Clone, Copy, Debug, PartialEq, Eq, Structural)]
pub enum ExpiryAction {
    /// Press the buff's action key, then maybe play the reminder sound.
    FireActionKey { play_sound: bool },
    /// Only play the reminder sound.
    SoundOnly,
}

/// The running countdown of one timer.
#[derive(Clone, Copy, Debug, PartialEq, Eq, Structural)]
pub struct BuffEntry {
    pub gen: u64,
    pub expire: u64,
    pub start: u64,
    pub duration: u64,
}

impl View for BuffEntry {
    type V = BuffEntry;

    open spec fn view(&self) -> BuffEntry {
        *self
    }
}

/// A queued expiry.
#[derive(Clone, Debug, PartialEq)]
pub struct BuffHeapItem {
    pub expire: u64,
    pub gen: u64,
    pub name: String,
    pub buff: BuffTimer,
    pub action: ExpiryAction,
}

pub struct BuffItemV {
    pub expire: u64,
    pub gen: u64,
    pub name: Seq<char>,
    pub buff: BuffTimerV,
    pub action: ExpiryAction,
}

impl View for BuffHeapItem {
    type V = BuffItemV;

    open spec fn view(&self) -> BuffItemV {
        BuffItemV {
            expire: self.expire,
            gen: self.gen,
            name: self.name@,
            buff: self.buff@,
            action: self.action,
        }
    }
}

pub open spec fn items_view(v: Seq<BuffHeapItem>) -> Seq<BuffItemV> {
    v.map_values(|i: BuffHeapItem| i@)
}

/// The timers and their queued expiries.
pub struct BuffState {
    entries: NameMap<BuffEntry>,
    heap: Vec<BuffHeapItem>,
    gen: u64,
}

pub struct BuffStateV {
    pub entries: Seq<(Seq<char>, BuffEntry)>,
    pub heap: Seq<BuffItemV>,
    pub gen: u64,
}

impl View for BuffState {
    type V = BuffStateV;

    closed spec fn view(&self) -> BuffStateV {
        BuffStateV { entries: self.entries@, heap: items_view(self.heap@), gen: self.gen }
    }
}

// ── Specifications ──────────────────────────────────────────────────────

pub open spec fn sat_add(a: u64, b: u64) -> u64 {
    if a + b > u64::MAX {
        u64::MAX
    } else {
        (a + b) as u64
    }
}

pub open spec fn sat_sub(a: u64, b: u64) -> u64 {
    if a >= b {
        (a - b) as u64
    } else {
        0
    }
}

/// A configured number of milliseconds, negative ones read as zero.
pub open spec fn non_negative_ms(v: i32) -> u64 {
    if v < 0 {
        0
    } else {
        v as u64
    }
}

/// How long a (re)scheduled timer runs: `extend` adds the extension to
/// what was left, anything else starts the full duration again.
pub open spec fn refreshed_duration(b: BuffTimerV, e: BuffEntry, now: u64) -> u64 {
    if b.on_refresh == "extend"@ {
        sat_add(sat_sub(e.duration, sat_sub(now, e.start)), non_negative_ms(b.extend_ms))
    } else {
        non_negative_ms(b.duration)
    }
}

/// The state after scheduling `b` at time `now`. The generation counter
/// advances whatever happens; a running timer set to `ignore` refreshes is
/// left alone.
pub open spec fn schedule_spec(s: BuffStateV, b: BuffTimerV, action: ExpiryAction, now: u64) -> BuffStateV {
    let g = s.gen;
    let next = BuffStateV { gen: g.wrapping_add(1), ..s };
    let d = match lookup(s.entries, b.name) {
        Some(e) => refreshed_duration(b, e, now),
        None => non_negative_ms(b.duration),
    };
    if lookup(s.entries, b.name) is Some && b.on_refresh == "ignore"@ {
        next
    } else {
        let exp = sat_add(now, d);
        BuffStateV {
            entries: insert_spec(s.entries, b.name, BuffEntry { gen: g, expire: exp, start: now, duration: d }),
            heap: s.heap.push(BuffItemV { expire: exp, gen: g, name: b.name, buff: b, action }),
            ..next
        }
    }
}

/// The index of the first queued expiry with the earliest time.
pub open spec fn earliest(h: Seq<BuffItemV>) -> int
    decreases h.len(),
{
    if h.len() <= 1 {
        0
    } else {
        let j = earliest(h.drop_last());
        if h.last().expire < h[j].expire {
            h.len() - 1
        } else {
            j
        }
    }
}

/// The entries without the timer an item fires.
pub open spec fn is_current(entries: Seq<(Seq<char>, BuffEntry)>, it: BuffItemV) -> bool {
    match lookup(entries, it.name) {
        Some(e) => e.gen == it.gen,
        None => false,
    }
}

/// Take expired items in time order: a stale one is dropped and the next
/// looked at; the first current one is fired and its timer removed.
pub open spec fn pop_spec(s: BuffStateV, now: u64) -> (BuffStateV, Option<BuffItemV>)
    decreases s.heap.len(),
{
    if s.heap.len() == 0 {
        (s, None)
    } else {
        let i = earliest(s.heap);
        let it = s.heap[i];
        if it.expire > now {
            (s, None)
        } else {
            proof {
                lemma_earliest_bounds(s.heap);
            }
            let rest = BuffStateV { heap: s.heap.remove(i), ..s };
            if is_current(s.entries, it) {
                (BuffStateV { entries: remove_spec(s.entries, it.name), ..rest }, Some(it))
            } else {
                pop_spec(rest, now)
            }
        }
    }
}

/// How long the worker may sleep: until the next expiry, at most 100 ms.
pub open spec fn sleep_spec(h: Seq<BuffItemV>, now: u64) -> u64 {
    if h.len() == 0 {
        100
    } else {
        let left = sat_sub(h[earliest(h)].expire, now);
        if left < 100 {
            left
        } else {
            100
        }
    }
}

/// The timer `e` has its current expiry in `heap`.
pub open spec fn has_item(heap: Seq<BuffItemV>, e: (Seq<char>, BuffEntry)) -> bool {
    exists|j: int|
        0 <= j < heap.len() && (#[trigger] heap[j]).name == e.0 && heap[j].gen == e.1.gen
            && heap[j].expire == e.1.expire
}

/// Every timer in `entries` has its current expiry in `heap`.
pub open spec fn queued(entries: Seq<(Seq<char>, BuffEntry)>, heap: Seq<BuffItemV>) -> bool {
    forall|k: int| 0 <= k < entries.len() ==> has_item(heap, #[trigger] entries[k])
}

/// Every running timer has its current expiry queued.
pub open spec fn timers_queued(s: BuffStateV) -> bool {
    queued(s.entries, s.heap)
}

// ── Operations ──────────────────────────────────────────────────────────

pub proof fn lemma_earliest_bounds(h: Seq<BuffItemV>)
    requires
        h.len() > 0,
    ensures
        0 <= earliest(h) < h.len(),
        forall|j: int| 0 <= j < h.len() ==> h[earliest(h)].expire <= #[trigger] h[j].expire,
    decreases h.len(),
{
    if h.len() > 1 {
        lemma_earliest_bounds(h.drop_last());
        assert forall|j: int| 0 <= j < h.len() implies h[earliest(h)].expire <= #[trigger] h[j].expire by {
            if j < h.len() - 1 {
                assert(h.drop_last()[j] == h[j]);
            }
        }
    }
}

impl BuffState {
    pub fn new() -> (r: BuffState)
        ensures
            r@.entries == Seq::<(Seq<char>, BuffEntry)>::empty(),
            r@.heap == Seq::<BuffItemV>::empty(),
            r@.gen == 0,
            timers_queued(r@),
    {
        let r = BuffState { entries: NameMap::new(), heap: Vec::new(), gen: 0 };
        proof {
            assert(items_view(r.heap@) =~= Seq::<BuffItemV>::empty());
        }
        r
    }

    fn earliest_index(&self) -> (r: usize)
        requires
            self@.heap.len() > 0,
        ensures
            r == earliest(self@.heap),
    {
        let ghost h = self@.heap;
        let mut best: usize = 0;
        let mut i: usize = 1;
        while i < self.heap.len()
            invariant
                1 <= i <= self.heap.len(),
                h == items_view(self.heap@),
                best == earliest(h.take(i as int)),
                best < i,
            decreases self.heap.len() - i,
        {
            proof {
                assert(h.take(i + 1).drop_last() =~= h.take(i as int));
                lemma_earliest_bounds(h.take(i as int));
                assert(h.take(i as int)[best as int] == h[best as int]);
                assert(h.take(i + 1).last() == h[i as int]);
            }
            if self.heap[i].expire < self.heap[best].expire {
                best = i;
            }
            i += 1;
        }
        proof {
            assert(h.take(self.heap.len() as int) =~= h);
        }
        best
    }

    /// Schedule `buff` at time `now`.
    pub fn schedule(&mut self, buff: BuffTimer, action: ExpiryAction, now: u64)
        ensures
            final(self)@ == schedule_spec(old(self)@, buff@, action, now),
            timers_queued(old(self)@) ==> timers_queued(final(self)@),
    {
        let g = self.gen;
        self.gen = g.wrapping_add(1);
        let new_duration: u64 = if buff.duration < 0 {
            0
        } else {
            buff.duration as u64
        };
        let ghost s0 = old(self)@;
        let final_duration: u64 = match self.entries.get(buff.name.as_str()) {
            Some(existing) => {
                if str_eq(buff.on_refresh.as_str(), "ignore") {
                    proof {
                        assert(self@.entries == s0.entries && self@.heap == s0.heap);
                    }
                    return;
                }
                if str_eq(buff.on_refresh.as_str(), "extend") {
                    let elapsed = now.saturating_sub(existing.start);
                    let remaining = existing.duration.saturating_sub(elapsed);
                    let ext: u64 = if buff.extend_ms < 0 {
                        0
                    } else {
                        buff.extend_ms as u64
                    };
                    remaining.saturating_add(ext)
                } else {
                    new_duration
                }
            },
            None => new_duration,
        };
        let expire = now.saturating_add(final_duration);
        let name = buff.name.clone();
        let ghost bv = buff@;
        self.entries.insert(
            name.clone(),
            BuffEntry { gen: g, expire, start: now, duration: final_duration },
        );
        let ghost ents = self.entries@;
        let ghost h0 = self@.heap;
        self.heap.push(BuffHeapItem { expire, gen: g, name, buff, action });
        proof {
            assert(items_view(self.heap@) =~= h0.push(
                BuffItemV { expire, gen: g, name: bv.name, buff: bv, action },
            ));
            if timers_queued(s0) {
                let hs = items_view(self.heap@);
                assert forall|k: int| 0 <= k < ents.len() implies has_item(hs, #[trigger] ents[k]) by {
                    let e_new = BuffEntry { gen: g, expire, start: now, duration: final_duration };
                    if ents[k].0 == bv.name {
                        lemma_insert_value(s0.entries, bv.name, e_new, k);
                        assert(hs[hs.len() - 1].name == ents[k].0);
                    } else {
                        lemma_insert_other(s0.entries, bv.name, e_new, k);
                        let k0 = choose|k0: int| 0 <= k0 < s0.entries.len() && s0.entries[k0] == ents[k];
                        assert(has_item(s0.heap, s0.entries[k0]));
                        let j = choose|j: int|
                            0 <= j < s0.heap.len() && (#[trigger] s0.heap[j]).name == s0.entries[k0].0
                                && s0.heap[j].gen == s0.entries[k0].1.gen && s0.heap[j].expire == s0.entries[k0].1.expire;
                        assert(hs[j] == s0.heap[j]);
                    }
                }
            }
        }
    }

    /// A buff's automatic activation: on expiry it presses the action key,
    /// and plays the reminder sound when the buff asks for it.
    pub fn activate(&mut self, buff: BuffTimer, now: u64)
        ensures
            final(self)@ == schedule_spec(
                old(self)@,
                buff@,
                ExpiryAction::FireActionKey { play_sound: buff@.sound_on_expiry },
                now,
            ),
            timers_queued(old(self)@) ==> timers_queued(final(self)@),
    {
        let play_sound = buff.sound_on_expiry;
        self.schedule(buff, ExpiryAction::FireActionKey { play_sound }, now);
    }

    /// A manual reminder: always a fresh countdown of the buff's duration,
    /// ending in the reminder sound only.
    pub fn start_reminder(&mut self, buff: BuffTimer, now: u64)
        ensures
            final(self)@ == schedule_spec(
                old(self)@,
                BuffTimerV { on_refresh: "reset"@, ..buff@ },
                ExpiryAction::SoundOnly,
                now,
            ),
            timers_queued(old(self)@) ==> timers_queued(final(self)@),
    {
        let mut buff = buff;
        buff.on_refresh = owned("reset");
        self.schedule(buff, ExpiryAction::SoundOnly, now);
    }

    pub fn clear_all(&mut self)
        ensures
            final(self)@ == (BuffStateV { entries: Seq::empty(), heap: Seq::empty(), ..old(self)@ }),
            timers_queued(final(self)@),
    {
        self.entries = NameMap::new();
        self.heap = Vec::new();
        proof {
            assert(items_view(self.heap@) =~= Seq::<BuffItemV>::empty());
        }
    }

    /// The earliest queued expiry.
    pub fn peek(&self) -> (r: Option<&BuffHeapItem>)
        ensures
            self@.heap.len() == 0 ==> r is None,
            self@.heap.len() > 0 ==> (r matches Some(it) && it@ == self@.heap[earliest(self@.heap)]),
    {
        if self.heap.len() == 0 {
            None
        } else {
            let i = self.earliest_index();
            proof {
                lemma_earliest_bounds(self@.heap);
            }
            Some(&self.heap[i])
        }
    }

    /// The running timers with the milliseconds left on each.
    pub fn active_timers(&self, now: u64) -> (r: Vec<(String, u64)>)
        ensures
            r@.len() == self@.entries.len(),
            forall|k: int|
                0 <= k < r@.len() ==> (#[trigger] r@[k]).0@ == self@.entries[k].0 && r@[k].1 == sat_sub(
                    self@.entries[k].1.expire,
                    now,
                ),
    {
        let mut out: Vec<(String, u64)> = Vec::new();
        let mut i: usize = 0;
        while i < self.entries.len()
            invariant
                i <= self@.entries.len(),
                out@.len() == i,
                forall|k: int|
                    0 <= k < i ==> (#[trigger] out@[k]).0@ == self@.entries[k].0 && out@[k].1 == sat_sub(
                        self@.entries[k].1.expire,
                        now,
                    ),
            decreases self@.entries.len() - i,
        {
            let e = self.entries.value_at(i);
            out.push((self.entries.key_at(i).clone(), e.expire.saturating_sub(now)));
            i += 1;
        }
        out
    }

    /// One wake-up of the expiry worker at time `now`: the expiry to act on,
    /// if one is due, and how long to sleep before the next wake-up.
    pub fn pop_expired(&mut self, now: u64) -> (r: (Option<BuffHeapItem>, u64))
        ensures
            final(self)@ == pop_spec(old(self)@, now).0,
            match r.0 {
                Some(it) => pop_spec(old(self)@, now).1 == Some(it@),
                None => pop_spec(old(self)@, now).1 is None,
            },
            r.1 == sleep_spec(final(self)@.heap, now),
            timers_queued(old(self)@) ==> timers_queued(final(self)@),
    {
        let ghost s0 = old(self)@;
        let mut fired: Option<BuffHeapItem> = None;
        while self.heap.len() > 0
            invariant_except_break
                fired is None,
                pop_spec(self@, now) == pop_spec(s0, now),
                timers_queued(s0) ==> timers_queued(self@),
            ensures
                fired matches Some(it) ==> self@ == pop_spec(s0, now).0 && pop_spec(s0, now).1 == Some(it@),
                fired is None ==> self@ == pop_spec(s0, now).0 && pop_spec(s0, now).1 is None,
                timers_queued(s0) ==> timers_queued(self@),
            decreases self.heap.len(),
        {
            let ghost sv = self@;
            let i = self.earliest_index();
            proof {
                lemma_earliest_bounds(sv.heap);
            }
            if self.heap[i].expire > now {
                break;
            }
            let ghost h0 = self.heap@;
            let item = self.heap.remove(i);
            proof {
                assert(items_view(self.heap@) =~= sv.heap.remove(i as int));
                assert(item@ == sv.heap[i as int]);
            }
            let current = match self.entries.get(item.name.as_str()) {
                Some(entry) => entry.gen == item.gen,
                None => false,
            };
            if current {
                self.entries.remove(item.name.as_str());
                proof {
                    if timers_queued(s0) {
                        lemma_pop_keeps_queued(sv, i as int);
                    }
                }
                fired = Some(item);
                break;
            }
            proof {
                if timers_queued(s0) {
                    lemma_pop_keeps_queued(sv, i as int);
                }
            }
        }
        let sleep: u64 = if self.heap.len() == 0 {
            100
        } else {
            let j = self.earliest_index();
            proof {
                lemma_earliest_bounds(self@.heap);
                assert(self@.heap[j as int] == self.heap@[j as int]@);
            }
            let left = self.heap[j].expire.saturating_sub(now);
            if left < 100 {
                left
            } else {
                100
            }
        };
        (fired, sleep)
    }
}

/// After `insert_spec`, the entry under the inserted name holds the new value.
proof fn lemma_insert_value<V>(es: Seq<(Seq<char>, V)>, k: Seq<char>, v: V, i: int)
    requires
        crate::namemap::sorted_keys(es),
        0 <= i < insert_spec(es, k, v).len(),
        insert_spec(es, k, v)[i].0 == k,
    ensures
        insert_spec(es, k, v)[i].1 == v,
{
    crate::namemap::lemma_insert_spec_facts(es, k, v);
}

/// After `insert_spec`, an entry under another name was already there.
proof fn lemma_insert_other<V>(es: Seq<(Seq<char>, V)>, k: Seq<char>, v: V, i: int)
    requires
        crate::namemap::sorted_keys(es),
        0 <= i < insert_spec(es, k, v).len(),
        insert_spec(es, k, v)[i].0 != k,
    ensures
        exists|j: int| 0 <= j < es.len() && es[j] == insert_spec(es, k, v)[i],
{
    crate::namemap::lemma_insert_spec_facts(es, k, v);
}

/// Removing the queued item at `i` (and its timer, when the item was the
/// timer's current expiry) keeps every remaining timer queued.
#[verifier::spinoff_prover]
#[verifier::rlimit(30)]
proof fn lemma_pop_keeps_queued(s: BuffStateV, i: int)
    requires
        timers_queued(s),
        crate::namemap::sorted_keys(s.entries),
        0 <= i < s.heap.len(),
    ensures
        is_current(s.entries, s.heap[i]) ==> timers_queued(
            BuffStateV { entries: remove_spec(s.entries, s.heap[i].name), heap: s.heap.remove(i), ..s },
        ),
        !is_current(s.entries, s.heap[i]) ==> timers_queued(BuffStateV { heap: s.heap.remove(i), ..s }),
{
    let it = s.heap[i];
    let h2 = s.heap.remove(i);
    crate::namemap::lemma_find_found(s.entries, it.name);
    if is_current(s.entries, it) {
        let f = find_key(s.entries, it.name)->0;
        let e2 = remove_spec(s.entries, it.name);
        assert forall|k: int| 0 <= k < e2.len() implies has_item(h2, #[trigger] e2[k]) by {
            let k0 = if k < f {
                k
            } else {
                k + 1
            };
            assert(e2[k] == s.entries[k0]);
            assert(has_item(s.heap, s.entries[k0]));
            let j0 = choose|j: int|
                0 <= j < s.heap.len() && (#[trigger] s.heap[j]).name == s.entries[k0].0 && s.heap[j].gen
                    == s.entries[k0].1.gen && s.heap[j].expire == s.entries[k0].1.expire;
            if j0 == i {
                crate::namemap::lemma_find_unique(s.entries, it.name, k0);
            }
            let j = if j0 < i {
                j0
            } else {
                j0 - 1
            };
            assert(h2[j] == s.heap[j0]);
        }
    } else {
        let e2 = s.entries;
        assert forall|k: int| 0 <= k < e2.len() implies has_item(h2, #[trigger] e2[k]) by {
            assert(has_item(s.heap, s.entries[k]));
            let j0 = choose|j: int|
                0 <= j < s.heap.len() && (#[trigger] s.heap[j]).name == s.entries[k].0 && s.heap[j].gen
                    == s.entries[k].1.gen && s.heap[j].expire == s.entries[k].1.expire;
            if j0 == i {
                crate::namemap::lemma_find_unique(s.entries, it.name, k);
            }
            let j = if j0 < i {
                j0
            } else {
                j0 - 1
            };
            assert(h2[j] == s.heap[j0]);
        }
    }
}

// ── Laws ────────────────────────────────────────────────────────────────

/// Refreshing a running timer that ignores refreshes changes nothing but
/// the generation counter.
pub proof fn lemma_ignore_refresh(s: BuffStateV, b: BuffTimerV, action: ExpiryAction, now: u64)
    requires
        lookup(s.entries, b.name) is Some,
        b.on_refresh == "ignore"@,
    ensures
        schedule_spec(s, b, action, now).entries == s.entries,
        schedule_spec(s, b, action, now).heap == s.heap,
{
}

/// An extension never runs longer than what was left plus the (non-negative
/// part of the) extension; a negative extension adds nothing.
pub proof fn lemma_extend_bounded(b: BuffTimerV, e: BuffEntry, now: u64)
    requires
        b.on_refresh == "extend"@,
    ensures
        refreshed_duration(b, e, now) <= e.duration + non_negative_ms(b.extend_ms),
        b.extend_ms <= 0 ==> refreshed_duration(b, e, now) <= e.duration,
{
}

/// Only a current expiry fires, and firing ends its timer.
pub proof fn lemma_fired_is_current(s: BuffStateV, now: u64)
    requires
        crate::namemap::sorted_keys(s.entries),
    ensures
        pop_spec(s, now).1 matches Some(it) ==> it.expire <= now && lookup(pop_spec(s, now).0.entries, it.name) is None,
    decreases s.heap.len(),
{
    if s.heap.len() > 0 {
        lemma_earliest_bounds(s.heap);
        let i = earliest(s.heap);
        let it = s.heap[i];
        if it.expire <= now {
            let rest = BuffStateV { heap: s.heap.remove(i), ..s };
            if is_current(s.entries, it) {
                crate::namemap::lemma_remove_spec_gone(s.entries, it.name);
            } else {
                lemma_fired_is_current(rest, now);
            }
        }
    }
}

} // verus!

//! The slots of signatures that were looked up, for a while. Of several lookups of one signature
//! at a time one asks the database, and the others wait for it.
//!
//! Points in time are lengths of time since some fixed start.
use vstd::prelude::*;

use crate::clickhouse::types::SignatureSlot;
use crate::text;
use crate::text_search;
use crate::time::Duration;

verus! {

/// More entries than these are never kept.
pub const MAX_CACHE_CAPACITY: usize = 1_000_000;

/// The capacity where none is configured.
pub const DEFAULT_CACHE_CAPACITY: usize = 50_000;

/// For how many seconds a slot is kept where nothing else is configured.
pub const DEFAULT_TTL_FOUND_SECS: u64 = 21_600;

/// For how many seconds it is kept that there is no slot where nothing else is configured.
pub const DEFAULT_TTL_MISSING_SECS: u64 = 1;

/// What is known of a signature.
#[derive(Clone, Copy, Debug, PartialEq, Eq, Structural)]
pub enum Entry {
    /// Its slot, or that there is none, up to a point in time.
    Ready { value: Option<SignatureSlot>, expires_at: Duration },
    /// That the lookup with this ticket is under way.
    InFlight { ticket: u64 },
}

/// A signature and what is known of it.
#[derive(Clone, Copy, Debug)]
pub struct CacheSlot {
    pub key: [u8; 64],
    pub entry: Entry,
}

/// The one that asks the database for a signature.
#[derive(Debug)]
pub struct SignatureSlotCacheLeader {
    pub key: [u8; 64],
    pub ticket: u64,
}

/// What a lookup begins with.
#[derive(Debug)]
pub enum CacheStart {
    /// The slot is known.
    Hit(Option<SignatureSlot>),
    /// Another lookup is under way, with this ticket.
    Wait(u64),
    /// The database is to be asked.
    Leader(SignatureSlotCacheLeader),
}

/// What is known of signatures.
#[derive(Debug)]
pub struct SignatureSlotCache {
    pub ttl_found: Duration,
    pub ttl_missing: Duration,
    pub capacity: usize,
    pub entries: Vec<CacheSlot>,
    pub next_ticket: u64,
}

/// Each signature occurs once.
pub open spec fn distinct(s: Seq<CacheSlot>) -> bool {
    forall|i: int, j: int| 0 <= i < j < s.len() ==> (#[trigger] s[i]).key@ != (#[trigger] s[j]).key@
}

/// What is known of a signature.
pub open spec fn lookup(s: Seq<CacheSlot>, key: Seq<u8>) -> Option<Entry>
    decreases s.len(),
{
    if s.len() == 0 {
        None
    } else if s.last().key@ == key {
        Some(s.last().entry)
    } else {
        lookup(s.drop_last(), key)
    }
}

/// The entries of all other signatures.
pub open spec fn without(s: Seq<CacheSlot>, key: Seq<u8>) -> Seq<CacheSlot>
    decreases s.len(),
{
    if s.len() == 0 {
        Seq::empty()
    } else if s.last().key@ == key {
        without(s.drop_last(), key)
    } else {
        without(s.drop_last(), key).push(s.last())
    }
}

/// The entries with that of a signature replaced.
pub open spec fn replaced(s: Seq<CacheSlot>, slot: CacheSlot) -> Seq<CacheSlot> {
    Seq::new(
        s.len(),
        |i: int|
            if s[i].key@ == slot.key@ {
                slot
            } else {
                s[i]
            },
    )
}

/// Whether an entry still holds.
pub open spec fn holds(entry: Entry, now: Duration) -> bool {
    match entry {
        Entry::Ready { expires_at, .. } => now.shorter(expires_at),
        Entry::InFlight { .. } => true,
    }
}

/// The entries that still hold.
pub open spec fn still_held(s: Seq<CacheSlot>, now: Duration) -> Seq<CacheSlot>
    decreases s.len(),
{
    if s.len() == 0 {
        Seq::empty()
    } else if holds(s.last().entry, now) {
        still_held(s.drop_last(), now).push(s.last())
    } else {
        still_held(s.drop_last(), now)
    }
}

/// How many entries are ready.
pub open spec fn ready_count(s: Seq<CacheSlot>) -> nat
    decreases s.len(),
{
    if s.len() == 0 {
        0
    } else if s.last().entry is Ready {
        ready_count(s.drop_last()) + 1
    } else {
        ready_count(s.drop_last())
    }
}

/// The entries without the first `n` that are ready.
pub open spec fn without_ready(s: Seq<CacheSlot>, n: int) -> Seq<CacheSlot>
    decreases s.len(),
{
    if s.len() == 0 {
        Seq::empty()
    } else if s.last().entry is Ready && ready_count(s.drop_last()) < n {
        without_ready(s.drop_last(), n)
    } else {
        without_ready(s.drop_last(), n).push(s.last())
    }
}

/// What is kept of entries: all where there is room for them; else those that hold, and of these, if
/// need be, not the first that are ready.
pub open spec fn kept(s: Seq<CacheSlot>, capacity: usize, now: Duration) -> Seq<CacheSlot> {
    if s.len() <= capacity {
        s
    } else {
        let held = still_held(s, now);
        if held.len() <= capacity {
            held
        } else {
            without_ready(held, held.len() - capacity)
        }
    }
}

proof fn lemma_lookup_at(s: Seq<CacheSlot>, i: int)
    requires
        distinct(s),
        0 <= i < s.len(),
    ensures
        lookup(s, s[i].key@) == Some(s[i].entry),
    decreases s.len(),
{
    if i < s.len() - 1 {
        assert(s[i].key@ != s[s.len() - 1].key@);
        assert(s.drop_last()[i] == s[i]);
        assert forall|a: int, b: int| 0 <= a < b < s.drop_last().len() implies (
        #[trigger] s.drop_last()[a]).key@ != (#[trigger] s.drop_last()[b]).key@ by {
            assert(s[a].key@ != s[b].key@);
        }
        lemma_lookup_at(s.drop_last(), i);
    }
}

proof fn lemma_lookup_none(s: Seq<CacheSlot>, key: Seq<u8>)
    ensures
        lookup(s, key) is None <==> forall|i: int|
            0 <= i < s.len() ==> (#[trigger] s[i]).key@ != key,
    decreases s.len(),
{
    if s.len() > 0 {
        let t = s.drop_last();
        lemma_lookup_none(t, key);
        if s.last().key@ == key {
            assert(s[s.len() - 1].key@ == key);
        } else if lookup(t, key) is None {
            assert forall|i: int| 0 <= i < s.len() implies (#[trigger] s[i]).key@ != key by {
                if i < t.len() {
                    assert(t[i] == s[i]);
                }
            }
        } else {
            let i = choose|i: int| 0 <= i < t.len() && (#[trigger] t[i]).key@ == key;
            assert(s[i].key@ == key);
        }
    }
}

proof fn lemma_without_absent(s: Seq<CacheSlot>, key: Seq<u8>)
    requires
        forall|i: int| 0 <= i < s.len() ==> (#[trigger] s[i]).key@ != key,
    ensures
        without(s, key) == s,
    decreases s.len(),
{
    if s.len() > 0 {
        assert forall|i: int| 0 <= i < s.drop_last().len() implies (
        #[trigger] s.drop_last()[i]).key@ != key by {
            assert(s[i].key@ != key);
        }
        lemma_without_absent(s.drop_last(), key);
        assert(s[s.len() - 1].key@ != key);
        assert(s =~= s.drop_last().push(s.last()));
    } else {
        assert(s =~= Seq::empty());
    }
}

proof fn lemma_without_at(s: Seq<CacheSlot>, i: int)
    requires
        distinct(s),
        0 <= i < s.len(),
    ensures
        without(s, s[i].key@) == s.remove(i),
    decreases s.len(),
{
    let t = s.drop_last();
    assert forall|a: int, b: int| 0 <= a < b < t.len() implies (#[trigger] t[a]).key@ != (
    #[trigger] t[b]).key@ by {
        assert(s[a].key@ != s[b].key@);
    }
    if i == s.len() - 1 {
        assert forall|k: int| 0 <= k < t.len() implies (#[trigger] t[k]).key@ != s[i].key@ by {
            assert(s[k].key@ != s[i].key@);
        }
        lemma_without_absent(t, s[i].key@);
        assert(s.remove(i) =~= t);
    } else {
        assert(t[i] == s[i]);
        assert(s[i].key@ != s[s.len() - 1].key@);
        lemma_without_at(t, i);
        assert(s.remove(i) =~= t.remove(i).push(s.last()));
    }
}

/// A signature whose lookup failed is asked for anew, and nothing else is forgotten.
pub proof fn law_failed_lookup_allows_retry(s: Seq<CacheSlot>, key: Seq<u8>, other: Seq<u8>)
    ensures
        lookup(without(s, key), key) is None,
        other != key ==> lookup(without(s, key), other) == lookup(s, other),
    decreases s.len(),
{
    if s.len() > 0 {
        law_failed_lookup_allows_retry(s.drop_last(), key, other);
        if s.last().key@ != key {
            let w = without(s.drop_last(), key).push(s.last());
            assert(w.drop_last() =~= without(s.drop_last(), key));
        }
    }
}

/// While a lookup is under way every other one of its signature waits for it, and other signatures
/// are not touched.
pub proof fn law_one_lookup_at_a_time(
    s: Seq<CacheSlot>,
    key: [u8; 64],
    ticket: u64,
    other: Seq<u8>,
)
    ensures
        lookup(
            without(s, key@).push(CacheSlot { key, entry: Entry::InFlight { ticket } }),
            key@,
        ) == Some(Entry::InFlight { ticket }),
        other != key@ ==> lookup(
            without(s, key@).push(CacheSlot { key, entry: Entry::InFlight { ticket } }),
            other,
        ) == lookup(s, other),
{
    let t = without(s, key@).push(CacheSlot { key, entry: Entry::InFlight { ticket } });
    assert(t.drop_last() =~= without(s, key@));
    law_failed_lookup_allows_retry(s, key@, other);
}

proof fn lemma_lookup_replaced(s: Seq<CacheSlot>, slot: CacheSlot, key: Seq<u8>)
    ensures
        lookup(replaced(s, slot), key) == (if key == slot.key@ && lookup(s, key) is Some {
            Some(slot.entry)
        } else {
            lookup(s, key)
        }),
    decreases s.len(),
{
    if s.len() > 0 {
        assert(replaced(s, slot).drop_last() =~= replaced(s.drop_last(), slot));
        lemma_lookup_replaced(s.drop_last(), slot, key);
    }
}

/// What a lookup found is what later ones get where there is room for it, and other signatures are
/// not touched.
pub proof fn law_found_slot_is_remembered(
    s: Seq<CacheSlot>,
    slot: CacheSlot,
    capacity: usize,
    now: Duration,
    other: Seq<u8>,
)
    requires
        lookup(s, slot.key@) is Some,
        s.len() <= capacity,
    ensures
        lookup(kept(replaced(s, slot), capacity, now), slot.key@) == Some(slot.entry),
        other != slot.key@ ==> lookup(kept(replaced(s, slot), capacity, now), other) == lookup(
            s,
            other,
        ),
{
    lemma_lookup_replaced(s, slot, slot.key@);
    lemma_lookup_replaced(s, slot, other);
}

proof fn lemma_still_held(s: Seq<CacheSlot>, now: Duration, x: CacheSlot)
    ensures
        still_held(s, now).contains(x) <==> s.contains(x) && holds(x.entry, now),
        still_held(s, now).len() <= s.len(),
    decreases s.len(),
{
    if s.len() > 0 {
        let t = s.drop_last();
        lemma_still_held(t, now, x);
        assert(s =~= t.push(s.last()));
        lemma_push_contains(t, s.last(), x);
        lemma_push_contains(still_held(t, now), s.last(), x);
    }
}

proof fn lemma_push_contains(s: Seq<CacheSlot>, y: CacheSlot, x: CacheSlot)
    ensures
        s.push(y).contains(x) <==> s.contains(x) || x == y,
{
    if s.contains(x) {
        let i = choose|i: int| 0 <= i < s.len() && s[i] == x;
        assert(s.push(y)[i] == x);
    }
    assert(s.push(y)[s.len() as int] == y);
    if s.push(y).contains(x) && x != y {
        let i = choose|i: int| 0 <= i < s.push(y).len() && s.push(y)[i] == x;
        assert(s[i] == x);
    }
}

proof fn lemma_without_ready(s: Seq<CacheSlot>, n: int, x: CacheSlot)
    requires
        n >= 0,
    ensures
        without_ready(s, n).contains(x) ==> s.contains(x),
        s.contains(x) && x.entry is InFlight ==> without_ready(s, n).contains(x),
        without_ready(s, n).len() == s.len() - (if ready_count(s) < n {
            ready_count(s) as int
        } else {
            n
        }),
        ready_count(s) <= s.len(),
    decreases s.len(),
{
    if s.len() > 0 {
        let t = s.drop_last();
        lemma_without_ready(t, n, x);
        assert(s =~= t.push(s.last()));
        lemma_push_contains(t, s.last(), x);
        lemma_push_contains(without_ready(t, n), s.last(), x);
    }
}

/// How many lookups are under way.
pub open spec fn in_flight_count(s: Seq<CacheSlot>) -> int {
    s.len() - ready_count(s)
}

proof fn lemma_in_flight_held(s: Seq<CacheSlot>, now: Duration)
    ensures
        in_flight_count(still_held(s, now)) == in_flight_count(s),
    decreases s.len(),
{
    if s.len() > 0 {
        let t = s.drop_last();
        lemma_in_flight_held(t, now);
        if holds(s.last().entry, now) {
            let w = still_held(t, now).push(s.last());
            assert(w.drop_last() =~= still_held(t, now));
        }
    }
}

/// A lookup that is under way is never forgotten, nothing is invented, and there are no more entries
/// than the capacity but for lookups under way.
pub proof fn law_cache_is_bounded(s: Seq<CacheSlot>, capacity: usize, now: Duration, x: CacheSlot)
    ensures
        kept(s, capacity, now).contains(x) ==> s.contains(x),
        s.contains(x) && x.entry is InFlight ==> kept(s, capacity, now).contains(x),
        kept(s, capacity, now).len() <= capacity || kept(s, capacity, now).len()
            == in_flight_count(s),
{
    let held = still_held(s, now);
    lemma_still_held(s, now, x);
    lemma_in_flight_held(s, now);
    if s.len() > capacity && held.len() > capacity {
        lemma_without_ready(held, held.len() - capacity, x);
    }
}

fn same_signature(a: &[u8; 64], b: &[u8; 64]) -> (r: bool)
    ensures
        r == (a@ == b@),
{
    let mut i: usize = 0;
    while i < 64
        invariant
            i <= 64,
            forall|k: int| 0 <= k < i ==> a@[k] == b@[k],
        decreases 64 - i,
    {
        if a[i] != b[i] {
            return false;
        }
        i += 1;
    }
    proof {
        assert(a@ =~= b@);
    }
    true
}

fn position_of(entries: &Vec<CacheSlot>, key: &[u8; 64]) -> (r: Option<usize>)
    requires
        distinct(entries@),
    ensures
        match r {
            Some(i) => {
                &&& i < entries@.len()
                &&& entries@[i as int].key@ == key@
                &&& lookup(entries@, key@) == Some(entries@[i as int].entry)
            },
            None => lookup(entries@, key@) is None,
        },
{
    let mut i: usize = 0;
    while i < entries.len()
        invariant
            i <= entries@.len(),
            distinct(entries@),
            forall|k: int| 0 <= k < i ==> (#[trigger] entries@[k]).key@ != key@,
        decreases entries@.len() - i,
    {
        if same_signature(&entries[i].key, key) {
            proof {
                lemma_lookup_at(entries@, i as int);
            }
            return Some(i);
        }
        i += 1;
    }
    proof {
        lemma_lookup_none(entries@, key@);
    }
    None
}

fn is_held(entry: &Entry, now: Duration) -> (r: bool)
    ensures
        r == holds(*entry, now),
{
    match entry {
        Entry::Ready { expires_at, .. } => now.is_shorter(*expires_at),
        Entry::InFlight { .. } => true,
    }
}

fn held_entries(entries: &Vec<CacheSlot>, now: Duration) -> (r: Vec<CacheSlot>)
    ensures
        r@ == still_held(entries@, now),
{
    let mut r: Vec<CacheSlot> = Vec::new();
    let mut i: usize = 0;
    while i < entries.len()
        invariant
            i <= entries@.len(),
            r@ == still_held(entries@.take(i as int), now),
        decreases entries@.len() - i,
    {
        let slot = entries[i];
        if is_held(&slot.entry, now) {
            r.push(slot);
        }
        i += 1;
        proof {
            assert(entries@.take(i as int).drop_last() =~= entries@.take(i - 1));
            assert(entries@.take(i as int).last() == slot);
        }
    }
    assert(entries@.take(i as int) =~= entries@);
    r
}

fn entries_without_ready(entries: &Vec<CacheSlot>, n: usize) -> (r: Vec<CacheSlot>)
    ensures
        r@ == without_ready(entries@, n as int),
{
    let mut r: Vec<CacheSlot> = Vec::new();
    let mut over_by: usize = n;
    let mut i: usize = 0;
    while i < entries.len()
        invariant
            i <= entries@.len(),
            over_by == (if ready_count(entries@.take(i as int)) < n {
                n - ready_count(entries@.take(i as int))
            } else {
                0
            }),
            r@ == without_ready(entries@.take(i as int), n as int),
        decreases entries@.len() - i,
    {
        let slot = entries[i];
        let ready = match slot.entry {
            Entry::Ready { .. } => true,
            Entry::InFlight { .. } => false,
        };
        proof {
            assert(entries@.take(i + 1).drop_last() =~= entries@.take(i as int));
            assert(entries@.take(i + 1).last() == slot);
        }
        if ready && over_by > 0 {
            over_by -= 1;
        } else {
            r.push(slot);
        }
        i += 1;
    }
    assert(entries@.take(i as int) =~= entries@);
    r
}

proof fn lemma_distinct_still_held(s: Seq<CacheSlot>, now: Duration)
    requires
        distinct(s),
    ensures
        distinct(still_held(s, now)),
    decreases s.len(),
{
    if s.len() > 0 {
        let t = s.drop_last();
        assert forall|a: int, b: int| 0 <= a < b < t.len() implies (#[trigger] t[a]).key@ != (
        #[trigger] t[b]).key@ by {
            assert(s[a].key@ != s[b].key@);
        }
        lemma_distinct_still_held(t, now);
        lemma_distinct_push(still_held(t, now), s, now, 0);
    }
}

proof fn lemma_distinct_push(w: Seq<CacheSlot>, s: Seq<CacheSlot>, now: Duration, n: int)
    requires
        s.len() > 0,
        distinct(s),
        distinct(w),
        n >= 0,
        w == still_held(s.drop_last(), now) || w == without_ready(s.drop_last(), n),
    ensures
        distinct(w.push(s.last())),
{
    let t = s.drop_last();
    let p = w.push(s.last());
    assert forall|a: int, b: int| 0 <= a < b < p.len() implies (#[trigger] p[a]).key@ != (
    #[trigger] p[b]).key@ by {
        if b == w.len() {
            lemma_still_held(t, now, w[a]);
            lemma_without_ready(t, n, w[a]);
            assert(w.contains(w[a]));
            let k = choose|k: int| 0 <= k < t.len() && t[k] == w[a];
            assert(s[k].key@ != s[s.len() - 1].key@);
        } else {
            assert(w[a].key@ != w[b].key@);
        }
    }
}

proof fn lemma_distinct_without_ready(s: Seq<CacheSlot>, n: int)
    requires
        distinct(s),
        n >= 0,
    ensures
        distinct(without_ready(s, n)),
    decreases s.len(),
{
    if s.len() > 0 {
        let t = s.drop_last();
        assert forall|a: int, b: int| 0 <= a < b < t.len() implies (#[trigger] t[a]).key@ != (
        #[trigger] t[b]).key@ by {
            assert(s[a].key@ != s[b].key@);
        }
        lemma_distinct_without_ready(t, n);
        lemma_distinct_push(without_ready(t, n), s, Duration { secs: 0, nanos: 0 }, n);
    }
}

/// A number in a text, with blanks around it.
pub open spec fn setting_number(raw: Option<String>, limit: nat) -> Option<nat> {
    match raw {
        Some(s) => text::unsigned_text(text_search::trim(s@), limit),
        None => None,
    }
}

fn read_setting(raw: &Option<String>) -> (r: Option<u64>)
    ensures
        match r {
            Some(v) => setting_number(*raw, u64::MAX as nat) == Some(v as nat),
            None => setting_number(*raw, u64::MAX as nat) is None,
        },
{
    match raw {
        Some(s) => text::parse_u64_text(text_search::trim_text(s.as_str()).as_str()),
        None => None,
    }
}

/// A number, or another where there is none.
pub open spec fn number_or(n: Option<nat>, otherwise: int) -> int {
    match n {
        Some(v) => v as int,
        None => otherwise,
    }
}

/// A capacity within its bounds.
pub open spec fn bounded_capacity(n: int) -> int {
    if n < 1 {
        1
    } else if n > MAX_CACHE_CAPACITY {
        MAX_CACHE_CAPACITY as int
    } else {
        n
    }
}

impl SignatureSlotCache {
    /// Each signature occurs once, and the capacity is within its bounds.
    pub open spec fn wf(self) -> bool {
        &&& distinct(self.entries@)
        &&& 1 <= self.capacity <= MAX_CACHE_CAPACITY
        &&& self.ttl_found.wf()
        &&& self.ttl_missing.wf()
        &&& forall|i: int|
            0 <= i < self.entries@.len() ==> ((#[trigger] self.entries@[i]).entry
                matches Entry::InFlight { ticket } ==> ticket < self.next_ticket)
    }

    /// A cache without entries. Its capacity is bounded whatever is configured.
    pub fn new(ttl_found: Duration, ttl_missing: Duration, capacity: usize) -> (r: Self)
        requires
            ttl_found.wf(),
            ttl_missing.wf(),
        ensures
            r.wf(),
            r.ttl_found == ttl_found,
            r.ttl_missing == ttl_missing,
            r.capacity == bounded_capacity(capacity as int),
            r.entries@.len() == 0,
    {
        let bounded: usize = if capacity < 1 {
            1
        } else if capacity > MAX_CACHE_CAPACITY {
            MAX_CACHE_CAPACITY
        } else {
            capacity
        };
        SignatureSlotCache {
            ttl_found,
            ttl_missing,
            capacity: bounded,
            entries: Vec::new(),
            next_ticket: 0,
        }
    }

    /// A cache without entries, as the environment configures it. A setting that is no number of
    /// its kind is as none.
    pub fn from_env(
        capacity: Option<String>,
        ttl_found_secs: Option<String>,
        ttl_missing_secs: Option<String>,
    ) -> (r: Self)
        ensures
            r.wf(),
            r.ttl_found.secs == number_or(
                setting_number(ttl_found_secs, u64::MAX as nat),
                DEFAULT_TTL_FOUND_SECS as int,
            ),
            r.ttl_found.nanos == 0,
            r.ttl_missing.secs == number_or(
                setting_number(ttl_missing_secs, u64::MAX as nat),
                DEFAULT_TTL_MISSING_SECS as int,
            ),
            r.ttl_missing.nanos == 0,
            r.capacity == bounded_capacity(
                number_or(
                    setting_number(capacity, usize::MAX as nat),
                    DEFAULT_CACHE_CAPACITY as int,
                ),
            ),
            r.entries@.len() == 0,
    {
        let size: usize = match read_setting(&capacity) {
            Some(v) => if v <= usize::MAX as u64 {
                v as usize
            } else {
                DEFAULT_CACHE_CAPACITY
            },
            None => DEFAULT_CACHE_CAPACITY,
        };
        let found: u64 = match read_setting(&ttl_found_secs) {
            Some(v) => v,
            None => DEFAULT_TTL_FOUND_SECS,
        };
        let missing: u64 = match read_setting(&ttl_missing_secs) {
            Some(v) => v,
            None => DEFAULT_TTL_MISSING_SECS,
        };
        SignatureSlotCache::new(Duration::from_secs(found), Duration::from_secs(missing), size)
    }

    /// Begins a lookup. What holds is returned; a lookup that is under way is waited for; else the
    /// caller asks the database.
    pub fn get_or_start(&mut self, key: [u8; 64], now: Duration) -> (r: CacheStart)
        requires
            old(self).wf(),
            old(self).next_ticket < u64::MAX,
        ensures
            final(self).wf(),
            match lookup(old(self).entries@, key@) {
                Some(Entry::Ready { value, expires_at }) if now.shorter(expires_at) => {
                    &&& r == CacheStart::Hit(value)
                    &&& *final(self) == *old(self)
                },
                Some(Entry::InFlight { ticket }) => {
                    &&& r == CacheStart::Wait(ticket)
                    &&& *final(self) == *old(self)
                },
                _ => {
                    let ticket = old(self).next_ticket;
                    &&& r == CacheStart::Leader(SignatureSlotCacheLeader { key, ticket })
                    &&& final(self).entries@ == without(old(self).entries@, key@).push(
                        CacheSlot { key, entry: Entry::InFlight { ticket } },
                    )
                    &&& final(self).next_ticket == ticket + 1
                    &&& final(self).capacity == old(self).capacity
                    &&& final(self).ttl_found == old(self).ttl_found
                    &&& final(self).ttl_missing == old(self).ttl_missing
                },
            },
    {
        let ghost before = self.entries@;
        match position_of(&self.entries, &key) {
            Some(i) => {
                match self.entries[i].entry {
                    Entry::Ready { value, expires_at } => {
                        if now.is_shorter(expires_at) {
                            return CacheStart::Hit(value);
                        }
                    },
                    Entry::InFlight { ticket } => {
                        return CacheStart::Wait(ticket);
                    },
                }
                self.entries.remove(i);
                proof {
                    lemma_without_at(before, i as int);
                }
            },
            None => {
                proof {
                    lemma_lookup_none(before, key@);
                    lemma_without_absent(before, key@);
                }
            },
        }
        let ghost others = self.entries@;
        let ticket: u64 = self.next_ticket;
        self.next_ticket = ticket + 1;
        self.entries.push(CacheSlot { key, entry: Entry::InFlight { ticket } });
        proof {
            law_failed_lookup_allows_retry(before, key@, key@);
            lemma_lookup_none(others, key@);
            assert forall|a: int, b: int| 0 <= a < b < self.entries@.len() implies (
            #[trigger] self.entries@[a]).key@ != (#[trigger] self.entries@[b]).key@ by {
                assert(self.entries@[a] == others[a]);
                if b < others.len() {
                    assert(self.entries@[b] == others[b]);
                }
            }
        }
        CacheStart::Leader(SignatureSlotCacheLeader { key, ticket })
    }

    /// Takes what the one that asked the database found, at `found_at`, unless its lookup was given
    /// up; then makes room, at `now`.
    pub fn finish_leader(
        &mut self,
        leader: SignatureSlotCacheLeader,
        value: Option<SignatureSlot>,
        found_at: Duration,
        now: Duration,
    )
        requires
            old(self).wf(),
            found_at.wf(),
            found_at.secs + old(self).ttl_found.secs < u64::MAX,
            found_at.secs + old(self).ttl_missing.secs < u64::MAX,
        ensures
            final(self).wf(),
            final(self).capacity == old(self).capacity,
            final(self).ttl_found == old(self).ttl_found,
            final(self).ttl_missing == old(self).ttl_missing,
            final(self).next_ticket == old(self).next_ticket,
            if lookup(old(self).entries@, leader.key@) == Some(
                Entry::InFlight { ticket: leader.ticket },
            ) {
                exists|expires_at: Duration|
                    {
                        &&& #[trigger] expires_at.wf()
                        &&& expires_at.total_nanos() == found_at.total_nanos() + (if value is Some {
                            old(self).ttl_found
                        } else {
                            old(self).ttl_missing
                        }).total_nanos()
                        &&& final(self).entries@ == kept(
                            replaced(
                                old(self).entries@,
                                CacheSlot {
                                    key: leader.key,
                                    entry: Entry::Ready { value, expires_at },
                                },
                            ),
                            old(self).capacity,
                            now,
                        )
                    }
            } else {
                final(self).entries@ == old(self).entries@
            },
    {
        let ttl = if value.is_some() {
            self.ttl_found
        } else {
            self.ttl_missing
        };
        let expires_at = found_at.plus(ttl);
        let ghost before = self.entries@;
        if let Some(i) = position_of(&self.entries, &leader.key) {
            let current = match self.entries[i].entry {
                Entry::InFlight { ticket } => ticket == leader.ticket,
                Entry::Ready { .. } => false,
            };
            if current {
                let slot = CacheSlot { key: leader.key, entry: Entry::Ready { value, expires_at } };
                self.entries.set(i, slot);
                proof {
                    assert forall|k: int| 0 <= k < before.len() implies self.entries@[k]
                        == replaced(before, slot)[k] by {
                        if k != i {
                            assert(before[k].key@ != before[i as int].key@) by {
                                if k < i {
                                    assert(before[k].key@ != before[i as int].key@);
                                } else {
                                    assert(before[i as int].key@ != before[k].key@);
                                }
                            }
                        }
                    }
                    assert(self.entries@ =~= replaced(before, slot));
                    assert forall|a: int, b: int| 0 <= a < b < self.entries@.len() implies (
                    #[trigger] self.entries@[a]).key@ != (#[trigger] self.entries@[b]).key@ by {
                        assert(before[a].key@ != before[b].key@);
                    }
                    assert forall|k: int| 0 <= k < self.entries@.len() implies ((
                    #[trigger] self.entries@[k]).entry matches Entry::InFlight { ticket } ==> ticket
                        < self.next_ticket) by {
                        if k != i {
                            assert(self.entries@[k] == before[k]);
                        }
                    }
                }
                self.evict_if_needed(now);
            }
        }
    }

    /// Makes room where there are more entries than the capacity allows. Lookups under way are kept.
    pub fn evict_if_needed(&mut self, now: Duration)
        requires
            old(self).wf(),
        ensures
            final(self).wf(),
            final(self).entries@ == kept(old(self).entries@, old(self).capacity, now),
            final(self).capacity == old(self).capacity,
            final(self).ttl_found == old(self).ttl_found,
            final(self).ttl_missing == old(self).ttl_missing,
            final(self).next_ticket == old(self).next_ticket,
    {
        if self.entries.len() <= self.capacity {
            return;
        }
        let ghost before = self.entries@;
        let held = held_entries(&self.entries, now);
        proof {
            lemma_distinct_still_held(before, now);
            assert forall|k: int| 0 <= k < held@.len() implies before.contains(#[trigger] held@[k]) by {
                lemma_still_held(before, now, held@[k]);
                assert(held@.contains(held@[k]));
            }
        }
        if held.len() <= self.capacity {
            proof {
                assert forall|k: int| 0 <= k < held@.len() implies ((#[trigger] held@[k]).entry
                    matches Entry::InFlight { ticket } ==> ticket < self.next_ticket) by {
                    let j = choose|j: int| 0 <= j < before.len() && before[j] == held@[k];
                    assert(before[j].entry == held@[k].entry);
                }
            }
            self.entries = held;
            return;
        }
        let over_by: usize = held.len() - self.capacity;
        let remaining = entries_without_ready(&held, over_by);
        proof {
            lemma_distinct_without_ready(held@, over_by as int);
            assert forall|k: int| 0 <= k < remaining@.len() implies ((
            #[trigger] remaining@[k]).entry matches Entry::InFlight { ticket } ==> ticket
                < self.next_ticket) by {
                lemma_without_ready(held@, over_by as int, remaining@[k]);
                assert(remaining@.contains(remaining@[k]));
                let m = choose|m: int| 0 <= m < held@.len() && held@[m] == remaining@[k];
                assert(before.contains(held@[m]));
                let j = choose|j: int| 0 <= j < before.len() && before[j] == held@[m];
                assert(before[j].entry == remaining@[k].entry);
            }
        }
        self.entries = remaining;
    }

    /// Gives a lookup up: it failed, or the one that asked went away. Its signature is asked for
    /// anew. A lookup of the same signature that began later is not touched.
    pub fn remove_in_flight(&mut self, leader: SignatureSlotCacheLeader)
        requires
            old(self).wf(),
        ensures
            final(self).wf(),
            final(self).entries@ == (if lookup(old(self).entries@, leader.key@) == Some(
                Entry::InFlight { ticket: leader.ticket },
            ) {
                without(old(self).entries@, leader.key@)
            } else {
                old(self).entries@
            }),
            final(self).capacity == old(self).capacity,
            final(self).ttl_found == old(self).ttl_found,
            final(self).ttl_missing == old(self).ttl_missing,
            final(self).next_ticket == old(self).next_ticket,
    {
        let ghost before = self.entries@;
        if let Some(i) = position_of(&self.entries, &leader.key) {
            let current = match self.entries[i].entry {
                Entry::InFlight { ticket } => ticket == leader.ticket,
                Entry::Ready { .. } => false,
            };
            if current {
                self.entries.remove(i);
                proof {
                    lemma_without_at(before, i as int);
                    assert forall|a: int, b: int| 0 <= a < b < self.entries@.len() implies (
                    #[trigger] self.entries@[a]).key@ != (#[trigger] self.entries@[b]).key@ by {
                        let p = if a < i {
                            a
                        } else {
                            a + 1
                        };
                        let q = if b < i {
                            b
                        } else {
                            b + 1
                        };
                        assert(before[p].key@ != before[q].key@);
                    }
                    assert forall|k: int| 0 <= k < self.entries@.len() implies ((
                    #[trigger] self.entries@[k]).entry matches Entry::InFlight { ticket } ==> ticket
                        < self.next_ticket) by {
                        let p = if k < i {
                            k
                        } else {
                            k + 1
                        };
                        assert(self.entries@[k] == before[p]);
                    }
                }
            }
        }
    }
}

/// A lookup gets a ticket that no lookup under way has: one that was given up cannot end a later one
/// of its signature.
pub proof fn law_tickets_are_fresh(cache: SignatureSlotCache, key: Seq<u8>, ticket: u64)
    requires
        cache.wf(),
        lookup(cache.entries@, key) == Some(Entry::InFlight { ticket }),
    ensures
        ticket < cache.next_ticket,
{
    lemma_lookup_none(cache.entries@, key);
    let i = choose|i: int| 0 <= i < cache.entries@.len() && (#[trigger] cache.entries@[i]).key@ == key;
    lemma_lookup_at(cache.entries@, i);
}

/// An entry is kept exactly as long as it holds.
pub proof fn law_entries_are_kept_while_they_hold(s: Seq<CacheSlot>, now: Duration, x: CacheSlot)
    ensures
        still_held(s, now).contains(x) <==> s.contains(x) && holds(x.entry, now),
        x.entry is InFlight ==> holds(x.entry, now),
        x.entry matches Entry::Ready { expires_at, .. } ==> (holds(x.entry, now) <==> now.shorter(
            expires_at,
        )),
    decreases s.len(),
{
    if s.len() > 0 {
        let less = s.drop_last();
        law_entries_are_kept_while_they_hold(less, now, x);
        let front = still_held(less, now);
        let all = still_held(s, now);
        assert(s[s.len() - 1] == s.last());
        if less.contains(x) {
            assert(s[less.index_of(x)] == x);
        }
        if front.contains(x) {
            assert(all[front.index_of(x)] == x);
        }
        if s.contains(x) && !less.contains(x) {
            let p = s.index_of(x);
            if p < less.len() {
                assert(less[p] == x);
            }
        }
        if holds(s.last().entry, now) {
            assert(all[all.len() - 1] == s.last());
        }
        if all.contains(x) && !front.contains(x) {
            let p = all.index_of(x);
            if p < front.len() {
                assert(front[p] == x);
            }
        }
    }
}

/// Making room drops as many answers as are asked for, or all of them where there are fewer, and no
/// lookup that is still under way.
pub proof fn law_room_is_made_by_dropping_answers(s: Seq<CacheSlot>, n: int, x: CacheSlot)
    requires
        n >= 0,
    ensures
        ready_count(without_ready(s, n)) == (if ready_count(s) > n {
            ready_count(s) - n
        } else {
            0
        }),
        without_ready(s, n).len() + ready_count(s) == s.len() + ready_count(without_ready(s, n)),
        without_ready(s, n).contains(x) ==> s.contains(x),
        s.contains(x) && !(x.entry is Ready) ==> without_ready(s, n).contains(x),
    decreases s.len(),
{
    if s.len() > 0 {
        let less = s.drop_last();
        law_room_is_made_by_dropping_answers(less, n, x);
        let front = without_ready(less, n);
        let all = without_ready(s, n);
        assert(s[s.len() - 1] == s.last());
        assert(front.push(s.last()).drop_last() =~= front);
        if less.contains(x) {
            assert(s[less.index_of(x)] == x);
        }
        if front.contains(x) {
            assert(all[front.index_of(x)] == x);
        }
        if s.contains(x) && !less.contains(x) {
            let p = s.index_of(x);
            if p < less.len() {
                assert(less[p] == x);
            }
            if !(x.entry is Ready) {
                assert(all[all.len() - 1] == x);
            }
        }
        if all.contains(x) && !front.contains(x) {
            let p = all.index_of(x);
            if p < front.len() {
                assert(front[p] == x);
            }
        }
    }
}

/// A capacity is at least one and at most a million, and in between it is taken as it is.
pub proof fn law_capacity_is_bounded(n: int)
    ensures
        1 <= bounded_capacity(n) <= 1_000_000,
        1 <= n <= 1_000_000 ==> bounded_capacity(n) == n,
        n < 1 ==> bounded_capacity(n) == 1,
        n > 1_000_000 ==> bounded_capacity(n) == 1_000_000,
{
}

/// A setting is the number in its text, blanks aside, where it has one within the limit.
pub proof fn law_setting_is_the_number_in_its_text(raw: String, n: nat, limit: nat, otherwise: int)
    ensures
        text_search::trim(raw@) == text::dec(n) && n <= limit ==> number_or(
            setting_number(Some(raw), limit),
            otherwise,
        ) == n,
        text_search::trim(raw@).len() == 0 ==> number_or(setting_number(Some(raw), limit), otherwise)
            == otherwise,
        number_or(setting_number(None, limit), otherwise) == otherwise,
{
    text::law_numbers_are_read_from_their_digits(n, limit, raw@);
}

/// Nothing is dropped while there is room, and of what still holds nothing while that has room.
pub proof fn law_nothing_is_dropped_while_there_is_room(
    s: Seq<CacheSlot>,
    capacity: usize,
    now: Duration,
    x: CacheSlot,
)
    ensures
        s.len() <= capacity ==> kept(s, capacity, now) == s,
        still_held(s, now).len() <= capacity && s.contains(x) && holds(x.entry, now) ==> kept(
            s,
            capacity,
            now,
        ).contains(x),
        s.len() > capacity && kept(s, capacity, now).contains(x) ==> holds(x.entry, now),
{
    law_entries_are_kept_while_they_hold(s, now, x);
    let held = still_held(s, now);
    if s.len() > capacity && held.len() > capacity {
        law_room_is_made_by_dropping_answers(held, held.len() - capacity, x);
    }
}

} // verus!

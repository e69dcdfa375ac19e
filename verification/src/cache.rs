//! A quota tracker per key: each key may spend up to a limit within a window that
//! begins with its first reservation and lasts a fixed time.

use crate::clock::Clock;
use crate::quota::admits;
use crate::quota::after_release;
use crate::quota::after_spend;
use crate::quota::current;
use crate::quota::entry_after;
use crate::quota::gate_admits;
use crate::quota::gate_after;
use crate::quota::live;
use crate::quota::peek_allows;
use crate::quota::lemma_admits_is_peek_within_limit;
use crate::quota::window_start;
use crate::quota::within_limit;
use crate::quota::Balance;
use crate::quota::CacheEntry;
use vstd::prelude::*;

verus! {

/// A key of a quota table. Two keys are the same key where their views are equal.
pub trait CacheKey: View + Sized {
    /// Whether `self` and `other` are the same key.
    fn same_key(&self, other: &Self) -> (same: bool)
        ensures
            same == (self@ == other@),
    ;
}

impl CacheKey for String {
    fn same_key(&self, other: &Self) -> (same: bool) {
        *self == *other
    }
}

/// The network address a request came from.
#[derive(Clone, Copy, Debug, PartialEq, Eq, Hash, Structural)]
pub enum NetAddr {
    /// An IPv4 address, as its 32 bits.
    V4(u32),
    /// An IPv6 address, as its 128 bits.
    V6(u128),
}

impl View for NetAddr {
    type V = NetAddr;

    open spec fn view(&self) -> NetAddr {
        *self
    }
}

impl CacheKey for NetAddr {
    fn same_key(&self, other: &Self) -> (same: bool) {
        *self == *other
    }
}

/// Whether no key occurs twice in `keys`.
pub open spec fn distinct_keys<K: View>(keys: Seq<K>) -> bool {
    forall|i: int, j: int|
        #![trigger keys[i], keys[j]]
        0 <= i < j < keys.len() ==> keys[i]@ != keys[j]@
}

/// Whether `key` stands at position `i` of `keys`.
pub open spec fn key_at<K: View>(keys: Seq<K>, i: int, key: K::V) -> bool {
    0 <= i < keys.len() && keys[i]@ == key
}

/// The table that two rows of equal length stand for: the key at each position holds
/// the entry at the same position.
pub open spec fn table<K: View>(keys: Seq<K>, entries: Seq<CacheEntry>) -> Map<K::V, CacheEntry> {
    Map::new(
        |k: K::V| exists|i: int| key_at(keys, i, k),
        |k: K::V| entries[choose|i: int| key_at(keys, i, k)],
    )
}

proof fn lemma_table_at<K: View>(keys: Seq<K>, entries: Seq<CacheEntry>, i: int)
    requires
        distinct_keys(keys),
        0 <= i < keys.len(),
    ensures
        table(keys, entries).contains_key(keys[i]@),
        table(keys, entries)[keys[i]@] == entries[i],
{
    let k = keys[i]@;
    assert(key_at(keys, i, k));
    let j = choose|j: int| key_at(keys, j, k);
    assert(key_at(keys, j, k));
    if j != i {
        if i < j {
            assert(keys[i]@ != keys[j]@);
        } else {
            assert(keys[j]@ != keys[i]@);
        }
    }
}

proof fn lemma_table_update<K: View>(
    keys: Seq<K>,
    entries: Seq<CacheEntry>,
    i: int,
    entry: CacheEntry,
)
    requires
        distinct_keys(keys),
        keys.len() == entries.len(),
        0 <= i < keys.len(),
    ensures
        table(keys, entries.update(i, entry)) == table(keys, entries).insert(keys[i]@, entry),
{
    let left = table(keys, entries.update(i, entry));
    let right = table(keys, entries).insert(keys[i]@, entry);
    assert forall|k: K::V| left.contains_key(k) == right.contains_key(k) by {
        if k == keys[i]@ {
            assert(key_at(keys, i, k));
        }
    }
    assert forall|k: K::V| #[trigger] left.contains_key(k) implies left[k] == right[k] by {
        let j = choose|j: int| key_at(keys, j, k);
        assert(key_at(keys, j, k));
        lemma_table_at(keys, entries.update(i, entry), j);
        lemma_table_at(keys, entries, j);
        if j != i {
            if i < j {
                assert(keys[i]@ != keys[j]@);
            } else {
                assert(keys[j]@ != keys[i]@);
            }
        }
    }
    assert(left =~= right);
}

proof fn lemma_table_push<K: View>(
    keys: Seq<K>,
    entries: Seq<CacheEntry>,
    key: K,
    entry: CacheEntry,
)
    requires
        distinct_keys(keys),
        keys.len() == entries.len(),
        forall|i: int| 0 <= i < keys.len() ==> (#[trigger] keys[i])@ != key@,
    ensures
        distinct_keys(keys.push(key)),
        table(keys.push(key), entries.push(entry)) == table(keys, entries).insert(key@, entry),
{
    let keys2 = keys.push(key);
    let entries2 = entries.push(entry);
    assert(distinct_keys(keys2)) by {
        assert forall|i: int, j: int| 0 <= i < j < keys2.len() implies (#[trigger] keys2[i])@ != (
        #[trigger] keys2[j])@ by {
            if j < keys.len() {
                assert(keys[i]@ != keys[j]@);
            } else {
                assert(keys[i]@ != key@);
            }
        }
    }
    let left = table(keys2, entries2);
    let right = table(keys, entries).insert(key@, entry);
    assert forall|k: K::V| left.contains_key(k) == right.contains_key(k) by {
        if left.contains_key(k) {
            let j = choose|j: int| key_at(keys2, j, k);
            assert(key_at(keys2, j, k));
            if j < keys.len() {
                assert(key_at(keys, j, k));
            }
        }
        if right.contains_key(k) {
            if k == key@ {
                assert(key_at(keys2, keys.len() as int, k));
            } else {
                let j = choose|j: int| key_at(keys, j, k);
                assert(key_at(keys, j, k));
                assert(key_at(keys2, j, k));
            }
        }
    }
    assert forall|k: K::V| #[trigger] left.contains_key(k) implies left[k] == right[k] by {
        let j = choose|j: int| key_at(keys2, j, k);
        assert(key_at(keys2, j, k));
        lemma_table_at(keys2, entries2, j);
        if j < keys.len() {
            lemma_table_at(keys, entries, j);
            assert(keys[j]@ != key@);
        }
    }
    assert(left =~= right);
}

proof fn lemma_table_swap_remove<K: View>(keys: Seq<K>, entries: Seq<CacheEntry>, i: int)
    requires
        distinct_keys(keys),
        keys.len() == entries.len(),
        0 <= i < keys.len(),
    ensures
        distinct_keys(keys.update(i, keys.last()).drop_last()),
        table(
            keys.update(i, keys.last()).drop_last(),
            entries.update(i, entries.last()).drop_last(),
        ) == table(keys, entries).remove(keys[i]@),
{
    let last = keys.len() - 1;
    let keys2 = keys.update(i, keys.last()).drop_last();
    let entries2 = entries.update(i, entries.last()).drop_last();
    // Position `a` of the new rows holds what position `from(a)` of the old rows held.
    let from = |a: int| if a == i { last } else { a };
    assert forall|a: int| 0 <= a < keys2.len() implies (#[trigger] keys2[a]) == keys[from(a)]
        && entries2[a] == entries[from(a)] by {}
    assert(distinct_keys(keys2)) by {
        assert forall|a: int, b: int| 0 <= a < b < keys2.len() implies (#[trigger] keys2[a])@ != (
        #[trigger] keys2[b])@ by {
            let fa = from(a);
            let fb = from(b);
            assert(keys2[a] == keys[fa]);
            assert(keys2[b] == keys[fb]);
            if fa < fb {
                assert(keys[fa]@ != keys[fb]@);
            } else {
                assert(keys[fb]@ != keys[fa]@);
            }
        }
    }
    let left = table(keys2, entries2);
    let right = table(keys, entries).remove(keys[i]@);
    assert forall|k: K::V| left.contains_key(k) == right.contains_key(k) by {
        if left.contains_key(k) {
            let a = choose|a: int| key_at(keys2, a, k);
            assert(key_at(keys2, a, k));
            assert(keys2[a] == keys[from(a)]);
            assert(key_at(keys, from(a), k));
            if from(a) < i {
                assert(keys[from(a)]@ != keys[i]@);
            } else {
                assert(keys[i]@ != keys[from(a)]@);
            }
        }
        if right.contains_key(k) {
            let j = choose|j: int| key_at(keys, j, k);
            assert(key_at(keys, j, k));
            if j == last {
                assert(keys2[i] == keys[from(i)]);
                assert(key_at(keys2, i, k));
            } else {
                assert(keys2[j] == keys[from(j)]);
                assert(key_at(keys2, j, k));
            }
        }
    }
    assert forall|k: K::V| #[trigger] left.contains_key(k) implies left[k] == right[k] by {
        let a = choose|a: int| key_at(keys2, a, k);
        assert(key_at(keys2, a, k));
        lemma_table_at(keys2, entries2, a);
        assert(keys2[a] == keys[from(a)]);
        lemma_table_at(keys, entries, from(a));
    }
    assert(left =~= right);
}

proof fn lemma_table_absent<K: View>(keys: Seq<K>, entries: Seq<CacheEntry>, key: K::V)
    requires
        forall|i: int| 0 <= i < keys.len() ==> (#[trigger] keys[i])@ != key,
    ensures
        !table(keys, entries).contains_key(key),
{
    if table(keys, entries).contains_key(key) {
        let j = choose|j: int| key_at(keys, j, key);
        assert(key_at(keys, j, key));
        assert(keys[j]@ != key);
    }
}


/// A quota tracker over one kind of key.
pub struct Cache<K> {
    max_value: Balance,
    keys: Vec<K>,
    entries: Vec<CacheEntry>,
    ttl: u128,
    clock: Clock,
}

impl<K: CacheKey> View for Cache<K> {
    type V = Map<K::V, CacheEntry>;

    /// The stored table: what each key that has an entry holds.
    closed spec fn view(&self) -> Map<K::V, CacheEntry> {
        table(self.keys@, self.entries@)
    }
}

impl<K: CacheKey> Cache<K> {
    /// The invariant of the tracker: no key is stored twice, and no entry holds more
    /// than the limit.
    pub closed spec fn wf(&self) -> bool {
        &&& self.keys@.len() == self.entries@.len()
        &&& distinct_keys(self.keys@)
        &&& forall|i: int|
            0 <= i < self.entries@.len() ==> (#[trigger] self.entries@[i]).remaining_value
                <= self.max_value
    }

    /// What a key may spend within one window.
    pub closed spec fn limit(&self) -> Balance {
        self.max_value
    }

    /// The length of a window, in nanoseconds.
    pub closed spec fn window(&self) -> u128 {
        self.ttl
    }

    /// In a well-formed tracker every entry of the table is within the limit.
    pub proof fn lemma_within_limit(&self)
        requires
            self.wf(),
        ensures
            within_limit(self@, self.limit()),
    {
        assert forall|k: K::V| #[trigger] self@.contains_key(k) implies self@[k].remaining_value
            <= self.max_value by {
            let j = choose|j: int| key_at(self.keys@, j, k);
            assert(key_at(self.keys@, j, k));
            lemma_table_at(self.keys@, self.entries@, j);
        }
    }

    /// A tracker without entries, with windows of `ttl` nanoseconds and a limit of
    /// `max_value` per key and window.
    pub fn new(ttl: u128, max_value: Balance) -> (cache: Self)
        ensures
            cache.wf(),
            cache@ == Map::<K::V, CacheEntry>::empty(),
            cache.limit() == max_value,
            cache.window() == ttl,
    {
        let cache = Cache {
            max_value,
            keys: Vec::new(),
            entries: Vec::new(),
            ttl,
            clock: Clock::new(),
        };
        proof {
            lemma_table_absent_all(cache.keys@, cache.entries@);
        }
        cache
    }

    /// The limit per key and window.
    pub fn max_value(&self) -> (limit: Balance)
        ensures
            limit == self.limit(),
    {
        self.max_value
    }

    /// The length of a window, in nanoseconds.
    pub fn ttl(&self) -> (window: u128)
        ensures
            window == self.window(),
    {
        self.ttl
    }

    /// The present reading of the tracker's clock, in nanoseconds.
    pub fn now(&self) -> (nanos: u128) {
        self.clock.now()
    }

    /// The position at which `key` is stored, if it is.
    fn find(&self, key: &K) -> (pos: Option<usize>)
        requires
            self.wf(),
        ensures
            match pos {
                Some(i) => i < self.keys@.len() && self.keys@[i as int]@ == key@,
                None => forall|i: int|
                    0 <= i < self.keys@.len() ==> (#[trigger] self.keys@[i])@ != key@,
            },
    {
        let mut i: usize = 0;
        while i < self.keys.len()
            invariant
                i <= self.keys@.len(),
                forall|j: int| 0 <= j < i ==> (#[trigger] self.keys@[j])@ != key@,
            decreases self.keys@.len() - i,
        {
            if self.keys[i].same_key(key) {
                return Some(i);
            }
            i += 1;
        }
        None
    }

    /// What `key` may still spend at `now`: what its entry holds while its window is
    /// open, else the whole limit.
    pub fn remaining_at(&self, key: &K, now: u128) -> (left: Balance)
        requires
            self.wf(),
        ensures
            left == current(self@, self.limit(), self.window(), key@, now).remaining_value,
    {
        match self.find(key) {
            Some(i) => {
                proof {
                    lemma_table_at(self.keys@, self.entries@, i as int);
                }
                let entry = self.entries[i];
                if entry.is_expired(self.ttl, now) {
                    self.max_value
                } else {
                    entry.remaining_value
                }
            },
            None => {
                proof {
                    lemma_table_absent(self.keys@, self.entries@, key@);
                }
                self.max_value
            },
        }
    }

    /// A look at the table at `now` that changes nothing: yes where `key` has no entry,
    /// where its window is over, or where it still holds `amount`.
    pub fn can_spend_at(&self, key: &K, amount: Balance, now: u128) -> (ok: bool)
        requires
            self.wf(),
        ensures
            ok == peek_allows(self@, self.window(), key@, amount, now),
    {
        match self.find(key) {
            Some(i) => {
                proof {
                    lemma_table_at(self.keys@, self.entries@, i as int);
                }
                let entry = self.entries[i];
                entry.is_expired(self.ttl, now) || entry.remaining_value >= amount
            },
            None => {
                proof {
                    lemma_table_absent(self.keys@, self.entries@, key@);
                }
                true
            },
        }
    }

    /// The same look at the present reading of the clock.
    pub fn can_spend(&self, key: &K, amount: Balance) -> (ok: bool)
        requires
            self.wf(),
        ensures
            exists|now: u128| ok == #[trigger] peek_allows(self@, self.window(), key@, amount, now),
    {
        let now = self.clock.now();
        self.can_spend_at(key, amount, now)
    }

    /// Drops every entry whose window is over at `now`.
    pub fn cleanup_at(&mut self, now: u128)
        requires
            old(self).wf(),
        ensures
            final(self).wf(),
            final(self).limit() == old(self).limit(),
            final(self).window() == old(self).window(),
            final(self)@ == live(old(self)@, old(self).window(), now),
    {
        let ghost before = self@;
        let ghost limit = self.max_value;
        let ttl = self.ttl;
        let mut i: usize = 0;
        while i < self.keys.len()
            invariant
                self.wf(),
                self.max_value == limit,
                self.ttl == ttl,
                i <= self.keys@.len(),
                live(self@, ttl, now) == live(before, ttl, now),
                forall|j: int| 0 <= j < i ==> !(#[trigger] self.entries@[j]).expired_at(ttl, now),
            decreases self.keys@.len() - i,
        {
            if self.entries[i].is_expired(ttl, now) {
                proof {
                    lemma_table_at(self.keys@, self.entries@, i as int);
                    lemma_table_swap_remove(self.keys@, self.entries@, i as int);
                    assert(live(self@.remove(self.keys@[i as int]@), ttl, now) =~= live(
                        self@,
                        ttl,
                        now,
                    ));
                }
                self.keys.swap_remove(i);
                self.entries.swap_remove(i);
            } else {
                i += 1;
            }
        }
        proof {
            assert forall|k: K::V| #[trigger] self@.contains_key(k) implies !self@[k].expired_at(
                ttl,
                now,
            ) by {
                let j = choose|j: int| key_at(self.keys@, j, k);
                assert(key_at(self.keys@, j, k));
                lemma_table_at(self.keys@, self.entries@, j);
            }
            assert(self@ =~= live(self@, ttl, now));
        }
    }

    /// Drops every entry whose window is over at the present reading of the clock.
    pub fn cleanup(&mut self)
        requires
            old(self).wf(),
        ensures
            final(self).wf(),
            final(self).limit() == old(self).limit(),
            final(self).window() == old(self).window(),
            exists|now: u128| final(self)@ == #[trigger] live(old(self)@, old(self).window(), now),
    {
        let now = self.clock.now();
        self.cleanup_at(now);
    }

    /// Reserves `amount` for `key` at `now`. Entries whose window is over are dropped
    /// first; a key without an entry gets the whole limit in a window that begins at
    /// `now`. The reservation is granted where the key still holds `amount`, and
    /// then reduces what it holds; where it is refused the key keeps what it holds.
    pub fn spend_at(&mut self, key: K, amount: Balance, now: u128) -> (admitted: bool)
        requires
            old(self).wf(),
        ensures
            final(self).wf(),
            final(self).limit() == old(self).limit(),
            final(self).window() == old(self).window(),
            admitted == admits(
                old(self)@,
                old(self).limit(),
                old(self).window(),
                key@,
                amount,
                now,
            ),
            final(self)@ == after_spend(
                old(self)@,
                old(self).limit(),
                old(self).window(),
                key@,
                amount,
                now,
            ),
    {
        let ghost before = self@;
        self.cleanup_at(now);
        match self.find(&key) {
            Some(i) => {
                proof {
                    lemma_table_at(self.keys@, self.entries@, i as int);
                }
                let entry = self.entries[i];
                if entry.remaining_value >= amount {
                    proof {
                        lemma_table_update(
                            self.keys@,
                            self.entries@,
                            i as int,
                            entry_after(before, self.max_value, self.ttl, key@, amount, now),
                        );
                    }
                    self.entries.set(
                        i,
                        CacheEntry {
                            remaining_value: entry.remaining_value - amount,
                            last_update: entry.last_update,
                        },
                    );
                    true
                } else {
                    assert(self@ =~= self@.insert(key@, entry));
                    false
                }
            },
            None => {
                proof {
                    lemma_table_absent(self.keys@, self.entries@, key@);
                }
                let left = if self.max_value >= amount {
                    self.max_value - amount
                } else {
                    self.max_value
                };
                let entry = CacheEntry::new(left, now);
                proof {
                    lemma_table_push(self.keys@, self.entries@, key, entry);
                }
                let admitted = self.max_value >= amount;
                self.keys.push(key);
                self.entries.push(entry);
                admitted
            },
        }
    }

    /// The start of the window that `key` has open at `now`, if it has one.
    pub fn window_start_at(&self, key: &K, now: u128) -> (start: Option<u128>)
        requires
            self.wf(),
        ensures
            start == window_start(self@, self.window(), key@, now),
    {
        match self.find(key) {
            Some(i) => {
                proof {
                    lemma_table_at(self.keys@, self.entries@, i as int);
                }
                let entry = self.entries[i];
                if entry.is_expired(self.ttl, now) {
                    None
                } else {
                    Some(entry.last_update)
                }
            },
            None => {
                proof {
                    lemma_table_absent(self.keys@, self.entries@, key@);
                }
                None
            },
        }
    }

    /// Gives `amount`, reserved in the window that began at `since`, back to `key` at
    /// `now`. The key gets it back only while that window is still open, and never
    /// holds more than the limit.
    pub fn release_at(&mut self, key: &K, amount: Balance, since: u128, now: u128)
        requires
            old(self).wf(),
        ensures
            final(self).wf(),
            final(self).limit() == old(self).limit(),
            final(self).window() == old(self).window(),
            final(self)@ == after_release(
                old(self)@,
                old(self).limit(),
                old(self).window(),
                key@,
                amount,
                since,
                now,
            ),
    {
        match self.find(key) {
            Some(i) => {
                proof {
                    lemma_table_at(self.keys@, self.entries@, i as int);
                }
                let entry = self.entries[i];
                if !entry.is_expired(self.ttl, now) && entry.last_update == since {
                    let remaining = if self.max_value - entry.remaining_value >= amount {
                        entry.remaining_value + amount
                    } else {
                        self.max_value
                    };
                    let given_back = CacheEntry { remaining_value: remaining, last_update: since };
                    proof {
                        lemma_table_update(self.keys@, self.entries@, i as int, given_back);
                    }
                    self.entries.set(i, given_back);
                }
            },
            None => {
                proof {
                    lemma_table_absent(self.keys@, self.entries@, key@);
                }
            },
        }
    }

    /// Reserves `amount` for `key` at the present reading of the clock.
    pub fn spend(&mut self, key: K, amount: Balance) -> (admitted: bool)
        requires
            old(self).wf(),
        ensures
            final(self).wf(),
            final(self).limit() == old(self).limit(),
            final(self).window() == old(self).window(),
            exists|now: u128|
                admitted == #[trigger] admits(
                    old(self)@,
                    old(self).limit(),
                    old(self).window(),
                    key@,
                    amount,
                    now,
                ) && final(self)@ == after_spend(
                    old(self)@,
                    old(self).limit(),
                    old(self).window(),
                    key@,
                    amount,
                    now,
                ),
    {
        let now = self.clock.now();
        self.spend_at(key, amount, now)
    }
}

proof fn lemma_table_absent_all<K: View>(keys: Seq<K>, entries: Seq<CacheEntry>)
    requires
        keys.len() == 0,
    ensures
        table(keys, entries) == Map::<K::V, CacheEntry>::empty(),
{
    assert forall|k: K::V| !table(keys, entries).contains_key(k) by {
        lemma_table_absent(keys, entries, k);
    }
    assert(table(keys, entries) =~= Map::<K::V, CacheEntry>::empty());
}


/// What was reserved at an admission gate, and in which windows: enough to give it
/// back.
#[derive(Debug)]
pub struct Reservation {
    /// The destination address.
    pub to: String,
    /// The network address the request came from.
    pub ip: NetAddr,
    /// The amount that was reserved on both.
    pub amount: Balance,
    /// The start of the destination's window.
    pub address_window: u128,
    /// The start of the network address's window.
    pub ip_window: u128,
}

/// The admission gate: one quota tracker by destination address and one by the
/// network address a request came from, consulted together.
pub struct AddrCache {
    /// What each destination address has left.
    pub addresses: Cache<String>,
    /// What each network address has left.
    pub ips: Cache<NetAddr>,
}

impl AddrCache {
    /// Both trackers are well formed and follow one policy: the same limit and the
    /// same window.
    pub open spec fn wf(&self) -> bool {
        &&& self.addresses.wf()
        &&& self.ips.wf()
        &&& self.addresses.limit() == self.ips.limit()
        &&& self.addresses.window() == self.ips.window()
    }

    /// What each key may spend within one window.
    pub open spec fn limit(&self) -> Balance {
        self.addresses.limit()
    }

    /// The length of a window, in nanoseconds.
    pub open spec fn window(&self) -> u128 {
        self.addresses.window()
    }

    /// Whether a request of `amount` for destination `to` from `ip` is admitted at
    /// `now`: both keys must still hold the amount.
    pub open spec fn admits(&self, to: Seq<char>, ip: NetAddr, amount: Balance, now: u128) -> bool {
        gate_admits(self.addresses@, self.ips@, self.limit(), self.window(), to, ip, amount, now)
    }

    /// Both tables after a request of `amount` for destination `to` from `ip` at `now`.
    pub open spec fn after(&self, to: Seq<char>, ip: NetAddr, amount: Balance, now: u128) -> (
        Map<Seq<char>, CacheEntry>,
        Map<NetAddr, CacheEntry>,
    ) {
        gate_after(self.addresses@, self.ips@, self.limit(), self.window(), to, ip, amount, now)
    }

    /// Both tables after a reservation is given back at `now`.
    pub open spec fn after_release(&self, reservation: Reservation, now: u128) -> (
        Map<Seq<char>, CacheEntry>,
        Map<NetAddr, CacheEntry>,
    ) {
        (
            after_release(
                self.addresses@,
                self.limit(),
                self.window(),
                reservation.to@,
                reservation.amount,
                reservation.address_window,
                now,
            ),
            after_release(
                self.ips@,
                self.limit(),
                self.window(),
                reservation.ip,
                reservation.amount,
                reservation.ip_window,
                now,
            ),
        )
    }

    /// A gate without entries; both trackers have windows of `reset_interval`
    /// nanoseconds and a limit of `max_value`.
    pub fn new(reset_interval: u128, max_value: Balance) -> (gate: Self)
        ensures
            gate.wf(),
            gate.addresses@ == Map::<Seq<char>, CacheEntry>::empty(),
            gate.ips@ == Map::<NetAddr, CacheEntry>::empty(),
            gate.limit() == max_value,
            gate.window() == reset_interval,
    {
        AddrCache {
            addresses: Cache::new(reset_interval, max_value),
            ips: Cache::new(reset_interval, max_value),
        }
    }

    /// A look at both trackers at `now` that changes nothing: yes where each of
    /// them says yes.
    pub fn can_spend_at(&self, to: &str, ip: NetAddr, amount: Balance, now: u128) -> (ok: bool)
        requires
            self.wf(),
        ensures
            ok == (peek_allows(self.addresses@, self.window(), to@, amount, now) && peek_allows(
                self.ips@,
                self.window(),
                ip,
                amount,
                now,
            )),
    {
        let can_spend_ip = self.ips.can_spend_at(&ip, amount, now);
        let can_spend_addr = self.addresses.can_spend_at(&to.to_owned(), amount, now);
        can_spend_addr && can_spend_ip
    }

    /// The same look at the present reading of the clock.
    pub fn can_spend(&self, to: &str, ip: NetAddr, amount: Balance) -> (ok: bool)
        requires
            self.wf(),
        ensures
            exists|now: u128|
                ok == (#[trigger] peek_allows(self.addresses@, self.window(), to@, amount, now)
                    && peek_allows(self.ips@, self.window(), ip, amount, now)),
    {
        let now = self.addresses.now();
        self.can_spend_at(to, ip, amount, now)
    }

    /// Admits or denies a request of `amount` for destination `to` from `ip` at `now`,
    /// as one step on both trackers. It is admitted where both keys still hold the
    /// amount, and then reserved on both; the reservation that comes back names the
    /// windows in which it was made. Where either key lacks the amount, the request is
    /// denied and neither tracker changes.
    pub fn reserve_at(&mut self, to: &str, ip: NetAddr, amount: Balance, now: u128) -> (reserved:
        Option<Reservation>)
        requires
            old(self).wf(),
        ensures
            final(self).wf(),
            final(self).limit() == old(self).limit(),
            final(self).window() == old(self).window(),
            reserved is Some == old(self).admits(to@, ip, amount, now),
            (final(self).addresses@, final(self).ips@) == old(self).after(to@, ip, amount, now),
            match reserved {
                Some(reservation) => {
                    &&& reservation.to@ == to@
                    &&& reservation.ip == ip
                    &&& reservation.amount == amount
                    &&& Some(reservation.address_window) == window_start(
                        final(self).addresses@,
                        final(self).window(),
                        to@,
                        now,
                    )
                    &&& Some(reservation.ip_window) == window_start(
                        final(self).ips@,
                        final(self).window(),
                        ip,
                        now,
                    )
                },
                None => true,
            },
    {
        let dest = to.to_owned();
        proof {
            self.addresses.lemma_within_limit();
            self.ips.lemma_within_limit();
            lemma_admits_is_peek_within_limit(
                self.addresses@,
                self.addresses.limit(),
                self.addresses.window(),
                to@,
                amount,
                now,
            );
            lemma_admits_is_peek_within_limit(
                self.ips@,
                self.ips.limit(),
                self.ips.window(),
                ip,
                amount,
                now,
            );
        }
        let fits = amount <= self.addresses.max_value() && amount <= self.ips.max_value();
        if fits && self.addresses.can_spend_at(&dest, amount, now) && self.ips.can_spend_at(
            &ip,
            amount,
            now,
        ) {
            self.ips.spend_at(ip, amount, now);
            self.addresses.spend_at(to.to_owned(), amount, now);
            let ip_window = match self.ips.window_start_at(&ip, now) {
                Some(start) => start,
                None => now,
            };
            let address_window = match self.addresses.window_start_at(&dest, now) {
                Some(start) => start,
                None => now,
            };
            Some(Reservation { to: dest, ip, amount, address_window, ip_window })
        } else {
            None
        }
    }

    /// Admits or denies a request of `amount` for destination `to` from `ip` at `now`,
    /// as one step on both trackers. It is admitted where both keys still hold the
    /// amount, and then reserved on both. Where either key lacks it, the request is
    /// denied and neither tracker changes.
    pub fn spend_at(&mut self, to: &str, ip: NetAddr, amount: Balance, now: u128) -> (admitted:
        bool)
        requires
            old(self).wf(),
        ensures
            final(self).wf(),
            final(self).limit() == old(self).limit(),
            final(self).window() == old(self).window(),
            admitted == old(self).admits(to@, ip, amount, now),
            (final(self).addresses@, final(self).ips@) == old(self).after(to@, ip, amount, now),
    {
        self.reserve_at(to, ip, amount, now).is_some()
    }

    /// Gives a reservation back at `now`: each of its two keys gets the amount back
    /// while the window in which it was reserved is still open.
    pub fn release_at(&mut self, reservation: &Reservation, now: u128)
        requires
            old(self).wf(),
        ensures
            final(self).wf(),
            final(self).limit() == old(self).limit(),
            final(self).window() == old(self).window(),
            (final(self).addresses@, final(self).ips@) == old(self).after_release(
                *reservation,
                now,
            ),
    {
        self.addresses.release_at(
            &reservation.to,
            reservation.amount,
            reservation.address_window,
            now,
        );
        self.ips.release_at(&reservation.ip, reservation.amount, reservation.ip_window, now);
    }

    /// Admits or denies a request at the present reading of the clock.
    pub fn spend(&mut self, to: &str, ip: NetAddr, amount: Balance) -> (admitted: bool)
        requires
            old(self).wf(),
        ensures
            final(self).wf(),
            final(self).limit() == old(self).limit(),
            final(self).window() == old(self).window(),
            exists|now: u128|
                admitted == #[trigger] old(self).admits(to@, ip, amount, now) && (
                final(self).addresses@,
                final(self).ips@,
            ) == old(self).after(to@, ip, amount, now),
    {
        let now = self.addresses.now();
        self.spend_at(to, ip, amount, now)
    }
}

} // verus!

//! The mathematical model of a quota table: a map from key to what is left of
//! the key's quota in its current window, and the effect of a reservation on it.

use crate::clock::elapsed_over;
use crate::clock::is_elapsed_over;
use vstd::prelude::*;

verus! {

/// An amount of the asset, in its smallest unit.
pub type Balance = u128;

/// What one key has left, and when its window began.
#[derive(Clone, Copy, Debug, PartialEq, Eq, Structural)]
pub struct CacheEntry {
    /// What the key may still spend in this window.
    pub remaining_value: Balance,
    /// The clock reading, in nanoseconds, at which the window began.
    pub last_update: u128,
}

impl CacheEntry {
    /// Whether the entry's window, `ttl` nanoseconds long, is over at `now`.
    pub open spec fn expired_at(self, ttl: u128, now: u128) -> bool {
        elapsed_over(self.last_update, now, ttl)
    }

    /// An entry whose window begins at `now`.
    pub fn new(remaining_value: Balance, now: u128) -> (entry: CacheEntry)
        ensures
            entry == (CacheEntry { remaining_value, last_update: now }),
    {
        CacheEntry { remaining_value, last_update: now }
    }

    /// Whether more than `interval` nanoseconds have passed at `now` since the window began.
    pub fn is_expired(&self, interval: u128, now: u128) -> (expired: bool)
        ensures
            expired == self.expired_at(interval, now),
    {
        is_elapsed_over(self.last_update, now, interval)
    }
}

/// The entries whose window is still open at `now`.
pub open spec fn live<KV>(entries: Map<KV, CacheEntry>, ttl: u128, now: u128) -> Map<
    KV,
    CacheEntry,
> {
    Map::new(
        |k: KV| entries.contains_key(k) && !entries[k].expired_at(ttl, now),
        |k: KV| entries[k],
    )
}

/// The entry that counts for `key` at `now`: the stored one while its window is open,
/// else a full quota in a window that begins at `now`.
pub open spec fn current<KV>(
    entries: Map<KV, CacheEntry>,
    max_value: Balance,
    ttl: u128,
    key: KV,
    now: u128,
) -> CacheEntry {
    if entries.contains_key(key) && !entries[key].expired_at(ttl, now) {
        entries[key]
    } else {
        CacheEntry { remaining_value: max_value, last_update: now }
    }
}

/// Whether a reservation of `amount` for `key` at `now` is granted.
pub open spec fn admits<KV>(
    entries: Map<KV, CacheEntry>,
    max_value: Balance,
    ttl: u128,
    key: KV,
    amount: Balance,
    now: u128,
) -> bool {
    current(entries, max_value, ttl, key, now).remaining_value >= amount
}

/// The entry of `key` after a reservation of `amount` at `now`: reduced by `amount`
/// where the reservation is granted, as it counted before where it is not.
pub open spec fn entry_after<KV>(
    entries: Map<KV, CacheEntry>,
    max_value: Balance,
    ttl: u128,
    key: KV,
    amount: Balance,
    now: u128,
) -> CacheEntry {
    let before = current(entries, max_value, ttl, key, now);
    if before.remaining_value >= amount {
        CacheEntry {
            remaining_value: (before.remaining_value - amount) as Balance,
            last_update: before.last_update,
        }
    } else {
        before
    }
}

/// The table after a reservation of `amount` for `key` at `now`: closed windows are
/// dropped, and `key` holds its entry after the reservation.
pub open spec fn after_spend<KV>(
    entries: Map<KV, CacheEntry>,
    max_value: Balance,
    ttl: u128,
    key: KV,
    amount: Balance,
    now: u128,
) -> Map<KV, CacheEntry> {
    live(entries, ttl, now).insert(key, entry_after(entries, max_value, ttl, key, amount, now))
}

/// What a read-only look at the table answers: yes where `key` has no entry, where its
/// window is over, or where the entry still holds `amount`.
pub open spec fn peek_allows<KV>(
    entries: Map<KV, CacheEntry>,
    ttl: u128,
    key: KV,
    amount: Balance,
    now: u128,
) -> bool {
    !entries.contains_key(key) || entries[key].expired_at(ttl, now)
        || entries[key].remaining_value >= amount
}

/// Every entry holds at most `max_value`.
pub open spec fn within_limit<KV>(entries: Map<KV, CacheEntry>, max_value: Balance) -> bool {
    forall|k: KV| #[trigger] entries.contains_key(k) ==> entries[k].remaining_value <= max_value
}

/// A reservation keeps every entry within the limit.
pub proof fn lemma_spend_within_limit<KV>(
    entries: Map<KV, CacheEntry>,
    max_value: Balance,
    ttl: u128,
    key: KV,
    amount: Balance,
    now: u128,
)
    requires
        within_limit(entries, max_value),
    ensures
        within_limit(after_spend(entries, max_value, ttl, key, amount, now), max_value),
{
    let after = after_spend(entries, max_value, ttl, key, amount, now);
    assert forall|k: KV| #[trigger] after.contains_key(k) implies after[k].remaining_value
        <= max_value by {
        if k != key {
            assert(entries.contains_key(k));
        } else if entries.contains_key(key) {
        }
    }
}

/// While every entry is within the limit, a reservation is granted exactly where the
/// read-only look says yes and the amount does not exceed the limit.
pub proof fn lemma_admits_is_peek_within_limit<KV>(
    entries: Map<KV, CacheEntry>,
    max_value: Balance,
    ttl: u128,
    key: KV,
    amount: Balance,
    now: u128,
)
    requires
        within_limit(entries, max_value),
    ensures
        admits(entries, max_value, ttl, key, amount, now) == (amount <= max_value && peek_allows(
            entries,
            ttl,
            key,
            amount,
            now,
        )),
{
    if entries.contains_key(key) {
    }
}

/// On a table without entries, a reservation of at most the limit is granted and
/// leaves the key with the limit less the amount.
pub proof fn lemma_first_reservation<KV>(
    max_value: Balance,
    ttl: u128,
    key: KV,
    amount: Balance,
    now: u128,
)
    requires
        amount <= max_value,
    ensures
        admits(Map::<KV, CacheEntry>::empty(), max_value, ttl, key, amount, now),
        after_spend(Map::<KV, CacheEntry>::empty(), max_value, ttl, key, amount, now)[key]
            == (CacheEntry { remaining_value: (max_value - amount) as Balance, last_update: now }),
        after_spend(Map::<KV, CacheEntry>::empty(), max_value, ttl, key, amount, now).dom()
            == Set::<KV>::empty().insert(key),
{
    let after = after_spend(Map::<KV, CacheEntry>::empty(), max_value, ttl, key, amount, now);
    assert(after.dom() =~= Set::<KV>::empty().insert(key));
}

/// Once a key's window is over, a reservation of the whole limit is granted whatever
/// the key had left, and begins a new window at `now` with nothing left.
pub proof fn lemma_full_reset_after_ttl<KV>(
    entries: Map<KV, CacheEntry>,
    max_value: Balance,
    ttl: u128,
    key: KV,
    now: u128,
)
    requires
        entries.contains_key(key),
        entries[key].expired_at(ttl, now),
    ensures
        admits(entries, max_value, ttl, key, max_value, now),
        after_spend(entries, max_value, ttl, key, max_value, now)[key] == (CacheEntry {
            remaining_value: 0,
            last_update: now,
        }),
{
}

/// A reservation that is refused leaves the key with what counted for it before, and
/// a reservation never touches what another key with an open window holds.
pub proof fn lemma_refusal_changes_nothing<KV>(
    entries: Map<KV, CacheEntry>,
    max_value: Balance,
    ttl: u128,
    key: KV,
    amount: Balance,
    now: u128,
)
    requires
        !admits(entries, max_value, ttl, key, amount, now),
    ensures
        after_spend(entries, max_value, ttl, key, amount, now)[key] == current(
            entries,
            max_value,
            ttl,
            key,
            now,
        ),
        forall|other: KV|
            other != key && #[trigger] live(entries, ttl, now).contains_key(other) ==> after_spend(
                entries,
                max_value,
                ttl,
                key,
                amount,
                now,
            )[other] == entries[other],
{
}


/// The start of the window that `key` has open at `now`, if it has one.
pub open spec fn window_start<KV>(
    entries: Map<KV, CacheEntry>,
    ttl: u128,
    key: KV,
    now: u128,
) -> Option<u128> {
    if entries.contains_key(key) && !entries[key].expired_at(ttl, now) {
        Some(entries[key].last_update)
    } else {
        None
    }
}

/// What a key holds once `amount` is given back to it: what it held and the amount,
/// but never more than the limit.
pub open spec fn restored(remaining: Balance, amount: Balance, max_value: Balance) -> Balance {
    if remaining <= max_value && max_value - remaining >= amount {
        (remaining + amount) as Balance
    } else {
        max_value
    }
}

/// The table after `amount`, reserved in the window that began at `since`, is given
/// back to `key` at `now`. The key gets it back only while that window is still open:
/// a later window has its own full quota, and is left as it is.
pub open spec fn after_release<KV>(
    entries: Map<KV, CacheEntry>,
    max_value: Balance,
    ttl: u128,
    key: KV,
    amount: Balance,
    since: u128,
    now: u128,
) -> Map<KV, CacheEntry> {
    if window_start(entries, ttl, key, now) == Some(since) {
        entries.insert(
            key,
            CacheEntry {
                remaining_value: restored(entries[key].remaining_value, amount, max_value),
                last_update: since,
            },
        )
    } else {
        entries
    }
}

/// Giving an amount back keeps every entry within the limit.
pub proof fn lemma_release_within_limit<KV>(
    entries: Map<KV, CacheEntry>,
    max_value: Balance,
    ttl: u128,
    key: KV,
    amount: Balance,
    since: u128,
    now: u128,
)
    requires
        within_limit(entries, max_value),
    ensures
        within_limit(after_release(entries, max_value, ttl, key, amount, since, now), max_value),
{
    let after = after_release(entries, max_value, ttl, key, amount, since, now);
    assert forall|k: KV| #[trigger] after.contains_key(k) implies after[k].remaining_value
        <= max_value by {
        if k != key {
            assert(entries.contains_key(k));
        }
    }
}

/// An amount that was reserved and is given back within the same window leaves the
/// key with what counted for it before the reservation.
pub proof fn lemma_release_undoes_spend<KV>(
    entries: Map<KV, CacheEntry>,
    max_value: Balance,
    ttl: u128,
    key: KV,
    amount: Balance,
    reserved_at: u128,
    released_at: u128,
)
    requires
        within_limit(entries, max_value),
        admits(entries, max_value, ttl, key, amount, reserved_at),
        !elapsed_over(
            current(entries, max_value, ttl, key, reserved_at).last_update,
            released_at,
            ttl,
        ),
    ensures
        ({
            let before = current(entries, max_value, ttl, key, reserved_at);
            let reserved = after_spend(entries, max_value, ttl, key, amount, reserved_at);
            let released = after_release(
                reserved,
                max_value,
                ttl,
                key,
                amount,
                before.last_update,
                released_at,
            );
            &&& window_start(reserved, ttl, key, reserved_at) == Some(before.last_update)
            &&& released.contains_key(key)
            &&& released[key] == before
        }),
{
    if entries.contains_key(key) {
    }
}

/// The table after the first `n` reservations of a run on one key: reservation `i`
/// asks for `amounts[i]` at the clock reading `times[i]`.
pub open spec fn run_state<KV>(
    entries: Map<KV, CacheEntry>,
    max_value: Balance,
    ttl: u128,
    key: KV,
    amounts: Seq<Balance>,
    times: Seq<u128>,
    n: nat,
) -> Map<KV, CacheEntry>
    decreases n,
{
    if n == 0 {
        entries
    } else {
        after_spend(
            run_state(entries, max_value, ttl, key, amounts, times, (n - 1) as nat),
            max_value,
            ttl,
            key,
            amounts[n - 1],
            times[n - 1],
        )
    }
}

/// Whether reservation `i` of a run is granted.
pub open spec fn run_admits<KV>(
    entries: Map<KV, CacheEntry>,
    max_value: Balance,
    ttl: u128,
    key: KV,
    amounts: Seq<Balance>,
    times: Seq<u128>,
    i: nat,
) -> bool {
    admits(
        run_state(entries, max_value, ttl, key, amounts, times, i),
        max_value,
        ttl,
        key,
        amounts[i as int],
        times[i as int],
    )
}

/// The sum of the amounts that were granted among the first `n` reservations of a run.
pub open spec fn run_granted<KV>(
    entries: Map<KV, CacheEntry>,
    max_value: Balance,
    ttl: u128,
    key: KV,
    amounts: Seq<Balance>,
    times: Seq<u128>,
    n: nat,
) -> int
    decreases n,
{
    if n == 0 {
        0
    } else {
        let before = run_granted(entries, max_value, ttl, key, amounts, times, (n - 1) as nat);
        if run_admits(entries, max_value, ttl, key, amounts, times, (n - 1) as nat) {
            before + amounts[n - 1]
        } else {
            before
        }
    }
}

/// The sum of the first `n` amounts, granted or not.
pub open spec fn running_total(amounts: Seq<Balance>, n: nat) -> int
    decreases n,
{
    if n == 0 {
        0
    } else {
        running_total(amounts, (n - 1) as nat) + amounts[n - 1]
    }
}

/// Whether `key` has no open window in `entries` at `now`.
pub open spec fn fresh_at<KV>(entries: Map<KV, CacheEntry>, ttl: u128, key: KV, now: u128) -> bool {
    !entries.contains_key(key) || entries[key].expired_at(ttl, now)
}

/// Whether every reading of `times` lies within the window that begins at the first.
pub open spec fn within_one_window(times: Seq<u128>, ttl: u128) -> bool {
    forall|i: int| 0 <= i < times.len() ==> !elapsed_over(times[0], #[trigger] times[i], ttl)
}

/// One reservation on a key whose entry is known: it is granted exactly where the
/// entry holds the amount, and the key keeps its window.
proof fn lemma_step_on_known_entry<KV>(
    entries: Map<KV, CacheEntry>,
    max_value: Balance,
    ttl: u128,
    key: KV,
    amount: Balance,
    now: u128,
    counted: CacheEntry,
)
    requires
        current(entries, max_value, ttl, key, now) == counted,
    ensures
        admits(entries, max_value, ttl, key, amount, now) == (counted.remaining_value >= amount),
        after_spend(entries, max_value, ttl, key, amount, now).contains_key(key),
        after_spend(entries, max_value, ttl, key, amount, now)[key] == (CacheEntry {
            remaining_value: if counted.remaining_value >= amount {
                (counted.remaining_value - amount) as Balance
            } else {
                counted.remaining_value
            },
            last_update: counted.last_update,
        }),
{
}

/// The state of a run that begins with a full quota and stays within one window: the
/// key holds the limit less all that was granted, in the window of the first
/// reservation.
pub proof fn lemma_run_state<KV>(
    entries: Map<KV, CacheEntry>,
    max_value: Balance,
    ttl: u128,
    key: KV,
    amounts: Seq<Balance>,
    times: Seq<u128>,
    n: nat,
)
    requires
        amounts.len() == times.len(),
        n <= amounts.len(),
        within_one_window(times, ttl),
        amounts.len() > 0 ==> fresh_at(entries, ttl, key, times[0]),
    ensures
        0 <= run_granted(entries, max_value, ttl, key, amounts, times, n) <= max_value,
        n > 0 ==> run_state(entries, max_value, ttl, key, amounts, times, n).contains_key(key)
            && run_state(entries, max_value, ttl, key, amounts, times, n)[key] == (CacheEntry {
            remaining_value: (max_value - run_granted(
                entries,
                max_value,
                ttl,
                key,
                amounts,
                times,
                n,
            )) as Balance,
            last_update: times[0],
        }),
        n < amounts.len() ==> current(
            run_state(entries, max_value, ttl, key, amounts, times, n),
            max_value,
            ttl,
            key,
            times[n as int],
        ) == (CacheEntry {
            remaining_value: (max_value - run_granted(
                entries,
                max_value,
                ttl,
                key,
                amounts,
                times,
                n,
            )) as Balance,
            last_update: times[0],
        }),
    decreases n,
{
    if n > 0 {
        let m = (n - 1) as nat;
        lemma_run_state(entries, max_value, ttl, key, amounts, times, m);
        let before = run_state(entries, max_value, ttl, key, amounts, times, m);
        let granted = run_granted(entries, max_value, ttl, key, amounts, times, m);
        let counted = CacheEntry {
            remaining_value: (max_value - granted) as Balance,
            last_update: times[0],
        };
        lemma_step_on_known_entry(
            before,
            max_value,
            ttl,
            key,
            amounts[m as int],
            times[m as int],
            counted,
        );
        assert(run_state(entries, max_value, ttl, key, amounts, times, n) == after_spend(
            before,
            max_value,
            ttl,
            key,
            amounts[m as int],
            times[m as int],
        ));
        assert(run_admits(entries, max_value, ttl, key, amounts, times, m) == (
        counted.remaining_value >= amounts[m as int]));
        if n < amounts.len() {
            assert(!elapsed_over(times[0], times[n as int], ttl));
        }
    } else if n < amounts.len() {
    }
}

/// In a run that begins with a full quota and stays within one window, each
/// reservation is granted exactly where it fits into what the limit leaves after the
/// amounts granted before it.
pub proof fn lemma_run_in_one_window<KV>(
    entries: Map<KV, CacheEntry>,
    max_value: Balance,
    ttl: u128,
    key: KV,
    amounts: Seq<Balance>,
    times: Seq<u128>,
    i: nat,
)
    requires
        amounts.len() == times.len(),
        i < amounts.len(),
        within_one_window(times, ttl),
        fresh_at(entries, ttl, key, times[0]),
    ensures
        run_admits(entries, max_value, ttl, key, amounts, times, i) == (run_granted(
            entries,
            max_value,
            ttl,
            key,
            amounts,
            times,
            i,
        ) + amounts[i as int] <= max_value),
{
    lemma_run_state(entries, max_value, ttl, key, amounts, times, i);
}

/// While the running total of a run stays within the limit, every reservation is
/// granted, and what was granted is the running total.
pub proof fn lemma_run_granted_while_total_fits<KV>(
    entries: Map<KV, CacheEntry>,
    max_value: Balance,
    ttl: u128,
    key: KV,
    amounts: Seq<Balance>,
    times: Seq<u128>,
    n: nat,
)
    requires
        amounts.len() == times.len(),
        n <= amounts.len(),
        within_one_window(times, ttl),
        amounts.len() > 0 ==> fresh_at(entries, ttl, key, times[0]),
        running_total(amounts, n) <= max_value,
    ensures
        forall|i: nat|
            i < n ==> #[trigger] run_admits(entries, max_value, ttl, key, amounts, times, i),
        run_granted(entries, max_value, ttl, key, amounts, times, n) == running_total(amounts, n),
    decreases n,
{
    if n > 0 {
        let m = (n - 1) as nat;
        lemma_run_granted_while_total_fits(entries, max_value, ttl, key, amounts, times, m);
        lemma_run_in_one_window(entries, max_value, ttl, key, amounts, times, m);
        assert(run_admits(entries, max_value, ttl, key, amounts, times, m));
    }
}

/// The first reservation of a run with which the running total exceeds the limit is
/// refused, and the key holds after it what it held before.
pub proof fn lemma_run_refused_where_total_exceeds<KV>(
    entries: Map<KV, CacheEntry>,
    max_value: Balance,
    ttl: u128,
    key: KV,
    amounts: Seq<Balance>,
    times: Seq<u128>,
    i: nat,
)
    requires
        amounts.len() == times.len(),
        i < amounts.len(),
        within_one_window(times, ttl),
        fresh_at(entries, ttl, key, times[0]),
        running_total(amounts, i) <= max_value,
        running_total(amounts, i + 1) > max_value,
    ensures
        !run_admits(entries, max_value, ttl, key, amounts, times, i),
        run_state(entries, max_value, ttl, key, amounts, times, i + 1)[key].remaining_value
            == max_value - running_total(amounts, i),
        run_granted(entries, max_value, ttl, key, amounts, times, i + 1) == running_total(
            amounts,
            i,
        ),
{
    lemma_run_granted_while_total_fits(entries, max_value, ttl, key, amounts, times, i);
    lemma_run_in_one_window(entries, max_value, ttl, key, amounts, times, i);
    lemma_run_state(entries, max_value, ttl, key, amounts, times, i + 1);
    assert(running_total(amounts, i + 1) == running_total(amounts, i) + amounts[i as int]);
    assert(!run_admits(entries, max_value, ttl, key, amounts, times, i));
}

/// From the first reservation with which the running total exceeds the limit on,
/// every reservation that asks for more than the limit then leaves is refused, and
/// the key holds what it held before the first of them.
pub proof fn lemma_run_refused_from_excess_on<KV>(
    entries: Map<KV, CacheEntry>,
    max_value: Balance,
    ttl: u128,
    key: KV,
    amounts: Seq<Balance>,
    times: Seq<u128>,
    i: nat,
    n: nat,
)
    requires
        amounts.len() == times.len(),
        i < n <= amounts.len(),
        within_one_window(times, ttl),
        fresh_at(entries, ttl, key, times[0]),
        running_total(amounts, i) <= max_value,
        forall|j: int| i <= j < n ==> running_total(amounts, i) + #[trigger] amounts[j] > max_value,
    ensures
        forall|j: nat|
            i <= j < n ==> !#[trigger] run_admits(entries, max_value, ttl, key, amounts, times, j),
        run_granted(entries, max_value, ttl, key, amounts, times, n) == running_total(amounts, i),
        run_state(entries, max_value, ttl, key, amounts, times, n)[key].remaining_value
            == max_value - running_total(amounts, i),
    decreases n - i,
{
    let last = (n - 1) as nat;
    if last == i {
        lemma_run_granted_while_total_fits(entries, max_value, ttl, key, amounts, times, i);
    } else {
        lemma_run_refused_from_excess_on(entries, max_value, ttl, key, amounts, times, i, last);
    }
    lemma_run_in_one_window(entries, max_value, ttl, key, amounts, times, last);
    assert(running_total(amounts, i) + amounts[last as int] > max_value);
    assert(!run_admits(entries, max_value, ttl, key, amounts, times, last));
    lemma_run_state(entries, max_value, ttl, key, amounts, times, n);
}

/// Once a run has used up the limit, every later reservation of more than nothing
/// within the window is refused.
pub proof fn lemma_run_refused_after_limit_is_used<KV>(
    entries: Map<KV, CacheEntry>,
    max_value: Balance,
    ttl: u128,
    key: KV,
    amounts: Seq<Balance>,
    times: Seq<u128>,
    used: nat,
    i: nat,
)
    requires
        amounts.len() == times.len(),
        used <= i < amounts.len(),
        within_one_window(times, ttl),
        fresh_at(entries, ttl, key, times[0]),
        run_granted(entries, max_value, ttl, key, amounts, times, used) == max_value,
        amounts[i as int] > 0,
    ensures
        !run_admits(entries, max_value, ttl, key, amounts, times, i),
        run_granted(entries, max_value, ttl, key, amounts, times, i + 1) == max_value,
{
    lemma_run_granted_monotone(entries, max_value, ttl, key, amounts, times, used, i);
    lemma_run_state(entries, max_value, ttl, key, amounts, times, i);
    lemma_run_in_one_window(entries, max_value, ttl, key, amounts, times, i);
    assert(!run_admits(entries, max_value, ttl, key, amounts, times, i));
}

/// What a run has granted never shrinks as the run goes on.
pub proof fn lemma_run_granted_monotone<KV>(
    entries: Map<KV, CacheEntry>,
    max_value: Balance,
    ttl: u128,
    key: KV,
    amounts: Seq<Balance>,
    times: Seq<u128>,
    m: nat,
    n: nat,
)
    requires
        m <= n,
    ensures
        run_granted(entries, max_value, ttl, key, amounts, times, m) <= run_granted(
            entries,
            max_value,
            ttl,
            key,
            amounts,
            times,
            n,
        ),
    decreases n - m,
{
    if m < n {
        lemma_run_granted_monotone(entries, max_value, ttl, key, amounts, times, m, (n - 1) as nat);
    }
}


/// Whether an admission gate admits a request of `amount` for destination `to` from
/// `ip` at `now`: both keys must still hold the amount.
pub open spec fn gate_admits<A, B>(
    addresses: Map<A, CacheEntry>,
    ips: Map<B, CacheEntry>,
    max_value: Balance,
    ttl: u128,
    to: A,
    ip: B,
    amount: Balance,
    now: u128,
) -> bool {
    admits(addresses, max_value, ttl, to, amount, now) && admits(
        ips,
        max_value,
        ttl,
        ip,
        amount,
        now,
    )
}

/// Both tables of an admission gate after a request: the amount is reserved on both
/// where the request is admitted, and neither table changes where it is denied.
pub open spec fn gate_after<A, B>(
    addresses: Map<A, CacheEntry>,
    ips: Map<B, CacheEntry>,
    max_value: Balance,
    ttl: u128,
    to: A,
    ip: B,
    amount: Balance,
    now: u128,
) -> (Map<A, CacheEntry>, Map<B, CacheEntry>) {
    if gate_admits(addresses, ips, max_value, ttl, to, ip, amount, now) {
        (
            after_spend(addresses, max_value, ttl, to, amount, now),
            after_spend(ips, max_value, ttl, ip, amount, now),
        )
    } else {
        (addresses, ips)
    }
}

/// Where either key lacks capacity, an admission gate denies the request and commits
/// to neither table, so the key that had capacity holds what it held.
pub proof fn lemma_gate_denial_commits_nothing<A, B>(
    addresses: Map<A, CacheEntry>,
    ips: Map<B, CacheEntry>,
    max_value: Balance,
    ttl: u128,
    to: A,
    ip: B,
    amount: Balance,
    now: u128,
)
    requires
        !admits(addresses, max_value, ttl, to, amount, now) || !admits(
            ips,
            max_value,
            ttl,
            ip,
            amount,
            now,
        ),
    ensures
        !gate_admits(addresses, ips, max_value, ttl, to, ip, amount, now),
        gate_after(addresses, ips, max_value, ttl, to, ip, amount, now) == (addresses, ips),
        current(
            gate_after(addresses, ips, max_value, ttl, to, ip, amount, now).0,
            max_value,
            ttl,
            to,
            now,
        ) == current(addresses, max_value, ttl, to, now),
        current(
            gate_after(addresses, ips, max_value, ttl, to, ip, amount, now).1,
            max_value,
            ttl,
            ip,
            now,
        ) == current(ips, max_value, ttl, ip, now),
{
}

/// Both tables of an admission gate after the first `n` of a run of requests for
/// one destination from one network address, each for the whole limit, request `i`
/// at the clock reading `times[i]`.
pub open spec fn gate_run_state<A, B>(
    addresses: Map<A, CacheEntry>,
    ips: Map<B, CacheEntry>,
    max_value: Balance,
    ttl: u128,
    to: A,
    ip: B,
    times: Seq<u128>,
    n: nat,
) -> (Map<A, CacheEntry>, Map<B, CacheEntry>)
    decreases n,
{
    if n == 0 {
        (addresses, ips)
    } else {
        let before = gate_run_state(addresses, ips, max_value, ttl, to, ip, times, (n - 1) as nat);
        gate_after(before.0, before.1, max_value, ttl, to, ip, max_value, times[n - 1])
    }
}

/// Whether request `i` of such a run is admitted.
pub open spec fn gate_run_admits<A, B>(
    addresses: Map<A, CacheEntry>,
    ips: Map<B, CacheEntry>,
    max_value: Balance,
    ttl: u128,
    to: A,
    ip: B,
    times: Seq<u128>,
    i: nat,
) -> bool {
    let before = gate_run_state(addresses, ips, max_value, ttl, to, ip, times, i);
    gate_admits(before.0, before.1, max_value, ttl, to, ip, max_value, times[i as int])
}

proof fn lemma_gate_run_state<A, B>(
    addresses: Map<A, CacheEntry>,
    ips: Map<B, CacheEntry>,
    max_value: Balance,
    ttl: u128,
    to: A,
    ip: B,
    times: Seq<u128>,
    n: nat,
)
    requires
        max_value > 0,
        0 < n <= times.len(),
        within_one_window(times, ttl),
        fresh_at(addresses, ttl, to, times[0]),
        fresh_at(ips, ttl, ip, times[0]),
    ensures
        ({
            let state = gate_run_state(addresses, ips, max_value, ttl, to, ip, times, n);
            let used = CacheEntry { remaining_value: 0, last_update: times[0] };
            &&& state.0.contains_key(to)
            &&& state.0[to] == used
            &&& state.1.contains_key(ip)
            &&& state.1[ip] == used
        }),
        gate_run_admits(addresses, ips, max_value, ttl, to, ip, times, (n - 1) as nat) == (n == 1),
    decreases n,
{
    let m = (n - 1) as nat;
    let before = gate_run_state(addresses, ips, max_value, ttl, to, ip, times, m);
    assert(!elapsed_over(times[0], times[m as int], ttl));
    if m > 0 {
        lemma_gate_run_state(addresses, ips, max_value, ttl, to, ip, times, m);
        let used = CacheEntry { remaining_value: 0, last_update: times[0] };
        lemma_step_on_known_entry(before.0, max_value, ttl, to, max_value, times[m as int], used);
        lemma_step_on_known_entry(before.1, max_value, ttl, ip, max_value, times[m as int], used);
    } else {
        let full = CacheEntry { remaining_value: max_value, last_update: times[0] };
        lemma_step_on_known_entry(before.0, max_value, ttl, to, max_value, times[0], full);
        lemma_step_on_known_entry(before.1, max_value, ttl, ip, max_value, times[0], full);
    }
}

/// Of any number of requests for one destination from one network address, each for
/// the whole limit and all within one window, an admission gate admits the one it
/// handles first and denies every other: the limit is never spent twice. The
/// requests are taken in the order in which they are handled, which is one after the
/// other, since each needs exclusive access.
pub proof fn lemma_whole_limit_is_admitted_once<A, B>(
    addresses: Map<A, CacheEntry>,
    ips: Map<B, CacheEntry>,
    max_value: Balance,
    ttl: u128,
    to: A,
    ip: B,
    times: Seq<u128>,
)
    requires
        max_value > 0,
        times.len() > 0,
        within_one_window(times, ttl),
        fresh_at(addresses, ttl, to, times[0]),
        fresh_at(ips, ttl, ip, times[0]),
    ensures
        forall|i: nat|
            i < times.len() ==> #[trigger] gate_run_admits(
                addresses,
                ips,
                max_value,
                ttl,
                to,
                ip,
                times,
                i,
            ) == (i == 0),
{
    assert forall|i: nat| i < times.len() implies #[trigger] gate_run_admits(
        addresses,
        ips,
        max_value,
        ttl,
        to,
        ip,
        times,
        i,
    ) == (i == 0) by {
        lemma_gate_run_state(addresses, ips, max_value, ttl, to, ip, times, i + 1);
    }
}

} // verus!

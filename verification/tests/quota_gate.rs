use faucet::cache::AddrCache;
use faucet::cache::Cache;
use faucet::cache::CacheKey;
use faucet::cache::NetAddr;
use faucet::clock::is_elapsed_over;
use faucet::clock::Clock;
use faucet::quota::CacheEntry;

const HOUR: u128 = 3_600_000_000_000;

fn alice() -> String {
    "alice".to_string()
}

#[test]
fn first_reservation_leaves_limit_less_amount() {
    let mut cache: Cache<String> = Cache::new(HOUR, 100);
    assert_eq!(cache.max_value(), 100);
    assert_eq!(cache.ttl(), HOUR);
    assert_eq!(cache.remaining_at(&alice(), 5), 100);
    assert!(cache.spend_at(alice(), 30, 5));
    assert_eq!(cache.remaining_at(&alice(), 5), 70);
}

#[test]
fn reservation_of_whole_limit_is_granted_once() {
    let mut cache: Cache<String> = Cache::new(HOUR, 100);
    assert!(cache.spend_at(alice(), 100, 0));
    assert_eq!(cache.remaining_at(&alice(), 1), 0);
    assert!(!cache.spend_at(alice(), 1, 1));
    assert!(cache.spend_at(alice(), 0, 2));
}

#[test]
fn reservation_over_limit_is_refused_on_fresh_key() {
    let mut cache: Cache<String> = Cache::new(HOUR, 100);
    assert!(!cache.spend_at(alice(), 101, 0));
    assert_eq!(cache.remaining_at(&alice(), 0), 100);
    assert!(cache.spend_at(alice(), 100, 1));
}

#[test]
fn alice_sixty_fifty_forty() {
    let mut cache: Cache<String> = Cache::new(HOUR, 100);
    assert!(cache.spend_at(alice(), 60, 10));
    assert_eq!(cache.remaining_at(&alice(), 11), 40);
    assert!(!cache.spend_at(alice(), 50, 20));
    assert_eq!(cache.remaining_at(&alice(), 21), 40);
    assert!(cache.spend_at(alice(), 40, 30));
    assert_eq!(cache.remaining_at(&alice(), 31), 0);
}

#[test]
fn running_total_decides_each_reservation() {
    let mut cache: Cache<String> = Cache::new(HOUR, 100);
    let amounts: [u128; 6] = [10, 20, 30, 40, 50, 1];
    let expected = [true, true, true, true, false, false];
    let left: [u128; 6] = [90, 70, 40, 0, 0, 0];
    for i in 0..amounts.len() {
        let now = 100 + i as u128;
        assert_eq!(cache.spend_at(alice(), amounts[i], now), expected[i]);
        assert_eq!(cache.remaining_at(&alice(), now), left[i]);
    }
}

#[test]
fn window_is_over_only_after_more_than_ttl() {
    let mut cache: Cache<String> = Cache::new(HOUR, 100);
    assert!(cache.spend_at(alice(), 100, 1_000));
    assert!(!cache.spend_at(alice(), 100, 1_000 + HOUR));
    assert_eq!(cache.remaining_at(&alice(), 1_000 + HOUR), 0);
    assert_eq!(cache.remaining_at(&alice(), 1_001 + HOUR), 100);
    assert!(cache.spend_at(alice(), 100, 1_001 + HOUR));
    assert_eq!(cache.remaining_at(&alice(), 1_002 + HOUR), 0);
}

#[test]
fn window_begins_at_first_reservation_not_at_last() {
    let mut cache: Cache<String> = Cache::new(HOUR, 100);
    assert!(cache.spend_at(alice(), 10, 0));
    assert!(cache.spend_at(alice(), 10, HOUR));
    assert_eq!(cache.remaining_at(&alice(), HOUR), 80);
    assert_eq!(cache.remaining_at(&alice(), HOUR + 1), 100);
}

#[test]
fn refused_reservation_on_fresh_key_begins_its_window() {
    let mut cache: Cache<String> = Cache::new(HOUR, 100);
    assert!(!cache.spend_at(alice(), 500, 7));
    assert!(cache.spend_at(alice(), 100, HOUR + 7));
    assert!(cache.spend_at(alice(), 100, HOUR + 8));
}

#[test]
fn reading_before_window_start_counts_as_no_time_passed() {
    let mut cache: Cache<String> = Cache::new(10, 100);
    assert!(cache.spend_at(alice(), 100, 1_000));
    assert!(!cache.spend_at(alice(), 1, 5));
    assert!(!is_elapsed_over(1_000, 5, 10));
    assert!(!is_elapsed_over(1_000, 1_010, 10));
    assert!(is_elapsed_over(1_000, 1_011, 10));
    assert!(is_elapsed_over(0, u128::MAX, u128::MAX - 1));
    assert!(!is_elapsed_over(0, u128::MAX, u128::MAX));
}

#[test]
fn keys_do_not_share_quota() {
    let mut cache: Cache<String> = Cache::new(HOUR, 100);
    assert!(cache.spend_at(alice(), 100, 0));
    assert!(cache.spend_at("bob".to_string(), 100, 0));
    assert!(!cache.spend_at(alice(), 1, 1));
    assert!(!cache.spend_at("bob".to_string(), 1, 1));
    assert!(cache.spend_at("carol".to_string(), 1, 1));
}

#[test]
fn cleanup_drops_only_closed_windows() {
    let mut cache: Cache<String> = Cache::new(100, 50);
    assert!(cache.spend_at("a".to_string(), 10, 0));
    assert!(cache.spend_at("b".to_string(), 20, 50));
    assert!(cache.spend_at("c".to_string(), 30, 60));
    assert!(cache.spend_at("d".to_string(), 40, 0));
    cache.cleanup_at(120);
    assert!(cache.can_spend_at(&"a".to_string(), 50, 150));
    assert!(cache.can_spend_at(&"d".to_string(), 50, 150));
    assert_eq!(cache.remaining_at(&"b".to_string(), 150), 30);
    assert_eq!(cache.remaining_at(&"c".to_string(), 160), 20);
    assert!(!cache.can_spend_at(&"b".to_string(), 31, 150));
    assert!(cache.can_spend_at(&"b".to_string(), 31, 151));
}

#[test]
fn peek_says_yes_for_unknown_key_even_over_limit() {
    let mut cache: Cache<String> = Cache::new(HOUR, 100);
    assert!(cache.can_spend_at(&alice(), 1_000, 0));
    assert!(!cache.spend_at(alice(), 1_000, 0));
    assert!(!cache.can_spend_at(&alice(), 1_000, 1));
    assert!(cache.can_spend_at(&alice(), 100, 1));
    assert!(cache.can_spend_at(&alice(), 1_000, HOUR + 1));
}

#[test]
fn peek_changes_nothing() {
    let mut cache: Cache<String> = Cache::new(HOUR, 100);
    assert!(cache.spend_at(alice(), 60, 0));
    assert!(cache.can_spend_at(&alice(), 40, 1));
    assert!(cache.can_spend_at(&alice(), 40, 1));
    assert!(!cache.can_spend_at(&alice(), 41, 1));
    assert_eq!(cache.remaining_at(&alice(), 1), 40);
}

#[test]
fn entry_holds_what_it_was_made_with() {
    let entry = CacheEntry::new(9, 77);
    assert_eq!(entry.remaining_value, 9);
    assert_eq!(entry.last_update, 77);
    assert!(!entry.is_expired(10, 87));
    assert!(entry.is_expired(10, 88));
    assert!(!entry.is_expired(10, 3));
}

#[test]
fn same_key_goes_by_content() {
    assert!(alice().same_key(&"alice".to_string()));
    assert!(!alice().same_key(&"alicf".to_string()));
    assert!(NetAddr::V4(1).same_key(&NetAddr::V4(1)));
    assert!(!NetAddr::V4(1).same_key(&NetAddr::V6(1)));
    assert!(!NetAddr::V6(1).same_key(&NetAddr::V6(2)));
}

#[test]
fn gate_admits_only_where_both_keys_have_capacity() {
    let mut gate = AddrCache::new(HOUR, 100);
    let ip = NetAddr::V4(0x0a00_0001);
    assert!(gate.spend_at("alice", ip, 60, 0));
    assert_eq!(gate.addresses.remaining_at(&alice(), 1), 40);
    assert_eq!(gate.ips.remaining_at(&ip, 1), 40);
    assert!(!gate.spend_at("alice", ip, 50, 1));
    assert!(gate.spend_at("alice", ip, 40, 2));
    assert_eq!(gate.addresses.remaining_at(&alice(), 3), 0);
    assert_eq!(gate.ips.remaining_at(&ip, 3), 0);
}

#[test]
fn gate_denial_commits_to_neither_tracker() {
    let mut gate = AddrCache::new(HOUR, 100);
    let ip1 = NetAddr::V4(1);
    let ip2 = NetAddr::V6(2);
    assert!(gate.spend_at("alice", ip1, 80, 0));
    // The address lacks capacity, the other network address has all of it.
    assert!(!gate.spend_at("alice", ip2, 30, 1));
    assert_eq!(gate.ips.remaining_at(&ip2, 2), 100);
    assert_eq!(gate.addresses.remaining_at(&alice(), 2), 20);
    assert!(gate.spend_at("bob", ip2, 100, 3));
    // The network address lacks capacity, the other address has all of it.
    assert!(!gate.spend_at("carol", ip1, 30, 4));
    assert_eq!(gate.addresses.remaining_at(&"carol".to_string(), 5), 100);
    assert_eq!(gate.ips.remaining_at(&ip1, 5), 20);
    assert!(gate.spend_at("carol", ip1, 20, 6));
}

#[test]
fn gate_whole_limit_is_admitted_exactly_once() {
    let mut gate = AddrCache::new(HOUR, 100);
    let ip = NetAddr::V4(7);
    let mut granted = 0;
    for i in 0..32u128 {
        if gate.spend_at("alice", ip, 100, i) {
            granted += 1;
        }
    }
    assert_eq!(granted, 1);
}

#[test]
fn gate_peek_is_the_conjunction_of_both_looks() {
    let mut gate = AddrCache::new(HOUR, 100);
    let ip = NetAddr::V4(7);
    assert!(gate.can_spend_at("alice", ip, 1_000, 0));
    assert!(gate.spend_at("alice", ip, 70, 0));
    assert!(gate.can_spend_at("alice", ip, 30, 1));
    assert!(!gate.can_spend_at("alice", ip, 31, 1));
    assert!(!gate.can_spend_at("bob", ip, 31, 1));
    assert!(!gate.can_spend_at("alice", NetAddr::V4(8), 31, 1));
    assert!(gate.can_spend_at("bob", NetAddr::V4(8), 31, 1));
}

#[test]
fn clock_runs_forward() {
    let clock = Clock::new();
    let first = clock.now();
    let second = clock.now();
    assert!(second >= first);
}

#[test]
fn reservations_on_the_running_clock() {
    let mut cache: Cache<String> = Cache::new(HOUR, 100);
    assert!(cache.can_spend(&alice(), 100));
    assert!(cache.spend(alice(), 60));
    assert!(!cache.spend(alice(), 41));
    assert!(cache.spend(alice(), 40));
    assert!(!cache.can_spend(&alice(), 1));
    cache.cleanup();
    assert!(!cache.can_spend(&alice(), 1));
    let mut gate = AddrCache::new(HOUR, 100);
    assert!(gate.can_spend("alice", NetAddr::V4(1), 100));
    assert!(gate.spend("alice", NetAddr::V4(1), 100));
    assert!(!gate.spend("alice", NetAddr::V4(2), 1));
    assert!(!gate.can_spend("alice", NetAddr::V4(2), 1));
}

#[test]
fn zero_ttl_closes_the_window_at_the_next_nanosecond() {
    let mut cache: Cache<NetAddr> = Cache::new(0, 10);
    assert!(cache.spend_at(NetAddr::V4(1), 10, 5));
    assert!(!cache.spend_at(NetAddr::V4(1), 1, 5));
    assert!(cache.spend_at(NetAddr::V4(1), 10, 6));
}

#[test]
fn amount_given_back_within_its_window_is_there_again() {
    let mut cache: Cache<String> = Cache::new(HOUR, 100);
    assert!(cache.spend_at(alice(), 60, 10));
    assert_eq!(cache.window_start_at(&alice(), 20), Some(10));
    cache.release_at(&alice(), 60, 10, 20);
    assert_eq!(cache.remaining_at(&alice(), 21), 100);
    assert_eq!(cache.window_start_at(&alice(), 21), Some(10));
}

#[test]
fn amount_is_not_given_back_to_another_window() {
    let mut cache: Cache<String> = Cache::new(HOUR, 100);
    assert!(cache.spend_at(alice(), 60, 10));
    cache.release_at(&alice(), 60, 11, 20);
    assert_eq!(cache.remaining_at(&alice(), 21), 40);
    cache.release_at(&alice(), 60, 10, HOUR + 11);
    assert_eq!(cache.window_start_at(&alice(), HOUR + 11), None);
    assert_eq!(cache.window_start_at(&alice(), HOUR + 10), Some(10));
    assert_eq!(cache.remaining_at(&alice(), HOUR + 10), 40);
    cache.release_at(&"bob".to_string(), 60, 10, 20);
    assert_eq!(cache.window_start_at(&"bob".to_string(), 20), None);
    assert_eq!(cache.remaining_at(&"bob".to_string(), 20), 100);
}

#[test]
fn amount_given_back_stops_at_the_limit() {
    let mut cache: Cache<String> = Cache::new(HOUR, 100);
    assert!(cache.spend_at(alice(), 10, 0));
    cache.release_at(&alice(), 11, 0, 1);
    assert_eq!(cache.remaining_at(&alice(), 1), 100);
    cache.release_at(&alice(), u128::MAX, 0, 1);
    assert_eq!(cache.remaining_at(&alice(), 1), 100);
}

#[test]
fn gate_reservation_names_its_windows_and_can_be_given_back() {
    let mut gate = AddrCache::new(HOUR, 100);
    let ip = NetAddr::V4(9);
    assert!(gate.spend_at("bob", ip, 10, 50));
    let reservation = gate.reserve_at("alice", ip, 70, 100).unwrap();
    assert_eq!(reservation.to, "alice");
    assert_eq!(reservation.ip, ip);
    assert_eq!(reservation.amount, 70);
    assert_eq!(reservation.address_window, 100);
    assert_eq!(reservation.ip_window, 50);
    assert!(gate.reserve_at("alice", ip, 21, 101).is_none());
    assert_eq!(gate.addresses.remaining_at(&alice(), 102), 30);
    assert_eq!(gate.ips.remaining_at(&ip, 102), 20);
    gate.release_at(&reservation, 103);
    assert_eq!(gate.addresses.remaining_at(&alice(), 104), 100);
    assert_eq!(gate.ips.remaining_at(&ip, 104), 90);
}

#[test]
fn concurrent_requests_for_the_whole_limit_admit_exactly_one() {
    let runtime = tokio::runtime::Builder::new_multi_thread()
        .worker_threads(4)
        .build()
        .unwrap();
    let granted = runtime.block_on(async {
        let gate = std::sync::Arc::new(tokio::sync::Mutex::new(AddrCache::new(HOUR, 100)));
        let mut handles = Vec::new();
        for _ in 0..64 {
            let gate = std::sync::Arc::clone(&gate);
            handles.push(tokio::spawn(async move {
                gate.lock().await.spend("alice", NetAddr::V4(7), 100)
            }));
        }
        let mut granted = 0;
        for handle in handles {
            if handle.await.unwrap() {
                granted += 1;
            }
        }
        granted
    });
    assert_eq!(granted, 1);
}

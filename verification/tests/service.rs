use faucet::cache::NetAddr;
use faucet::clients::near::CredentialError;
use faucet::clients::near::NearConfig;
use faucet::clients::near::Token;
use faucet::clients::near::TokenConfig;
use faucet::error::AppError;
use faucet::state::Backend;
use faucet::state::BackendError;
use faucet::state::RefundPolicy;
use faucet::submit::Action;
use faucet::submit::Event;
use faucet::submit::Phase;
use faucet::submit::RetryPolicy;
use faucet::clients::near::Rejection;
use faucet::submit::Completion;
use near_crypto::KeyType;
use near_crypto::SecretKey;

const HOUR: u128 = 3_600_000_000_000;

fn token_config(account_id: &str, limit: &str) -> TokenConfig {
    TokenConfig {
        account_id: account_id.to_string(),
        secret_key: SecretKey::from_seed(KeyType::ED25519, account_id).to_string(),
        limit: limit.to_string(),
    }
}

fn backend() -> Backend {
    backend_with(RefundPolicy::default())
}

fn backend_with(refund: RefundPolicy) -> Backend {
    let config = NearConfig {
        rpc_url: "http://localhost:3030".to_string(),
        tokens: vec![
            Token::Near(token_config("faucet.testnet", "100")),
            Token::Ft(token_config("usdt.testnet", "250")),
        ],
    };
    Backend::new(&config, HOUR, refund).unwrap()
}

fn alice() -> String {
    "alice.testnet".to_string()
}

#[test]
fn backend_has_one_empty_gate_per_token() {
    let backend = backend();
    assert_eq!(backend.client.token_count(), 2);
    assert_eq!(backend.caches.len(), 2);
    assert_eq!(backend.caches[0].addresses.max_value(), 100);
    assert_eq!(backend.caches[0].ips.max_value(), 100);
    assert_eq!(backend.caches[1].addresses.max_value(), 250);
    assert_eq!(backend.caches[1].ips.max_value(), 250);
    for gate in &backend.caches {
        assert_eq!(gate.addresses.ttl(), HOUR);
        assert_eq!(gate.ips.ttl(), HOUR);
    }
    assert_eq!(backend.caches[0].addresses.remaining_at(&alice(), 0), 100);
    assert_eq!(backend.caches[1].addresses.remaining_at(&alice(), 0), 250);
}

#[test]
fn limit_that_is_no_number_is_reported_before_a_key_that_is_none() {
    let tokens = vec![
        Token::Near(TokenConfig {
            account_id: "faucet.testnet".to_string(),
            secret_key: "nonsense".to_string(),
            limit: "100".to_string(),
        }),
        Token::Ft(token_config("usdt.testnet", "a lot")),
    ];
    let config = NearConfig { rpc_url: String::new(), tokens };
    assert_eq!(Backend::new(&config, HOUR, RefundPolicy::Never).err(), Some(BackendError::InvalidLimit));
    let tokens = vec![Token::Near(TokenConfig {
        account_id: "faucet.testnet".to_string(),
        secret_key: "nonsense".to_string(),
        limit: "100".to_string(),
    })];
    let config = NearConfig { rpc_url: String::new(), tokens };
    assert_eq!(
        Backend::new(&config, HOUR, RefundPolicy::Never).err(),
        Some(BackendError::Credential(CredentialError::InvalidSecretKey))
    );
}

#[test]
fn token_without_a_numeric_limit_has_no_gate() {
    assert!(Token::Near(token_config("faucet.testnet", "12x")).gate(HOUR).is_none());
    let gate = Token::Near(token_config("faucet.testnet", "12")).gate(HOUR).unwrap();
    assert_eq!(gate.addresses.max_value(), 12);
    assert_eq!(gate.ips.ttl(), HOUR);
}

#[test]
fn admitted_request_is_reserved_and_begins_a_transfer() {
    let mut backend = backend();
    let ip = NetAddr::V4(0x7f00_0001);
    let policy = RetryPolicy::default();
    let minted = backend.mint_at("alice.testnet", ip, "near", "60", policy, 5).unwrap();
    assert_eq!(minted.ticket.token, 0);
    assert_eq!(minted.ticket.reservation.to, "alice.testnet");
    assert_eq!(minted.ticket.reservation.ip, ip);
    assert_eq!(minted.ticket.reservation.amount, 60);
    assert_eq!(minted.ticket.reservation.address_window, 5);
    assert_eq!(minted.ticket.reservation.ip_window, 5);
    let mut submission = minted.submission;
    assert!(matches!(submission.phase, Phase::Init));
    assert_eq!(submission.request.amount, 60);
    assert_eq!(submission.request.destination, "alice.testnet");
    assert!(submission.request.native);
    assert_eq!(submission.policy, policy);
    assert_eq!(backend.caches[0].addresses.remaining_at(&alice(), 6), 40);
    assert_eq!(backend.caches[0].ips.remaining_at(&ip, 6), 40);
    assert_eq!(backend.caches[1].addresses.remaining_at(&alice(), 6), 250);
    assert_eq!(backend.caches[1].ips.remaining_at(&ip, 6), 250);
    assert!(matches!(submission.step(Event::Start), Action::QueryOrdering));
}

#[test]
fn request_over_the_quota_is_refused_and_reserves_nothing() {
    let mut backend = backend();
    let ip = NetAddr::V4(1);
    let policy = RetryPolicy::default();
    assert!(backend.mint_at("alice.testnet", ip, "near", "60", policy, 0).is_ok());
    match backend.mint_at("alice.testnet", ip, "near", "50", policy, 1) {
        Err(AppError::LimitExceeded) => {}
        other => panic!("{:?}", other.err()),
    }
    assert_eq!(backend.caches[0].addresses.remaining_at(&alice(), 2), 40);
    assert_eq!(backend.caches[0].ips.remaining_at(&ip, 2), 40);
    assert!(backend.mint_at("alice.testnet", ip, "near", "40", policy, 3).is_ok());
    assert_eq!(backend.caches[0].addresses.remaining_at(&alice(), 4), 0);
    // From another network address the destination is still used up.
    match backend.mint_at("alice.testnet", NetAddr::V4(2), "near", "1", policy, 5) {
        Err(AppError::LimitExceeded) => {}
        other => panic!("{:?}", other.err()),
    }
    assert_eq!(backend.caches[0].ips.remaining_at(&NetAddr::V4(2), 6), 100);
    // The other token has its own quota.
    assert!(backend.mint_at("alice.testnet", ip, "usdt.testnet", "250", policy, 7).is_ok());
}

#[test]
fn quota_comes_back_when_the_window_is_over() {
    let mut backend = backend();
    let ip = NetAddr::V6(1);
    let policy = RetryPolicy::default();
    assert!(backend.mint_at("alice.testnet", ip, "near", "100", policy, 10).is_ok());
    assert!(backend.mint_at("alice.testnet", ip, "near", "100", policy, 10 + HOUR).is_err());
    assert!(backend.mint_at("alice.testnet", ip, "near", "100", policy, 11 + HOUR).is_ok());
}

#[test]
fn request_that_cannot_be_read_reserves_nothing() {
    let mut backend = backend();
    let ip = NetAddr::V4(1);
    let policy = RetryPolicy::default();
    match backend.mint_at("alice.testnet", ip, "near", "sixty", policy, 0) {
        Err(AppError::InvalidAmount) => {}
        other => panic!("{:?}", other.err()),
    }
    match backend.mint_at("alice.testnet", ip, "dai.testnet", "60", policy, 0) {
        Err(AppError::UnknownToken) => {}
        other => panic!("{:?}", other.err()),
    }
    match backend.mint_at("alice.testnet", ip, "dai.testnet", "sixty", policy, 0) {
        Err(AppError::InvalidAmount) => {}
        other => panic!("{:?}", other.err()),
    }
    assert_eq!(backend.caches[0].addresses.remaining_at(&alice(), 1), 100);
    assert_eq!(backend.caches[0].ips.remaining_at(&ip, 1), 100);
    assert!(backend.caches[0].addresses.can_spend_at(&alice(), 1_000, 1));
}

fn failed(backend: &mut Backend, ip: NetAddr, amount: &str, now: u128) -> (faucet::state::Ticket, Completion) {
    let policy = RetryPolicy { max_attempts: 1, max_polls: 1, poll_interval: 250 };
    let minted = backend.mint_at("alice.testnet", ip, "near", amount, policy, now).unwrap();
    let mut submission = minted.submission;
    assert!(matches!(submission.step(Event::Start), Action::QueryOrdering));
    match submission.step(Event::OrderingFailed("unreachable".to_string())) {
        Action::Finish(completion) => (minted.ticket, completion),
        other => panic!("{:?}", other),
    }
}

#[test]
fn reservations_are_final_unless_chosen_otherwise() {
    assert_eq!(RefundPolicy::default(), RefundPolicy::Never);
    assert_eq!(backend().refund, RefundPolicy::Never);
    assert_eq!(backend_with(RefundPolicy::OnFailure).refund, RefundPolicy::OnFailure);
}

#[test]
fn reservation_stays_when_the_transfer_fails() {
    let mut backend = backend();
    let ip = NetAddr::V4(1);
    let (ticket, completion) = failed(&mut backend, ip, "100", 0);
    assert!(matches!(completion, Completion::Failed(_)));
    assert!(matches!(backend.settle_at(&ticket, completion, 1), Err(AppError::Failed(_))));
    assert_eq!(backend.caches[0].addresses.remaining_at(&alice(), 1), 0);
    assert_eq!(backend.caches[0].ips.remaining_at(&ip, 1), 0);
    let policy = RetryPolicy::default();
    assert!(backend.mint_at("alice.testnet", ip, "near", "1", policy, 2).is_err());
}

#[test]
fn reservation_is_given_back_where_the_policy_says_so() {
    let mut backend = backend_with(RefundPolicy::OnFailure);
    let ip = NetAddr::V4(1);
    let policy = RetryPolicy::default();
    assert!(backend.mint_at("alice.testnet", ip, "near", "30", policy, 0).is_ok());
    let (ticket, completion) = failed(&mut backend, ip, "60", 10);
    assert_eq!(ticket.reservation.address_window, 0);
    assert_eq!(backend.caches[0].addresses.remaining_at(&alice(), 11), 10);
    assert!(matches!(backend.settle_at(&ticket, completion, 20), Err(AppError::Failed(_))));
    assert_eq!(backend.caches[0].addresses.remaining_at(&alice(), 21), 70);
    assert_eq!(backend.caches[0].ips.remaining_at(&ip, 21), 70);
    assert_eq!(backend.caches[1].addresses.remaining_at(&alice(), 21), 250);
}

#[test]
fn confirmed_transfer_keeps_its_reservation_under_either_policy() {
    for refund in [RefundPolicy::Never, RefundPolicy::OnFailure] {
        let mut backend = backend_with(refund);
        let ip = NetAddr::V4(1);
        let policy = RetryPolicy::default();
        let minted = backend.mint_at("alice.testnet", ip, "near", "60", policy, 0).unwrap();
        assert!(backend.settle_at(&minted.ticket, Completion::Confirmed, 1).is_ok());
        assert_eq!(backend.caches[0].addresses.remaining_at(&alice(), 2), 40);
        assert_eq!(backend.caches[0].ips.remaining_at(&ip, 2), 40);
    }
}

#[test]
fn rejected_transfer_is_refunded_like_a_failed_one() {
    let mut backend = backend_with(RefundPolicy::OnFailure);
    let ip = NetAddr::V4(1);
    let policy = RetryPolicy::default();
    let minted = backend.mint_at("alice.testnet", ip, "near", "60", policy, 0).unwrap();
    let completion = Completion::Rejected(Rejection::Execution("no funds".to_string()));
    assert!(matches!(
        backend.settle_at(&minted.ticket, completion, 1),
        Err(AppError::Rejected(Rejection::Execution(_)))
    ));
    assert_eq!(backend.caches[0].addresses.remaining_at(&alice(), 2), 100);
}

#[test]
fn refund_after_the_window_is_over_gives_nothing_back() {
    let mut backend = backend_with(RefundPolicy::OnFailure);
    let ip = NetAddr::V4(1);
    let policy = RetryPolicy::default();
    let (ticket, completion) = failed(&mut backend, ip, "60", 0);
    // The window is over, and a new one has begun with a reservation of its own.
    assert!(backend.mint_at("alice.testnet", ip, "near", "10", policy, HOUR + 5).is_ok());
    assert!(backend.settle_at(&ticket, completion, HOUR + 6).is_err());
    assert_eq!(backend.caches[0].addresses.remaining_at(&alice(), HOUR + 7), 90);
    assert_eq!(backend.caches[0].ips.remaining_at(&ip, HOUR + 7), 90);
    // The window is over, and no new one has begun.
    let (ticket, completion) = failed(&mut backend, NetAddr::V4(2), "5", HOUR + 8);
    assert!(backend.settle_at(&ticket, completion, 3 * HOUR).is_err());
    assert_eq!(backend.caches[0].ips.remaining_at(&NetAddr::V4(2), 3 * HOUR), 100);
    assert!(backend.caches[0].ips.window_start_at(&NetAddr::V4(2), 3 * HOUR).is_none());
}

#[test]
fn refund_never_lifts_a_key_over_its_limit() {
    let mut backend = backend_with(RefundPolicy::OnFailure);
    let ip = NetAddr::V4(1);
    let (ticket, completion) = failed(&mut backend, ip, "60", 0);
    assert!(backend.settle_at(&ticket, completion.duplicate(), 1).is_err());
    assert!(backend.settle_at(&ticket, completion, 2).is_err());
    assert_eq!(backend.caches[0].addresses.remaining_at(&alice(), 3), 100);
    assert_eq!(backend.caches[0].ips.remaining_at(&ip, 3), 100);
}

#[test]
fn ticket_for_no_gate_changes_nothing() {
    let mut backend = backend_with(RefundPolicy::OnFailure);
    let ip = NetAddr::V4(1);
    let (mut ticket, completion) = failed(&mut backend, ip, "60", 0);
    ticket.token = 7;
    assert!(backend.settle_at(&ticket, completion, 1).is_err());
    assert_eq!(backend.caches[0].addresses.remaining_at(&alice(), 2), 40);
}

#[test]
fn requests_on_the_running_clock() {
    let mut backend = backend();
    let ip = NetAddr::V4(1);
    let policy = RetryPolicy::default();
    let minted = backend.mint("alice.testnet", ip, "near", "100", policy).unwrap();
    assert!(backend.settle(&minted.ticket, Completion::Confirmed).is_ok());
    assert!(matches!(
        backend.mint("alice.testnet", ip, "near", "1", policy),
        Err(AppError::LimitExceeded)
    ));
    assert!(matches!(
        backend.mint("bob.testnet", NetAddr::V4(2), "near", "x", policy),
        Err(AppError::InvalidAmount)
    ));
}

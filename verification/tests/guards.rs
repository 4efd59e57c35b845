use routerfuel::circuit_breaker::{CircuitBreaker, CircuitState};
use routerfuel::client_registry::{
    load_all_tiers, load_tiers_from_db, load_tiers_from_env, parse_tier, setting_entries,
    tier_by_name, LoadedTiers,
};
use routerfuel::clock::Span;
use routerfuel::concurrency::ConcurrencyLimiter;
use routerfuel::digest::sha256_hex;
use routerfuel::guardrails::{hash_prompt, LoopGuard, SpendGuard, MAX_HISTORY_PER_CLIENT};
use routerfuel::money::cents;
use routerfuel::provider::Provider;
use routerfuel::rate_limiter::{verdict, RateLimitError, RateLimiter, TierConfig};

const SECOND: u128 = 1_000_000_000;

// Circuit breaker.

#[test]
fn test_circuit_breaker_opens_on_failures() {
    let mut breaker = CircuitBreaker::new();
    let provider = Provider::OpenAI;

    for _ in 0..3 {
        breaker.record_failure(provider);
    }

    assert!(breaker.is_open(provider));
}

#[test]
fn test_circuit_breaker_recovery() {
    let mut breaker = CircuitBreaker::new();
    let provider = Provider::Anthropic;

    for _ in 0..3 {
        breaker.record_failure(provider);
    }

    assert!(breaker.is_open(provider));

    breaker.record_success(provider);
    assert_eq!(breaker.state(provider), CircuitState::Closed);
}

#[test]
fn only_one_caller_gets_through_half_open() {
    let mut breaker = CircuitBreaker::new();
    let provider = Provider::Gemini;

    for _ in 0..3 {
        breaker.record_failure(provider);
    }
    assert!(breaker.is_open(provider));
}

#[test]
fn two_failures_leave_the_circuit_closed() {
    let mut breaker = CircuitBreaker::default();
    breaker.record_failure(Provider::XAI);
    breaker.record_failure(Provider::XAI);
    assert_eq!(breaker.state(Provider::XAI), CircuitState::Closed);
    assert_eq!(breaker.failure_count(Provider::XAI), 2);
    assert!(!breaker.is_open(Provider::XAI));
}

#[test]
fn other_providers_are_not_touched() {
    let mut breaker = CircuitBreaker::new();
    for _ in 0..5 {
        breaker.record_failure(Provider::Qwen);
    }
    assert_eq!(breaker.failure_count(Provider::Qwen), 5);
    assert_eq!(breaker.state(Provider::Meta), CircuitState::Closed);
    assert!(!breaker.is_open(Provider::Meta));
}

#[test]
fn one_trial_after_the_timeout() {
    let mut breaker = CircuitBreaker::new();
    let p = Provider::Mistral;
    breaker.record_failure_at(p, 0);
    breaker.record_failure_at(p, SECOND);
    breaker.record_failure_at(p, 2 * SECOND);
    assert!(breaker.is_open_at(p, 2 * SECOND));
    assert!(breaker.is_open_at(p, 62 * SECOND));
    assert_eq!(breaker.peek_at(p, 62 * SECOND), Some(true));
    assert_eq!(breaker.peek_at(p, 62 * SECOND + 1), None);
    assert!(!breaker.is_open_at(p, 62 * SECOND + 1));
    assert_eq!(breaker.state(p), CircuitState::HalfOpen);
    assert!(breaker.is_open_at(p, 62 * SECOND + 2));
    assert!(breaker.is_open_at(p, 1_000 * SECOND));
    assert!(breaker.claim_probe(p));
}

#[test]
fn failed_trial_opens_with_a_fresh_timer() {
    let mut breaker = CircuitBreaker::new();
    let p = Provider::Zhipu;
    for i in 0..3u128 {
        breaker.record_failure_at(p, i);
    }
    assert!(!breaker.is_open_at(p, 100 * SECOND));
    breaker.record_failure_at(p, 101 * SECOND);
    assert_eq!(breaker.state(p), CircuitState::Open);
    assert!(breaker.is_open_at(p, 161 * SECOND));
    assert!(!breaker.is_open_at(p, 161 * SECOND + 1));
    breaker.record_success(p);
    assert_eq!(breaker.state(p), CircuitState::Closed);
    assert_eq!(breaker.failure_count(p), 0);
}

#[test]
fn released_trial_is_left_to_the_next_request() {
    let mut breaker = CircuitBreaker::new();
    let p = Provider::Moonshot;
    breaker.release_probe(p);
    assert_eq!(breaker.state(p), CircuitState::Closed);
    for i in 0..3u128 {
        breaker.record_failure_at(p, i);
    }
    assert!(!breaker.is_open_at(p, 61 * SECOND));
    assert!(breaker.is_open_at(p, 61 * SECOND));
    breaker.release_probe(p);
    assert_eq!(breaker.state(p), CircuitState::Open);
    assert_eq!(breaker.failure_count(p), 3);
    assert!(!breaker.is_open_at(p, 61 * SECOND));
    assert!(breaker.is_open_at(p, 61 * SECOND));
}

#[test]
fn later_failures_do_not_restart_the_timer() {
    let mut breaker = CircuitBreaker::new();
    let p = Provider::DeepSeek;
    for i in 0..3u128 {
        breaker.record_failure_at(p, i);
    }
    breaker.record_failure_at(p, 50 * SECOND);
    assert!(!breaker.is_open_at(p, 60 * SECOND + 3));
}

#[test]
fn breaker_clock_does_not_run_backwards() {
    let breaker = CircuitBreaker::new();
    let a = breaker.now();
    let b = breaker.now();
    assert!(b >= a);
}

// Loop guard.

#[test]
fn identical_prompts_trip_after_threshold() {
    let mut g = LoopGuard::with_config(3, Span::from_secs(60));
    assert!(!g.check_and_record("client-a", "same prompt"));
    assert!(!g.check_and_record("client-a", "same prompt"));
    assert!(g.check_and_record("client-a", "same prompt"));
}

#[test]
fn different_prompts_do_not_trip() {
    let mut g = LoopGuard::with_config(3, Span::from_secs(60));
    assert!(!g.check_and_record("client-b", "prompt one"));
    assert!(!g.check_and_record("client-b", "prompt two"));
    assert!(!g.check_and_record("client-b", "prompt three"));
}

#[test]
fn loops_are_isolated_per_client() {
    let mut g = LoopGuard::with_config(2, Span::from_secs(60));
    assert!(!g.check_and_record("client-c", "hello"));
    assert!(!g.check_and_record("client-d", "hello"));
}

#[test]
fn prompts_outside_the_window_do_not_count() {
    let mut g = LoopGuard::with_config(2, Span::from_secs(60));
    assert!(!g.check_and_record_at("c", "hi", 0));
    assert!(g.check_and_record_at("c", "hi", 60 * SECOND));
    assert!(!g.check_and_record_at("c", "hi", 121 * SECOND));
}

#[test]
fn default_loop_guard_trips_at_the_fourth() {
    let mut g = LoopGuard::default();
    assert!(!g.check_and_record("c", "x"));
    assert!(!g.check_and_record("c", "x"));
    assert!(!g.check_and_record("c", "x"));
    assert!(g.check_and_record("c", "x"));
}

#[test]
fn oldest_call_is_forgotten_beyond_the_history() {
    let mut g = LoopGuard::with_config(2, Span::from_secs(60));
    assert!(!g.check_and_record_at("c", "first", 0));
    for i in 0..MAX_HISTORY_PER_CLIENT {
        let prompt = format!("other {}", i);
        assert!(!g.check_and_record_at("c", &prompt, 1));
    }
    assert!(!g.check_and_record_at("c", "first", 2));
    assert!(g.check_and_record_at("c", "first", 3));
}

#[test]
fn old_calls_do_not_crowd_out_the_window() {
    let mut g = LoopGuard::with_config(3, Span::from_secs(60));
    for i in 0..500u128 {
        let prompt = format!("other {}", i);
        g.check_and_record_at("c", &prompt, i);
    }
    assert!(!g.check_and_record_at("c", "same", 100 * SECOND));
    assert!(!g.check_and_record_at("c", "same", 101 * SECOND));
    assert!(g.check_and_record_at("c", "same", 102 * SECOND));
}

#[test]
fn long_runs_of_one_prompt_stay_flagged() {
    let mut g = LoopGuard::with_config(201, Span::from_secs(60));
    for i in 1..=250 {
        assert_eq!(g.check_and_record_at("c", "same", 0), i >= 201);
    }
}

#[test]
fn threshold_of_one_flags_every_call() {
    let mut g = LoopGuard::with_config(1, Span::from_secs(60));
    assert!(g.check_and_record("c", "x"));
}

#[test]
fn equal_prompts_hash_alike() {
    assert_eq!(hash_prompt("abc"), hash_prompt("abc"));
    assert_ne!(hash_prompt("abc"), hash_prompt("abd"));
}

// Spend guard.

#[test]
fn spend_guard_blocks_after_cap() {
    let mut g = SpendGuard::with_config(cents(100), Span::from_secs(3600));
    assert!(g.check("client-e"));
    g.record_spend("client-e", cents(60));
    assert!(g.check("client-e"));
    g.record_spend("client-e", cents(50));
    assert!(!g.check("client-e"));
}

#[test]
fn try_reserve_blocks_once_cap_would_be_exceeded() {
    let mut g = SpendGuard::with_config(cents(100), Span::from_secs(3600));
    assert!(g.try_reserve("client-f", cents(60)));
    assert!(g.try_reserve("client-f", cents(30)));
    assert!(!g.try_reserve("client-f", cents(20)));
}

#[test]
fn concurrent_reservations_cannot_both_pass_a_stale_check() {
    let mut g = SpendGuard::with_config(cents(100), Span::from_secs(3600));
    assert!(g.try_reserve("client-g", cents(70)));
    assert!(!g.try_reserve("client-g", cents(70)));
}

#[test]
fn release_frees_a_reservation() {
    let mut g = SpendGuard::with_config(cents(100), Span::from_secs(3600));
    assert!(g.try_reserve("client-h", cents(90)));
    assert!(!g.try_reserve("client-h", cents(20)));
    g.release("client-h", cents(90));
    assert!(g.try_reserve("client-h", cents(20)));
}

#[test]
fn reconcile_adjusts_reservation_to_real_cost() {
    let mut g = SpendGuard::with_config(cents(100), Span::from_secs(3600));
    assert!(g.try_reserve("client-i", cents(50)));
    g.reconcile("client-i", cents(50), cents(30));
    assert!(g.try_reserve("client-i", cents(65)));
}

#[test]
fn reservation_up_to_the_cap_fits() {
    let mut g = SpendGuard::with_config(cents(100), Span::from_secs(3600));
    assert!(g.try_reserve("c", cents(100)));
    assert!(!g.try_reserve("c", 1));
    assert!(g.try_reserve("c", 0));
    assert!(!g.check("c"));
    assert!(g.check("d"));
}

#[test]
fn window_that_has_run_out_starts_anew() {
    let mut g = SpendGuard::with_config(cents(100), Span::from_secs(10));
    assert!(g.try_reserve_at("c", cents(100), 0));
    assert!(!g.try_reserve_at("c", 1, 10 * SECOND));
    assert!(!g.check_at("c", 10 * SECOND));
    assert!(g.check_at("c", 10 * SECOND + 1));
    assert!(g.try_reserve_at("c", cents(100), 10 * SECOND + 1));
    assert!(!g.try_reserve_at("c", 1, 20 * SECOND + 1));
}

#[test]
fn reconciling_upwards_may_pass_the_cap() {
    let mut g = SpendGuard::with_config(cents(100), Span::from_secs(3600));
    assert!(g.try_reserve_at("c", cents(90), 0));
    g.reconcile_at("c", cents(90), cents(150), 1);
    assert!(!g.check_at("c", 2));
    g.reconcile_at("c", cents(500), 0, 3);
    assert!(g.try_reserve_at("c", cents(100), 4));
}

#[test]
fn default_ceiling_is_fifty_dollars_an_hour() {
    let mut g = SpendGuard::default();
    assert!(g.try_reserve_at("c", cents(5_000), 0));
    assert!(!g.try_reserve_at("c", 1, 3_600 * SECOND));
    assert!(g.try_reserve_at("c", 1, 3_600 * SECOND + 1));
}

#[test]
fn spending_saturates() {
    let mut g = SpendGuard::with_config(cents(100), Span::from_secs(3600));
    g.record_spend_at("c", u128::MAX, 0);
    g.record_spend_at("c", u128::MAX, 1);
    assert!(!g.check_at("c", 2));
}

// Rate limiter.

#[test]
fn test_tier_capacities() {
    assert_eq!(TierConfig::free().capacity, 10);
    assert_eq!(TierConfig::pro().capacity, 100);
    assert_eq!(TierConfig::enterprise().capacity, 1000);
}

#[test]
fn test_register_and_status() {
    let mut rl = RateLimiter::new();
    rl.register("client-a", TierConfig::enterprise());
    let status = rl.status("client-a").unwrap();
    assert_eq!(status.tier_name, "enterprise");
    assert_eq!(status.capacity_rps, 1000);
}

#[test]
fn test_unregistered_client_gets_default_tier_on_check() {
    let mut rl = RateLimiter::new().with_default_tier(TierConfig::free());
    assert!(rl.status("brand-new-client").is_none());
    assert!(rl.check("brand-new-client").is_ok());
    assert_eq!(rl.status("brand-new-client").unwrap().tier_name, "free");
}

#[test]
fn test_basic_check_limit() {
    let mut limiter = RateLimiter::new();
    let result = limiter.check_limit("client-1", TierConfig::free());
    assert!(result.is_ok());
}

#[test]
fn bursts_beyond_the_capacity_are_refused() {
    let mut rl = RateLimiter::default();
    rl.register("c", TierConfig { name: "tiny", capacity: 1 });
    let mut refused = 0;
    for _ in 0..50 {
        if let Err(e) = rl.check("c") {
            assert_eq!(e, RateLimitError::LimitExceeded);
            refused += 1;
        }
    }
    assert!(refused > 0);
    assert!(rl.check("d").is_ok());
    rl.register("c", TierConfig { name: "tiny", capacity: 1 });
    assert!(rl.check("c").is_ok());
}

#[test]
fn explicit_tier_counts_and_not_the_registered_one() {
    let mut rl = RateLimiter::new();
    rl.register("c", TierConfig::free());
    for _ in 0..11 {
        assert!(rl.check_limit("c", TierConfig::enterprise()).is_ok());
    }
    assert_eq!(rl.status("c").unwrap().tier_name, "free");
    let tiny = TierConfig { name: "tiny", capacity: 1 };
    let refused = (0..50).filter(|_| rl.check_limit("c", tiny).is_err()).count();
    assert!(refused > 0);
    assert!(rl.check("c").is_ok());
}

#[test]
fn tier_without_capacity_still_admits_the_first_request() {
    let mut rl = RateLimiter::new();
    rl.register("c", TierConfig { name: "none", capacity: 0 });
    assert!(rl.check("c").is_ok());
    assert_eq!(rl.status("c").unwrap().capacity_rps, 0);
}

#[test]
fn checking_against_a_tier_does_not_register() {
    let mut rl = RateLimiter::new();
    assert!(rl.check_limit("c", TierConfig::free()).is_ok());
    assert!(rl.status("c").is_none());
    assert_eq!(rl.registered_count(), 0);
    assert!(rl.check("c").is_ok());
    assert_eq!(rl.registered_count(), 1);
    assert_eq!(rl.status("c").unwrap().tier_name, "pro");
}

#[test]
fn bursts_are_admitted_and_use_up_the_quota() {
    let mut rl = RateLimiter::new();
    for _ in 0..10 {
        assert!(rl.check_limit("c", TierConfig::free()).is_ok());
    }
    let later = (0..1000).filter(|_| rl.check_limit("c", TierConfig::free()).is_ok()).count();
    assert!(later < 500);
    assert!(rl.check_limit("d", TierConfig::free()).is_ok());
}

#[test]
fn rate_limit_errors_have_texts() {
    assert!(verdict(true).is_ok());
    assert_eq!(verdict(false).unwrap_err().message(), "Rate limit exceeded");
    assert_eq!(RateLimitError::UnknownTier("gold".into()).message(), "Unknown tier: gold");
}

// Client registry.

#[test]
fn parse_known_tiers() {
    assert_eq!(parse_tier("free").capacity, TierConfig::free().capacity);
    assert_eq!(parse_tier("pro").capacity, TierConfig::pro().capacity);
    assert_eq!(parse_tier("enterprise").capacity, TierConfig::enterprise().capacity);
}

#[test]
fn parse_unknown_defaults_to_pro() {
    let t = parse_tier("gold");
    assert_eq!(t.capacity, TierConfig::pro().capacity);
}

#[test]
fn load_from_env_registers_clients() {
    let mut rl = RateLimiter::new();
    let raw = "rf_live_key1:pro,rf_live_key2:free,rf_live_key3:enterprise";
    let n = load_tiers_from_env(raw, &mut rl);
    assert_eq!(n, 3);

    let id1 = sha256_hex("rf_live_key1");
    assert!(rl.status(&id1).is_some());
    assert_eq!(rl.status(&id1).unwrap().tier_name, "pro");
}

#[test]
fn empty_env_string_registers_nothing() {
    let mut rl = RateLimiter::new();
    let n = load_tiers_from_env("", &mut rl);
    assert_eq!(n, 0);
}

#[test]
fn tiers_are_trimmed_and_put_into_lower_case() {
    assert_eq!(parse_tier("  FREE\t").name, "free");
    assert_eq!(parse_tier("Enterprise").name, "enterprise");
    assert_eq!(tier_by_name("free").name, "free");
    assert_eq!(tier_by_name("FREE").name, "pro");
}

#[test]
fn bad_entries_are_passed_over() {
    let entries = setting_entries(" a : free ,, nonsense , b:c:d ");
    assert_eq!(
        entries,
        vec![("a".to_string(), " free".to_string()), ("b".to_string(), "c:d".to_string())]
    );
    let mut rl = RateLimiter::new();
    assert_eq!(load_tiers_from_env(" a : free ,, nonsense , b:c:d ", &mut rl), 2);
    assert_eq!(rl.status(&sha256_hex("a")).unwrap().tier_name, "free");
    assert_eq!(rl.status(&sha256_hex("b")).unwrap().tier_name, "pro");
}

#[test]
fn the_table_wins_over_the_setting() {
    let mut rl = RateLimiter::new();
    let id = sha256_hex("k");
    let rows = vec![(id.clone(), "enterprise".to_string()), ("x".to_string(), "free".to_string())];
    let loaded = load_all_tiers(&mut rl, "k:free,l:free", &Some(rows), TierConfig::free());
    assert_eq!(loaded, LoadedTiers { from_env: 2, from_db: 2 });
    assert_eq!(rl.status(&id).unwrap().tier_name, "enterprise");
    assert_eq!(rl.status(&sha256_hex("l")).unwrap().tier_name, "free");
    assert!(rl.check("new").is_ok());
    assert_eq!(rl.status("new").unwrap().tier_name, "free");
    assert_eq!(rl.registered_count(), 4);
}

#[test]
fn setting_alone_counts_where_the_table_cannot_be_read() {
    let mut rl = RateLimiter::new();
    let loaded = load_all_tiers(&mut rl, "k:free", &None, TierConfig::pro());
    assert_eq!(loaded, LoadedTiers { from_env: 1, from_db: 0 });
    assert_eq!(load_tiers_from_db(&vec![], &mut rl), 0);
    assert_eq!(rl.registered_count(), 1);
}

#[test]
fn digest_is_sha256_in_hexadecimal() {
    assert_eq!(
        sha256_hex("abc"),
        "ba7816bf8f01cfea414140de5dae2223b00361a396177a9cb410ff61f20015ad"
    );
    assert_eq!(
        sha256_hex(""),
        "e3b0c44298fc1c149afbf4c8996fb92427ae41e4649b934ca495991b7852b855"
    );
}

// Concurrency.

#[test]
fn permits_are_bounded_and_released() {
    let mut limiter = ConcurrencyLimiter::new(2);
    assert_eq!(limiter.available(), 2);

    assert!(limiter.try_acquire());
    assert!(limiter.try_acquire());
    assert_eq!(limiter.available(), 0);
    assert_eq!(limiter.in_flight(), 2);

    limiter.release();
    assert_eq!(limiter.available(), 1);

    limiter.release();
    assert_eq!(limiter.available(), 2);
}

#[test]
fn third_acquire_waits_for_a_slot() {
    let mut limiter = ConcurrencyLimiter::new(1);
    assert!(limiter.try_acquire());
    assert!(!limiter.try_acquire(), "second acquire should still be waiting");
    limiter.release();
    assert!(limiter.try_acquire());
}

#[test]
fn limiter_admits_at_least_one_call() {
    let mut limiter = ConcurrencyLimiter::new(0);
    assert_eq!(limiter.max(), 1);
    assert!(limiter.try_acquire());
    assert_eq!(limiter.in_flight(), 1);
}

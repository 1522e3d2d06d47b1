use twitch_discord_summarizer::backoff::Backoff;
use twitch_discord_summarizer::clock::{Duration, Instant};
use twitch_discord_summarizer::cost::CostGovernor;
use twitch_discord_summarizer::discord::ratelimit::RateLimiter;
use twitch_discord_summarizer::interaction::decision::proactive_due;
use twitch_discord_summarizer::supervisor::restart_delay;
use twitch_discord_summarizer::twitch::helix::TokenCache;
use twitch_discord_summarizer::twitch::lifecycle::{Lifecycle, Transition};

/// Micro-dollars for an amount in dollars.
fn usd(x: f64) -> u64 {
    (x * 1_000_000.0) as u64
}

#[test]
fn delay_is_capped_at_max() {
    let mut b = Backoff::new(Duration::from_millis(500), Duration::from_secs(30));
    // After many attempts the (pre-jitter) value saturates at max; with
    // jitter in [0.5, 1.0] the result never exceeds max.
    for _ in 0..50 {
        let d = b.next_delay();
        assert!(d <= Duration::from_secs(30), "delay {d:?} exceeded max");
    }
}

#[test]
fn delay_grows_then_resets() {
    let mut b = Backoff::new(Duration::from_millis(100), Duration::from_secs(60));
    let first = b.next_delay();
    // A few attempts later the cap (pre-jitter) is larger, so the lower
    // jitter bound is above the first attempt's lower bound.
    for _ in 0..5 {
        let _ = b.next_delay();
    }
    let later_lower_bound = Duration::from_millis(100 * 32 / 2); // base*2^5 * 0.5
    let later = b.next_delay();
    assert!(later >= later_lower_bound || later <= b.max());
    b.reset();
    let after_reset = b.next_delay();
    // After reset we are back near the base (<= base, since jitter <= 1.0).
    assert!(after_reset <= Duration::from_millis(100));
    let _ = first;
}

#[test]
fn delays_stay_within_jitter_bounds() {
    // Attempt k draws from [raw/2, raw) with raw = min(max, base * 2^k).
    let mut b = Backoff::with_seed(Duration::from_millis(100), Duration::from_secs(60), 12345);
    let mut raw = Duration::from_millis(100);
    for _ in 0..12 {
        let d = b.next_delay();
        let cap = if raw <= Duration::from_secs(60) { raw } else { Duration::from_secs(60) };
        assert!(d.as_nanos() * 2 >= cap.as_nanos());
        assert!(d < cap);
        raw = raw.saturating_mul(2);
    }
}

#[test]
fn seeded_backoff_is_reproducible() {
    let mut a = Backoff::with_seed(Duration::from_millis(500), Duration::from_secs(30), 7);
    let mut b = Backoff::with_seed(Duration::from_millis(500), Duration::from_secs(30), 7);
    for _ in 0..10 {
        assert_eq!(a.next_delay(), b.next_delay());
    }
}

#[test]
fn default_backoff_uses_half_second_base() {
    let mut b = Backoff::default();
    assert_eq!(b.max(), Duration::from_secs(30));
    let d = b.next_delay();
    assert!(d <= Duration::from_millis(500));
    assert!(d >= Duration::from_millis(250));
}

#[test]
fn restart_after_healthy_run_starts_over() {
    let mut b = Backoff::with_seed(Duration::from_secs(1), Duration::from_secs(60), 99);
    for _ in 0..6 {
        let _ = restart_delay(&mut b, Duration::from_secs(1));
    }
    // Six quick failures: the next raw delay is 64 s, capped at 60 s.
    let quick = restart_delay(&mut b, Duration::from_secs(1));
    assert!(quick >= Duration::from_secs(30));
    // A healthy run resets: back to the base.
    let healthy = restart_delay(&mut b, Duration::from_secs(60));
    assert!(healthy <= Duration::from_secs(1));
    assert!(healthy >= Duration::from_millis(500));
}

#[test]
fn allows_until_ceiling_then_trips_once() {
    let mut g = CostGovernor::new(usd(1.0));
    assert!(g.allowed());
    assert!(!g.record(usd(0.4)));
    assert!(g.allowed());
    // Crossing 1.0 trips and returns true exactly once.
    let caused = g.record(usd(0.7));
    assert!(caused, "crossing the ceiling should report the trip");
    assert!(!g.allowed());
    // A further charge does not re-report the trip.
    assert!(!g.record(usd(0.5)));
}

#[test]
fn zero_ceiling_never_trips() {
    let mut g = CostGovernor::new(usd(0.0));
    assert!(!g.record(usd(100.0)));
    assert!(g.allowed());
    assert_eq!(g.spent_micros(), 0);
}

#[test]
fn tracks_spend() {
    let mut g = CostGovernor::new(usd(100.0));
    g.record(usd(1.5));
    g.record(usd(2.25));
    assert_eq!(g.spent_micros(), 3_750_000);
}

#[test]
fn new_day_clears_spend_and_kill_switch() {
    let mut g = CostGovernor::new_on(1_000, 10);
    assert!(g.record_on(1_000, 10));
    assert!(!g.allowed_on(10));
    assert!(g.allowed_on(11));
    assert_eq!(g.spent_micros(), 0);
    assert_eq!(g.ceiling_micros(), 1_000);
}

#[test]
fn drains_capacity_then_refills() {
    let t0 = Instant::now();
    let mut rl = RateLimiter::per_minute(30);
    // Drain the full burst.
    for _ in 0..30 {
        assert!(rl.try_acquire_at(t0));
    }
    // 31st is denied at the same instant.
    assert!(!rl.try_acquire_at(t0));
    // 30/min = 1 token / 2s; after 2s exactly one token is back.
    assert!(rl.try_acquire_at(t0.plus(Duration::from_secs(2))));
    assert!(!rl.try_acquire_at(t0.plus(Duration::from_secs(2))));
}

#[test]
fn limiter_per_window_and_wait_time() {
    let t0 = Instant::from_nanos(1_000_000_000_000);
    let mut rl = RateLimiter::per_window_at(2, Duration::from_secs(30), t0);
    assert!(rl.try_acquire_at(t0));
    assert!(rl.try_acquire_at(t0));
    assert!(!rl.try_acquire_at(t0));
    // One token per 15 s: the wait is the full 15 s right after draining.
    assert_eq!(rl.time_until_token(), Duration::from_secs(15));
    assert!(!rl.try_acquire_at(t0.plus(Duration::from_secs(14))));
    assert_eq!(rl.time_until_token(), Duration::from_secs(1));
    assert!(rl.try_acquire_at(t0.plus(Duration::from_secs(15))));
}

#[test]
fn limiter_zero_rate_means_one() {
    let t0 = Instant::from_nanos(0);
    let mut rl = RateLimiter::per_window_at(0, Duration::from_secs(60), t0);
    assert!(rl.try_acquire_at(t0));
    assert!(!rl.try_acquire_at(t0));
}

#[test]
fn proactive_respects_min_interval() {
    let t0 = Instant::now();
    assert!(!proactive_due(t0.plus(Duration::from_secs(30)), t0, Duration::from_secs(120)));
    assert!(proactive_due(t0.plus(Duration::from_secs(120)), t0, Duration::from_secs(120)));
}

#[test]
fn lifecycle_needs_confirmed_polls() {
    let t0 = Instant::from_nanos(1_000_000_000_000);
    let mut l = Lifecycle::new(2);
    assert_eq!(l.on_poll(true, t0), Transition::Unchanged);
    assert!(!l.is_online());
    // A poll agreeing with the believed state clears the count.
    assert_eq!(l.on_poll(false, t0), Transition::Unchanged);
    assert_eq!(l.on_poll(true, t0), Transition::Unchanged);
    assert_eq!(l.on_poll(true, t0), Transition::WentOnline);
    assert!(l.is_online());
    let t1 = t0.plus(Duration::from_secs(3725));
    assert_eq!(l.on_poll(false, t1), Transition::Unchanged);
    assert_eq!(l.on_poll(false, t1), Transition::WentOffline { duration_secs: 3725 });
    assert!(!l.is_online());
}

#[test]
fn lifecycle_zero_confirm_acts_on_first_poll() {
    let t0 = Instant::from_nanos(0);
    let mut l = Lifecycle::new(0);
    assert_eq!(l.on_poll(true, t0), Transition::WentOnline);
    assert_eq!(l.on_poll(true, t0), Transition::Unchanged);
}

#[test]
fn token_reused_until_a_minute_before_expiry() {
    let t0 = Instant::from_nanos(1_000_000_000_000);
    let mut c = TokenCache::new();
    assert_eq!(c.valid_token(t0), None);
    c.store("abc".to_string(), 3600, t0);
    assert_eq!(c.valid_token(t0.plus(Duration::from_secs(3539))).as_deref(), Some("abc"));
    assert_eq!(c.valid_token(t0.plus(Duration::from_secs(3540))), None);
    c.clear();
    assert_eq!(c.valid_token(t0), None);
    // A token granted for less than the margin is never reused.
    c.store("short".to_string(), 30, t0);
    assert_eq!(c.valid_token(t0), None);
}

#[test]
fn clock_arithmetic() {
    let t0 = Instant::from_nanos(10);
    let t1 = t0.plus(Duration::from_nanos(5));
    assert_eq!(t1.as_nanos(), 15);
    assert_eq!(t1.duration_since(t0), Duration::from_nanos(5));
    assert_eq!(t0.duration_since(t1), Duration::zero());
    assert_eq!(Duration::from_secs(90).as_secs(), 90);
    assert_eq!(Duration::from_millis(1500).as_secs(), 1);
    assert_eq!(Duration::from_secs(2).min(Duration::from_secs(1)), Duration::from_secs(1));
    assert!(Duration::from_secs(1).le(&Duration::from_secs(1)));
    // The wall clock reads a time after 2020.
    assert!(Instant::now().as_nanos() > 1_577_836_800_000_000_000);
}

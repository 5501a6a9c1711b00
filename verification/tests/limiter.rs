use trace_sampler::{Limiter, Rate, TimePoint};

const SEC: u64 = 1_000_000_000;

fn at(nanos: u64) -> TimePoint {
    TimePoint::new(0, nanos)
}

fn rate_f64(r: Rate) -> f64 {
    r.ppb as f64 / SEC as f64
}

#[test]
fn limits_requested() {
    let mut limiter = Limiter::new(at(0), 1, Rate::one(), 1);
    let first = limiter.allow(at(0), 1);
    let second = limiter.allow(at(0), 1);
    assert!(first.allowed);
    assert!(!second.allowed);
}

#[test]
fn refreshes_over_time() {
    let mut limiter = Limiter::new(at(0), 1, Rate::one(), 1);
    let first = limiter.allow(at(0), 1);
    let second = limiter.allow(at(0), 1);
    let third = limiter.allow(at(SEC), 1);
    assert!(first.allowed);
    assert!(!second.allowed);
    assert!(third.allowed);
}

#[test]
fn handles_long_intervals() {
    let mut limiter = Limiter::new(at(0), 1, Rate::one(), 1);
    let first = limiter.allow(at(0), 1);
    let second = limiter.allow(at(2 * SEC), 1);
    let third = limiter.allow(at(2 * SEC), 1);
    assert!(first.allowed);
    assert!(second.allowed);
    assert!(!third.allowed);
}

#[test]
fn calculates_effective_rate() {
    let mut limiter = Limiter::new(at(0), 1, Rate::one(), 1);
    let first = limiter.allow(at(0), 1);
    assert!(first.allowed);
    assert_eq!(rate_f64(first.effective_rate), 1.0);
    let second = limiter.allow(at(0), 1);
    assert!(!second.allowed);
    assert_eq!(rate_f64(second.effective_rate), 0.95);
    let third = limiter.allow(at(10 * SEC), 1);
    assert!(third.allowed);
    assert_eq!(rate_f64(third.effective_rate), 1.0);
}

#[test]
fn updates_tokens_at_sub_second_intervals() {
    let mut limiter = Limiter::new(at(0), 5, Rate::from_ppb(5 * SEC), 1);
    for _ in 0..5 {
        let result = limiter.allow(at(0), 1);
        assert!(result.allowed);
    }
    let all_consumed = limiter.allow(at(0), 1);
    assert!(!all_consumed.allowed);

    let t = 200_000_000;
    let first = limiter.allow(at(t), 1);
    assert!(first.allowed);
    let second = limiter.allow(at(t), 1);
    assert!(!second.allowed);

    let t = t + SEC;
    for _ in 0..5 {
        let result = limiter.allow(at(t), 1);
        assert!(result.allowed);
    }
    let all_consumed = limiter.allow(at(t), 1);
    assert!(!all_consumed.allowed);
}

#[test]
fn refill_is_capped_at_max_tokens() {
    // A gap of many refresh intervals sets the bucket back to exactly its
    // capacity, never above: after a long pause only `max_tokens` calls pass.
    let mut limiter = Limiter::new(at(0), 2, Rate::one(), 1);
    assert!(limiter.allow(at(0), 1).allowed);
    assert!(limiter.allow(at(0), 1).allowed);
    assert!(!limiter.allow(at(0), 1).allowed);
    let t = 100 * SEC;
    assert!(limiter.allow(at(t), 1).allowed);
    assert!(limiter.allow(at(t), 1).allowed);
    assert!(!limiter.allow(at(t), 1).allowed);
}

#[test]
fn effective_rate_recovers_after_idle_window() {
    // One allow and one deny leave the in-progress window at one half; after
    // nine idle seconds the history is fully open again and the next allowed
    // call reports exactly one.
    let mut limiter = Limiter::new(at(0), 1, Rate::one(), 1);
    assert!(limiter.allow(at(0), 1).allowed);
    let denied = limiter.allow(at(0), 1);
    assert!(!denied.allowed);
    assert_eq!(rate_f64(denied.effective_rate), 0.95);
    let third = limiter.allow(at(9 * SEC), 1);
    assert!(third.allowed);
    assert_eq!(rate_f64(third.effective_rate), 1.0);
}

#[test]
fn denied_only_window_drags_effective_rate_down() {
    // A window with one request and no grant closes at ratio zero; the next
    // call sees (8 * 1.0 + 0.0 + 1.0) / 10.
    let mut limiter = Limiter::new(at(0), 1, Rate::one(), 1);
    assert!(limiter.allow(at(0), 1).allowed);
    assert!(!limiter.allow(at(0), 1).allowed);
    // Window closes with 1 of 2 requests granted: slot becomes 0.5.
    let third = limiter.allow(at(SEC), 1);
    assert!(third.allowed);
    assert_eq!(rate_f64(third.effective_rate), (8.0 + 0.5 + 1.0) / 10.0);
}

use trace_sampler::{
    Config, ConfigValue, PrioritySampler, Rate, RuleResult, RulesSampler, SamplingPriority,
    TimePoint,
};

const SEC: u64 = 1_000_000_000;

fn at(nanos: u64) -> TimePoint {
    TimePoint::new(0, nanos)
}

fn rate_f64(r: Rate) -> f64 {
    r.ppb as f64 / SEC as f64
}

type Rule = fn(&str, &str) -> RuleResult;

fn rule_drop_service_a(service: &str, _name: &str) -> RuleResult {
    if service == "a" {
        RuleResult { matched: true, rate: Rate::zero() }
    } else {
        RuleResult::new()
    }
}

fn rule_keep_service_b(service: &str, _name: &str) -> RuleResult {
    if service == "b" {
        RuleResult { matched: true, rate: Rate::one() }
    } else {
        RuleResult::new()
    }
}

fn rule_quarter(_service: &str, _name: &str) -> RuleResult {
    RuleResult { matched: true, rate: Rate::from_ppb(250_000_000) }
}

fn rule_three_quarters(_service: &str, _name: &str) -> RuleResult {
    RuleResult { matched: true, rate: Rate::from_ppb(750_000_000) }
}

#[test]
fn zero_rate_rule_drops_without_consuming_budget() {
    let mut sampler: RulesSampler<Rule> = RulesSampler::new(at(0), 1, Rate::one(), 1);
    sampler.add_rule(rule_drop_service_a);
    sampler.add_rule(rule_keep_service_b);

    // Every trace matched by the zero-rate rule is dropped and the limiter
    // is never consulted — including trace id zero, whose hash sits exactly
    // on the threshold.
    for trace_id in 0..100u64 {
        let result = sampler.sample("env", "a", "op", trace_id, at(0));
        assert_eq!(result.sampling_priority, Some(SamplingPriority::SamplerDrop));
        assert_eq!(result.rule_rate, Some(Rate::zero()));
        assert_eq!(result.limiter_rate, None);
        assert_eq!(result.priority_rate, None);
    }

    // The limiter's budget and counters are untouched by those drops: the
    // first call that does reach it is granted with a full effective rate,
    // and the second is denied at exactly (9 + 1/2) / 10.
    let first = sampler.sample("env", "b", "op", 1, at(0));
    assert_eq!(first.sampling_priority, Some(SamplingPriority::SamplerKeep));
    assert_eq!(first.rule_rate, Some(Rate::one()));
    assert_eq!(rate_f64(first.limiter_rate.unwrap()), 1.0);
    let second = sampler.sample("env", "b", "op", 1, at(0));
    assert_eq!(second.sampling_priority, Some(SamplingPriority::SamplerDrop));
    assert_eq!(rate_f64(second.limiter_rate.unwrap()), 0.95);
}

#[test]
fn unmatched_equals_standalone_priority_sampler() {
    let mut sampler: RulesSampler<Rule> = RulesSampler::new(at(0), 1, Rate::one(), 1);
    sampler.add_rule(rule_drop_service_a);
    let standalone = PrioritySampler::new();
    for trace_id in [0u64, 1, 17, 12345678901234567, u64::MAX] {
        let through_rules = sampler.sample("env", "c", "op", trace_id, at(0));
        let direct = standalone.sample("env", "c", trace_id);
        assert_eq!(through_rules, direct);
    }
}

#[test]
fn earliest_registered_matching_rule_wins() {
    let mut sampler: RulesSampler<Rule> = RulesSampler::new(at(0), 1, Rate::one(), 1);
    sampler.add_rule(rule_drop_service_a);
    sampler.add_rule(rule_quarter);
    sampler.add_rule(rule_three_quarters);

    // Both unconditional rules match service "c"; the earliest registered
    // one supplies the rate.
    let matched = sampler.match_rule("c", "op");
    assert!(matched.matched);
    assert_eq!(matched.rate, Rate::from_ppb(250_000_000));

    // The rule ahead of them still takes precedence where it matches.
    let matched_a = sampler.match_rule("a", "op");
    assert!(matched_a.matched);
    assert_eq!(matched_a.rate, Rate::zero());

    // The winning rule's rate is also the one the decision reports.
    let result = sampler.sample("env", "c", "op", 3, at(0));
    assert_eq!(result.rule_rate, Some(Rate::from_ppb(250_000_000)));
}

#[test]
fn match_rule_without_match_reports_unmatched() {
    let mut sampler: RulesSampler<Rule> = RulesSampler::new(at(0), 1, Rate::one(), 1);
    sampler.add_rule(rule_drop_service_a);
    let unmatched = sampler.match_rule("c", "op");
    assert!(!unmatched.matched);
}

#[test]
fn rule_hash_test_drops_high_hashes_without_limiter() {
    let mut sampler: RulesSampler<Rule> = RulesSampler::new(at(0), 1, Rate::one(), 1);
    sampler.add_rule(rule_quarter);
    // trace id 7 hashes to 7 * 1111111111111111111, well above a quarter of
    // the id space, so the rule rejects it before the limiter is consulted.
    let result = sampler.sample("env", "c", "op", 7, at(0));
    assert_eq!(result.sampling_priority, Some(SamplingPriority::SamplerDrop));
    assert_eq!(result.rule_rate, Some(Rate::from_ppb(250_000_000)));
    assert_eq!(result.limiter_rate, None);
    // trace id 3 hashes below the threshold and passes to the limiter.
    let kept = sampler.sample("env", "c", "op", 3, at(0));
    assert_eq!(kept.sampling_priority, Some(SamplingPriority::SamplerKeep));
    assert!(kept.limiter_rate.is_some());
}

#[test]
fn full_rate_rule_reaches_limiter_for_large_ids() {
    // The rule's hash test works on the truncated 64-bit hash, like the
    // priority sampler's: under a rate of one, traces with large ids pass it
    // and the limiter decides.
    let mut sampler: RulesSampler<Rule> = RulesSampler::new(at(0), 5, Rate::one(), 1);
    sampler.add_rule(rule_keep_service_b);
    for trace_id in [17u64, 1_000_000, u64::MAX] {
        let result = sampler.sample("env", "b", "op", trace_id, at(0));
        assert_eq!(result.sampling_priority, Some(SamplingPriority::SamplerKeep));
        assert!(result.limiter_rate.is_some());
    }
}

#[test]
fn limiter_refreshes_through_rules_sampler() {
    let mut sampler: RulesSampler<Rule> = RulesSampler::new(at(0), 1, Rate::one(), 1);
    sampler.add_rule(rule_keep_service_b);
    let first = sampler.sample("env", "b", "op", 1, at(0));
    let second = sampler.sample("env", "b", "op", 1, at(0));
    let third = sampler.sample("env", "b", "op", 1, at(SEC));
    assert_eq!(first.sampling_priority, Some(SamplingPriority::SamplerKeep));
    assert_eq!(second.sampling_priority, Some(SamplingPriority::SamplerDrop));
    assert_eq!(third.sampling_priority, Some(SamplingPriority::SamplerKeep));
}

#[test]
fn update_priority_sampler_reaches_decisions() {
    let mut sampler: RulesSampler<Rule> = RulesSampler::new(at(0), 1, Rate::one(), 1);
    sampler.add_rule(rule_drop_service_a);
    let config = Config::Object(vec![(
        "service:web,env:prod".to_string(),
        ConfigValue::Number(Rate::zero()),
    )]);
    sampler.update_priority_sampler(&config).unwrap();
    // No rule matches service "web", so the freshly configured zero rate
    // applies.
    let result = sampler.sample("prod", "web", "op", 1, at(0));
    assert_eq!(result.sampling_priority, Some(SamplingPriority::SamplerDrop));
    assert_eq!(result.priority_rate, Some(Rate::zero()));
}

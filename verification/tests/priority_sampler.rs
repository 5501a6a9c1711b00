use serde_json::Value;
use trace_sampler::{Config, ConfigError, ConfigValue, PrioritySampler, Rate, SamplingPriority};

const CONFIG_JSON: &str = r#"
{
    "service:nginx,env:": 0.8,
    "service:nginx,env:prod": 0.2
}"#;

/// A JSON document as the engine's configuration type: numbers become
/// fixed-point rates, anything else keeps its shape so the sampler can
/// reject it.
fn config_from_json(value: &Value) -> Config {
    match value {
        Value::Object(map) => Config::Object(
            map.iter()
                .map(|(key, v)| {
                    let cv = match v {
                        Value::Number(n) => match n.as_f64() {
                            Some(f) => ConfigValue::Number(Rate::from_ppb(
                                (f * 1_000_000_000.0).round() as u64,
                            )),
                            None => ConfigValue::Other,
                        },
                        _ => ConfigValue::Other,
                    };
                    (key.clone(), cv)
                })
                .collect(),
        ),
        _ => Config::Other,
    }
}

/// Deterministic 64-bit generator for the statistical tests.
struct SplitMix64 {
    state: u64,
}

impl SplitMix64 {
    fn next_u64(&mut self) -> u64 {
        self.state = self.state.wrapping_add(0x9e3779b97f4a7c15);
        let mut z = self.state;
        z = (z ^ (z >> 30)).wrapping_mul(0xbf58476d1ce4e5b9);
        z = (z ^ (z >> 27)).wrapping_mul(0x94d049bb133111eb);
        z ^ (z >> 31)
    }
}

#[test]
fn unconfigured() {
    let sampler = PrioritySampler::new();
    let result = sampler.sample("", "", 0);
    assert_eq!(result.priority_rate, Some(Rate::one()));
    assert_eq!(result.sampling_priority, Some(SamplingPriority::SamplerKeep));
    let result = sampler.sample("env", "service", 1);
    assert_eq!(result.priority_rate, Some(Rate::one()));
    assert_eq!(result.sampling_priority, Some(SamplingPriority::SamplerKeep));
}

#[test]
fn spans_dont_match() {
    let config: Value = serde_json::from_str(CONFIG_JSON).unwrap();
    let mut sampler = PrioritySampler::new();
    sampler.configure(&config_from_json(&config)).unwrap();
    let result = sampler.sample("different env", "different service", 1);
    assert_eq!(result.priority_rate, Some(Rate::one()));
    assert_eq!(result.sampling_priority, Some(SamplingPriority::SamplerKeep));
}

fn sampled_test(environment: &str, service: &str) -> f32 {
    let mut rng = SplitMix64 { state: 0 };
    let config: Value = serde_json::from_str(CONFIG_JSON).unwrap();
    let mut sampler = PrioritySampler::new();
    sampler.configure(&config_from_json(&config)).unwrap();

    let mut count_sampled = 0;
    let total = 100000;
    for _ in 0..total {
        let result = sampler.sample(environment, service, rng.next_u64());
        assert!(
            result.sampling_priority == Some(SamplingPriority::SamplerKeep)
                || result.sampling_priority == Some(SamplingPriority::SamplerDrop)
        );
        count_sampled += if result.sampling_priority == Some(SamplingPriority::SamplerKeep) {
            1
        } else {
            0
        };
    }
    count_sampled as f32 / total as f32
}

#[test]
fn spans_can_be_sampled_config_1() {
    // service:nginx,env: => 0.8
    let sample_rate = sampled_test("", "nginx");
    assert!(sample_rate < 0.85 && sample_rate > 0.75);
}

#[test]
fn spans_can_be_sampled_config_2() {
    // service:nginx,env:prod => 0.2
    let sample_rate = sampled_test("prod", "nginx");
    assert!(sample_rate < 0.25 && sample_rate > 0.15);
}

#[test]
fn sample_is_deterministic() {
    let config: Value = serde_json::from_str(CONFIG_JSON).unwrap();
    let mut first = PrioritySampler::new();
    first.configure(&config_from_json(&config)).unwrap();
    let mut second = PrioritySampler::new();
    second.configure(&config_from_json(&config)).unwrap();
    let mut rng = SplitMix64 { state: 7 };
    for _ in 0..1000 {
        let trace_id = rng.next_u64();
        let a = first.sample("prod", "nginx", trace_id);
        let b = first.sample("prod", "nginx", trace_id);
        let c = second.sample("prod", "nginx", trace_id);
        assert_eq!(a, b);
        assert_eq!(a, c);
    }
}

#[test]
fn configure_rejects_non_object() {
    let mut sampler = PrioritySampler::new();
    let zero = Config::Object(vec![(
        "service:nginx,env:".to_string(),
        ConfigValue::Number(Rate::zero()),
    )]);
    sampler.configure(&zero).unwrap();
    let dropped = sampler.sample("", "nginx", 1);
    assert_eq!(dropped.sampling_priority, Some(SamplingPriority::SamplerDrop));

    let bad: Value = serde_json::from_str("[1, 2, 3]").unwrap();
    let result = sampler.configure(&config_from_json(&bad));
    assert_eq!(result, Err(ConfigError::ExpectedObject));
    // The prior table is retained.
    let still_dropped = sampler.sample("", "nginx", 1);
    assert_eq!(still_dropped.sampling_priority, Some(SamplingPriority::SamplerDrop));
}

#[test]
fn configure_rejects_non_numeric_value() {
    let mut sampler = PrioritySampler::new();
    let zero = Config::Object(vec![(
        "service:nginx,env:".to_string(),
        ConfigValue::Number(Rate::zero()),
    )]);
    sampler.configure(&zero).unwrap();

    let bad: Value = serde_json::from_str(r#"{"service:web,env:": "high"}"#).unwrap();
    let result = sampler.configure(&config_from_json(&bad));
    assert_eq!(result, Err(ConfigError::ExpectedNumber));
    // The prior table is retained: nginx still drops, web is unconfigured.
    assert_eq!(
        sampler.sample("", "nginx", 1).sampling_priority,
        Some(SamplingPriority::SamplerDrop)
    );
    assert_eq!(
        sampler.sample("", "web", 1).sampling_priority,
        Some(SamplingPriority::SamplerKeep)
    );
}

#[test]
fn default_rate_key_sets_default() {
    let mut sampler = PrioritySampler::new();
    let config = Config::Object(vec![(
        "service:,env:".to_string(),
        ConfigValue::Number(Rate::zero()),
    )]);
    sampler.configure(&config).unwrap();
    // Every unmatched pair now falls back to a default of zero.
    let result = sampler.sample("anywhere", "anything", 12345);
    assert_eq!(result.priority_rate, Some(Rate::zero()));
    assert_eq!(result.sampling_priority, Some(SamplingPriority::SamplerDrop));
}

#[test]
fn configure_replaces_table_wholesale() {
    let mut sampler = PrioritySampler::new();
    let first = Config::Object(vec![(
        "service:nginx,env:".to_string(),
        ConfigValue::Number(Rate::zero()),
    )]);
    sampler.configure(&first).unwrap();
    assert_eq!(
        sampler.sample("", "nginx", 1).sampling_priority,
        Some(SamplingPriority::SamplerDrop)
    );
    // A new table without the nginx key replaces — never merges with — the
    // old one, so nginx falls back to the default again.
    let second = Config::Object(vec![(
        "service:web,env:".to_string(),
        ConfigValue::Number(Rate::zero()),
    )]);
    sampler.configure(&second).unwrap();
    assert_eq!(
        sampler.sample("", "nginx", 1).sampling_priority,
        Some(SamplingPriority::SamplerKeep)
    );
}

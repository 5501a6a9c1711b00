//! Deterministic hash-based sampler keyed by per-(service, environment)
//! rates.
//!
//! The sampler holds a table of sampling rates keyed by the exact string
//! `"service:<service>,env:<environment>"` plus one default rate, initially
//! one.  A trace is kept exactly when its hashed id falls below the threshold
//! of the applicable rate, so every process that shares a table makes the
//! same decision for the same trace.

use crate::assoc::{assoc_find, assoc_has_unique_keys, assoc_lookup, assoc_put};
use crate::sampling_priority::SamplingPriority;
use crate::tools::{hashed_id, max_id_from_sample_rate, spec_hashed_id, spec_max_hash, Rate,
    RATE_SCALE};
use vstd::prelude::*;
use vstd::string::StringExecFns;

verus! {

/// One sampling decision together with the rates that produced it.  A rate
/// field is `None` when the component it reports was never consulted.
#[derive(Clone, Copy, Debug, PartialEq, Eq)]
pub struct SampleResult {
    /// Rate of the matched rule, if a rule matched.
    pub rule_rate: Option<Rate>,
    /// Effective rate of the rate limiter, if it was consulted.
    pub limiter_rate: Option<Rate>,
    /// Rate applied by the priority sampler, if it was consulted.
    pub priority_rate: Option<Rate>,
    /// The decision; `None` when no decision was taken.
    pub sampling_priority: Option<SamplingPriority>,
}

impl SampleResult {
    /// A result with nothing consulted and nothing decided.
    pub fn new() -> (r: SampleResult)
        ensures
            r == (SampleResult {
                rule_rate: None,
                limiter_rate: None,
                priority_rate: None,
                sampling_priority: None,
            }),
    {
        SampleResult {
            rule_rate: None,
            limiter_rate: None,
            priority_rate: None,
            sampling_priority: None,
        }
    }
}

/// A sampling rate together with its precomputed hash threshold.
#[derive(Clone, Copy, Debug, PartialEq, Eq, Structural)]
pub struct SamplingRate {
    /// The keep probability in fixed point.
    pub rate: Rate,
    /// Trace id hashes strictly below this threshold are kept.
    pub max_hash: u64,
}

/// A configuration value handed to [`PrioritySampler::configure`]: the number
/// it holds, or the mark that it holds something else.
#[derive(Clone, Copy, Debug, PartialEq, Eq)]
pub enum ConfigValue {
    /// A numeric rate.
    Number(Rate),
    /// Anything that is not a number.
    Other,
}

/// A configuration document: a mapping from rate keys to values, or the mark
/// that the document is not a mapping at all.
#[derive(Debug)]
pub enum Config {
    /// A mapping from rate keys to values.
    Object(Vec<(String, ConfigValue)>),
    /// Anything that is not a mapping.
    Other,
}

/// Why a configuration was rejected; the sampler's state is then unchanged.
#[derive(Clone, Copy, Debug, PartialEq, Eq, Structural)]
pub enum ConfigError {
    /// The document is not a mapping.
    ExpectedObject,
    /// Some value in the mapping is not a number.
    ExpectedNumber,
}

/// The key under which a configuration sets the default rate instead of a
/// table entry.
pub open spec fn spec_default_rate_key() -> Seq<char> {
    "service:,env:"@
}

/// The table key looked up for a service and an environment.
pub open spec fn spec_sample_key(service: Seq<char>, environment: Seq<char>) -> Seq<char> {
    "service:"@ + service + ",env:"@ + environment
}

/// The table entry a numeric configuration value turns into.  A non-numeric
/// value never reaches a table: a document holding one is rejected whole, so
/// the entry written for that arm is never looked up.
pub open spec fn spec_rate_entry(value: ConfigValue) -> SamplingRate {
    match value {
        ConfigValue::Number(r) => SamplingRate {
            rate: r,
            max_hash: spec_max_hash(r.ppb as int) as u64,
        },
        ConfigValue::Other => SamplingRate { rate: Rate { ppb: 0 }, max_hash: 0 },
    }
}

/// Every value of a configuration document is a number.
pub open spec fn spec_config_valid(config: Config) -> bool {
    match config {
        Config::Object(entries) => forall|i: int|
            0 <= i < entries@.len() ==> (#[trigger] entries@[i].1) is Number,
        Config::Other => false,
    }
}

/// The error a rejected configuration reports: a document that is not a
/// mapping is rejected as such, otherwise some value is not a number.
pub open spec fn spec_config_error(config: Config) -> ConfigError {
    match config {
        Config::Object(_) => ConfigError::ExpectedNumber,
        Config::Other => ConfigError::ExpectedObject,
    }
}

/// The rate a valid configuration document stores under `key`: the last
/// entry for `key` wins, and the default key stores no table entry.
pub open spec fn spec_config_rate(entries: Seq<(String, ConfigValue)>, key: Seq<char>) -> Option<
    SamplingRate,
>
    decreases entries.len(),
{
    if key == spec_default_rate_key() {
        None
    } else if entries.len() == 0 {
        None
    } else if entries.last().0@ == key {
        Some(spec_rate_entry(entries.last().1))
    } else {
        spec_config_rate(entries.drop_last(), key)
    }
}

/// The default rate after a valid configuration document: the last entry
/// under the default key wins, and without one the default stays `fallback`.
pub open spec fn spec_config_default(
    entries: Seq<(String, ConfigValue)>,
    fallback: SamplingRate,
) -> SamplingRate
    decreases entries.len(),
{
    if entries.len() == 0 {
        fallback
    } else if entries.last().0@ == spec_default_rate_key() {
        spec_rate_entry(entries.last().1)
    } else {
        spec_config_default(entries.drop_last(), fallback)
    }
}

/// The decision for a trace id under a hash threshold: kept exactly when the
/// truncated hashed id falls below the threshold.
pub open spec fn spec_priority_decision(max_hash: u64, trace_id: u64) -> SamplingPriority {
    if spec_hashed_id(trace_id as int) >= max_hash {
        SamplingPriority::SamplerDrop
    } else {
        SamplingPriority::SamplerKeep
    }
}

/// The full result of a priority-sampler decision under `applied`.
pub open spec fn spec_sample_result(applied: SamplingRate, trace_id: u64) -> SampleResult {
    SampleResult {
        rule_rate: None,
        limiter_rate: None,
        priority_rate: Some(applied.rate),
        sampling_priority: Some(spec_priority_decision(applied.max_hash, trace_id)),
    }
}

/// Hash-based sampler over a configurable rate table; see the module
/// documentation.
pub struct PrioritySampler {
    agent_sampling_rates: Vec<(String, SamplingRate)>,
    default_sampling_rate: SamplingRate,
}

impl PrioritySampler {
    /// The configured table, as key-rate pairs with pairwise-distinct keys.
    pub closed spec fn spec_rates(&self) -> Seq<(String, SamplingRate)> {
        self.agent_sampling_rates@
    }

    /// The rate applied when no table entry matches.
    pub closed spec fn spec_default(&self) -> SamplingRate {
        self.default_sampling_rate
    }

    /// Table keys are pairwise distinct.
    pub open spec fn wf(&self) -> bool {
        assoc_has_unique_keys(self.spec_rates())
    }

    /// The rate applied for a service and an environment: the table entry
    /// under their key, or the default rate.
    pub open spec fn spec_applied_rate(&self, environment: Seq<char>, service: Seq<char>)
        -> SamplingRate {
        match assoc_lookup(self.spec_rates(), spec_sample_key(service, environment)) {
            Some(r) => r,
            None => self.spec_default(),
        }
    }

    /// A sampler with an empty table and a default rate of one: everything
    /// is kept until a configuration arrives.
    pub fn new() -> (s: PrioritySampler)
        ensures
            s.wf(),
            s.spec_rates() == Seq::<(String, SamplingRate)>::empty(),
            s.spec_default() == (SamplingRate { rate: Rate { ppb: RATE_SCALE }, max_hash: u64::MAX
            }),
    {
        let s = PrioritySampler {
            agent_sampling_rates: Vec::new(),
            default_sampling_rate: SamplingRate { rate: Rate { ppb: RATE_SCALE }, max_hash: u64::MAX
            },
        };
        proof {
            assert(s.spec_rates() =~= Seq::<(String, SamplingRate)>::empty());
        }
        s
    }

    /// Decide for one trace: look the pair up in the table, fall back to the
    /// default rate, and keep the trace exactly when its hashed id falls
    /// below the applied threshold.  Only `priority_rate` and the decision
    /// are set in the result.
    pub fn sample(&self, environment: &str, service: &str, trace_id: u64) -> (r: SampleResult)
        ensures
            r == spec_sample_result(self.spec_applied_rate(environment@, service@), trace_id),
    {
        let mut key = "service:".to_owned();
        key.append(service);
        key.append(",env:");
        key.append(environment);
        proof {
            assert(key@ =~= spec_sample_key(service@, environment@));
        }
        let applied = match assoc_find(&self.agent_sampling_rates, &key) {
            Some(i) => self.agent_sampling_rates[i].1,
            None => self.default_sampling_rate,
        };
        let hashed = hashed_id(trace_id);
        let sampling_priority = if hashed >= applied.max_hash {
            SamplingPriority::SamplerDrop
        } else {
            SamplingPriority::SamplerKeep
        };
        SampleResult {
            rule_rate: None,
            limiter_rate: None,
            priority_rate: Some(applied.rate),
            sampling_priority: Some(sampling_priority),
        }
    }

    /// Replace the rate table from a configuration document, all or nothing:
    /// a document that is not a mapping, or holds a non-numeric value, is
    /// rejected and the sampler keeps its prior table and default.  On
    /// success the table is replaced wholesale — never merged — the last
    /// entry for a key wins, and an entry under the default key sets the
    /// default rate instead.
    pub fn configure(&mut self, config: &Config) -> (result: Result<(), ConfigError>)
        requires
            old(self).wf(),
        ensures
            final (self).wf(),
            result is Ok <==> spec_config_valid(*config),
            !spec_config_valid(*config) ==> {
                &&& result == Result::<(), ConfigError>::Err(spec_config_error(*config))
                &&& final (self).spec_rates() == old(self).spec_rates()
                &&& final (self).spec_default() == old(self).spec_default()
            },
            spec_config_valid(*config) ==> {
                &&& forall|k: Seq<char>| #![auto]
                    assoc_lookup(final (self).spec_rates(), k) == spec_config_rate(
                        config->Object_0@,
                        k,
                    )
                &&& final (self).spec_default() == spec_config_default(
                    config->Object_0@,
                    old(self).spec_default(),
                )
            },
    {
        let entries = match config {
            Config::Object(entries) => entries,
            Config::Other => {
                return Err(ConfigError::ExpectedObject);
            },
        };
        let default_key = "service:,env:".to_owned();
        let mut rates: Vec<(String, SamplingRate)> = Vec::new();
        let mut new_default: Option<SamplingRate> = None;
        let mut i: usize = 0;
        proof {
            assert(entries@.take(0) =~= Seq::<(String, ConfigValue)>::empty());
        }
        while i < entries.len()
            invariant
                i <= entries@.len(),
                self == old(self),
                old(self).wf(),
                *config is Object,
                config->Object_0@ == entries@,
                default_key@ == spec_default_rate_key(),
                assoc_has_unique_keys(rates@),
                forall|j: int| 0 <= j < i ==> (#[trigger] entries@[j].1) is Number,
                forall|k: Seq<char>| #![auto]
                    assoc_lookup(rates@, k) == spec_config_rate(entries@.take(i as int), k),
                spec_config_default(entries@.take(i as int), old(self).spec_default()) == (
                match new_default {
                    Some(d) => d,
                    None => old(self).spec_default(),
                }),
            decreases entries@.len() - i,
        {
            let ghost prefix = entries@.take(i as int);
            let entry = &entries[i];
            let rate = match &entry.1 {
                ConfigValue::Number(r) => *r,
                ConfigValue::Other => {
                    return Err(ConfigError::ExpectedNumber);
                },
            };
            let new_rate = SamplingRate { rate, max_hash: max_id_from_sample_rate(rate) };
            proof {
                assert(entries@.take(i as int + 1).drop_last() =~= prefix);
                assert(entries@.take(i as int + 1).last() == entries@[i as int]);
                assert(new_rate == spec_rate_entry(entries@[i as int].1));
            }
            if entry.0 == default_key {
                new_default = Some(new_rate);
            } else {
                assoc_put(&mut rates, entry.0.clone(), new_rate);
            }
            proof {
                assert(spec_config_default(entries@.take(i as int + 1), old(self).spec_default())
                    == (match new_default {
                    Some(d) => d,
                    None => old(self).spec_default(),
                }));
            }
            i += 1;
        }
        proof {
            assert(entries@.take(entries@.len() as int) =~= entries@);
        }
        self.agent_sampling_rates = rates;
        if let Some(d) = new_default {
            self.default_sampling_rate = d;
        }
        Ok(())
    }
}

/// The priority sampler is deterministic: two samplers holding the same
/// table and default produce the same result for the same environment,
/// service and trace id, in any process.
pub proof fn lemma_sample_deterministic(
    a: PrioritySampler,
    b: PrioritySampler,
    environment: Seq<char>,
    service: Seq<char>,
    trace_id: u64,
)
    requires
        a.spec_rates() == b.spec_rates(),
        a.spec_default() == b.spec_default(),
    ensures
        spec_sample_result(a.spec_applied_rate(environment, service), trace_id)
            == spec_sample_result(b.spec_applied_rate(environment, service), trace_id),
{
}

} // verus!

//! Rule-driven orchestration of the rate limiter and the priority sampler.
//!
//! A rules sampler owns one rate limiter, one priority sampler and an
//! ordered list of caller-supplied rules.  For each trace it asks the rules
//! in registration order; the first match wins.  With no match the priority
//! sampler decides alone.  With a match, the trace is first held against the
//! rule's own rate by the deterministic hash test — a trace the rule rejects
//! never consumes limiter budget — and only then against the limiter.

use crate::limiter::{
    spec_effective_rate, spec_initial, spec_refresh_interval, spec_step, Limiter, LimiterModel,
};
use crate::priority_sampler::{
    spec_config_default, spec_config_error, spec_config_rate, spec_config_valid,
    spec_sample_result, Config, ConfigError, PrioritySampler, SampleResult, SamplingRate,
};
use crate::assoc::assoc_lookup;
use crate::sampling_priority::SamplingPriority;
use crate::time_point::TimePoint;
use crate::tools::{hashed_id, max_id_from_sample_rate, spec_hashed_id, spec_max_hash, Rate,
    RATE_SCALE};
use vstd::prelude::*;

verus! {

/// What a rule reports for one trace: whether it matched and, if it did, the
/// rate it applies.  The rate of an unmatched result carries no meaning.
#[derive(Clone, Copy, Debug, PartialEq, Eq, Structural)]
pub struct RuleResult {
    /// Whether the rule applies to the trace.
    pub matched: bool,
    /// The keep probability the rule prescribes, when it matched.
    pub rate: Rate,
}

impl RuleResult {
    /// The unmatched result.
    pub fn new() -> (r: RuleResult)
        ensures
            r == (RuleResult { matched: false, rate: Rate { ppb: 0 } }),
    {
        RuleResult { matched: false, rate: Rate { ppb: 0 } }
    }
}

/// Whether a matched rule of rate `rate` rejects the trace outright: the
/// truncated hashed id reaches the rate's threshold.  This is the same test
/// the priority sampler applies — a trace is kept exactly when its hash falls
/// below the threshold — so a rule of rate zero rejects every trace.
pub open spec fn spec_rule_drops(rate: Rate, trace_id: u64) -> bool {
    spec_hashed_id(trace_id as int) >= spec_max_hash(rate.ppb as int)
}

/// Sampler composing rules, a rate limiter and a priority sampler; see the
/// module documentation.
pub struct RulesSampler<F> where F: Fn(&str, &str) -> RuleResult {
    limiter: Limiter,
    sampling_rules: Vec<F>,
    priority_sampler: PrioritySampler,
}

impl<F> RulesSampler<F> where F: Fn(&str, &str) -> RuleResult {
    /// The limiter's mathematical state.
    pub closed spec fn spec_limiter(&self) -> LimiterModel {
        self.limiter@
    }

    /// The rules, in registration order.
    pub closed spec fn spec_rules(&self) -> Seq<F> {
        self.sampling_rules@
    }

    /// The owned priority sampler.
    pub closed spec fn spec_priority_sampler(&self) -> PrioritySampler {
        self.priority_sampler
    }

    /// Both owned components are well formed.
    pub open spec fn wf(&self) -> bool {
        &&& self.spec_limiter().wf()
        &&& self.spec_priority_sampler().wf()
    }

    /// The rule at `j` can report an unmatched result for this trace.  This
    /// is all a caller-supplied rule promises: what it actually returned is
    /// one of its possible results.
    pub open spec fn spec_rule_can_unmatch(&self, j: int, service: &str, name: &str) -> bool {
        exists|rr: RuleResult| call_ensures(self.spec_rules()[j], (service, name), rr) && !rr.matched
    }

    /// `mr` is a possible outcome of asking the rules in order: either some
    /// rule could return it as a match while every earlier rule could report
    /// no match, or every rule could report no match and `mr` is the
    /// unmatched result.
    pub open spec fn spec_match_outcome(&self, service: &str, name: &str, mr: RuleResult) -> bool {
        if mr.matched {
            exists|j: int|
                {
                    &&& 0 <= j < self.spec_rules().len()
                    &&& #[trigger] call_ensures(self.spec_rules()[j], (service, name), mr)
                    &&& forall|l: int| 0 <= l < j ==> self.spec_rule_can_unmatch(l, service, name)
                }
        } else {
            &&& mr == (RuleResult { matched: false, rate: Rate { ppb: 0 } })
            &&& forall|j: int|
                0 <= j < self.spec_rules().len() ==> self.spec_rule_can_unmatch(j, service, name)
        }
    }

    /// A sampler with the given limiter parameters, no rules and an
    /// unconfigured priority sampler.
    pub fn new(
        now: TimePoint,
        max_tokens: u64,
        refresh_rate: Rate,
        tokens_per_refresh: u64,
    ) -> (s: RulesSampler<F>)
        requires
            refresh_rate.ppb >= 1,
            1 <= spec_refresh_interval(refresh_rate.ppb as int, tokens_per_refresh as int),
            now.relative_nanos + spec_refresh_interval(
                refresh_rate.ppb as int,
                tokens_per_refresh as int,
            ) <= u64::MAX,
        ensures
            s.wf(),
            s.spec_limiter() == spec_initial(now, max_tokens, refresh_rate, tokens_per_refresh),
            s.spec_rules() == Seq::<F>::empty(),
            s.spec_priority_sampler().spec_rates() == Seq::<(String, SamplingRate)>::empty(),
            s.spec_priority_sampler().spec_default() == (SamplingRate {
                rate: Rate { ppb: RATE_SCALE },
                max_hash: u64::MAX,
            }),
    {
        let s = RulesSampler {
            limiter: Limiter::new(now, max_tokens, refresh_rate, tokens_per_refresh),
            sampling_rules: Vec::new(),
            priority_sampler: PrioritySampler::new(),
        };
        proof {
            assert(s.spec_rules() =~= Seq::<F>::empty());
        }
        s
    }

    /// Register one more rule; it is asked after every rule already
    /// registered.
    pub fn add_rule(&mut self, rule: F)
        ensures
            final (self).spec_rules() == old(self).spec_rules().push(rule),
            final (self).spec_limiter() == old(self).spec_limiter(),
            final (self).spec_priority_sampler() == old(self).spec_priority_sampler(),
    {
        self.sampling_rules.push(rule);
    }

    /// Ask the rules in registration order and return the first match, or
    /// the unmatched result when none matches.
    pub fn match_rule(&self, service: &str, name: &str) -> (r: RuleResult)
        requires
            forall|j: int|
                0 <= j < self.spec_rules().len() ==> #[trigger] call_requires(
                    self.spec_rules()[j],
                    (service, name),
                ),
        ensures
            self.spec_match_outcome(service, name, r),
    {
        let mut i: usize = 0;
        while i < self.sampling_rules.len()
            invariant
                i <= self.spec_rules().len(),
                forall|j: int|
                    0 <= j < self.spec_rules().len() ==> #[trigger] call_requires(
                        self.spec_rules()[j],
                        (service, name),
                    ),
                forall|l: int| 0 <= l < i ==> self.spec_rule_can_unmatch(l, service, name),
            decreases self.spec_rules().len() - i,
        {
            let rule = &self.sampling_rules[i];
            let result = rule(service, name);
            if result.matched {
                return result;
            }
            i += 1;
        }
        RuleResult::new()
    }

    /// Decide for one trace at clock reading `now`.
    ///
    /// With no matching rule the priority sampler decides alone and the
    /// limiter is untouched.  With a matching rule of rate `R`, a trace
    /// whose hashed id reaches `R`'s threshold is dropped without consulting
    /// the limiter; otherwise the limiter is asked for one token and the
    /// trace is kept exactly when it grants it.
    pub fn sample(
        &mut self,
        environment: &str,
        service: &str,
        name: &str,
        trace_id: u64,
        now: TimePoint,
    ) -> (r: SampleResult)
        requires
            old(self).wf(),
            forall|j: int|
                0 <= j < old(self).spec_rules().len() ==> #[trigger] call_requires(
                    old(self).spec_rules()[j],
                    (service, name),
                ),
            now.relative_nanos >= old(self).spec_limiter().current_period,
            old(self).spec_limiter().num_requested < u64::MAX,
            now.relative_nanos + old(self).spec_limiter().refresh_interval <= u64::MAX,
        ensures
            final (self).wf(),
            final (self).spec_rules() == old(self).spec_rules(),
            final (self).spec_priority_sampler() == old(self).spec_priority_sampler(),
            exists|mr: RuleResult|
                {
                    &&& #[trigger] old(self).spec_match_outcome(service, name, mr)
                    &&& if !mr.matched {
                        &&& r == spec_sample_result(
                            old(self).spec_priority_sampler().spec_applied_rate(
                                environment@,
                                service@,
                            ),
                            trace_id,
                        )
                        &&& final (self).spec_limiter() == old(self).spec_limiter()
                    } else if spec_rule_drops(mr.rate, trace_id) {
                        &&& r == (SampleResult {
                            rule_rate: Some(mr.rate),
                            limiter_rate: None,
                            priority_rate: None,
                            sampling_priority: Some(SamplingPriority::SamplerDrop),
                        })
                        &&& final (self).spec_limiter() == old(self).spec_limiter()
                    } else {
                        &&& final (self).spec_limiter() == spec_step(
                            old(self).spec_limiter(),
                            now.relative_nanos as int,
                            1,
                        ).0
                        &&& r.rule_rate == Some(mr.rate)
                        &&& r.priority_rate is None
                        &&& (r.limiter_rate matches Some(lr) && lr.ppb == spec_effective_rate(
                            final (self).spec_limiter(),
                        ))
                        &&& r.sampling_priority == Some(
                            if spec_step(old(self).spec_limiter(), now.relative_nanos as int, 1).1 {
                                SamplingPriority::SamplerKeep
                            } else {
                                SamplingPriority::SamplerDrop
                            },
                        )
                    }
                },
    {
        let rule_result = self.match_rule(service, name);
        if !rule_result.matched {
            let r = self.priority_sampler.sample(environment, service, trace_id);
            proof {
                assert(old(self).spec_match_outcome(service, name, rule_result));
            }
            return r;
        }
        let mut result = SampleResult::new();
        result.rule_rate = Some(rule_result.rate);
        let max_hash = max_id_from_sample_rate(rule_result.rate);
        let hashed = hashed_id(trace_id);
        if hashed >= max_hash {
            result.sampling_priority = Some(SamplingPriority::SamplerDrop);
            proof {
                assert(old(self).spec_match_outcome(service, name, rule_result));
            }
            return result;
        }
        let limit_result = self.limiter.allow(now, 1);
        result.limiter_rate = Some(limit_result.effective_rate);
        result.sampling_priority = Some(
            if limit_result.allowed {
                SamplingPriority::SamplerKeep
            } else {
                SamplingPriority::SamplerDrop
            },
        );
        proof {
            assert(old(self).spec_match_outcome(service, name, rule_result));
        }
        result
    }

    /// Forward a configuration document to the owned priority sampler: the
    /// sole post-construction path for remote rate updates.  The document is
    /// applied all or nothing, exactly as by
    /// [`PrioritySampler::configure`].
    pub fn update_priority_sampler(&mut self, config: &Config) -> (result: Result<(), ConfigError>)
        requires
            old(self).wf(),
        ensures
            final (self).wf(),
            final (self).spec_rules() == old(self).spec_rules(),
            final (self).spec_limiter() == old(self).spec_limiter(),
            result is Ok <==> spec_config_valid(*config),
            !spec_config_valid(*config) ==> {
                &&& result == Result::<(), ConfigError>::Err(spec_config_error(*config))
                &&& final (self).spec_priority_sampler().spec_rates() == old(
                    self,
                ).spec_priority_sampler().spec_rates()
                &&& final (self).spec_priority_sampler().spec_default() == old(
                    self,
                ).spec_priority_sampler().spec_default()
            },
            spec_config_valid(*config) ==> {
                &&& forall|k: Seq<char>| #![auto]
                    assoc_lookup(final (self).spec_priority_sampler().spec_rates(), k)
                        == spec_config_rate(config->Object_0@, k)
                &&& final (self).spec_priority_sampler().spec_default() == spec_config_default(
                    config->Object_0@,
                    old(self).spec_priority_sampler().spec_default(),
                )
            },
    {
        self.priority_sampler.configure(config)
    }
}

/// A matched rule of rate zero rejects every trace by the hash test alone,
/// so no such trace ever consumes limiter budget.
pub proof fn lemma_zero_rate_rule_drops(rate: Rate, trace_id: u64)
    requires
        rate.ppb == 0,
    ensures
        spec_rule_drops(rate, trace_id),
{
}

} // verus!

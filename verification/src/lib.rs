//! Sampling-decision engine for a distributed tracing client.
//!
//! Given a trace identifier, service name, environment and operation name,
//! the engine decides whether to keep or drop the trace.  The decision is
//! bounded by a refillable token-bucket rate limiter with a trailing
//! accept-ratio estimate, combined with a deterministic hash-based
//! probabilistic sampler keyed by per-(service, environment) rates and an
//! ordered list of caller-supplied rules.
//!
//! All rates are held in integer fixed point (parts per billion) and all
//! instants as integer nanosecond counts, so every decision is exact and
//! reproducible; the caller supplies the clock readings.
//!
//! Exclusive access to mutable state is expressed through `&mut` borrows
//! rather than an internal lock: a caller that shares a sampler across
//! threads wraps it in a lock of its own, and a poisoned lock then fails
//! only the call that hit it, leaving the state inside untouched.

pub mod assoc;
pub mod limiter;
pub mod priority_sampler;
pub mod rules_sampler;
pub mod sampling_priority;
pub mod span_context;
pub mod time_point;
pub mod tools;

pub use assoc::{assoc_has_unique_keys, assoc_lookup};
pub use limiter::{LimitResult, Limiter, LimiterModel, HISTORY_WINDOWS, NANOS_PER_SEC};
pub use priority_sampler::{
    Config, ConfigError, ConfigValue, PrioritySampler, SampleResult, SamplingRate,
};
pub use rules_sampler::{RuleResult, RulesSampler};
pub use sampling_priority::SamplingPriority;
pub use span_context::SpanContext;
pub use time_point::TimePoint;
pub use tools::{max_id_from_sample_rate, Rate, CONSTANT_RATE_HASH_FACTOR, RATE_SCALE};

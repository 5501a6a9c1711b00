//! Propagation context of one span.

use crate::assoc::{assoc_find, assoc_has_unique_keys, assoc_lookup, assoc_put};
use crate::sampling_priority::SamplingPriority;
use vstd::prelude::*;

verus! {

/// Identifiers and baggage carried by one span and propagated to its
/// descendants.  The engine itself only reads `trace_id`; the rest travels
/// alongside for the surrounding tracer.
pub struct SpanContext {
    nginx_opentracing_compatibility_hack: bool,
    propagated_sampling_priority: Option<SamplingPriority>,
    id: u64,
    trace_id: u64,
    origin: String,
    baggage: Vec<(String, String)>,
}

impl SpanContext {
    /// Baggage keys are pairwise distinct.
    pub closed spec fn wf(&self) -> bool {
        assoc_has_unique_keys(self.baggage@)
    }

    pub closed spec fn spec_id(&self) -> u64 {
        self.id
    }

    pub closed spec fn spec_trace_id(&self) -> u64 {
        self.trace_id
    }

    pub closed spec fn spec_origin(&self) -> Seq<char> {
        self.origin@
    }

    pub closed spec fn spec_propagated_sampling_priority(&self) -> Option<SamplingPriority> {
        self.propagated_sampling_priority
    }

    pub closed spec fn spec_nginx_opentracing_compatibility_hack(&self) -> bool {
        self.nginx_opentracing_compatibility_hack
    }

    pub closed spec fn spec_baggage(&self) -> Seq<(String, String)> {
        self.baggage@
    }

    /// The baggage value stored under `key`, if any.
    pub open spec fn spec_baggage_item(&self, key: Seq<char>) -> Option<Seq<char>> {
        match assoc_lookup(self.spec_baggage(), key) {
            Some(v) => Some(v@),
            None => None,
        }
    }

    /// A fresh context with no propagated priority and no compatibility flag.
    pub fn new(id: u64, trace_id: u64, origin: &str, baggage: Vec<(String, String)>) -> (c:
        SpanContext)
        requires
            assoc_has_unique_keys(baggage@),
        ensures
            c.wf(),
            c.spec_id() == id,
            c.spec_trace_id() == trace_id,
            c.spec_origin() == origin@,
            c.spec_propagated_sampling_priority() is None,
            !c.spec_nginx_opentracing_compatibility_hack(),
            c.spec_baggage() == baggage@,
    {
        SpanContext {
            nginx_opentracing_compatibility_hack: false,
            propagated_sampling_priority: None,
            id,
            trace_id,
            origin: origin.to_owned(),
            baggage,
        }
    }

    /// A fresh context flagged for a proxy integration whose extractor calls
    /// back into the tracer with an empty origin.
    pub fn new_nginx_opentracing_compatibility_hack(
        id: u64,
        trace_id: u64,
        baggage: Vec<(String, String)>,
    ) -> (c: SpanContext)
        requires
            assoc_has_unique_keys(baggage@),
        ensures
            c.wf(),
            c.spec_id() == id,
            c.spec_trace_id() == trace_id,
            c.spec_origin() == Seq::<char>::empty(),
            c.spec_propagated_sampling_priority() is None,
            c.spec_nginx_opentracing_compatibility_hack(),
            c.spec_baggage() == baggage@,
    {
        let c = SpanContext::new(id, trace_id, "", baggage);
        proof {
            reveal_strlit("");
            assert(c.spec_origin() =~= Seq::<char>::empty());
        }
        SpanContext { nginx_opentracing_compatibility_hack: true, ..c }
    }

    pub fn id(&self) -> (r: u64)
        ensures
            r == self.spec_id(),
    {
        self.id
    }

    pub fn trace_id(&self) -> (r: u64)
        ensures
            r == self.spec_trace_id(),
    {
        self.trace_id
    }

    pub fn propagated_sampling_priority(&self) -> (r: &Option<SamplingPriority>)
        ensures
            *r == self.spec_propagated_sampling_priority(),
    {
        &self.propagated_sampling_priority
    }

    pub fn origin(&self) -> (r: &str)
        ensures
            r@ == self.spec_origin(),
    {
        self.origin.as_str()
    }

    /// Store `value` under `key`, replacing any earlier value for `key` and
    /// leaving every other baggage item unchanged.
    pub fn set_baggage_item(&mut self, key: &str, value: &str)
        requires
            old(self).wf(),
        ensures
            final (self).wf(),
            final (self).spec_baggage_item(key@) == Some(value@),
            forall|k: Seq<char>|
                k != key@ ==> final (self).spec_baggage_item(k) == old(self).spec_baggage_item(k),
            final (self).spec_id() == old(self).spec_id(),
            final (self).spec_trace_id() == old(self).spec_trace_id(),
            final (self).spec_origin() == old(self).spec_origin(),
            final (self).spec_propagated_sampling_priority() == old(
                self,
            ).spec_propagated_sampling_priority(),
            final (self).spec_nginx_opentracing_compatibility_hack() == old(
                self,
            ).spec_nginx_opentracing_compatibility_hack(),
    {
        assoc_put(&mut self.baggage, key.to_owned(), value.to_owned());
    }

    /// The baggage value stored under `key`, if any.
    pub fn baggage_item(&self, key: &str) -> (r: Option<String>)
        ensures
            match r {
                Some(v) => self.spec_baggage_item(key@) == Some(v@),
                None => self.spec_baggage_item(key@) is None,
            },
    {
        let owned = key.to_owned();
        match assoc_find(&self.baggage, &owned) {
            Some(i) => Some(self.baggage[i].1.clone()),
            None => None,
        }
    }

    /// A copy of this context under a new span id, keeping the trace id,
    /// origin, propagated priority and baggage.
    pub fn with_id(&self, id: u64) -> (c: SpanContext)
        requires
            self.wf(),
        ensures
            c.wf(),
            c.spec_id() == id,
            c.spec_trace_id() == self.spec_trace_id(),
            c.spec_origin() == self.spec_origin(),
            c.spec_propagated_sampling_priority() == self.spec_propagated_sampling_priority(),
            !c.spec_nginx_opentracing_compatibility_hack(),
            c.spec_baggage() == self.spec_baggage(),
    {
        let mut copied: Vec<(String, String)> = Vec::new();
        let mut i: usize = 0;
        while i < self.baggage.len()
            invariant
                i <= self.baggage@.len(),
                copied@.len() == i,
                forall|j: int| 0 <= j < i ==> copied@[j] == self.baggage@[j],
            decreases self.baggage@.len() - i,
        {
            let pair = &self.baggage[i];
            copied.push((pair.0.clone(), pair.1.clone()));
            i += 1;
        }
        proof {
            assert(copied@ =~= self.baggage@);
        }
        let c = SpanContext::new(id, self.trace_id, self.origin.as_str(), copied);
        SpanContext { propagated_sampling_priority: self.propagated_sampling_priority, ..c }
    }
}

} // verus!

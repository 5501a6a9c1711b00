use trace_sampler::{max_id_from_sample_rate, Rate, SpanContext, TimePoint};

#[test]
fn span_context_reports_its_identifiers() {
    let context = SpanContext::new(7, 42, "synthetics", Vec::new());
    assert_eq!(context.id(), 7);
    assert_eq!(context.trace_id(), 42);
    assert_eq!(context.origin(), "synthetics");
    assert_eq!(*context.propagated_sampling_priority(), None);
}

#[test]
fn nginx_compatibility_constructor_clears_origin() {
    let context = SpanContext::new_nginx_opentracing_compatibility_hack(7, 42, Vec::new());
    assert_eq!(context.id(), 7);
    assert_eq!(context.trace_id(), 42);
    assert_eq!(context.origin(), "");
}

#[test]
fn baggage_items_are_stored_and_replaced() {
    let mut context = SpanContext::new(1, 2, "", Vec::new());
    assert_eq!(context.baggage_item("color"), None);
    context.set_baggage_item("color", "red");
    context.set_baggage_item("shape", "round");
    assert_eq!(context.baggage_item("color").as_deref(), Some("red"));
    assert_eq!(context.baggage_item("shape").as_deref(), Some("round"));
    context.set_baggage_item("color", "blue");
    assert_eq!(context.baggage_item("color").as_deref(), Some("blue"));
    assert_eq!(context.baggage_item("shape").as_deref(), Some("round"));
    assert_eq!(context.baggage_item("size"), None);
}

#[test]
fn with_id_copies_everything_but_the_span_id() {
    let mut context = SpanContext::new(1, 2, "origin", Vec::new());
    context.set_baggage_item("color", "red");
    let copy = context.with_id(99);
    assert_eq!(copy.id(), 99);
    assert_eq!(copy.trace_id(), 2);
    assert_eq!(copy.origin(), "origin");
    assert_eq!(copy.baggage_item("color").as_deref(), Some("red"));
}

#[test]
fn time_point_holds_its_readings() {
    let t = TimePoint::new(5, 9);
    assert_eq!(t.absolute_nanos, 5);
    assert_eq!(t.relative_nanos, 9);
}

#[test]
fn max_id_thresholds_are_exact() {
    assert_eq!(max_id_from_sample_rate(Rate::one()), u64::MAX);
    assert_eq!(max_id_from_sample_rate(Rate::zero()), 0);
    // 0.5 of the id space, truncated.
    assert_eq!(
        max_id_from_sample_rate(Rate::from_ppb(500_000_000)),
        9_223_372_036_854_775_807
    );
    // Rates above one saturate.
    assert_eq!(max_id_from_sample_rate(Rate::from_ppb(2_000_000_000)), u64::MAX);
}

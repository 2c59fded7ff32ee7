//! How far the spans of emitters cover the measurements.
use otelite::capability::{
    assess, capability_fingerprint, emitter_name, first_semconv_attribute, genai_capabilities, CapabilityKeys,
    CapabilitySpan, GenAiEmitter, MetricObservation, MetricReading, MetricSample, CAPABILITY_QUERY_LIMIT,
};

fn text(s: &str) -> Option<String> {
    Some(s.to_string())
}

fn reading(observation: MetricObservation) -> MetricReading {
    let source_attribute = match observation {
        MetricObservation::Absent => None,
        _ => text("attr"),
    };
    MetricReading { observation, source_attribute }
}

fn span(model: &str) -> CapabilitySpan {
    CapabilitySpan {
        is_request: true,
        attributes: vec![("gen_ai.request.model".to_string(), model.to_string())],
        emitter: GenAiEmitter::Codex,
        adapter_rule: "rule".to_string(),
        service_name: None,
        scope_name: None,
        scope_version: None,
        start_time: 0,
        end_time: 1_000,
        input_tokens: reading(MetricObservation::Valid),
        output_tokens: reading(MetricObservation::Invalid),
        cache_creation_tokens: reading(MetricObservation::Absent),
        cache_read_tokens: reading(MetricObservation::Absent),
        ttft: reading(MetricObservation::Valid),
        ttft_ns: Some(100),
        duplicate_deliveries: 1,
    }
}

fn keys() -> CapabilityKeys {
    CapabilityKeys {
        request_model: vec!["gen_ai.request.model".to_string()],
        system: vec!["gen_ai.system".to_string()],
    }
}

#[test]
fn fingerprints_follow_the_hash() {
    let expected = |parts: [&str; 4]| {
        let mut hash = 0xcbf29ce484222325_u64;
        for part in parts {
            for byte in part.bytes().chain([0_u8]) {
                hash ^= u64::from(byte);
                hash = hash.wrapping_mul(0x100000001b3);
            }
        }
        format!("genai-v1-{hash:016x}")
    };
    assert_eq!(
        capability_fingerprint("rule", &text("svc"), &text("scöpe"), &text("1.0")),
        expected(["rule", "svc", "scöpe", "1.0"])
    );
    assert_eq!(capability_fingerprint("", &None, &None, &None), expected(["", "", "", ""]));
    assert_eq!(
        capability_fingerprint("r", &None, &text("s"), &None),
        capability_fingerprint("r", &text(""), &text("s"), &text(""))
    );
    assert_eq!(capability_fingerprint("r", &None, &None, &None).len(), 9 + 16);
}

#[test]
fn coverage_is_reported_by_model() {
    let mut other = span("b");
    other.is_request = false;
    let r = genai_capabilities(vec![span("a"), span("b"), span("a"), other], &keys(), &None);
    assert_eq!((r.canonical_span_count, r.duplicate_span_count, r.truncated), (3, 3, false));
    assert_eq!(r.reports.len(), 2);
    let a = r.reports.iter().find(|r| r.model.as_deref() == Some("a")).unwrap();
    assert_eq!((a.request_count, a.emitter.as_str(), a.provider.as_deref()), (2, "codex", None));
    assert_eq!((a.input_tokens.valid_count, a.input_tokens.eligible_count), (2, 2));
    assert_eq!(a.input_tokens.availability, "available");
    assert_eq!(a.output_tokens.invalid_count, 2);
    assert_eq!(a.output_tokens.quality, "invalid");
    assert_eq!(a.cache_read_tokens.availability, "absent");
    assert_eq!(a.cache_read_tokens.derivation, "unavailable");
    assert_eq!(a.input_tokens.source_attributes, vec![("attr".to_string(), 2)]);
    for report in &r.reports {
        let c = &report.correlation;
        assert_eq!(c.rule, "none");
        assert_eq!((c.matched_count, c.unmatched_count, c.rejected_count, c.ambiguous_count), (0, 0, 0, 0));
    }
    let only = genai_capabilities(vec![span("a"), span("b")], &keys(), &text("b"));
    assert_eq!(only.reports.len(), 1);
    assert_eq!(only.canonical_span_count, 1);
}

#[test]
fn large_samples_are_cut_off() {
    let r = genai_capabilities(delivered(CAPABILITY_QUERY_LIMIT + 1, 0), &keys(), &None);
    assert!(r.truncated);
    assert_eq!((r.canonical_span_count, r.duplicate_span_count), (CAPABILITY_QUERY_LIMIT, 0));
    let r = genai_capabilities(delivered(CAPABILITY_QUERY_LIMIT, 0), &keys(), &None);
    assert!(!r.truncated);
    assert_eq!(r.canonical_span_count, CAPABILITY_QUERY_LIMIT);
}

fn delivered(spans: usize, duplicates: usize) -> Vec<CapabilitySpan> {
    (0..spans)
        .map(|_| {
            let mut s = span("a");
            s.duplicate_deliveries = duplicates;
            s
        })
        .collect()
}

#[test]
fn samples_are_measured_by_their_deliveries() {
    let half = CAPABILITY_QUERY_LIMIT / 2;
    let mut spans = delivered(half, 1);
    assert!(!genai_capabilities(delivered(half, 1), &keys(), &None).truncated);
    spans.extend(delivered(1, 0));
    let r = genai_capabilities(spans, &keys(), &None);
    assert!(r.truncated);
    assert_eq!((r.canonical_span_count, r.duplicate_span_count), (half, half));

    let mut spans = delivered(1, 0);
    spans.extend(delivered(half, 1));
    let r = genai_capabilities(spans, &keys(), &None);
    assert!(r.truncated);
    assert_eq!((r.canonical_span_count, r.duplicate_span_count), (half + 1, half - 1));
}

#[test]
fn observations_are_partitioned() {
    let sample = |observation| MetricSample { observation, source_attribute: text("x"), degenerate: false };
    let c = assess(
        &vec![
            sample(MetricObservation::Valid),
            sample(MetricObservation::Invalid),
            MetricSample { observation: MetricObservation::Absent, source_attribute: None, degenerate: false },
        ],
        false,
    );
    assert_eq!((c.valid_count, c.invalid_count, c.eligible_count, c.observed_count), (1, 1, 3, 2));
    assert_eq!(c.availability, "sparse");
}

#[test]
fn the_preferred_attribute_counts() {
    let attributes = vec![("b".to_string(), "2".to_string()), ("a".to_string(), "1".to_string())];
    let keys = |names: &[&str]| -> Vec<String> { names.iter().map(|s| s.to_string()).collect() };
    assert_eq!(first_semconv_attribute(&attributes, &keys(&["a", "b"])), text("1"));
    assert_eq!(first_semconv_attribute(&attributes, &keys(&["x", "b"])), text("2"));
    assert_eq!(first_semconv_attribute(&attributes, &keys(&["x"])), None);
    assert_eq!(emitter_name(GenAiEmitter::StandardOtel), "standard_otel");
}

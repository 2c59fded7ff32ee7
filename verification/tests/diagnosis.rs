//! The forensic report on a session.
use otelite::diagnose::{
    self, cache_label, findings, p95_turn, read_interaction, root_llm_span, trace_order, GenAiFields,
    Interaction, SpanEntry,
};
use otelite::layout::{format_duration, format_tokens};
use otelite::report;

fn text(s: &str) -> Option<String> {
    Some(s.to_string())
}

fn plain(index: usize) -> Interaction {
    Interaction {
        index,
        time: "10:00:00".to_string(),
        model: None,
        input_tokens: None,
        output_tokens: None,
        cache_read: None,
        cache_creation: None,
        ttft: None,
        duration_ms: 1_500,
        is_error: false,
        is_stall: false,
        response_id: None,
        trace_id: "0123456789abcdef0123456789abcdef".to_string(),
        start_time_ns: 0,
        body_length: None,
        prompt_id: None,
    }
}

fn span(parent: Option<&str>, key: &str) -> SpanEntry {
    SpanEntry {
        parent_span_id: parent.map(|p| p.to_string()),
        attributes: vec![(key.to_string(), "v".to_string())],
        start_time: 7,
        duration: 31_000_999_999,
        status_code: "Error".to_string(),
    }
}

#[test]
fn test_format_tokens_zero() {
    assert_eq!(format_tokens(0), "0");
}

#[test]
fn test_format_tokens_small() {
    assert_eq!(format_tokens(999), "999");
}

#[test]
fn test_format_tokens_thousands() {
    assert_eq!(format_tokens(1_000), "1.0K");
    assert_eq!(format_tokens(15_300), "15.3K");
    assert_eq!(format_tokens(999_999), "1000.0K");
}

#[test]
fn test_format_tokens_millions() {
    assert_eq!(format_tokens(1_000_000), "1.0M");
    assert_eq!(format_tokens(2_500_000), "2.5M");
}

#[test]
fn counts_are_rounded_as_floating_point_does() {
    let mut seed: u64 = 88_172_645_463_325_252;
    for shift in 0..64 {
        for _ in 0..40 {
            seed ^= seed << 13;
            seed ^= seed >> 7;
            seed ^= seed << 17;
            let t = seed >> shift;
            let expected = if t >= 1_000_000 {
                format!("{:.1}M", t as f64 / 1_000_000.0)
            } else if t >= 1_000 {
                format!("{:.1}K", t as f64 / 1_000.0)
            } else {
                t.to_string()
            };
            assert_eq!(format_tokens(t), expected);
        }
    }
    for t in 1_000..4_000u64 {
        assert_eq!(format_tokens(t), format!("{:.1}K", t as f64 / 1_000.0));
        assert_eq!(format_tokens(t * 1_000 + 50_000), {
            let n = t * 1_000 + 50_000;
            format!("{:.1}M", n as f64 / 1_000_000.0)
        });
    }
}

#[test]
fn test_format_duration_seconds() {
    assert_eq!(format_duration(0), "0.0s");
    assert_eq!(format_duration(1_500), "1.5s");
    assert_eq!(format_duration(59_999), "60.0s");
}

#[test]
fn test_format_duration_minutes() {
    assert_eq!(format_duration(60_000), "1m00s");
    assert_eq!(format_duration(90_000), "1m30s");
    assert_eq!(format_duration(3_661_000), "61m01s");
}

#[test]
fn durations_are_rounded_as_floating_point_does() {
    for ms in -3_000i64..60_000 {
        assert_eq!(format_duration(ms), format!("{:.1}s", ms as f64 / 1000.0));
    }
    for ms in [i64::MIN, i64::MIN + 1, -9_007_199_254_740_993, -123_456_789_012_345] {
        assert_eq!(format_duration(ms), format!("{:.1}s", ms as f64 / 1000.0));
    }
}

#[test]
fn test_cache_label_cold() {
    assert_eq!(cache_label(0, 100_000, 50_000), " COLD");
}

#[test]
fn test_cache_label_hot() {
    let read = 80_000u64;
    let create = 5_000u64;
    let inp = 15_000u64;
    assert_eq!(cache_label(read, create, inp), "  HOT");
}

#[test]
fn test_cache_label_warm() {
    assert_eq!(cache_label(30_000, 10_000, 60_000), " WARM");
}

#[test]
fn test_cache_label_no_data() {
    assert_eq!(cache_label(0, 0, 0), "  —  ");
}

#[test]
fn test_cache_label_small_creation_not_cold() {
    assert_eq!(cache_label(0, 49_999, 10_000), "  —  ");
}

#[test]
fn huge_contexts_have_a_label() {
    assert_eq!(cache_label(u64::MAX, u64::MAX, u64::MAX), " WARM");
    assert_eq!(cache_label(u64::MAX, 0, 1), "  HOT");
}

#[test]
fn test_p95_index_single_element() {
    let mut v = vec![1_000i64];
    v.sort_unstable();
    assert_eq!(p95_turn(&v), 1_000);
}

#[test]
fn test_p95_index_twenty_elements() {
    let mut v: Vec<i64> = (1..=20).map(|i| i * 1_000).collect();
    v.sort_unstable();
    assert_eq!(p95_turn(&v), 20_000);
    assert_eq!(p95_turn(&Vec::new()), 0);
}

#[test]
fn test_cold_and_slow_counts() {
    let ia = |duration_ms, cache_read, cache_creation| Interaction {
        duration_ms,
        cache_read,
        cache_creation,
        ..plain(1)
    };
    let interactions = vec![
        ia(5_000, Some(80_000), Some(0)),
        ia(35_000, Some(0), Some(120_000)),
        ia(45_000, Some(0), Some(80_000)),
        ia(20_000, Some(50_000), Some(10_000)),
    ];
    let f = findings(&interactions);
    assert_eq!(f.slow_count, 2);
    assert_eq!(f.cold_count, 2);
    assert_eq!(f.total, 4);
    assert_eq!(f.total_dur_ms, 105_000);
    assert_eq!(f.p95_ms, 45_000);
    assert_eq!(f.slowest_ms, 45_000);
    assert!(f.p95_ms <= f.slowest_ms);
    assert_eq!((f.errors, f.stalls, f.total_output), (0, 0, 0));
}

#[test]
fn the_first_genai_root_stands_for_a_trace() {
    let spans = vec![span(Some("p"), "gen_ai.system"), span(None, "http.method"), span(None, "gen_ai.system")];
    assert_eq!(root_llm_span(&spans), Some(2));
    let spans = vec![span(None, "http.method"), span(Some("p"), "gen_ai.system")];
    assert_eq!(root_llm_span(&spans), Some(1));
    assert_eq!(root_llm_span(&vec![span(None, "http.method")]), None);
    assert_eq!(trace_order(&vec![30, 10, 20, 10]), vec![1, 3, 2, 0]);
}

#[test]
fn interactions_are_read_from_their_root_span() {
    let genai = |ttft: Option<String>| GenAiFields {
        model: None,
        input_tokens: Some(1),
        output_tokens: Some(2),
        cache_read: Some(3),
        cache_creation: Some(4),
        response_id: text("r1"),
        ttft,
    };
    let mut root = span(None, "gen_ai.request.model");
    root.attributes.push(("prompt.id".to_string(), "p1".to_string()));
    let ia = read_interaction(3, "now".to_string(), &root, &genai(text("0.5s")), "t1".to_string(), &text("4096"));
    assert_eq!(ia.model, text("v"));
    assert_eq!(ia.duration_ms, 31_000);
    assert!(ia.is_error && ia.is_stall);
    assert_eq!(ia.body_length, Some(4096));
    assert_eq!(ia.prompt_id, text("p1"));
    assert_eq!((ia.index, ia.start_time_ns), (3, 7));
    assert_eq!((ia.input_tokens, ia.output_tokens), (Some(1), Some(2)));
    assert_eq!((ia.cache_read, ia.cache_creation), (Some(3), Some(4)));
    assert_eq!(ia.response_id, text("r1"));

    let ia = read_interaction(3, String::new(), &root, &genai(None), "t1".to_string(), &text("4 KB"));
    assert!(ia.is_error && !ia.is_stall);
    assert_eq!(ia.body_length, None);

    root.status_code = "Ok".to_string();
    let ia = read_interaction(3, String::new(), &root, &genai(text("0.5s")), "t1".to_string(), &text("4096"));
    assert!(!ia.is_error && !ia.is_stall);
    assert_eq!((ia.body_length, ia.prompt_id), (None, None));
    assert_eq!(diagnose::value_or_zero(None), 0);
}

#[test]
fn a_quiet_session_has_a_short_report() {
    let lines = report::report("ses", "2026-01-01 10:00", "10:05", &vec![plain(1)], true);
    assert_eq!(
        lines,
        vec![
            "Session: ses",
            "Model:   (unknown)   Interactions: 1   2026-01-01 10:00–10:05",
            "",
            "Performance summary:",
            "  Total LLM time : 1.5s",
            "  p95 turn time  : 1.5s",
            "  Slowest turn   : 1.5s",
            "",
            "   #  Time       Input tok   Cache+   Cached    TTFT  Duration   Out tok  Cache   Status          Trace",
            &"-".repeat(100),
            "   1  10:00:00           —        —        —       —      1.5s         —     —    OK              0123456789ab",
            "",
            "Escalation info",
            "  Session:   ses",
        ]
    );
}

fn stalled(index: usize, start_time_ns: i64, duration_ms: i64) -> Interaction {
    Interaction {
        model: text("m1"),
        input_tokens: Some(180_500),
        output_tokens: Some(40_000),
        cache_read: Some(0),
        cache_creation: Some(60_000),
        ttft: text("2.0s"),
        duration_ms,
        is_error: true,
        is_stall: true,
        response_id: text("resp1"),
        start_time_ns,
        body_length: Some(722_000),
        prompt_id: text("pr1"),
        ..plain(index)
    }
}

#[test]
fn a_stalled_session_has_a_full_report() {
    let first = Interaction { model: text("m2"), input_tokens: Some(20_000), output_tokens: Some(20_000), ..plain(1) };
    let ias = vec![first, stalled(2, 1_700_000_000_123_456_789, 331_400)];
    let lines = report::report("ses", "S", "E", &ias, true);
    let expected = vec![
        "Session: ses",
        "Model:   m2, m1   Interactions: 2   S–E",
        "Errors:  1   Stalls: 1",
        "",
        "Performance summary:",
        "  Total LLM time : 5m32s",
        "  p95 turn time  : 5m31s",
        "  Slowest turn   : 5m31s",
        "  Slow turns(>30s): 1/2",
        "  Cold starts    : 1 turn(s) — no cache reads, full context rebuilt",
        "  Total output   : 60.0K tokens — generation volume is the likely latency driver",
        "  ⚠  p95 > 60s — most turns are slow, not just outliers",
        "",
        "   #  Time       Input tok   Cache+   Cached    TTFT  Duration   Out tok  Cache   Status          Trace",
        "----------------------------------------------------------------------------------------------------",
        "   1  10:00:00       20.0K        —        —       —      1.5s     20.0K     —    OK              0123456789ab",
        "   2  10:00:00      180.5K    60.0K        0    2.0s     5m31s     40.0K    COLD  ERROR [stall]   0123456789ab",
        "",
        "Context growth: 20K → 180K tokens across 2 interactions (peak: 180K)",
        "",
        "⚠  1 streaming stall(s) detected.",
        "   Interaction #2: 331400ms duration, ~180K tokens",
        "",
        "   Suggestion: raise the stream-idle timeout on the proxy/load-balancer to at least 531s",
        "   (longest stall was 331s; a 300s hop-level timeout is a common trigger)",
        "",
        "Escalation info",
        "  Session:   ses",
        "  Model:     m2, m1",
        "  Timestamps:   2023-11-14T22:13:20Z",
        "  Body size:    722000 bytes (~180K tokens)",
        "  Prompt IDs:   pr1",
        "  Response IDs: resp1",
        "  Trace IDs:    0123456789abcdef",
        "  Peak input:   180K tokens",
    ];
    assert_eq!(lines, expected);
    let quiet = report::report("ses", "S", "E", &ias, false);
    assert!(!quiet.iter().any(|l| l.contains("Suggestion")));
    assert_eq!(quiet.len(), lines.len() - 3);
}

#[test]
fn failures_are_stamped_in_utc() {
    let ias = vec![plain(1), stalled(2, 0, 40_000), stalled(3, -1, 40_000)];
    assert_eq!(report::error_stamps(&ias), vec!["1970-01-01T00:00:00Z", "1969-12-31T23:59:59Z"]);
}

#[test]
fn short_stalls_ask_for_the_least_timeout() {
    let lines = report::stalls(&vec![stalled(1, 0, 40_000)], true);
    assert!(lines.contains(&"   Suggestion: raise the stream-idle timeout on the proxy/load-balancer to at least 500s".to_string()));
    assert!(report::stalls(&vec![plain(1)], true).is_empty());
}

#[test]
fn sessions_without_traces_are_explained() {
    let lines = report::no_traces("ses");
    assert_eq!(lines.len(), 2);
    assert!(lines[0].contains("ses"));
    assert_eq!(
        report::no_interactions("ses"),
        "Traces found for session ses but none contain GenAI spans."
    );
    assert_eq!(
        report::fetch_warning("0123456789abcdef", "gone"),
        "  warning: could not fetch trace 01234567: gone"
    );
}

//! What the commands show.
use otelite::dashboard::UsageState;
use otelite::error::Error;
use otelite::histogram::{
    display_distribution, distribution_failure, DistributionBucket, DistributionSource, DistributionStats,
    HistogramCommand,
};
use otelite::identity::drift_pair;
use otelite::layout::{align_left, align_right, take_bytes};
use otelite::records::{cache_hit_rate, truncation_rate};
use otelite::tables::{
    display_by_model, display_by_session, display_by_system, display_cache_hit_rate, display_conv_depth,
    display_error_types, display_latency_stats, display_model_drift, display_request_params, display_summary,
    display_tool_usage, display_top_spans, display_truncation_rate, show_max_tokens, CacheHitRow, Cell, CostedRow,
    DepthRow, ErrorTypeBreakdown, LatencyRow, ParamBucket, Section, SessionCostRow, Table, TokenUsageSummary, Tone,
    ToolRow, TopSpanRow, TruncationRow,
};
use otelite::tools::tool_usage;
use otelite::usage::UsageRow;

fn text(s: &str) -> String {
    s.to_string()
}

fn texts(cells: &[Cell]) -> Vec<&str> {
    cells.iter().map(|c| c.text.as_str()).collect()
}

fn table(section: Section) -> Table {
    match section {
        Section::Table(t) => t,
        Section::Message(m) => panic!("only a message: {}", m),
    }
}

fn message(section: Section) -> String {
    match section {
        Section::Table(t) => panic!("a table: {}", t.title),
        Section::Message(m) => m,
    }
}

fn usage(name: &str) -> CostedRow {
    CostedRow {
        usage: UsageRow {
            name: text(name),
            input_tokens: 1_234,
            output_tokens: 56,
            total_tokens: 1_290,
            requests: 7,
        },
        cost: text("$0.1234"),
    }
}

#[test]
fn the_summary_leaves_out_an_unused_cache() {
    let mut s = TokenUsageSummary {
        total_input_tokens: 1_000_000,
        total_output_tokens: 2_500,
        total_requests: 12,
        total_cache_creation_tokens: 0,
        total_cache_read_tokens: 0,
    };
    let t = display_summary(&s);
    let rows: Vec<Vec<&str>> = t.rows.iter().map(|r| texts(r)).collect();
    assert_eq!(
        rows,
        vec![
            vec!["Total Input Tokens", "1,000,000"],
            vec!["Total Output Tokens", "2,500"],
            vec!["Total Tokens", "1,002,500"],
            vec!["Total Requests", "12"],
        ]
    );
    s.total_cache_creation_tokens = 1;
    s.total_cache_read_tokens = 1_000;
    let t = display_summary(&s);
    assert_eq!(texts(&t.rows[4]), vec!["Cache Creation Tokens", "1"]);
    assert_eq!(texts(&t.rows[5]), vec!["Cache Read Tokens", "1,000"]);
}

#[test]
fn usage_is_shown_by_model_and_by_system() {
    let t = table(display_by_model(&vec![usage("m")]));
    assert_eq!(t.title, "Breakdown by Model:");
    assert_eq!(texts(&t.heads), vec!["Model", "Input", "Output", "Total", "Requests", "Cost"]);
    assert!(t.heads.iter().all(|c| c.tone == Tone::Cyan));
    assert_eq!(texts(&t.rows[0]), vec!["m", "1,234", "56", "1,290", "7", "$0.1234"]);
    let t = table(display_by_system(&vec![usage("OpenAI")]));
    assert_eq!(t.title, "Breakdown by System:");
    assert_eq!(texts(&t.rows[0])[0], "OpenAI");
    assert_eq!(message(display_by_model(&Vec::new())), "No model data available");
    assert_eq!(message(display_by_system(&Vec::new())), "No system data available");
}

#[test]
fn sessions_and_calls_are_shown_with_short_names() {
    let long = "a".repeat(40);
    let t = table(display_by_session(&vec![SessionCostRow {
        session_id: long.clone(),
        requests: 2,
        input_tokens: 3_000,
        output_tokens: 4,
        cost: text("$1.0000"),
    }]));
    assert_eq!(t.title, "Breakdown by Session:");
    assert_eq!(texts(&t.rows[0]), vec![format!("{}…", "a".repeat(31)).as_str(), "2", "3,000", "4", "$1.0000"]);
    let t = table(display_top_spans(
        &vec![TopSpanRow {
            model: None,
            session_id: Some(long),
            input_tokens: 1_000,
            output_tokens: 2,
            cache_read_tokens: 3,
            cost: text("—"),
            duration: 2_999_999,
        }],
        20,
    ));
    assert_eq!(t.title, "Top 20 LLM Calls by Cost:");
    assert_eq!(
        texts(&t.rows[0]),
        vec!["1", "—", format!("{}…", "a".repeat(23)).as_str(), "1,000", "2", "3", "—", "2ms"]
    );
    assert_eq!(message(display_by_session(&Vec::new())), "No session data found in range");
    assert_eq!(message(display_top_spans(&Vec::new(), 5)), "No LLM spans found in range");
}

#[test]
fn latency_is_shown_with_what_is_known() {
    let row = |ttft_count| LatencyRow {
        model: None,
        count: 3,
        p50_ms: 10,
        p95_ms: 20,
        p99_ms: 30,
        rate_p50: Some(text("55")),
        rate_p95: None,
        input_tokens_p50: Some(12_000),
        input_tokens_p95: None,
        output_input_ratio_p50: Some(text("0.10×")),
        ttft_count,
        ttft_p50_ms: Some(5),
        ttft_p95_ms: None,
    };
    let t = table(display_latency_stats(&vec![row(0), row(1)]));
    assert_eq!(
        texts(&t.rows[0]),
        vec!["(unknown)", "3", "10", "20", "30", "55", "—", "12,000", "—", "0.10×", "—", "—"]
    );
    assert_eq!(texts(&t.rows[1])[10..], ["5ms", "—"]);
    assert_eq!(message(display_latency_stats(&Vec::new())), "No latency data available");
}

#[test]
fn rates_have_their_colours() {
    let rate = |truncated, total| TruncationRow { rate: truncation_rate(None, total, truncated), percent: text("p") };
    let tones = |rows: Vec<TruncationRow>| -> Vec<Tone> {
        table(display_truncation_rate(&rows)).rows.iter().map(|r| r[3].tone).collect()
    };
    assert_eq!(
        tones(vec![rate(6, 100), rate(5, 100), rate(2, 100), rate(1, 100), rate(0, 0)]),
        vec![Tone::Red, Tone::Yellow, Tone::Yellow, Tone::Green, Tone::Green]
    );
    assert_eq!(
        message(display_truncation_rate(&vec![rate(0, 10)])),
        "Truncation Rate by Model: no truncations observed"
    );

    let hit = |read, input| CacheHitRow { rate: cache_hit_rate(None, input, read, 0), percent: text("p") };
    let t = table(display_cache_hit_rate(&vec![hit(20, 80), hit(19, 81), hit(5, 95), hit(4, 96), hit(0, 0)]));
    let tones: Vec<Tone> = t.rows.iter().map(|r| r[4].tone).collect();
    assert_eq!(tones, vec![Tone::Green, Tone::Yellow, Tone::Yellow, Tone::White, Tone::White]);
    assert_eq!(message(display_cache_hit_rate(&vec![hit(0, 9)])), "Cache Hit Rate: no cache reads observed");

    let tool = |ok, count| ToolRow {
        usage: tool_usage(text("t"), count, count - ok, ok, 0),
        success: text("s"),
        average: text("a"),
    };
    let t = table(display_tool_usage(&vec![tool(89, 100), tool(90, 100), tool(99, 100), tool(0, 0)]));
    let tones: Vec<Tone> = t.rows.iter().map(|r| r[2].tone).collect();
    assert_eq!(tones, vec![Tone::Red, Tone::Yellow, Tone::Green, Tone::Red]);
    assert_eq!(texts(&t.rows[0]), vec!["t", "100", "s", "11", "a"]);
    assert_eq!(message(display_tool_usage(&Vec::new())), "Tool Usage: no tool calls observed");
}

#[test]
fn errors_and_reroutings_are_shown() {
    let t = table(display_error_types(&vec![ErrorTypeBreakdown {
        model: None,
        error_type: text("429"),
        bucket: text("rate_limit"),
        count: 4,
    }]));
    assert_eq!(texts(&t.rows[0]), vec!["rate_limit", "429", "(unknown)", "4"]);
    assert_eq!((t.rows[0][0].tone, t.rows[0][1].tone, t.rows[0][3].tone), (Tone::Red, Tone::Plain, Tone::Yellow));
    assert_eq!(message(display_error_types(&Vec::new())), "Error Types: no error spans observed");

    let pair = |a: &str, b: &str| drift_pair(Some(text(a)), Some(text(b)), 3);
    let t = table(display_model_drift(&vec![pair("a", "a"), pair("a", "b")]));
    assert_eq!(t.rows.len(), 1);
    assert_eq!(texts(&t.rows[0]), vec!["a", "b", "3"]);
    assert_eq!(
        message(display_model_drift(&vec![pair("a", "a")])),
        "Model Drift: no silent rerouting detected (request and response models match)"
    );
}

#[test]
fn settings_and_depths_are_shown() {
    let bucket = |value: Option<&str>| ParamBucket { value: value.map(text), count: 2 };
    let tables = display_request_params(&vec![bucket(Some("0.5")), bucket(None)], &vec![bucket(Some("4,096"))]);
    assert_eq!(tables[0].title, "Temperature Distribution:");
    assert_eq!(texts(&tables[0].rows[1]), vec!["not set", "2"]);
    assert_eq!(tables[1].title, "max_tokens Distribution:");
    assert!(display_request_params(&Vec::new(), &Vec::new()).is_empty());
    assert_eq!(show_max_tokens(Some(4_096)), Some(text("4,096")));
    assert_eq!(show_max_tokens(None), None);

    let depth = |total_conversations| DepthRow {
        total_conversations,
        average: text("2.5"),
        p50_turns: 2,
        p95_turns: 4,
        p99_turns: 5,
    };
    let t = table(display_conv_depth(&depth(2)));
    assert_eq!(texts(&t.rows[1]), vec!["Avg turns", "2.5"]);
    assert_eq!(texts(&t.rows[4]), vec!["p99 turns", "5"]);
    assert_eq!(
        message(display_conv_depth(&depth(0))),
        "Conversation Depth: no conversations with conversation_id observed"
    );
}

#[test]
fn distributions_are_drawn() {
    let bucket = |count| DistributionBucket { min: text("0ms"), max: text("10ms"), count };
    let stats = DistributionStats {
        count: 5,
        min: text("a"),
        p50: text("b"),
        p95: text("c"),
        p99: text("d"),
        max: text("e"),
        mean: text("f"),
    };
    let lines = display_distribution("ttft", "log", &vec![bucket(4), bucket(1), bucket(0)], &Some(stats));
    assert_eq!(
        lines,
        vec![
            "ttft distribution (3 buckets, log scale):".to_string(),
            format!("  {:>14} – {:<14} {:>6}  {}", "0ms", "10ms", 4, "#".repeat(40)),
            format!("  {:>14} – {:<14} {:>6}  {}", "0ms", "10ms", 1, "#".repeat(10)),
            format!("  {:>14} – {:<14} {:>6}  {}", "0ms", "10ms", 0, ""),
            String::new(),
            "  n=5  min=a  p50=b  p95=c  p99=d  max=e  mean=f".to_string(),
        ]
    );
    let lines = display_distribution("ttft", "log", &Vec::new(), &None);
    assert_eq!(lines, vec!["ttft distribution (0 buckets, log scale):", "  no data in range"]);
}

#[test]
fn bars_are_rounded_as_floating_point_does() {
    for largest in 1..300u64 {
        for count in 0..=largest {
            let bucket = |count| DistributionBucket { min: text(""), max: text(""), count };
            let lines = display_distribution("m", "linear", &vec![bucket(count), bucket(largest)], &None);
            let expected = ((count as f64 / largest as f64) * 40.0).round() as usize;
            assert_eq!(lines[1].matches('#').count(), expected);
        }
    }
}

#[test]
fn costs_come_from_the_sessions() {
    let command = |metric: &str| HistogramCommand {
        metric: text(metric),
        since: text("24h"),
        buckets: 20,
        scale: text("log"),
    };
    assert_eq!(command("session_cost").source(), DistributionSource::SessionCosts);
    assert_eq!(command("ttft").source(), DistributionSource::Store);
    let why = |s| match distribution_failure(s, "down") {
        Error::ApiError(m) => m,
    };
    assert_eq!(why(DistributionSource::SessionCosts), "Failed to query session costs: down");
    assert_eq!(why(DistributionSource::Store), "Failed to query distribution: down");
}

#[test]
fn an_error_ends_the_loading() {
    let mut state = UsageState::default();
    assert!(state.error.is_none() && !state.is_loading && state.tool_usage.is_empty());
    state.is_loading = true;
    state.set_error(text("down"));
    assert_eq!(state.error.as_deref(), Some("down"));
    assert!(!state.is_loading);
    state.clear_error();
    assert!(state.error.is_none());
}

#[test]
fn texts_are_aligned_by_characters() {
    assert_eq!(align_right("—", 3), "  —");
    assert_eq!(align_left("ab", 4), "ab  ");
    assert_eq!(align_left("abcd", 2), "abcd");
    assert_eq!(take_bytes("größe", 4), "grö");
}

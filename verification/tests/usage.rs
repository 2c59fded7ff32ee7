//! The usage command.
use otelite::error::Error;
use otelite::layout::{format_number, join, truncate};
use otelite::usage::{
    contains_text, dearest, format_header, parse_time_range, pricing_source, query_failure, range_fits, session_rows, usage_rows,
    validate_since, CallTokens, NamedUsage, UsageCommand, UsageQuery, UsageSection,
};

const NOW: i64 = 1_700_000_000_000_000_000;

fn message(e: Error) -> String {
    match e {
        Error::ApiError(m) => m,
    }
}

fn command() -> UsageCommand {
    UsageCommand {
        since: "24h".to_string(),
        model: None,
        system: None,
        by_model: false,
        by_system: false,
        top: None,
        by_session: false,
        latency: false,
        truncation: false,
        cache_rate: false,
        request_params: false,
        conv_depth: false,
        tools: false,
        error_types: false,
        model_drift: false,
    }
}

#[test]
fn test_parse_time_range_hours() {
    let (start, end) = parse_time_range("24h", NOW).ok().unwrap();
    let diff = end - start;
    let expected = 24 * 3600 * 1_000_000_000i64;
    assert_eq!(diff, expected);
}

#[test]
fn test_parse_time_range_days() {
    let (start, end) = parse_time_range("7d", NOW).ok().unwrap();
    let diff = end - start;
    let expected = 7 * 24 * 3600 * 1_000_000_000i64;
    assert_eq!(diff, expected);
}

#[test]
fn test_parse_time_range_minutes() {
    let (start, end) = parse_time_range("30m", NOW).ok().unwrap();
    let diff = end - start;
    let expected = 30 * 60 * 1_000_000_000i64;
    assert_eq!(diff, expected);
    assert_eq!(end, NOW);
}

#[test]
fn unreadable_ranges_are_refused() {
    for (range, why) in [
        ("h", "Invalid hour format"),
        ("xd", "Invalid day format"),
        ("1.5m", "Invalid minute format"),
        ("10s", "Invalid time range format. Use format like '1h', '24h', '7d', '30d'"),
        ("", "Invalid time range format. Use format like '1h', '24h', '7d', '30d'"),
    ] {
        assert_eq!(message(parse_time_range(range, NOW).err().unwrap()), why);
    }
    assert_eq!(parse_time_range("-1h", 0).ok().unwrap(), (3_600_000_000_000, 0));
}

#[test]
fn overlong_ranges_do_not_fit() {
    assert!(range_fits("24h", NOW));
    assert!(range_fits("9223372036854775807x", NOW));
    assert!(range_fits("", NOW));
    assert!(!range_fits("9223372036854775807h", NOW));
    assert!(!range_fits("106752d", NOW));
    assert!(range_fits("106751d", NOW));
    assert!(!range_fits("-106751d", NOW));
}

#[test]
fn durations_are_validated() {
    for good in ["1h", "24h", "7d", "30m", "+5h", "0d"] {
        assert_eq!(validate_since(good), Ok(good.to_string()));
        assert!(parse_time_range(good, NOW).is_ok());
    }
    for bad in ["", "h", "5", "5s", "-5h", "h5"] {
        assert_eq!(
            validate_since(bad),
            Err(format!(
                "Invalid time duration '{}'. Use a number followed by 'h' (hours), 'd' (days), or 'm' (minutes), e.g. '1h', '24h', '7d', '30d'",
                bad
            ))
        );
    }
}

#[test]
fn test_format_number() {
    assert_eq!(format_number(1234), "1,234");
    assert_eq!(format_number(1234567), "1,234,567");
    assert_eq!(format_number(123), "123");
}

#[test]
fn numbers_of_every_length_are_grouped() {
    assert_eq!(format_number(0), "0");
    assert_eq!(format_number(u64::MAX), "18,446,744,073,709,551,615");
    let mut n: u64 = 1;
    for _ in 0..19 {
        assert_eq!(format_number(n).replace(',', ""), n.to_string());
        n *= 10;
    }
}

#[test]
fn long_texts_are_cut() {
    assert_eq!(truncate("short", 10), "short");
    assert_eq!(truncate("exactly ten", 11), "exactly ten");
    let cut = truncate("a much longer text", 8);
    assert_eq!(cut, "a much …");
    assert_eq!(join(&vec!["a".to_string(), "b".to_string()], ", "), "a, b");
    assert_eq!(join(&Vec::new(), ", "), "");
}

#[test]
fn a_plain_command_asks_for_the_usage_alone() {
    let c = command();
    let plan = c.plan();
    assert_eq!(plan.len(), 1);
    assert!(matches!(plan[0], UsageQuery::TokenUsage));
    let sections = c.sections();
    assert_eq!(sections.len(), 2);
    assert!(matches!(sections[0], UsageSection::Summary));
    assert!(matches!(sections[1], UsageSection::Models));
}

#[test]
fn every_argument_adds_its_query() {
    let c = UsageCommand {
        top: Some(5),
        by_session: true,
        latency: true,
        truncation: true,
        cache_rate: true,
        request_params: true,
        conv_depth: true,
        tools: true,
        error_types: true,
        model_drift: true,
        ..command()
    };
    let plan = c.plan();
    assert_eq!(plan.len(), 11);
    assert!(matches!(plan[1], UsageQuery::TopSpans));
    assert!(matches!(plan[7], UsageQuery::ToolUsage(50)));
    assert!(matches!(plan[10], UsageQuery::SessionSpans));
    let sections = c.sections();
    assert_eq!(sections.len(), 12);
    assert!(matches!(sections[2], UsageSection::TopSpans(5)));
    assert!(matches!(sections[3], UsageSection::Sessions));
    assert!(matches!(sections[11], UsageSection::ModelDrift));
}

#[test]
fn systems_replace_the_models_unless_both_are_asked_for() {
    let only = UsageCommand { by_system: true, ..command() };
    assert!(matches!(only.sections()[1], UsageSection::Systems));
    assert_eq!(only.sections().len(), 2);
    let both = UsageCommand { by_system: true, model: Some("gpt".to_string()), ..command() };
    assert!(matches!(both.sections()[1], UsageSection::Models));
    assert!(matches!(both.sections()[2], UsageSection::Systems));
}

#[test]
fn failures_name_the_query() {
    assert_eq!(message(query_failure(UsageQuery::TokenUsage, "down")), "Failed to query token usage: down");
    assert_eq!(message(query_failure(UsageQuery::TopSpans, "x")), "Failed to query top spans: x");
    assert_eq!(message(query_failure(UsageQuery::RequestParams, "x")), "Failed to query request param profile: x");
    assert_eq!(format_header("24h"), "Token Usage Summary (Last 24h)");
    assert_eq!(message(query_failure(UsageQuery::SessionSpans, "x")), "Failed to query spans: x");
    assert_eq!(pricing_source(true, "X"), "LiteLLM");
    assert_eq!(pricing_source(false, "X"), "fallback (hardcoded X rates)");
}

#[test]
fn the_dearest_calls_come_first() {
    let costs = vec![5, 40, -1, 40, 7];
    assert_eq!(dearest(&costs, 3), vec![1, 3, 4]);
    assert_eq!(dearest(&costs, 9), vec![1, 3, 4, 0, 2]);
    assert!(dearest(&costs, 0).is_empty());
    assert!(dearest(&Vec::new(), 4).is_empty());
}

#[test]
fn filters_look_inside_the_names() {
    let usage = |name: &str, n: u64| NamedUsage {
        name: name.to_string(),
        input_tokens: n,
        output_tokens: 2 * n,
        requests: 1,
    };
    let usages = vec![usage("gpt-4o", 1), usage("sonnet", 10), usage("gpt-4", 100)];
    let rows = usage_rows(&usages, &Some("gpt-4".to_string()));
    assert_eq!(rows.iter().map(|r| r.name.as_str()).collect::<Vec<_>>(), vec!["gpt-4o", "gpt-4"]);
    assert_eq!(rows[1].total_tokens, 300);
    assert_eq!(usage_rows(&usages, &None).len(), 3);
    assert!(usage_rows(&usages, &Some("GPT".to_string())).is_empty());
    assert!(contains_text("anything", ""));
    assert!(contains_text("über", "ber"));
    assert!(!contains_text("", "x"));
}

#[test]
fn calls_are_grouped_by_session() {
    let sessions: Vec<Option<String>> =
        ["s2", "s1", "s2"].iter().map(|s| Some(s.to_string())).chain([None]).collect();
    let calls: Vec<CallTokens> =
        [(10, 1), (500, 2), (20, 3), (7, 4)].iter().map(|(i, o)| CallTokens { input: *i, output: *o }).collect();
    let rows = session_rows(&sessions, &calls);
    let seen: u64 = rows.iter().map(|r| r.input_tokens).sum();
    assert_eq!(seen, 537);
    let s2 = rows.iter().find(|r| r.session_id == "s2").unwrap();
    assert_eq!((s2.requests, s2.input_tokens, s2.output_tokens), (2, 30, 4));
    assert_eq!(s2.calls, vec![0, 2]);
    assert_eq!(rows.len(), 3);
}

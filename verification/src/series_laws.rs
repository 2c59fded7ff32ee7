//! What latency over time, conversations and sessions promise of the rows that they are made of.
use crate::group;
use crate::latency;
use crate::latency::TtftReading;
use crate::latency_laws;
use crate::latency_series;
use crate::latency_series::{LatencySeriesPoint, SeriesRow, SeriesSample};
use crate::order;
use crate::sums;
use crate::text;
use crate::usage;
use crate::usage::{CallTokens, NamedUsage, SessionRow, UsageCommand, UsageQuery, UsageRow, UsageSection};
use vstd::prelude::*;

verus! {

/// Whole milliseconds are those that have passed; part of one does not count, on either side of zero.
pub proof fn milliseconds_are_whole(nanos: int)
    ensures
        nanos >= 0 ==> latency::whole_millis(nanos) * 1_000_000 <= nanos < (latency::whole_millis(nanos) + 1)
            * 1_000_000,
        nanos < 0 ==> (latency::whole_millis(nanos) - 1) * 1_000_000 < nanos <= latency::whole_millis(nanos)
            * 1_000_000,
{
}

/// The total of some values is their sum.
pub proof fn totals_are_sums(values: Seq<i64>)
    ensures
        latency::total(values) == sums::sum_by(values, |v: i64| v as int),
    decreases values.len(),
{
    if values.len() > 0 {
        totals_are_sums(values.drop_last());
    }
}

/// A span of the rows belongs to a point: it starts in the bucket of the point, and its model, or its name
/// where all spans are looked at, is that of the point.
pub open spec fn belongs(row: SeriesRow, point: LatencySeriesPoint, all_spans: bool) -> bool {
    row.bucket == point.timestamp && text::optional(row.label) == if all_spans {
        text::optional(point.name)
    } else {
        text::optional(point.model)
    }
}

/// What the spans of a point sum up to.
pub open spec fn of_point(
    point: LatencySeriesPoint,
    all_spans: bool,
    f: spec_fn(SeriesSample) -> int,
) -> spec_fn(SeriesRow) -> int {
    |r: SeriesRow|
        if belongs(r, point, all_spans) {
            f(r.sample)
        } else {
            0int
        }
}

/// The samples of a point's own spans.
spec fn own(point: LatencySeriesPoint, rows: Seq<SeriesRow>, all_spans: bool) -> Seq<SeriesSample> {
    group::gather(
        latency_series::series_keys(rows),
        latency_series::series_samples(rows),
        latency_series::point_key(point, all_spans),
    )
}

/// What is gathered for a point sums up over its spans.
proof fn lemma_of_point(
    point: LatencySeriesPoint,
    rows: Seq<SeriesRow>,
    all_spans: bool,
    f: spec_fn(SeriesSample) -> int,
)
    ensures
        sums::sum_by(own(point, rows, all_spans), f) == sums::sum_by(rows, of_point(point, all_spans, f)),
    decreases rows.len(),
{
    if rows.len() > 0 {
        let prior = rows.drop_last();
        lemma_of_point(point, prior, all_spans, f);
        assert(latency_series::series_keys(rows).drop_last() =~= latency_series::series_keys(prior));
        assert(latency_series::series_samples(rows).drop_last() =~= latency_series::series_samples(prior));
        sums::lemma_sum_by_push(own(point, prior, all_spans), rows.last().sample, f);
    }
}

/// The valid time to first token of a span.
pub open spec fn valid_ttft(s: SeriesSample) -> Option<i64> {
    match s.timing.reading {
        TtftReading::Millis { ms, valid } => if valid {
            Some(ms)
        } else {
            None
        },
        _ => None,
    }
}

/// The span has a reading that is no valid time.
pub open spec fn is_rejected(s: SeriesSample) -> bool {
    !(s.timing.reading is Absent) && valid_ttft(s) is None
}

/// The valid time to first token is nine tenths of the span or more.
pub open spec fn is_late(s: SeriesSample) -> bool {
    valid_ttft(s) is Some && s.timing.duration_ms > 0 && 10 * valid_ttft(s)->0 >= 9 * s.timing.duration_ms
}

/// One for each span with a property.
pub open spec fn one(p: spec_fn(SeriesSample) -> bool) -> spec_fn(SeriesSample) -> int {
    |s: SeriesSample|
        if p(s) {
            1int
        } else {
            0int
        }
}

/// The counts of some samples are taken sample by sample.
proof fn lemma_counts(samples: Seq<SeriesSample>)
    ensures
        ({
            let t = latency_series::timings(samples);
            &&& samples.len() == sums::sum_by(samples, one(|s: SeriesSample| true))
            &&& latency_series::errors(samples) == sums::sum_by(samples, one(|s: SeriesSample| s.is_error))
            &&& latency::total(latency_series::durations(t)) == sums::sum_by(
                samples,
                |s: SeriesSample| s.timing.duration_ms as int,
            )
            &&& latency::ttft_values(t).len() == sums::sum_by(samples, one(|s: SeriesSample| valid_ttft(s) is Some))
            &&& latency::total(latency::ttft_values(t)) == sums::sum_by(samples, ttft_or_zero())
            &&& latency::ttft_invalid(t) == sums::sum_by(samples, one(|s: SeriesSample| is_rejected(s)))
            &&& latency::ttft_late(t) == sums::sum_by(samples, one(|s: SeriesSample| is_late(s)))
        }),
    decreases samples.len(),
{
    let all = |s: SeriesSample| true;
    let failed = |s: SeriesSample| s.is_error;
    let valid = |s: SeriesSample| valid_ttft(s) is Some;
    let rejected = |s: SeriesSample| is_rejected(s);
    let late = |s: SeriesSample| is_late(s);
    let t = latency_series::timings(samples);
    if samples.len() > 0 {
        let prior = samples.drop_last();
        lemma_counts(prior);
        let before = latency_series::timings(prior);
        assert(t.drop_last() =~= before);
        assert(t.last() == samples.last().timing);
        assert(latency_series::durations(t).drop_last() =~= latency_series::durations(before));
        assert(latency_series::durations(t).last() == samples.last().timing.duration_ms);
        if valid_ttft(samples.last()) is Some {
            let v = valid_ttft(samples.last())->0;
            assert(latency::ttft_values(t) =~= latency::ttft_values(before).push(v));
            assert(latency::ttft_values(t).drop_last() =~= latency::ttft_values(before));
        }
    } else {
        assert(latency_series::durations(t) =~= Seq::<i64>::empty());
    }
}

/// The valid time to first token of a span, or none.
pub open spec fn ttft_or_zero() -> spec_fn(SeriesSample) -> int {
    |s: SeriesSample|
        match valid_ttft(s) {
            Some(ms) => ms as int,
            None => 0int,
        }
}

/// A point counts its spans, those that failed, and their times to first token of each kind, and adds up
/// their durations and their valid times.
pub proof fn points_count_their_spans(point: LatencySeriesPoint, rows: Seq<SeriesRow>, all_spans: bool)
    requires
        latency_series::is_point(point, rows, all_spans),
    ensures
        ({
            let count = |p: spec_fn(SeriesSample) -> bool|
                sums::sum_by(rows, of_point(point, all_spans, one(p)));
            let valid = count(|s: SeriesSample| valid_ttft(s) is Some);
            let late = count(|s: SeriesSample| is_late(s));
            &&& point.summary.count == count(|s: SeriesSample| true)
            &&& point.error_count == count(|s: SeriesSample| s.is_error)
            &&& point.summary.ttft_count == valid
            &&& point.summary.ttft_invalid_count == count(|s: SeriesSample| is_rejected(s))
            &&& point.summary.ttft_degenerate_count == late
            &&& point.summary.ttft_degenerate <==> valid >= 10 && 10 * late >= 9 * valid
            &&& point.summary.total_ms == sums::sum_by(
                rows,
                of_point(point, all_spans, |s: SeriesSample| s.timing.duration_ms as int),
            )
            &&& point.summary.ttft_total_ms is Some <==> valid > 0
            &&& point.summary.ttft_total_ms matches Some(t) ==> t == sums::sum_by(
                rows,
                of_point(point, all_spans, ttft_or_zero()),
            )
        }),
        if all_spans {
            point.model is None
        } else {
            point.name is None
        },
{
    let all = |s: SeriesSample| true;
    let failed = |s: SeriesSample| s.is_error;
    let valid = |s: SeriesSample| valid_ttft(s) is Some;
    let rejected = |s: SeriesSample| is_rejected(s);
    let late = |s: SeriesSample| is_late(s);
    let duration = |s: SeriesSample| s.timing.duration_ms as int;
    let samples = own(point, rows, all_spans);
    lemma_counts(samples);
    assert(latency_series::timings(samples).len() == samples.len());
    lemma_of_point(point, rows, all_spans, one(all));
    lemma_of_point(point, rows, all_spans, one(failed));
    lemma_of_point(point, rows, all_spans, one(valid));
    lemma_of_point(point, rows, all_spans, one(rejected));
    lemma_of_point(point, rows, all_spans, one(late));
    lemma_of_point(point, rows, all_spans, duration);
    lemma_of_point(point, rows, all_spans, ttft_or_zero());
}

/// The durations with a property are counted sample by sample.
proof fn lemma_durations(samples: Seq<SeriesSample>, p: spec_fn(i64) -> bool)
    ensures
        sums::how_many(latency_series::durations(latency_series::timings(samples)), p) == sums::sum_by(
            samples,
            one(|s: SeriesSample| p(s.timing.duration_ms)),
        ),
    decreases samples.len(),
{
    let d = latency_series::durations(latency_series::timings(samples));
    let q = |s: SeriesSample| p(s.timing.duration_ms);
    if samples.len() > 0 {
        let prior = samples.drop_last();
        lemma_durations(prior, p);
        assert(d.drop_last() =~= latency_series::durations(latency_series::timings(prior)));
        assert(d.last() == samples.last().timing.duration_ms);
    } else {
        assert(d =~= Seq::<i64>::empty());
    }
}

/// No span of a point is shorter than its shortest or longer than its longest, and its ninety-fifth
/// percentile has the nearest rank among the durations of its spans.
pub proof fn points_hold_the_range_of_their_spans(
    point: LatencySeriesPoint,
    rows: Seq<SeriesRow>,
    all_spans: bool,
    i: int,
)
    requires
        latency_series::is_point(point, rows, all_spans),
        0 <= i < rows.len(),
        belongs(rows[i], point, all_spans),
    ensures
        point.summary.min_ms <= rows[i].sample.timing.duration_ms <= point.summary.max_ms,
        point.summary.min_ms <= point.summary.p95_ms <= point.summary.max_ms,
        100 * sums::sum_by(
            rows,
            of_point(point, all_spans, one(|s: SeriesSample| s.timing.duration_ms < point.summary.p95_ms)),
        ) <= 95 * (point.summary.count - 1) + 50,
        100 * sums::sum_by(
            rows,
            of_point(point, all_spans, one(|s: SeriesSample| s.timing.duration_ms <= point.summary.p95_ms)),
        ) > 95 * (point.summary.count - 1) + 50,
{
    let keys = latency_series::series_keys(rows);
    let values = latency_series::series_samples(rows);
    let samples = own(point, rows, all_spans);
    let d = latency_series::durations(latency_series::timings(samples));
    let sorted = order::ascending(d);
    let p95 = point.summary.p95_ms;
    assert(keys[i] == latency_series::point_key(point, all_spans));
    group::lemma_gathered_into(keys, values, i);
    assert(samples.contains(values[i]));
    let j = samples.index_of(values[i]);
    assert(d[j] == rows[i].sample.timing.duration_ms);
    order::lemma_ascending(d);
    assert(d.contains(d[j]));
    assert(sorted.contains(d[j]));
    let at = sorted.index_of(d[j]);
    assert(sorted[0] <= sorted[at] <= sorted[d.len() - 1]);
    latency_laws::percentiles_are_of_the_nearest_rank(d, 95);
    assert(d.contains(p95));
    assert(sorted.contains(p95));
    let place = sorted.index_of(p95);
    assert(sorted[0] <= sorted[place] <= sorted[d.len() - 1]);
    let below = |x: i64| x < p95;
    let upto = |x: i64| x <= p95;
    let shorter = |s: SeriesSample| s.timing.duration_ms < p95;
    let no_longer = |s: SeriesSample| s.timing.duration_ms <= p95;
    lemma_durations(samples, below);
    lemma_durations(samples, upto);
    sums::lemma_agreeing_sums(samples, one(|s: SeriesSample| below(s.timing.duration_ms)), one(shorter));
    sums::lemma_agreeing_sums(samples, one(|s: SeriesSample| upto(s.timing.duration_ms)), one(no_longer));
    lemma_of_point(point, rows, all_spans, one(shorter));
    lemma_of_point(point, rows, all_spans, one(no_longer));
}

/// Points come in the order of time, and one bucket has at most one point for a model or a name.
pub proof fn points_come_in_the_order_of_time(
    points: Seq<LatencySeriesPoint>,
    rows: Seq<SeriesRow>,
    all_spans: bool,
    j: int,
    k: int,
)
    requires
        latency_series::is_latency_series(points, rows, all_spans),
        0 <= j < k < points.len(),
    ensures
        points[j].timestamp <= points[k].timestamp,
        points[j].timestamp == points[k].timestamp ==> if all_spans {
            text::optional(points[j].name) != text::optional(points[k].name)
        } else {
            text::optional(points[j].model) != text::optional(points[k].model)
        },
{
    assert(latency_series::key_before(
        latency_series::point_key(points[j], all_spans),
        latency_series::point_key(points[k], all_spans),
    ));
}

/// A call counts towards a session; one without a session counts towards `(no session)`.
pub open spec fn counts_towards(session: Option<String>, id: Seq<char>) -> bool {
    match session {
        Some(s) => s@ == id,
        None => id == "(no session)"@,
    }
}

/// What the calls of a session sum up to.
pub open spec fn session_sum(
    sessions: Seq<Option<String>>,
    calls: Seq<CallTokens>,
    id: Seq<char>,
    f: spec_fn(CallTokens) -> int,
) -> int
    decreases calls.len(),
{
    if calls.len() == 0 || sessions.len() == 0 {
        0
    } else {
        session_sum(sessions.drop_last(), calls.drop_last(), id, f) + if counts_towards(sessions.last(), id) {
            f(calls.last())
        } else {
            0
        }
    }
}

/// What is gathered under a session sums up over its calls.
proof fn lemma_session(
    sessions: Seq<Option<String>>,
    calls: Seq<CallTokens>,
    id: Seq<char>,
    f: spec_fn(CallTokens) -> int,
)
    requires
        sessions.len() == calls.len(),
    ensures
        sums::sum_by(group::gather(usage::session_names(sessions), calls, id), f) == session_sum(
            sessions,
            calls,
            id,
            f,
        ),
    decreases calls.len(),
{
    if calls.len() > 0 {
        let before = sessions.drop_last();
        lemma_session(before, calls.drop_last(), id, f);
        assert(usage::session_names(sessions).drop_last() =~= usage::session_names(before));
        sums::lemma_sum_by_push(
            group::gather(usage::session_names(before), calls.drop_last(), id),
            calls.last(),
            f,
        );
    }
}

/// As many as there are sum up to their number.
proof fn lemma_each<T>(s: Seq<T>)
    ensures
        sums::sum_by(s, |x: T| 1int) == s.len(),
    decreases s.len(),
{
    if s.len() > 0 {
        lemma_each(s.drop_last());
    }
}

/// The row of a session counts its calls and adds up their input and their output.
pub proof fn sessions_add_up_their_calls(
    row: SessionRow,
    sessions: Seq<Option<String>>,
    calls: Seq<CallTokens>,
)
    requires
        sessions.len() == calls.len(),
        usage::is_session_row(row, row.session_id@, usage::session_names(sessions), calls),
    ensures
        row.requests == session_sum(sessions, calls, row.session_id@, |c: CallTokens| 1int),
        row.input_tokens == session_sum(sessions, calls, row.session_id@, |c: CallTokens| c.input as int),
        row.output_tokens == session_sum(sessions, calls, row.session_id@, |c: CallTokens| c.output as int),
{
    let id = row.session_id@;
    let gathered = group::gather(usage::session_names(sessions), calls, id);
    let input = |c: CallTokens| c.input as int;
    let output = |c: CallTokens| c.output as int;
    let each = |c: CallTokens| 1int;
    lemma_each(gathered);
    lemma_session(sessions, calls, id, each);
    lemma_session(sessions, calls, id, input);
    lemma_session(sessions, calls, id, output);
    sums::lemma_agreeing_sums(gathered, input, usage::call_input());
    sums::lemma_agreeing_sums(gathered, output, usage::call_output());
    sums::lemma_agreeing_sums(gathered, each, |x: CallTokens| 1int);
}

/// One more query leaves the others.
proof fn lemma_with_query(queries: Seq<UsageQuery>, wanted: bool, q: UsageQuery, other: UsageQuery)
    ensures
        usage::with_query(queries, wanted, q).contains(other) <==> queries.contains(other) || (wanted && other == q),
{
    let all = usage::with_query(queries, wanted, q);
    if queries.contains(other) {
        let i = queries.index_of(other);
        assert(all[i] == other);
    }
    if wanted && other == q {
        assert(all[queries.len() as int] == other);
    }
    if all.contains(other) {
        let i = all.index_of(other);
        if i < queries.len() {
            assert(queries[i] == other);
        }
    }
}

/// A query is wanted by its own argument.
pub open spec fn wants(c: UsageCommand, q: UsageQuery) -> bool {
    match q {
        UsageQuery::TokenUsage => true,
        UsageQuery::TopSpans => c.top is Some,
        UsageQuery::LatencyStats => c.latency,
        UsageQuery::TruncationRate => c.truncation,
        UsageQuery::CacheHitRate => c.cache_rate,
        UsageQuery::RequestParams => c.request_params,
        UsageQuery::ConversationDepth => c.conv_depth,
        UsageQuery::ToolUsage(limit) => c.tools && limit == 50,
        UsageQuery::ErrorTypes => c.error_types,
        UsageQuery::ModelDrift => c.model_drift,
        UsageQuery::SessionSpans => c.by_session,
    }
}

/// The first queries of a command, and whether one is among them.
proof fn lemma_first_queries(c: UsageCommand, q: UsageQuery) -> (s: Seq<UsageQuery>)
    ensures
        s == usage::with_query(
            usage::with_query(
                usage::with_query(
                    usage::with_query(
                        usage::with_query(
                            Seq::<UsageQuery>::empty().push(UsageQuery::TokenUsage),
                            c.top is Some,
                            UsageQuery::TopSpans,
                        ),
                        c.latency,
                        UsageQuery::LatencyStats,
                    ),
                    c.truncation,
                    UsageQuery::TruncationRate,
                ),
                c.cache_rate,
                UsageQuery::CacheHitRate,
            ),
            c.request_params,
            UsageQuery::RequestParams,
        ),
        s.contains(q) <==> q == UsageQuery::TokenUsage || (c.top is Some && q == UsageQuery::TopSpans) || (c.latency && q
            == UsageQuery::LatencyStats) || (c.truncation && q == UsageQuery::TruncationRate) || (c.cache_rate && q
            == UsageQuery::CacheHitRate) || (c.request_params && q == UsageQuery::RequestParams),
{
    let s = Seq::<UsageQuery>::empty();
    assert(!s.contains(q));
    lemma_with_query(s, true, UsageQuery::TokenUsage, q);
    let s = s.push(UsageQuery::TokenUsage);
    lemma_with_query(s, c.top is Some, UsageQuery::TopSpans, q);
    let s = usage::with_query(s, c.top is Some, UsageQuery::TopSpans);
    lemma_with_query(s, c.latency, UsageQuery::LatencyStats, q);
    let s = usage::with_query(s, c.latency, UsageQuery::LatencyStats);
    lemma_with_query(s, c.truncation, UsageQuery::TruncationRate, q);
    let s = usage::with_query(s, c.truncation, UsageQuery::TruncationRate);
    lemma_with_query(s, c.cache_rate, UsageQuery::CacheHitRate, q);
    let s = usage::with_query(s, c.cache_rate, UsageQuery::CacheHitRate);
    lemma_with_query(s, c.request_params, UsageQuery::RequestParams, q);
    usage::with_query(s, c.request_params, UsageQuery::RequestParams)
}

/// The further queries of a command, and whether one is among them.
proof fn lemma_further_queries(c: UsageCommand, first: Seq<UsageQuery>, q: UsageQuery)
    ensures
        usage::with_query(
            usage::with_query(
                usage::with_query(
                    usage::with_query(
                        usage::with_query(first, c.conv_depth, UsageQuery::ConversationDepth),
                        c.tools,
                        UsageQuery::ToolUsage(50),
                    ),
                    c.error_types,
                    UsageQuery::ErrorTypes,
                ),
                c.model_drift,
                UsageQuery::ModelDrift,
            ),
            c.by_session,
            UsageQuery::SessionSpans,
        ).contains(q) <==> first.contains(q) || (c.conv_depth && q == UsageQuery::ConversationDepth) || (c.tools && q
            == UsageQuery::ToolUsage(50)) || (c.error_types && q == UsageQuery::ErrorTypes) || (c.model_drift && q
            == UsageQuery::ModelDrift) || (c.by_session && q == UsageQuery::SessionSpans),
{
    lemma_with_query(first, c.conv_depth, UsageQuery::ConversationDepth, q);
    let s = usage::with_query(first, c.conv_depth, UsageQuery::ConversationDepth);
    lemma_with_query(s, c.tools, UsageQuery::ToolUsage(50), q);
    let s = usage::with_query(s, c.tools, UsageQuery::ToolUsage(50));
    lemma_with_query(s, c.error_types, UsageQuery::ErrorTypes, q);
    let s = usage::with_query(s, c.error_types, UsageQuery::ErrorTypes);
    lemma_with_query(s, c.model_drift, UsageQuery::ModelDrift, q);
    let s = usage::with_query(s, c.model_drift, UsageQuery::ModelDrift);
    lemma_with_query(s, c.by_session, UsageQuery::SessionSpans, q);
}

/// The command asks the store exactly what its arguments want, and always for the usage of tokens.
#[verifier::spinoff_prover]
#[verifier::rlimit(50)]
pub proof fn commands_ask_what_is_wanted(c: UsageCommand, q: UsageQuery)
    ensures
        c.queries().contains(q) <==> wants(c, q),
{
    let first = lemma_first_queries(c, q);
    lemma_further_queries(c, first, q);
}

/// One more section leaves the others.
proof fn lemma_with_section(sections: Seq<UsageSection>, wanted: bool, s: UsageSection, other: UsageSection)
    ensures
        usage::with_section(sections, wanted, s).contains(other) <==> sections.contains(other) || (wanted && other
            == s),
{
    reveal(usage::with_section);
    let all = usage::with_section(sections, wanted, s);
    if sections.contains(other) {
        let i = sections.index_of(other);
        assert(all[i] == other);
    }
    if wanted && other == s {
        assert(all[sections.len() as int] == other);
    }
    if all.contains(other) {
        let i = all.index_of(other);
        if i < sections.len() {
            assert(sections[i] == other);
        }
    }
}

/// A further section stands beside the others.
proof fn lemma_one_more(sections: Seq<UsageSection>, s: UsageSection, other: UsageSection)
    ensures
        sections.push(s).contains(other) <==> sections.contains(other) || other == s,
{
    reveal(usage::with_section);
    lemma_with_section(sections, true, s, other);
}

/// A section is wanted by its own argument. Without a word on models or systems, models are wanted.
pub open spec fn wants_section(c: UsageCommand, s: UsageSection) -> bool {
    match s {
        UsageSection::Summary => true,
        UsageSection::Models => c.by_model || c.model is Some || !(c.by_system || c.system is Some),
        UsageSection::Systems => c.by_system || c.system is Some,
        UsageSection::TopSpans(n) => c.top == Some(n),
        UsageSection::Sessions => c.by_session,
        UsageSection::LatencyStats => c.latency,
        UsageSection::TruncationRate => c.truncation,
        UsageSection::CacheHitRate => c.cache_rate,
        UsageSection::RequestParams => c.request_params,
        UsageSection::ConversationDepth => c.conv_depth,
        UsageSection::ToolUsage => c.tools,
        UsageSection::ErrorTypes => c.error_types,
        UsageSection::ModelDrift => c.model_drift,
    }
}

/// The command shows exactly what its arguments want, and always the summary.
#[verifier::spinoff_prover]
#[verifier::rlimit(50)]
pub proof fn commands_show_what_is_wanted(c: UsageCommand, q: UsageSection)
    ensures
        c.shown().contains(q) <==> wants_section(c, q),
{
    let s = Seq::<UsageSection>::empty();
    assert(!s.contains(q));
    lemma_one_more(s, UsageSection::Summary, q);
    let s = s.push(UsageSection::Summary);
    lemma_with_section(s, c.shows_models(), UsageSection::Models, q);
    let s = usage::with_section(s, c.shows_models(), UsageSection::Models);
    lemma_with_section(s, c.shows_systems(), UsageSection::Systems, q);
    let s = usage::with_section(s, c.shows_systems(), UsageSection::Systems);
    if let Some(n) = c.top {
        lemma_one_more(s, UsageSection::TopSpans(n), q);
    }
    let s = match c.top {
        Some(n) => s.push(UsageSection::TopSpans(n)),
        None => s,
    };
    lemma_with_section(s, c.by_session, UsageSection::Sessions, q);
    let s = usage::with_section(s, c.by_session, UsageSection::Sessions);
    lemma_with_section(s, c.latency, UsageSection::LatencyStats, q);
    let s = usage::with_section(s, c.latency, UsageSection::LatencyStats);
    lemma_with_section(s, c.truncation, UsageSection::TruncationRate, q);
    let s = usage::with_section(s, c.truncation, UsageSection::TruncationRate);
    lemma_with_section(s, c.cache_rate, UsageSection::CacheHitRate, q);
    let s = usage::with_section(s, c.cache_rate, UsageSection::CacheHitRate);
    lemma_with_section(s, c.request_params, UsageSection::RequestParams, q);
    let s = usage::with_section(s, c.request_params, UsageSection::RequestParams);
    lemma_with_section(s, c.conv_depth, UsageSection::ConversationDepth, q);
    let s = usage::with_section(s, c.conv_depth, UsageSection::ConversationDepth);
    lemma_with_section(s, c.tools, UsageSection::ToolUsage, q);
    let s = usage::with_section(s, c.tools, UsageSection::ToolUsage);
    lemma_with_section(s, c.error_types, UsageSection::ErrorTypes, q);
    let s = usage::with_section(s, c.error_types, UsageSection::ErrorTypes);
    lemma_with_section(s, c.model_drift, UsageSection::ModelDrift, q);
}

/// The row of a usage holds its input, its output and both together under its name.
pub proof fn usage_rows_hold_the_usage(row: UsageRow, usage: NamedUsage)
    requires
        usage::is_row_of(row, usage),
    ensures
        row.name@ == usage.name@,
        row.input_tokens == usage.input_tokens,
        row.output_tokens == usage.output_tokens,
        row.total_tokens == row.input_tokens + row.output_tokens,
        row.requests == usage.requests,
{
}

/// A name passes a filter exactly where the filter stands somewhere in it; without a filter every name does.
pub proof fn filters_look_anywhere_in_the_name(before: Seq<char>, part: Seq<char>, behind: Seq<char>, name: Seq<char>)
    ensures
        usage::passes(before + part + behind, Some(part)),
        usage::passes(name, None),
        usage::passes(name, Some(part)) ==> exists|a: Seq<char>, b: Seq<char>| name == #[trigger] (a + part + b),
{
    let whole = before + part + behind;
    assert(whole.subrange(before.len() as int, (before.len() + part.len()) as int) =~= part);
    assert(usage::stands_at(whole, part, before.len() as int));
    if usage::passes(name, Some(part)) {
        let i = choose|i: int| usage::stands_at(name, part, i);
        let a = name.take(i);
        let b = name.skip(i + part.len());
        assert(name =~= a + part + b);
    }
}

/// The valid times to first token with a property are counted sample by sample.
proof fn lemma_ttfts(samples: Seq<SeriesSample>, p: spec_fn(i64) -> bool)
    ensures
        sums::how_many(latency::ttft_values(latency_series::timings(samples)), p) == sums::sum_by(
            samples,
            one(|s: SeriesSample| valid_ttft(s) is Some && p(valid_ttft(s)->0)),
        ),
    decreases samples.len(),
{
    let t = latency_series::timings(samples);
    let q = |s: SeriesSample| valid_ttft(s) is Some && p(valid_ttft(s)->0);
    if samples.len() > 0 {
        let prior = samples.drop_last();
        lemma_ttfts(prior, p);
        let before = latency_series::timings(prior);
        assert(t.drop_last() =~= before);
        assert(t.last() == samples.last().timing);
        if valid_ttft(samples.last()) is Some {
            let v = valid_ttft(samples.last())->0;
            assert(latency::ttft_values(t) =~= latency::ttft_values(before).push(v));
            sums::lemma_sum_by_push(latency::ttft_values(before), v, sums::one_where(p));
        }
    }
}

/// The ninety-fifth percentile of the times to first token of a point has the nearest rank among the valid
/// times of its spans, and there is none without a valid time.
pub proof fn points_hold_the_percentile_of_their_first_tokens(
    point: LatencySeriesPoint,
    rows: Seq<SeriesRow>,
    all_spans: bool,
)
    requires
        latency_series::is_point(point, rows, all_spans),
    ensures
        point.summary.p95_ttft_ms is Some <==> point.summary.ttft_count > 0,
        point.summary.p95_ttft_ms matches Some(v) ==> 100 * sums::sum_by(
            rows,
            of_point(point, all_spans, one(|s: SeriesSample| valid_ttft(s) is Some && valid_ttft(s)->0 < v)),
        ) <= 95 * (point.summary.ttft_count - 1) + 50 && 100 * sums::sum_by(
            rows,
            of_point(point, all_spans, one(|s: SeriesSample| valid_ttft(s) is Some && valid_ttft(s)->0 <= v)),
        ) > 95 * (point.summary.ttft_count - 1) + 50,
{
    let samples = own(point, rows, all_spans);
    let values = latency::ttft_values(latency_series::timings(samples));
    if point.summary.p95_ttft_ms is Some {
        let v = point.summary.p95_ttft_ms->0;
        latency_laws::percentiles_are_of_the_nearest_rank(values, 95);
        let below = |x: i64| x < v;
        let upto = |x: i64| x <= v;
        let earlier = |s: SeriesSample| valid_ttft(s) is Some && valid_ttft(s)->0 < v;
        let no_later = |s: SeriesSample| valid_ttft(s) is Some && valid_ttft(s)->0 <= v;
        lemma_ttfts(samples, below);
        lemma_ttfts(samples, upto);
        sums::lemma_agreeing_sums(
            samples,
            one(|s: SeriesSample| valid_ttft(s) is Some && below(valid_ttft(s)->0)),
            one(earlier),
        );
        sums::lemma_agreeing_sums(
            samples,
            one(|s: SeriesSample| valid_ttft(s) is Some && upto(valid_ttft(s)->0)),
            one(no_later),
        );
        lemma_of_point(point, rows, all_spans, one(earlier));
        lemma_of_point(point, rows, all_spans, one(no_later));
    }
}

/// The calls of a session's row are those that count towards it, and all of them.
pub proof fn sessions_list_their_calls(
    row: SessionRow,
    sessions: Seq<Option<String>>,
    calls: Seq<CallTokens>,
    p: usize,
)
    requires
        sessions.len() == calls.len(),
        calls.len() <= usize::MAX,
        usage::is_session_row(row, row.session_id@, usage::session_names(sessions), calls),
    ensures
        row.calls@.contains(p) <==> p < calls.len() && counts_towards(sessions[p as int], row.session_id@),
{
    let id = row.session_id@;
    let names = usage::session_names(sessions);
    let all = group::all_positions(calls.len());
    if row.calls@.contains(p) {
        let j = row.calls@.index_of(p);
        let i = group::lemma_gathered_from(names, all, id, j);
        assert(all[i] == p);
    }
    if p < calls.len() && counts_towards(sessions[p as int], id) {
        assert(names[p as int] == id);
        assert(all[p as int] == p);
        group::lemma_gathered_into(names, all, p as int);
    }
}

} // verus!

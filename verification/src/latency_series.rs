//! Latency over time, by context size, and by conversation.
use crate::group;
use crate::group::Key;
use crate::latency;
use crate::latency::{TtftAccum, TtftSample};
use crate::order;
use crate::order::LabelRank;
use crate::text;
use vstd::prelude::*;

verus! {

/// What some spans have in common: how long they took, and when their first tokens came.
pub struct SpanSummary {
    pub count: usize,
    pub min_ms: i64,
    /// The sum of the durations, whose mean is this over `count`.
    pub total_ms: i128,
    pub p95_ms: i64,
    pub max_ms: i64,
    /// The sum of the times to first token, whose mean is this over `ttft_count`.
    pub ttft_total_ms: Option<i128>,
    pub p95_ttft_ms: Option<i64>,
    pub ttft_count: usize,
    pub ttft_invalid_count: usize,
    pub ttft_degenerate_count: usize,
    pub ttft_degenerate: bool,
}

/// The durations of the samples.
pub open spec fn durations(samples: Seq<TtftSample>) -> Seq<i64> {
    Seq::new(samples.len(), |i: int| samples[i].duration_ms)
}

/// The sum of some values, where there are any.
pub open spec fn some_total(values: Seq<i64>) -> Option<int> {
    if values.len() == 0 {
        None
    } else {
        Some(latency::total(values))
    }
}

/// An optional number as an integer.
pub open spec fn as_int(n: Option<i128>) -> Option<int> {
    match n {
        Some(v) => Some(v as int),
        None => None,
    }
}

/// The summary is that of the samples.
pub open spec fn summarises(summary: SpanSummary, samples: Seq<TtftSample>) -> bool {
    let d = durations(samples);
    let t = latency::ttft_values(samples);
    &&& summary.count == samples.len()
    &&& summary.min_ms == order::ascending(d)[0]
    &&& summary.total_ms == latency::total(d)
    &&& summary.p95_ms == latency::percentile_of(d, 95)
    &&& summary.max_ms == order::ascending(d)[d.len() - 1]
    &&& as_int(summary.ttft_total_ms) == some_total(t)
    &&& summary.p95_ttft_ms == latency::some_percentile(t, 95)
    &&& summary.ttft_count == t.len()
    &&& summary.ttft_invalid_count == latency::ttft_invalid(samples)
    &&& summary.ttft_degenerate_count == latency::ttft_late(samples)
    &&& summary.ttft_degenerate == latency::mostly_late(t.len() as int, latency::ttft_late(samples))
}

/// Summarises some spans.
fn summarise(samples: &Vec<TtftSample>) -> (summary: SpanSummary)
    requires
        samples@.len() > 0,
    ensures
        summarises(summary, samples@),
{
    let mut all: Vec<i64> = Vec::new();
    let mut ttft = TtftAccum::new();
    let mut i: usize = 0;
    assert(samples@.take(0) =~= Seq::empty());
    while i < samples.len()
        invariant
            i <= samples@.len(),
            all@ == durations(samples@.take(i as int)),
            ttft.holds(samples@.take(i as int)),
            ttft.invalid_count <= i,
            ttft.degenerate_count <= i,
        decreases samples@.len() - i,
    {
        let s: TtftSample = samples[i];
        proof {
            assert(samples@.take(i + 1) =~= samples@.take(i as int).push(s));
            assert(durations(samples@.take(i + 1)) =~= durations(samples@.take(i as int)).push(
                s.duration_ms,
            ));
        }
        all.push(s.duration_ms);
        ttft.record(s.duration_ms, s.reading);
        i = i + 1;
    }
    assert(samples@.take(i as int) =~= samples@);
    let sorted = order::sorted_values(&all);
    let sorted_ttft = order::sorted_values(&ttft.values_ms);
    proof {
        order::lemma_ascending(all@);
        order::lemma_ascending(ttft.values_ms@);
    }
    let n: usize = sorted.len();
    let (ttft_total_ms, p95_ttft_ms) = if sorted_ttft.len() == 0 {
        (None, None)
    } else {
        (Some(latency::add_up(&ttft.values_ms)), Some(latency::percentile(&sorted_ttft, 95)))
    };
    SpanSummary {
        count: n,
        min_ms: sorted[0],
        total_ms: latency::add_up(&all),
        p95_ms: latency::percentile(&sorted, 95),
        max_ms: sorted[n - 1],
        ttft_total_ms,
        p95_ttft_ms,
        ttft_count: ttft.values_ms.len(),
        ttft_invalid_count: ttft.invalid_count,
        ttft_degenerate_count: ttft.degenerate_count,
        ttft_degenerate: ttft.is_degenerate(),
    }
}

/// The shortest duration bounds all others from below, the longest from above.
pub proof fn summary_bounds_all(summary: SpanSummary, samples: Seq<TtftSample>, i: int)
    requires
        summarises(summary, samples),
        0 <= i < samples.len(),
    ensures
        summary.min_ms <= samples[i].duration_ms <= summary.max_ms,
        summary.min_ms <= summary.p95_ms <= summary.max_ms,
{
    let d = durations(samples);
    let s = order::ascending(d);
    order::lemma_ascending(d);
    latency::percentile_index_is_monotone(d.len() as int, 95, 100);
    assert(d.contains(d[i]));
    assert(s.contains(d[i]));
    let at = s.index_of(d[i]);
    assert(s[at] == d[i]);
}

/// What one span says of a bucket.
#[derive(Clone, Copy, Debug, PartialEq, Eq, Structural)]
pub struct SeriesSample {
    pub timing: TtftSample,
    pub is_error: bool,
}

/// One span, the bucket that it starts in, and its model or name.
pub struct SeriesRow {
    pub bucket: i64,
    pub label: Option<String>,
    pub sample: SeriesSample,
}

/// The latency of one bucket and one model or name.
pub struct LatencySeriesPoint {
    pub timestamp: i64,
    pub model: Option<String>,
    pub name: Option<String>,
    pub error_count: usize,
    pub summary: SpanSummary,
}

/// The bucket and the label of each row.
pub open spec fn series_keys(rows: Seq<SeriesRow>) -> Seq<(i64, Option<Seq<char>>)> {
    Seq::new(rows.len(), |i: int| (rows[i].bucket, text::optional(rows[i].label)))
}

/// The sample of each row.
pub open spec fn series_samples(rows: Seq<SeriesRow>) -> Seq<SeriesSample> {
    Seq::new(rows.len(), |i: int| rows[i].sample)
}

/// The timing of each sample.
pub open spec fn timings(samples: Seq<SeriesSample>) -> Seq<TtftSample> {
    Seq::new(samples.len(), |i: int| samples[i].timing)
}

/// The number of failed spans.
pub open spec fn errors(samples: Seq<SeriesSample>) -> int
    decreases samples.len(),
{
    if samples.len() == 0 {
        0
    } else {
        errors(samples.drop_last()) + if samples.last().is_error {
            1int
        } else {
            0int
        }
    }
}

/// The bucket and the label of a point. The label is a span name where all spans are looked at, else
/// a model.
pub open spec fn point_key(point: LatencySeriesPoint, all_spans: bool) -> (i64, Option<Seq<char>>) {
    (
        point.timestamp,
        if all_spans {
            text::optional(point.name)
        } else {
            text::optional(point.model)
        },
    )
}

/// Keys by number, then by label.
pub open spec fn key_before(a: (i64, Option<Seq<char>>), b: (i64, Option<Seq<char>>)) -> bool {
    a.0 < b.0 || (a.0 == b.0 && order::label_leq(a.1, b.1) && a.1 != b.1)
}

/// The point is that of its own spans.
pub open spec fn is_point(point: LatencySeriesPoint, rows: Seq<SeriesRow>, all_spans: bool) -> bool {
    let own = group::gather(series_keys(rows), series_samples(rows), point_key(point, all_spans));
    &&& series_keys(rows).contains(point_key(point, all_spans))
    &&& if all_spans {
        point.model is None
    } else {
        point.name is None
    }
    &&& point.error_count == errors(own)
    &&& summarises(point.summary, timings(own))
}

/// One point for each bucket and label that occur together, in the order of time, then of labels.
pub open spec fn is_latency_series(
    points: Seq<LatencySeriesPoint>,
    rows: Seq<SeriesRow>,
    all_spans: bool,
) -> bool {
    &&& points.len() == group::first_seen(series_keys(rows)).len()
    &&& forall|k: int| 0 <= k < points.len() ==> is_point(#[trigger] points[k], rows, all_spans)
    &&& forall|j: int, k: int|
        0 <= j < k < points.len() ==> key_before(
            point_key(#[trigger] points[j], all_spans),
            point_key(#[trigger] points[k], all_spans),
        )
}

/// The timings and the number of failures of some spans.
fn split_samples(samples: &Vec<SeriesSample>) -> (r: (Vec<TtftSample>, usize))
    ensures
        r.0@ == timings(samples@),
        r.1 == errors(samples@),
{
    let mut out: Vec<TtftSample> = Vec::new();
    let mut failed: usize = 0;
    let mut i: usize = 0;
    while i < samples.len()
        invariant
            i <= samples@.len(),
            out@ == timings(samples@.take(i as int)),
            failed == errors(samples@.take(i as int)),
            failed <= i,
        decreases samples@.len() - i,
    {
        proof {
            assert(samples@.take(i + 1).drop_last() =~= samples@.take(i as int));
            assert(timings(samples@.take(i + 1)) =~= timings(samples@.take(i as int)).push(
                samples@[i as int].timing,
            ));
        }
        out.push(samples[i].timing);
        if samples[i].is_error {
            failed = failed + 1;
        }
        i = i + 1;
    }
    assert(samples@.take(i as int) =~= samples@);
    (out, failed)
}

/// Latency by bucket and model, or by bucket and span name where all spans are looked at.
pub fn latency_series(rows: &Vec<SeriesRow>, all_spans: bool) -> (points: Vec<LatencySeriesPoint>)
    ensures
        is_latency_series(points@, rows@, all_spans),
{
    let ghost ids = series_keys(rows@);
    let ghost samples = series_samples(rows@);
    let mut keys: Vec<(i64, Option<String>)> = Vec::new();
    let mut values: Vec<SeriesSample> = Vec::new();
    let mut i: usize = 0;
    while i < rows.len()
        invariant
            i <= rows@.len(),
            keys@.len() == i,
            values@.len() == i,
            forall|j: int| 0 <= j < i ==> (#[trigger] keys@[j]).id() == series_keys(rows@)[j],
            forall|j: int| 0 <= j < i ==> #[trigger] values@[j] == series_samples(rows@)[j],
        decreases rows@.len() - i,
    {
        keys.push((rows[i].bucket, text::copy_optional(&rows[i].label)));
        values.push(rows[i].sample);
        i = i + 1;
    }
    assert(group::ids(keys@) =~= ids);
    assert(values@ =~= samples);
    let groups = group::group_values(&keys, &values);
    let ghost seen = group::first_seen(ids);
    proof {
        group::lemma_first_seen(ids);
    }
    let mut unsorted: Vec<LatencySeriesPoint> = Vec::new();
    let mut ranks: Vec<LabelRank> = Vec::new();
    let mut g: usize = 0;
    while g < groups.len()
        invariant
            g <= groups@.len(),
            ids == series_keys(rows@),
            samples == series_samples(rows@),
            seen == group::first_seen(ids),
            forall|id: (i64, Option<Seq<char>>)| #[trigger] seen.contains(id) <==> ids.contains(id),
            group::is_grouping(groups@, ids, samples),
            unsorted@.len() == g,
            ranks@.len() == g,
            forall|h: int|
                0 <= h < g ==> {
                    &&& point_key(#[trigger] unsorted@[h], all_spans) == seen[h]
                    &&& is_point(unsorted@[h], rows@, all_spans)
                },
            forall|h: int|
                0 <= h < g ==> {
                    &&& (#[trigger] ranks@[h]).number == seen[h].0
                    &&& text::optional(ranks@[h].label) == seen[h].1
                },
        decreases groups@.len() - g,
    {
        proof {
            assert(groups@[g as int].key.id() == seen[g as int]);
            assert(seen.contains(seen[g as int]));
            group::lemma_gather_absent(ids, samples, seen[g as int]);
        }
        let (own, error_count) = split_samples(&groups[g].members);
        let summary = summarise(&own);
        let label = text::copy_optional(&groups[g].key.1);
        ranks.push(
            LabelRank { number: groups[g].key.0 as i128, label: text::copy_optional(&groups[g].key.1) },
        );
        let (model, name) = if all_spans {
            (None, label)
        } else {
            (label, None)
        };
        unsorted.push(
            LatencySeriesPoint { timestamp: groups[g].key.0, model, name, error_count, summary },
        );
        g = g + 1;
    }
    let order = order::order_of(&ranks);
    proof {
        order::sorting_is_a_rearrangement(ranks@, order@);
    }
    let ghost all = unsorted@;
    let points = order::arrange(unsorted, &order);
    proof {
        assert forall|k: int| 0 <= k < points@.len() implies is_point(
            #[trigger] points@[k],
            rows@,
            all_spans,
        ) by {
            assert(points@[k] == all[order@[k] as int]);
        }
        assert forall|j: int, k: int| 0 <= j < k < points@.len() implies key_before(
            point_key(#[trigger] points@[j], all_spans),
            point_key(#[trigger] points@[k], all_spans),
        ) by {
            let a = order@[j] as int;
            let b = order@[k] as int;
            assert(points@[j] == all[a] && points@[k] == all[b]);
            assert(point_key(all[a], all_spans) == seen[a]);
            assert(point_key(all[b], all_spans) == seen[b]);
            assert(order::precedes(ranks@, a, b));
            assert(a != b && seen[a] != seen[b]);
        }
    }
    points
}

/// The lowest number of tokens in a bin.
pub open spec fn bin_floor(bin: int) -> int {
    if bin == 0 {
        0
    } else if bin == 1 {
        1_000
    } else if bin == 2 {
        10_000
    } else if bin == 3 {
        50_000
    } else {
        100_000
    }
}

/// The number of tokens that a bin stays below.
pub open spec fn bin_ceiling(bin: int) -> int {
    if bin < 4 {
        bin_floor(bin + 1)
    } else {
        u64::MAX as int
    }
}

/// The name of a bin.
pub open spec fn bin_label(bin: int) -> Seq<char> {
    if bin == 0 {
        "0–1K"@
    } else if bin == 1 {
        "1K–10K"@
    } else if bin == 2 {
        "10K–50K"@
    } else if bin == 3 {
        "50K–100K"@
    } else {
        "100K+"@
    }
}

/// The bin of an input size. A size that is negative falls in the last bin.
pub open spec fn bin_of(input_tokens: int) -> int {
    if input_tokens < 0 || input_tokens >= 100_000 {
        4
    } else if input_tokens >= 50_000 {
        3
    } else if input_tokens >= 10_000 {
        2
    } else if input_tokens >= 1_000 {
        1
    } else {
        0
    }
}

/// Every size that is not negative lies in exactly one bin: its own.
pub proof fn bins_partition(input_tokens: int, bin: int)
    requires
        0 <= input_tokens < u64::MAX,
        0 <= bin <= 4,
    ensures
        bin_floor(bin) <= input_tokens < bin_ceiling(bin) <==> bin == bin_of(input_tokens),
{
}

/// The bin of an input size.
pub fn find_bin(input_tokens: i64) -> (bin: i64)
    ensures
        bin == bin_of(input_tokens as int),
        0 <= bin <= 4,
{
    if input_tokens < 0 || input_tokens >= 100_000 {
        4
    } else if input_tokens >= 50_000 {
        3
    } else if input_tokens >= 10_000 {
        2
    } else if input_tokens >= 1_000 {
        1
    } else {
        0
    }
}

/// One span, its input size and its model.
pub struct ContextRow {
    pub model: Option<String>,
    pub input_tokens: i64,
    pub timing: TtftSample,
}

/// The latency of one context-size bin and one model.
pub struct LatencyByContextBin {
    pub bin: String,
    pub min_tokens: u64,
    pub max_tokens: u64,
    pub model: Option<String>,
    pub summary: SpanSummary,
}

/// The bin and the model of each row.
pub open spec fn context_keys(rows: Seq<ContextRow>) -> Seq<(i64, Option<Seq<char>>)> {
    Seq::new(
        rows.len(),
        |i: int| (bin_of(rows[i].input_tokens as int) as i64, text::optional(rows[i].model)),
    )
}

/// The timing of each row.
pub open spec fn context_timings(rows: Seq<ContextRow>) -> Seq<TtftSample> {
    Seq::new(rows.len(), |i: int| rows[i].timing)
}

/// The line is that of one bin and model.
pub open spec fn is_bin_line(
    line: LatencyByContextBin,
    rows: Seq<ContextRow>,
    key: (i64, Option<Seq<char>>),
) -> bool {
    &&& line.bin@ == bin_label(key.0 as int)
    &&& line.min_tokens == bin_floor(key.0 as int)
    &&& line.max_tokens == bin_ceiling(key.0 as int)
    &&& text::optional(line.model) == key.1
    &&& summarises(line.summary, group::gather(context_keys(rows), context_timings(rows), key))
}

/// One line for each bin and model that occur together, in the order of the bins, then of models:
/// `keys` lists them.
pub open spec fn is_context_table(
    lines: Seq<LatencyByContextBin>,
    rows: Seq<ContextRow>,
    keys: Seq<(i64, Option<Seq<char>>)>,
) -> bool {
    &&& keys.len() == group::first_seen(context_keys(rows)).len()
    &&& lines.len() == keys.len()
    &&& forall|k: int|
        0 <= k < keys.len() ==> {
            &&& context_keys(rows).contains(#[trigger] keys[k])
            &&& is_bin_line(lines[k], rows, keys[k])
        }
    &&& forall|j: int, k: int|
        0 <= j < k < keys.len() ==> key_before(#[trigger] keys[j], #[trigger] keys[k])
}

/// The name and the bounds of a bin.
fn bin_bounds(bin: i64) -> (r: (String, u64, u64))
    requires
        0 <= bin <= 4,
    ensures
        r.0@ == bin_label(bin as int),
        r.1 == bin_floor(bin as int),
        r.2 == bin_ceiling(bin as int),
{
    if bin == 0 {
        ("0–1K".to_owned(), 0, 1_000)
    } else if bin == 1 {
        ("1K–10K".to_owned(), 1_000, 10_000)
    } else if bin == 2 {
        ("10K–50K".to_owned(), 10_000, 50_000)
    } else if bin == 3 {
        ("50K–100K".to_owned(), 50_000, 100_000)
    } else {
        ("100K+".to_owned(), 100_000, u64::MAX)
    }
}

/// Latency by context size and model.
pub fn latency_by_context(rows: &Vec<ContextRow>) -> (lines: Vec<LatencyByContextBin>)
    ensures
        exists|keys: Seq<(i64, Option<Seq<char>>)>| #[trigger] is_context_table(lines@, rows@, keys),
{
    let ghost ids = context_keys(rows@);
    let ghost samples = context_timings(rows@);
    let mut keys: Vec<(i64, Option<String>)> = Vec::new();
    let mut values: Vec<TtftSample> = Vec::new();
    let mut i: usize = 0;
    while i < rows.len()
        invariant
            i <= rows@.len(),
            keys@.len() == i,
            values@.len() == i,
            forall|j: int| 0 <= j < i ==> (#[trigger] keys@[j]).id() == context_keys(rows@)[j],
            forall|j: int| 0 <= j < i ==> #[trigger] values@[j] == context_timings(rows@)[j],
        decreases rows@.len() - i,
    {
        keys.push((find_bin(rows[i].input_tokens), text::copy_optional(&rows[i].model)));
        values.push(rows[i].timing);
        i = i + 1;
    }
    assert(group::ids(keys@) =~= ids);
    assert(values@ =~= samples);
    let groups = group::group_values(&keys, &values);
    let ghost seen = group::first_seen(ids);
    proof {
        group::lemma_first_seen(ids);
    }
    let mut unsorted: Vec<LatencyByContextBin> = Vec::new();
    let mut ranks: Vec<LabelRank> = Vec::new();
    let mut g: usize = 0;
    while g < groups.len()
        invariant
            g <= groups@.len(),
            ids == context_keys(rows@),
            samples == context_timings(rows@),
            seen == group::first_seen(ids),
            forall|id: (i64, Option<Seq<char>>)| #[trigger] seen.contains(id) <==> ids.contains(id),
            group::is_grouping(groups@, ids, samples),
            unsorted@.len() == g,
            ranks@.len() == g,
            forall|h: int| 0 <= h < g ==> is_bin_line(#[trigger] unsorted@[h], rows@, seen[h]),
            forall|h: int|
                0 <= h < g ==> {
                    &&& (#[trigger] ranks@[h]).number == seen[h].0
                    &&& text::optional(ranks@[h].label) == seen[h].1
                },
        decreases groups@.len() - g,
    {
        proof {
            assert(groups@[g as int].key.id() == seen[g as int]);
            assert(seen.contains(seen[g as int]));
            group::lemma_gather_absent(ids, samples, seen[g as int]);
            let at = ids.index_of(seen[g as int]);
            assert(ids[at] == seen[g as int]);
        }
        let summary = summarise(&groups[g].members);
        let bin: i64 = groups[g].key.0;
        let (label, min_tokens, max_tokens) = bin_bounds(bin);
        ranks.push(LabelRank { number: bin as i128, label: text::copy_optional(&groups[g].key.1) });
        unsorted.push(
            LatencyByContextBin {
                bin: label,
                min_tokens,
                max_tokens,
                model: text::copy_optional(&groups[g].key.1),
                summary,
            },
        );
        g = g + 1;
    }
    let order = order::order_of(&ranks);
    proof {
        order::sorting_is_a_rearrangement(ranks@, order@);
    }
    let ghost all = unsorted@;
    let lines = order::arrange(unsorted, &order);
    proof {
        let listed = Seq::new(order@.len(), |k: int| seen[order@[k] as int]);
        assert forall|k: int| 0 <= k < listed.len() implies ids.contains(#[trigger] listed[k]) && is_bin_line(
            lines@[k],
            rows@,
            listed[k],
        ) by {
            let from = order@[k] as int;
            assert(lines@[k] == all[from]);
            assert(seen.contains(seen[from]));
        }
        assert forall|j: int, k: int| 0 <= j < k < listed.len() implies key_before(
            #[trigger] listed[j],
            #[trigger] listed[k],
        ) by {
            let a = order@[j] as int;
            let b = order@[k] as int;
            assert(order::precedes(ranks@, a, b));
            assert(a != b && seen[a] != seen[b]);
        }
        assert(is_context_table(lines@, rows@, listed));
    }
    lines
}

/// How many turns conversations take.
pub struct ConversationDepthStats {
    pub total_conversations: usize,
    /// The sum of the turns, whose mean is this over `total_conversations`.
    pub total_turns: i128,
    pub p50_turns: i64,
    pub p95_turns: i64,
    pub p99_turns: i64,
}

/// How many turns conversations take, from the number of turns of each. Without conversations all is
/// zero.
pub fn conversation_depth(turn_counts: &Vec<i64>) -> (r: ConversationDepthStats)
    ensures
        r.total_conversations == turn_counts@.len(),
        r.total_turns == latency::total(turn_counts@),
        r.p50_turns == latency::percentile_of(turn_counts@, 50),
        r.p95_turns == latency::percentile_of(turn_counts@, 95),
        r.p99_turns == latency::percentile_of(turn_counts@, 99),
{
    let sorted = order::sorted_values(turn_counts);
    proof {
        order::lemma_ascending(turn_counts@);
    }
    ConversationDepthStats {
        total_conversations: turn_counts.len(),
        total_turns: latency::add_up(turn_counts),
        p50_turns: latency::percentile(&sorted, 50),
        p95_turns: latency::percentile(&sorted, 95),
        p99_turns: latency::percentile(&sorted, 99),
    }
}

} // verus!

//! What the statistics on tools, retries, models and measurements promise of the rows that they count.
use crate::capability;
use crate::capability::{
    CapabilityKeys, CapabilityMetric, CapabilitySpan, GenAiCapabilityReport, GenAiMetricCapability,
    MetricObservation, MetricReading,
};
use crate::counts;
use crate::group;
use crate::identity;
use crate::identity::{ModelUsage, ModelUsageRow};
use crate::order;
use crate::parse;
use crate::sums;
use crate::text;
use crate::tools;
use crate::tools::{ApprovalRow, Outcome, ToolApprovalStats};
use crate::usage;
use vstd::prelude::*;

verus! {

/// The decision of a row.
pub open spec fn decided(r: ApprovalRow, decision: Seq<char>) -> bool {
    text::optional(r.decision) == Some(decision)
}

/// Decisions are told apart.
proof fn lemma_decisions()
    ensures
        "accept"@ != "reject"@,
{
    reveal_strlit("accept");
    reveal_strlit("reject");
    assert("accept"@[0] == 'a' && "reject"@[0] == 'r');
}

/// Calls are accepted automatically where the configuration decided, and by the user where anything else
/// did; a rejection counts as such whatever decided it, and every other decision is unknown.
pub proof fn approvals_are_counted_by_who_decided(stats: ToolApprovalStats, rows: Seq<ApprovalRow>)
    requires
        tools::counts_rows(stats, rows),
    ensures
        stats.auto_accepted == sums::sum_by(
            rows,
            |r: ApprovalRow|
                if decided(r, "accept"@) && text::optional(r.source) == Some("config"@) {
                    r.count as int
                } else {
                    0int
                },
        ),
        stats.user_accepted == sums::sum_by(
            rows,
            |r: ApprovalRow|
                if decided(r, "accept"@) && text::optional(r.source) != Some("config"@) {
                    r.count as int
                } else {
                    0int
                },
        ),
        stats.rejected == sums::sum_by(
            rows,
            |r: ApprovalRow|
                if decided(r, "reject"@) {
                    r.count as int
                } else {
                    0int
                },
        ),
        stats.unknown == sums::sum_by(
            rows,
            |r: ApprovalRow|
                if !decided(r, "accept"@) && !decided(r, "reject"@) {
                    r.count as int
                } else {
                    0int
                },
        ),
        stats.auto_accepted + stats.user_accepted + stats.rejected + stats.unknown == stats.total,
        stats.total == sums::sum_by(rows, |r: ApprovalRow| r.count as int),
{
    lemma_decisions();
    tools::outcomes_make_up_the_total(rows);
    sums::lemma_agreeing_sums(
        rows,
        tools::count_with(Outcome::AutoAccepted),
        |r: ApprovalRow|
            if decided(r, "accept"@) && text::optional(r.source) == Some("config"@) {
                r.count as int
            } else {
                0int
            },
    );
    sums::lemma_agreeing_sums(
        rows,
        tools::count_with(Outcome::UserAccepted),
        |r: ApprovalRow|
            if decided(r, "accept"@) && text::optional(r.source) != Some("config"@) {
                r.count as int
            } else {
                0int
            },
    );
    sums::lemma_agreeing_sums(
        rows,
        tools::count_with(Outcome::Rejected),
        |r: ApprovalRow|
            if decided(r, "reject"@) {
                r.count as int
            } else {
                0int
            },
    );
    sums::lemma_agreeing_sums(
        rows,
        tools::count_with(Outcome::Unknown),
        |r: ApprovalRow|
            if !decided(r, "accept"@) && !decided(r, "reject"@) {
                r.count as int
            } else {
                0int
            },
    );
    sums::lemma_agreeing_sums(rows, tools::row_count(), |r: ApprovalRow| r.count as int);
}

/// How often one name was counted.
pub open spec fn times(counted: Seq<(Seq<char>, usize)>, name: Seq<char>) -> int {
    sums::sum_by(counted, count_of(name))
}

/// A count of one name.
pub open spec fn count_of(name: Seq<char>) -> spec_fn((Seq<char>, usize)) -> int {
    |c: (Seq<char>, usize)|
        if c.0 == name {
            c.1 as int
        } else {
            0int
        }
}

/// What stands beside a name, summed one by one.
proof fn lemma_times(counted: Seq<(Seq<char>, usize)>, name: Seq<char>)
    ensures
        sums::sum_by(
            group::gather(counts::names_of(counted), counts::counts_of(counted), name),
            counts::as_count(),
        ) == times(counted, name),
    decreases counted.len(),
{
    if counted.len() > 0 {
        let prior = counted.drop_last();
        lemma_times(prior, name);
        assert(counts::names_of(counted).drop_last() =~= counts::names_of(prior));
        assert(counts::counts_of(counted).drop_last() =~= counts::counts_of(prior));
        sums::lemma_sum_by_push(
            group::gather(counts::names_of(prior), counts::counts_of(prior), name),
            counted.last().1,
            counts::as_count(),
        );
    }
}

/// A ranking lists every counted name once, with how often it was counted, and the most counted ones
/// first.
pub proof fn rankings_count_every_name_once(counted: Seq<(Seq<char>, usize)>)
    requires
        counted.len() <= usize::MAX,
        sums::sum_by(counts::counts_of(counted), counts::as_count()) <= usize::MAX,
    ensures
        ({
            let ranking = counts::ranked(counts::tallied(counted));
            &&& forall|k: int|
                0 <= k < ranking.len() ==> (#[trigger] ranking[k]).1 == times(counted, ranking[k].0)
            &&& forall|j: int, k: int|
                0 <= j < k < ranking.len() ==> (#[trigger] ranking[j]).1 >= (#[trigger] ranking[k]).1 && ranking[j].0
                    != ranking[k].0
            &&& forall|name: Seq<char>|
                counts::names_of(counted).contains(name) <==> #[trigger] counts::names_of(ranking).contains(name)
        }),
{
    let names = counts::names_of(counted);
    let seen = group::first_seen(names);
    let tallied = counts::tallied(counted);
    let ranks = counts::count_ranks(tallied);
    let order = order::sorting(ranks);
    let ranking = counts::ranked(tallied);
    group::lemma_first_seen(names);
    order::lemma_sorting(ranks);
    order::sorting_is_a_rearrangement(ranks, order);
    assert forall|k: int| 0 <= k < ranking.len() implies (#[trigger] ranking[k]).1 == times(counted, ranking[k].0) by {
        let g = order[k] as int;
        assert(ranking[k] == tallied[g]);
        lemma_times(counted, seen[g]);
        sums::lemma_gather_bound(names, counts::counts_of(counted), seen[g], counts::as_count());
    }
    assert forall|j: int, k: int| 0 <= j < k < ranking.len() implies (#[trigger] ranking[j]).1 >= (
    #[trigger] ranking[k]).1 && ranking[j].0 != ranking[k].0 by {
        assert(order::precedes(ranks, order[j] as int, order[k] as int));
        assert(order[j] != order[k]);
        assert(seen[order[j] as int] != seen[order[k] as int]);
    }
    assert forall|name: Seq<char>| names.contains(name) <==> #[trigger] counts::names_of(ranking).contains(name) by {
        if names.contains(name) {
            assert(seen.contains(name));
            let g = seen.index_of(name);
            assert(order.contains(g as usize));
            let k = order.index_of(g as usize);
            assert(counts::names_of(ranking)[k] == name);
        }
        if counts::names_of(ranking).contains(name) {
            let k = counts::names_of(ranking).index_of(name);
            let g = order[k] as int;
            assert(g < seen.len());
            assert(seen[g] == name);
            assert(seen.contains(name));
        }
    }
}

/// The rejected calls of a tool.
pub open spec fn rejections_of(tool: Seq<char>) -> spec_fn(ApprovalRow) -> int {
    |r: ApprovalRow|
        if decided(r, "reject"@) && text::optional(r.tool_name) == Some(tool) {
            r.count as int
        } else {
            0int
        }
}

/// The rejections name the rejected calls.
proof fn lemma_rejections(rows: Seq<ApprovalRow>, tool: Seq<char>)
    ensures
        times(tools::rejections(rows), tool) == sums::sum_by(rows, rejections_of(tool)),
        sums::sum_by(counts::counts_of(tools::rejections(rows)), counts::as_count()) <= sums::sum_by(
            rows,
            tools::row_count(),
        ),
        tools::rejections(rows).len() <= rows.len(),
    decreases rows.len(),
{
    lemma_decisions();
    if rows.len() > 0 {
        let r = rows.last();
        let earlier = tools::rejections(rows.drop_last());
        lemma_rejections(rows.drop_last(), tool);
        if tools::rejections(rows).len() > earlier.len() {
            let c = (text::optional(r.tool_name)->0, r.count);
            assert(tools::rejections(rows) =~= earlier.push(c));
            assert(counts::counts_of(tools::rejections(rows)) =~= counts::counts_of(earlier).push(c.1));
            sums::lemma_sum_by_push(counts::counts_of(earlier), c.1, counts::as_count());
            sums::lemma_sum_by_push(earlier, c, count_of(tool));
        }
    }
}

/// The most rejected tools are at most ten, each with the number of its rejected calls, the most rejected
/// first.
pub proof fn most_rejected_tools_come_first(stats: ToolApprovalStats, rows: Seq<ApprovalRow>, j: int, k: int)
    requires
        rows.len() <= usize::MAX,
        sums::sum_by(rows, tools::row_count()) <= usize::MAX,
        counts::entry_views(stats.top_rejected@) == tools::most_rejected(rows),
        0 <= j <= k < stats.top_rejected@.len(),
    ensures
        stats.top_rejected@.len() <= 10,
        stats.top_rejected@[k].count == sums::sum_by(rows, rejections_of(stats.top_rejected@[k].name@)),
        stats.top_rejected@[j].count >= stats.top_rejected@[k].count,
{
    let counted = tools::rejections(rows);
    let all = counts::ranked(counts::tallied(counted));
    lemma_rejections(rows, stats.top_rejected@[k].name@);
    rankings_count_every_name_once(counted);
    let views = counts::entry_views(stats.top_rejected@);
    assert(views.len() == stats.top_rejected@.len());
    assert(views[j] == all[j] && views[k] == all[k]);
    assert(views[k] == (stats.top_rejected@[k].name@, stats.top_rejected@[k].count));
    assert(views[j] == (stats.top_rejected@[j].name@, stats.top_rejected@[j].count));
    if j < k {
        assert(all[j].1 >= all[k].1);
    }
}

/// A call was tried again where it took two attempts or more, and every attempt beyond the first is extra.
pub proof fn retries_are_attempts_beyond_the_first(attempts: Seq<i64>)
    ensures
        sums::sum_by(attempts, tools::retried()) == sums::how_many(attempts, |a: i64| a >= 2),
        sums::sum_by(attempts, tools::extra()) == sums::sum_by(
            attempts,
            |a: i64|
                if a >= 2 {
                    a - 1
                } else {
                    0int
                },
        ),
{
    sums::lemma_agreeing_sums(attempts, tools::retried(), sums::one_where(|a: i64| a >= 2));
    sums::lemma_agreeing_sums(
        attempts,
        tools::extra(),
        |a: i64|
            if a >= 2 {
                a - 1
            } else {
                0int
            },
    );
}

/// The number of calls of an hour is that of the last row for it; an hour without a row has none.
pub proof fn hours_hold_their_row(rows: Seq<(i64, i64)>, hour: int, i: int)
    requires
        0 <= i < rows.len(),
        forall|j: int| i < j < rows.len() ==> (#[trigger] rows[j]).0 != hour,
    ensures
        rows[i].0 == hour ==> tools::calls_in_hour(rows, hour) == rows[i].1 as usize,
        (forall|j: int| 0 <= j < rows.len() ==> (#[trigger] rows[j]).0 != hour) ==> tools::calls_in_hour(rows, hour)
            == 0,
    decreases rows.len(),
{
    reveal_with_fuel(tools::calls_in_hour, 2);
    let prior = rows.drop_last();
    if i < rows.len() - 1 {
        assert(rows[rows.len() - 1].0 != hour);
        assert forall|j: int| i < j < prior.len() implies (#[trigger] prior[j]).0 != hour by {
            assert(prior[j] == rows[j]);
        }
        hours_hold_their_row(prior, hour, i);
        if forall|j: int| 0 <= j < rows.len() ==> (#[trigger] rows[j]).0 != hour {
            assert forall|j: int| 0 <= j < prior.len() implies (#[trigger] prior[j]).0 != hour by {
                assert(prior[j] == rows[j]);
            }
        }
    } else if rows[i].0 != hour {
        if forall|j: int| 0 <= j < rows.len() ==> (#[trigger] rows[j]).0 != hour {
            assert forall|j: int| 0 <= j < prior.len() implies (#[trigger] prior[j]).0 != hour by {
                assert(prior[j] == rows[j]);
            }
            if prior.len() > 0 {
                hours_hold_their_row(prior, hour, prior.len() - 1);
            }
        }
    }
}

/// The samples of a measurement are counted span by span.
proof fn lemma_observed(own: Seq<CapabilitySpan>, metric: CapabilityMetric, o: MetricObservation)
    ensures
        capability::observed_as(capability::readings(own, metric), o) == sums::how_many(
            own,
            |s: CapabilitySpan| capability::reading(s, metric).observation == o,
        ),
    decreases own.len(),
{
    let f = |s: CapabilitySpan| capability::reading(s, metric).observation == o;
    if own.len() > 0 {
        lemma_observed(own.drop_last(), metric, o);
        assert(capability::readings(own, metric).drop_last() =~= capability::readings(own.drop_last(), metric));
        assert(capability::readings(own, metric).last() == capability::reading(own.last(), metric));
    }
}

/// The sources of a measurement are counted span by span.
proof fn lemma_sources(own: Seq<CapabilitySpan>, metric: CapabilityMetric, name: Seq<char>)
    ensures
        capability::sources(capability::readings(own, metric)).len() == sums::how_many(
            own,
            |s: CapabilitySpan| capability::reading(s, metric).source_attribute is Some,
        ),
        group::gather(
            capability::sources(capability::readings(own, metric)),
            capability::sources(capability::readings(own, metric)),
            name,
        ).len() == sums::how_many(
            own,
            |s: CapabilitySpan| capability::reading(s, metric).source_attribute == Some(name),
        ),
    decreases own.len(),
{
    let f = |s: CapabilitySpan| capability::reading(s, metric).source_attribute is Some;
    let g = |s: CapabilitySpan| capability::reading(s, metric).source_attribute == Some(name);
    if own.len() > 0 {
        lemma_sources(own.drop_last(), metric, name);
        let samples = capability::readings(own, metric);
        let prior = capability::readings(own.drop_last(), metric);
        assert(samples.drop_last() =~= prior);
        assert(samples.last() == capability::reading(own.last(), metric));
        if let Some(source) = samples.last().source_attribute {
            assert(capability::sources(samples).drop_last() =~= capability::sources(prior));
            assert(capability::sources(samples).last() == source);
        }
    }
}

/// The late first tokens are counted span by span.
proof fn lemma_late(own: Seq<CapabilitySpan>)
    ensures
        capability::degenerate(capability::readings(own, CapabilityMetric::Ttft)) == sums::how_many(own, tells_nothing()),
    decreases own.len(),
{
    if own.len() > 0 {
        lemma_late(own.drop_last());
        assert(capability::readings(own, CapabilityMetric::Ttft).drop_last() =~= capability::readings(
            own.drop_last(),
            CapabilityMetric::Ttft,
        ));
        assert(capability::readings(own, CapabilityMetric::Ttft).last() == capability::reading(
            own.last(),
            CapabilityMetric::Ttft,
        ));
    }
}

/// A valid time to first token of nine tenths of the span or more.
pub open spec fn tells_nothing() -> spec_fn(CapabilitySpan) -> bool {
    |s: CapabilitySpan|
        s.ttft.observation == MetricObservation::Valid && s.ttft_ns is Some && s.end_time - s.start_time > 0 && 10
            * s.ttft_ns->0 >= 9 * (s.end_time - s.start_time)
}

/// The counts of a measurement are those of the readings of the spans.
pub open spec fn counts_readings(
    c: GenAiMetricCapability,
    own: Seq<CapabilitySpan>,
    of: spec_fn(CapabilitySpan) -> MetricReading,
) -> bool {
    let valid = sums::how_many(own, |s: CapabilitySpan| of(s).observation == MetricObservation::Valid);
    &&& c.eligible_count == own.len()
    &&& c.valid_count == valid
    &&& c.invalid_count == sums::how_many(
        own,
        |s: CapabilitySpan| of(s).observation == MetricObservation::Invalid,
    )
    &&& c.observed_count == sums::how_many(own, |s: CapabilitySpan| of(s).source_attribute is Some)
    &&& c.availability@ == "absent"@ <==> valid == 0
    &&& c.availability@ == "available"@ <==> valid > 0 && valid == own.len()
    &&& c.availability@ == "sparse"@ <==> 0 < valid < own.len()
    &&& c.derivation@ == "native"@ <==> c.observed_count > 0
    &&& c.derivation@ == "unavailable"@ <==> c.observed_count == 0
    &&& forall|k: int|
        0 <= k < c.source_attributes@.len() ==> (#[trigger] c.source_attributes@[k]).1 == sums::how_many(
            own,
            read_from(of, c.source_attributes@[k].0@),
        )
}

/// A reading that comes from one attribute.
pub open spec fn read_from(of: spec_fn(CapabilitySpan) -> MetricReading, name: Seq<char>) -> spec_fn(
    CapabilitySpan,
) -> bool {
    |s: CapabilitySpan| text::optional(of(s).source_attribute) == Some(name)
}

/// The words for a capability are told apart.
proof fn lemma_words()
    ensures
        "absent"@ != "available"@,
        "absent"@ != "sparse"@,
        "available"@ != "sparse"@,
        "native"@ != "unavailable"@,
        "degenerate"@ != "invalid"@,
        "degenerate"@ != "reliable"@,
        "degenerate"@ != "not_assessed"@,
        "invalid"@ != "reliable"@,
        "invalid"@ != "not_assessed"@,
        "reliable"@ != "not_assessed"@,
{
    reveal_strlit("absent");
    reveal_strlit("available");
    reveal_strlit("sparse");
    reveal_strlit("native");
    reveal_strlit("unavailable");
    reveal_strlit("degenerate");
    reveal_strlit("invalid");
    reveal_strlit("reliable");
    reveal_strlit("not_assessed");
    assert("absent"@.len() == 6 && "available"@.len() == 9 && "sparse"@.len() == 6);
    assert("absent"@[0] == 'a' && "sparse"@[0] == 's');
    assert("native"@.len() == 6 && "unavailable"@.len() == 11);
    assert("degenerate"@.len() == 10 && "invalid"@.len() == 7 && "reliable"@.len() == 8 && "not_assessed"@.len() == 12);
}

/// No more of some items have a property than there are items.
proof fn lemma_within<T>(s: Seq<T>, p: spec_fn(T) -> bool)
    ensures
        0 <= sums::how_many(s, p) <= s.len(),
    decreases s.len(),
{
    if s.len() > 0 {
        lemma_within(s.drop_last(), p);
    }
}

/// What the samples of a measurement say is what the readings of the spans say.
proof fn lemma_readings(
    c: GenAiMetricCapability,
    own: Seq<CapabilitySpan>,
    metric: CapabilityMetric,
    ttft: bool,
    of: spec_fn(CapabilitySpan) -> MetricReading,
)
    requires
        capability::assesses(c, capability::readings(own, metric), ttft),
        forall|s: CapabilitySpan|
            (#[trigger] capability::reading(s, metric)).observation == of(s).observation && capability::reading(
                s,
                metric,
            ).source_attribute == text::optional(of(s).source_attribute),
    ensures
        counts_readings(c, own, of),
{
    lemma_words();
    let samples = capability::readings(own, metric);
    let valid = |s: CapabilitySpan| of(s).observation == MetricObservation::Valid;
    let invalid = |s: CapabilitySpan| of(s).observation == MetricObservation::Invalid;
    let seen = |s: CapabilitySpan| of(s).source_attribute is Some;
    let read_valid = |s: CapabilitySpan| capability::reading(s, metric).observation == MetricObservation::Valid;
    let read_invalid = |s: CapabilitySpan| capability::reading(s, metric).observation == MetricObservation::Invalid;
    let read_seen = |s: CapabilitySpan| capability::reading(s, metric).source_attribute is Some;
    lemma_observed(own, metric, MetricObservation::Valid);
    lemma_observed(own, metric, MetricObservation::Invalid);
    lemma_sources(own, metric, Seq::empty());
    sums::lemma_agreeing_sums(own, sums::one_where(valid), sums::one_where(read_valid));
    sums::lemma_agreeing_sums(own, sums::one_where(invalid), sums::one_where(read_invalid));
    sums::lemma_agreeing_sums(own, sums::one_where(seen), sums::one_where(read_seen));
    lemma_within(own, valid);
    assert forall|k: int| 0 <= k < c.source_attributes@.len() implies (#[trigger] c.source_attributes@[k]).1
        == sums::how_many(
        own,
        read_from(of, c.source_attributes@[k].0@),
    ) by {
        let name = c.source_attributes@[k].0@;
        let listed = capability::source_counts(c.source_attributes@);
        assert(listed[k] == (name, c.source_attributes@[k].1 as int));
        let expected = capability::occurrences(capability::sources(samples));
        assert(expected.len() == listed.len() && listed.len() == c.source_attributes@.len());
        assert(expected.len() == group::first_seen(capability::sources(samples)).len());
        assert(expected[k] == listed[k]);
        assert(group::first_seen(capability::sources(samples))[k] == name);
        lemma_sources(own, metric, name);
        let read_named = |s: CapabilitySpan| capability::reading(s, metric).source_attribute == Some(name);
        sums::lemma_agreeing_sums(own, sums::one_where(read_from(of, name)), sums::one_where(read_named));
    }
}

/// Each measurement of a report counts the readings of that measurement, and no other, over the spans of
/// the report.
pub proof fn measurements_count_their_readings(r: GenAiCapabilityReport, own: Seq<CapabilitySpan>)
    requires
        capability::reports_on(r, own),
    ensures
        r.request_count == own.len(),
        counts_readings(r.input_tokens, own, |s: CapabilitySpan| s.input_tokens),
        counts_readings(r.output_tokens, own, |s: CapabilitySpan| s.output_tokens),
        counts_readings(r.cache_creation_tokens, own, |s: CapabilitySpan| s.cache_creation_tokens),
        counts_readings(r.cache_read_tokens, own, |s: CapabilitySpan| s.cache_read_tokens),
        counts_readings(r.ttft, own, |s: CapabilitySpan| s.ttft),
{
    let input = |s: CapabilitySpan| s.input_tokens;
    let output = |s: CapabilitySpan| s.output_tokens;
    let creation = |s: CapabilitySpan| s.cache_creation_tokens;
    let read = |s: CapabilitySpan| s.cache_read_tokens;
    let ttft = |s: CapabilitySpan| s.ttft;
    lemma_readings(r.input_tokens, own, CapabilityMetric::InputTokens, false, input);
    lemma_readings(r.output_tokens, own, CapabilityMetric::OutputTokens, false, output);
    lemma_readings(r.cache_creation_tokens, own, CapabilityMetric::CacheCreationTokens, false, creation);
    lemma_readings(r.cache_read_tokens, own, CapabilityMetric::CacheReadTokens, false, read);
    lemma_readings(r.ttft, own, CapabilityMetric::Ttft, true, ttft);
}

/// Times to first token are degenerate where ten or more are valid and nine tenths of them or more take
/// up nine tenths of their span or more. Counts of tokens never are. A measurement that is not
/// degenerate is invalid where one reading is, and reliable where all are valid.
pub proof fn first_token_times_can_be_degenerate(r: GenAiCapabilityReport, own: Seq<CapabilitySpan>)
    requires
        capability::reports_on(r, own),
    ensures
        r.ttft.quality@ == "degenerate"@ <==> r.ttft.valid_count >= 10 && 10 * sums::how_many(own, tells_nothing())
            >= 9 * r.ttft.valid_count,
        r.input_tokens.quality@ != "degenerate"@,
        r.output_tokens.quality@ != "degenerate"@,
        r.cache_creation_tokens.quality@ != "degenerate"@,
        r.cache_read_tokens.quality@ != "degenerate"@,
        r.input_tokens.quality@ == "invalid"@ <==> r.input_tokens.invalid_count > 0,
        r.input_tokens.quality@ == "reliable"@ <==> r.input_tokens.invalid_count == 0 && r.input_tokens.valid_count
            > 0,
{
    lemma_words();
    lemma_late(own);
}

/// A sample is full with ten thousand and one physical spans, and then all but the oldest are examined.
pub proof fn ten_thousand_spans_are_examined(spans: Seq<CapabilitySpan>)
    requires
        spans.len() + sums::sum_by(spans, |s: CapabilitySpan| s.duplicate_deliveries as int) <= 10_001,
    ensures
        ({
            let kept = capability::examined(spans);
            let all = spans.len() + sums::sum_by(spans, |s: CapabilitySpan| s.duplicate_deliveries as int);
            let left = kept.len() + sums::sum_by(kept, |s: CapabilitySpan| s.duplicate_deliveries as int);
            &&& capability::is_full(spans) <==> all == 10_001
            &&& all <= 10_000 ==> kept == spans
            &&& all == 10_001 ==> left == 10_000
        }),
{
    let f = |s: CapabilitySpan| s.duplicate_deliveries as int;
    let kept = capability::examined(spans);
    sums::lemma_agreeing_sums(spans, f, capability::duplicates());
    sums::lemma_agreeing_sums(kept, f, capability::duplicates());
    if capability::is_full(spans) {
        if spans.len() == 0 {
            assert(sums::sum_by(spans, f) == 0);
        }
        let last = spans.last();
        if last.duplicate_deliveries > 0 {
            let fewer = CapabilitySpan { duplicate_deliveries: (last.duplicate_deliveries - 1) as usize, ..last };
            sums::lemma_sum_by_push(spans.drop_last(), fewer, f);
        }
    }
}

/// Sums over the rows of one identity.
pub open spec fn of_model(model: Seq<char>, f: spec_fn(ModelUsageRow) -> int) -> spec_fn(ModelUsageRow) -> int {
    |r: ModelUsageRow|
        if r.model@ == model {
            f(r)
        } else {
            0int
        }
}

/// What is gathered under an identity sums up over its rows.
proof fn lemma_of_model(rows: Seq<ModelUsageRow>, model: Seq<char>, f: spec_fn(ModelUsageRow) -> int)
    ensures
        sums::sum_by(identity::rows_of(rows, model), f) == sums::sum_by(rows, of_model(model, f)),
    decreases rows.len(),
{
    if rows.len() > 0 {
        lemma_of_model(rows.drop_last(), model, f);
        assert(identity::models(rows).drop_last() =~= identity::models(rows.drop_last()));
        assert(identity::models(rows).last() == rows.last().model@);
        sums::lemma_sum_by_push(identity::rows_of(rows.drop_last(), model), rows.last(), f);
    }
}

/// The calls of a row that another model than the one asked for answered.
pub open spec fn answered_by_another(r: ModelUsageRow) -> bool {
    match (r.request_model, r.response_model) {
        (Some(asked), Some(answered)) => asked@ != answered@,
        _ => false,
    }
}

/// The calls that one model answered in place of another.
pub open spec fn answered_instead(model: Seq<char>) -> spec_fn(ModelUsageRow) -> int {
    |r: ModelUsageRow|
        if answered_by_another(r) && text::optional(r.response_model) == Some(model) {
            r.requests as int
        } else {
            0int
        }
}

/// The usage of an identity adds up the input, the output and the calls of the rows of that identity;
/// rerouted are the calls whose asked and answering models are both known and differ.
pub proof fn usage_adds_up_the_rows_of_a_model(u: ModelUsage, rows: Seq<ModelUsageRow>, model: Seq<char>)
    requires
        identity::is_usage(u, model, identity::rows_of(rows, model)),
    ensures
        u.input_tokens == sums::sum_by(
            rows,
            |r: ModelUsageRow|
                if r.model@ == model {
                    r.input_tokens as int
                } else {
                    0int
                },
        ),
        u.output_tokens == sums::sum_by(
            rows,
            |r: ModelUsageRow|
                if r.model@ == model {
                    r.output_tokens as int
                } else {
                    0int
                },
        ),
        u.requests == sums::sum_by(
            rows,
            |r: ModelUsageRow|
                if r.model@ == model {
                    r.requests as int
                } else {
                    0int
                },
        ),
        u.rerouted_count == sums::sum_by(
            rows,
            |r: ModelUsageRow|
                if r.model@ == model && answered_by_another(r) {
                    r.requests as int
                } else {
                    0int
                },
        ),
{
    lemma_of_model(rows, model, identity::input());
    lemma_of_model(rows, model, identity::output());
    lemma_of_model(rows, model, identity::requests());
    lemma_of_model(rows, model, identity::rerouted());
    sums::lemma_agreeing_sums(
        rows,
        of_model(model, identity::input()),
        |r: ModelUsageRow|
            if r.model@ == model {
                r.input_tokens as int
            } else {
                0int
            },
    );
    sums::lemma_agreeing_sums(
        rows,
        of_model(model, identity::output()),
        |r: ModelUsageRow|
            if r.model@ == model {
                r.output_tokens as int
            } else {
                0int
            },
    );
    sums::lemma_agreeing_sums(
        rows,
        of_model(model, identity::requests()),
        |r: ModelUsageRow|
            if r.model@ == model {
                r.requests as int
            } else {
                0int
            },
    );
    sums::lemma_agreeing_sums(
        rows,
        of_model(model, identity::rerouted()),
        |r: ModelUsageRow|
            if r.model@ == model && answered_by_another(r) {
                r.requests as int
            } else {
                0int
            },
    );
}

/// The reroutes name the models that answered.
proof fn lemma_reroutes(own: Seq<ModelUsageRow>, model: Seq<char>)
    ensures
        times(identity::reroutes(own), model) == sums::sum_by(own, answered_instead(model)),
        sums::sum_by(counts::counts_of(identity::reroutes(own)), counts::as_count()) <= sums::sum_by(
            own,
            identity::requests(),
        ),
        identity::reroutes(own).len() <= own.len(),
        counts::names_of(identity::reroutes(own)).contains(model) <==> exists|i: int|
            0 <= i < own.len() && answered_by_another(#[trigger] own[i]) && text::optional(own[i].response_model)
                == Some(model),
    decreases own.len(),
{
    if own.len() > 0 {
        let r = own.last();
        let prior = own.drop_last();
        let earlier = identity::reroutes(prior);
        lemma_reroutes(prior, model);
        assert(identity::is_rerouted(r) == answered_by_another(r));
        assert forall|i: int| 0 <= i < prior.len() implies #[trigger] prior[i] == own[i] by {}
        let names = counts::names_of(identity::reroutes(own));
        if answered_by_another(r) {
            let c = (text::optional(r.response_model)->0, r.requests);
            assert(identity::reroutes(own) =~= earlier.push(c));
            assert(counts::counts_of(identity::reroutes(own)) =~= counts::counts_of(earlier).push(c.1));
            assert(names =~= counts::names_of(earlier).push(c.0));
            sums::lemma_sum_by_push(counts::counts_of(earlier), c.1, counts::as_count());
            sums::lemma_sum_by_push(earlier, c, count_of(model));
            assert(own[own.len() - 1] == r);
            if names.contains(model) {
                let i = names.index_of(model);
                if i < earlier.len() {
                    assert(counts::names_of(earlier)[i] == model);
                    let j = choose|j: int|
                        0 <= j < prior.len() && answered_by_another(#[trigger] prior[j]) && text::optional(
                            prior[j].response_model,
                        ) == Some(model);
                    assert(own[j] == prior[j]);
                }
            }
            if c.0 == model {
                assert(names[earlier.len() as int] == model);
            }
            if counts::names_of(earlier).contains(model) {
                let i = counts::names_of(earlier).index_of(model);
                assert(names[i] == model);
            }
        } else {
            assert(identity::reroutes(own) =~= earlier);
            if names.contains(model) {
                let j = choose|j: int|
                    0 <= j < prior.len() && answered_by_another(#[trigger] prior[j]) && text::optional(
                        prior[j].response_model,
                    ) == Some(model);
                assert(own[j] == prior[j]);
            }
        }
        if exists|i: int|
            0 <= i < own.len() && answered_by_another(#[trigger] own[i]) && text::optional(own[i].response_model)
                == Some(model) {
            let i = choose|i: int|
                0 <= i < own.len() && answered_by_another(#[trigger] own[i]) && text::optional(
                    own[i].response_model,
                ) == Some(model);
            if i < prior.len() {
                assert(prior[i] == own[i]);
            }
        }
    }
}

/// The answering model of a usage is one that answered in place of another, and no other model answered
/// more calls so; there is none only where no call was rerouted.
pub proof fn the_answering_model_answered_most(
    u: ModelUsage,
    model: Seq<char>,
    own: Seq<ModelUsageRow>,
    other: Seq<char>,
)
    requires
        identity::is_usage(u, model, own),
        own.len() <= usize::MAX,
        sums::sum_by(own, |r: ModelUsageRow| r.requests as int) <= usize::MAX,
    ensures
        u.response_model is None <==> forall|i: int|
            0 <= i < own.len() ==> !answered_by_another(#[trigger] own[i]),
        u.response_model is Some ==> sums::sum_by(own, answered_instead(other)) <= sums::sum_by(
            own,
            answered_instead(u.response_model->0@),
        ),
        u.response_model is Some ==> exists|i: int|
            0 <= i < own.len() && answered_by_another(#[trigger] own[i]) && text::optional(own[i].response_model)
                == Some(u.response_model->0@),
{
    let counted = identity::reroutes(own);
    let ranking = counts::ranked(counts::tallied(counted));
    sums::lemma_agreeing_sums(own, |r: ModelUsageRow| r.requests as int, identity::requests());
    lemma_reroutes(own, other);
    rankings_count_every_name_once(counted);
    if u.response_model is Some {
        let best = u.response_model->0@;
        lemma_reroutes(own, best);
        assert(ranking[0].0 == best);
        assert(counts::names_of(ranking)[0] == best);
        assert(counts::names_of(ranking).contains(best));
        if counts::names_of(counted).contains(other) {
            assert(counts::names_of(ranking).contains(other));
            let k = counts::names_of(ranking).index_of(other);
            assert(ranking[k].0 == other);
            assert(ranking[0].1 >= ranking[k].1);
        } else {
            lemma_absent(counted, other);
        }
    } else {
        assert forall|i: int| 0 <= i < own.len() implies !answered_by_another(#[trigger] own[i]) by {
            if answered_by_another(own[i]) {
                let m = own[i].response_model->0@;
                lemma_reroutes(own, m);
                assert(counts::names_of(counted).contains(m));
                assert(counts::names_of(ranking).contains(m));
            }
        }
    }
}

/// A name that does not occur was never counted.
proof fn lemma_absent(counted: Seq<(Seq<char>, usize)>, name: Seq<char>)
    requires
        !counts::names_of(counted).contains(name),
    ensures
        times(counted, name) == 0,
    decreases counted.len(),
{
    if counted.len() > 0 {
        let names = counts::names_of(counted);
        let prior = counts::names_of(counted.drop_last());
        assert(names[counted.len() - 1] == counted.last().0);
        if prior.contains(name) {
            let i = prior.index_of(name);
            assert(names[i] == name);
        }
        lemma_absent(counted.drop_last(), name);
    }
}

/// Identities with more tokens, input and output together, come first.
pub proof fn models_with_more_tokens_come_first(rows: Seq<ModelUsageRow>, out: Seq<ModelUsage>, j: int, k: int)
    requires
        identity::can_add(rows),
        rows.len() <= usize::MAX,
        out.len() == group::first_seen(identity::models(rows)).len(),
        forall|k: int|
            0 <= k < out.len() ==> identity::is_usage(
                #[trigger] out[k],
                group::first_seen(identity::models(rows))[order::sorting(identity::usage_ranks(rows))[k] as int],
                identity::rows_of(
                    rows,
                    group::first_seen(identity::models(rows))[order::sorting(identity::usage_ranks(rows))[k] as int],
                ),
            ),
        0 <= j < k < out.len(),
    ensures
        out[j].input_tokens + out[j].output_tokens >= out[k].input_tokens + out[k].output_tokens,
        out[j].model@ != out[k].model@,
{
    let ids = identity::models(rows);
    let seen = group::first_seen(ids);
    let ranks = identity::usage_ranks(rows);
    let order = order::sorting(ranks);
    group::lemma_first_seen(ids);
    order::lemma_sorting(ranks);
    order::sorting_is_a_rearrangement(ranks, order);
    let a = order[j] as int;
    let b = order[k] as int;
    assert(order::precedes(ranks, a, b));
    assert(order[j] != order[k]);
    assert(seen[a] != seen[b]);
    assert(ranks[a].0 == (out[j].input_tokens + out[j].output_tokens) as u128);
    assert(ranks[b].0 == (out[k].input_tokens + out[k].output_tokens) as u128);
}

/// A time range lasts as many hours, days or minutes as it says.
pub proof fn ranges_last_as_long_as_they_say(range: Seq<char>, n: int, nanos: int)
    requires
        usage::range_nanos(range) == Some(nanos),
        range.len() > 0,
        parse::i64_value(range.drop_last()) == Some(n as i64),
        i64::MIN <= n <= i64::MAX,
    ensures
        range.last() == 'm' || range.last() == 'h' || range.last() == 'd',
        range.last() == 'm' ==> nanos == n * 60_000_000_000,
        range.last() == 'h' ==> nanos == n * 3_600_000_000_000,
        range.last() == 'd' ==> nanos == n * 86_400_000_000_000,
{
}

/// What some spans sum up to where they time a request for the model that is asked for, if one is.
pub open spec fn of_requests(
    keys: CapabilityKeys,
    model: Option<Seq<char>>,
    f: spec_fn(CapabilitySpan) -> int,
) -> spec_fn(CapabilitySpan) -> int {
    |s: CapabilitySpan|
        if s.is_request && (model is None || capability::first_attribute(s.attributes@, keys.request_model@) == model) {
            f(s)
        } else {
            0int
        }
}

/// The spans that count sum up over the requests.
proof fn lemma_of_requests(
    spans: Seq<CapabilitySpan>,
    keys: CapabilityKeys,
    model: Option<Seq<char>>,
    f: spec_fn(CapabilitySpan) -> int,
)
    ensures
        sums::sum_by(capability::counted(spans, keys, model), f) == sums::sum_by(spans, of_requests(keys, model, f)),
    decreases spans.len(),
{
    if spans.len() > 0 {
        lemma_of_requests(spans.drop_last(), keys, model, f);
        sums::lemma_sum_by_push(capability::counted(spans.drop_last(), keys, model), spans.last(), f);
    }
}

/// As many as there are sum up to their number.
proof fn lemma_each<T>(s: Seq<T>, f: spec_fn(T) -> int)
    requires
        forall|x: T| #[trigger] f(x) == 1,
    ensures
        sums::sum_by(s, f) == s.len(),
    decreases s.len(),
{
    if s.len() > 0 {
        lemma_each(s.drop_last(), f);
    }
}

/// The spans that are reported on are the request spans for the model that is asked for, or all request
/// spans, each once however often it was delivered.
pub proof fn requests_are_reported_on(spans: Seq<CapabilitySpan>, keys: CapabilityKeys, model: Option<Seq<char>>)
    ensures
        capability::counted(spans, keys, model).len() == sums::sum_by(
            spans,
            of_requests(keys, model, |s: CapabilitySpan| 1int),
        ),
        sums::sum_by(capability::counted(spans, keys, model), capability::duplicates()) == sums::sum_by(
            spans,
            of_requests(keys, model, |s: CapabilitySpan| s.duplicate_deliveries as int),
        ),
        capability::counted(spans, keys, None).len() == sums::how_many(spans, |s: CapabilitySpan| s.is_request),
{
    let one = |s: CapabilitySpan| 1int;
    let again = |s: CapabilitySpan| s.duplicate_deliveries as int;
    let own = capability::counted(spans, keys, model);
    lemma_each(own, one);
    lemma_of_requests(spans, keys, model, one);
    lemma_of_requests(spans, keys, model, again);
    sums::lemma_agreeing_sums(own, again, capability::duplicates());
    let all = capability::counted(spans, keys, None);
    lemma_each(all, one);
    lemma_of_requests(spans, keys, None, one);
    let p = |s: CapabilitySpan| s.is_request;
    sums::lemma_agreeing_sums(spans, of_requests(keys, None, one), sums::one_where(p));
}

/// A span comes from the emitter that a report is on: the provider and the model that it names, the emitter
/// and its adapter rule, and the fingerprint of where it comes from.
pub open spec fn reported_by(r: GenAiCapabilityReport, keys: CapabilityKeys) -> spec_fn(CapabilitySpan) -> bool {
    |s: CapabilitySpan|
        {
            &&& capability::first_attribute(s.attributes@, keys.system@) == text::optional(r.provider)
            &&& capability::first_attribute(s.attributes@, keys.request_model@) == text::optional(r.model)
            &&& capability::fingerprint(
                s.adapter_rule@,
                text::optional(s.service_name),
                text::optional(s.scope_name),
                text::optional(s.scope_version),
            ) == r.emitter_fingerprint@
            &&& capability::name_of_emitter(s.emitter) == r.emitter@
            &&& s.adapter_rule@ == r.adapter_rule@
        }
}

/// The keys of spans and of reports agree part by part.
proof fn lemma_keys(s: CapabilitySpan, r: GenAiCapabilityReport, keys: CapabilityKeys)
    ensures
        capability::span_key(s, keys) == capability::report_key(r) <==> reported_by(r, keys)(s),
{
    let a = capability::span_key(s, keys);
    let b = capability::report_key(r);
    if a == b {
        assert(a[0] == b[0] && a[1] == b[1] && a[2] == b[2] && a[3] == b[3] && a[4] == b[4]);
    }
    if reported_by(r, keys)(s) {
        assert(a =~= b);
    }
}

/// What is gathered under a key is as many as there are spans with it.
proof fn lemma_gathered_spans(own: Seq<CapabilitySpan>, keys: CapabilityKeys, r: GenAiCapabilityReport)
    ensures
        group::gather(capability::span_keys(own, keys), own, capability::report_key(r)).len() == sums::how_many(
            own,
            reported_by(r, keys),
        ),
    decreases own.len(),
{
    if own.len() > 0 {
        lemma_gathered_spans(own.drop_last(), keys, r);
        assert(capability::span_keys(own, keys).drop_last() =~= capability::span_keys(own.drop_last(), keys));
        lemma_keys(own.last(), r, keys);
    }
}

/// A report counts the spans of its emitter, and no emitter has two reports.
pub proof fn reports_count_the_spans_of_their_emitter(
    reports: Seq<GenAiCapabilityReport>,
    own: Seq<CapabilitySpan>,
    keys: CapabilityKeys,
    k: int,
)
    requires
        capability::is_report_list(reports, own, keys),
        0 <= k < reports.len(),
    ensures
        reports[k].request_count == sums::how_many(own, reported_by(reports[k], keys)),
        reports[k].request_count > 0,
        forall|j: int|
            0 <= j < k ==> {
                ||| text::optional((#[trigger] reports[j]).provider) != text::optional(reports[k].provider)
                ||| text::optional(reports[j].model) != text::optional(reports[k].model)
                ||| reports[j].emitter_fingerprint@ != reports[k].emitter_fingerprint@
                ||| reports[j].emitter@ != reports[k].emitter@
                ||| reports[j].adapter_rule@ != reports[k].adapter_rule@
            },
{
    let ids = capability::span_keys(own, keys);
    let key = capability::report_key(reports[k]);
    lemma_gathered_spans(own, keys, reports[k]);
    assert(capability::reports_on(reports[k], group::gather(ids, own, key)));
    assert(ids.contains(key));
    let i = ids.index_of(key);
    group::lemma_gathered_into(ids, own, i);
    assert forall|j: int| 0 <= j < k implies ({
        ||| text::optional((#[trigger] reports[j]).provider) != text::optional(reports[k].provider)
        ||| text::optional(reports[j].model) != text::optional(reports[k].model)
        ||| reports[j].emitter_fingerprint@ != reports[k].emitter_fingerprint@
        ||| reports[j].emitter@ != reports[k].emitter@
        ||| reports[j].adapter_rule@ != reports[k].adapter_rule@
    }) by {
        let a = capability::report_key(reports[j]);
        assert(a != key);
        if !(text::optional(reports[j].provider) != text::optional(reports[k].provider) || text::optional(
            reports[j].model,
        ) != text::optional(reports[k].model) || reports[j].emitter_fingerprint@ != reports[k].emitter_fingerprint@
            || reports[j].emitter@ != reports[k].emitter@ || reports[j].adapter_rule@ != reports[k].adapter_rule@) {
            assert(a =~= key);
        }
    }
}

/// Bytes behind others are hashed after them.
proof fn lemma_hash(hash: u64, a: Seq<u8>, b: Seq<u8>)
    ensures
        capability::fnv(hash, a + b) == capability::fnv(capability::fnv(hash, a), b),
    decreases b.len(),
{
    if b.len() == 0 {
        assert(a + b =~= a);
    } else {
        lemma_hash(hash, a, b.drop_last());
        assert((a + b).drop_last() =~= a + b.drop_last());
        assert((a + b).last() == b.last());
    }
}

/// The bytes of a part of a fingerprint: a text, or nothing, and a zero byte.
pub open spec fn part(text: Option<Seq<char>>) -> Seq<u8> {
    match text {
        Some(t) => vstd::utf8::encode_utf8(t).push(0u8),
        None => seq![0u8],
    }
}

/// A fingerprint is the hash of the adapter rule, the service, the scope and its version, in this order and
/// each ended by a zero byte, in sixteen hexadecimal digits.
pub proof fn fingerprints_hash_the_parts_in_order(
    rule: Seq<char>,
    service: Option<Seq<char>>,
    scope: Option<Seq<char>>,
    version: Option<Seq<char>>,
)
    ensures
        capability::fingerprint(rule, service, scope, version) == "genai-v1-"@ + capability::hex(
            capability::fnv(0xcbf29ce484222325, part(Some(rule)) + part(service) + part(scope) + part(version)) as nat,
            16,
        ),
{
    assert(vstd::utf8::encode_utf8(Seq::<char>::empty()) =~= Seq::<u8>::empty());
    assert(Seq::<u8>::empty().push(0u8) =~= seq![0u8]);
    let a = part(Some(rule));
    let b = part(service);
    let c = part(scope);
    let d = part(version);
    assert(b == capability::terminated(capability::or_empty(service)));
    assert(c == capability::terminated(capability::or_empty(scope)));
    assert(d == capability::terminated(capability::or_empty(version)));
    lemma_hash(0xcbf29ce484222325, a, b);
    lemma_hash(0xcbf29ce484222325, a + b, c);
    lemma_hash(0xcbf29ce484222325, a + b + c, d);
}

/// The hash takes in one byte after another: it is combined with the byte, multiplied by the prime of its
/// kind, and kept to sixty-four bits.
pub proof fn hashes_take_in_one_byte_after_another(hash: u64, bytes: Seq<u8>, byte: u8)
    ensures
        capability::fnv(hash, Seq::empty()) == hash,
        capability::fnv(hash, bytes.push(byte)) == (((capability::fnv(hash, bytes) ^ (byte as u64)) as nat
            * 1_099_511_628_211) % 0x1_0000_0000_0000_0000) as u64,
{
    assert(bytes.push(byte).drop_last() =~= bytes);
}

} // verus!

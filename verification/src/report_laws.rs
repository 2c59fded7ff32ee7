//! What the report on a session promises of its interactions.
use crate::diagnose::{Findings, Interaction};
use crate::histogram;
use crate::histogram::{DistributionBucket, DistributionStats};
use crate::layout;
use crate::report;
use crate::sums;
use crate::text;
use vstd::prelude::*;

verus! {

/// One where something is shown.
pub open spec fn one_if(shown: bool) -> int {
    if shown {
        1
    } else {
        0
    }
}

/// The summary always shows the total, the ninety-fifth percentile and the slowest turn. It shows the slow
/// turns and the cold starts where there are any, the output above fifty thousand tokens, and a warning
/// where the percentile is above a minute; and nothing else.
pub proof fn the_summary_warns_by_its_numbers(f: Findings)
    ensures
        ({
            let s = report::summary_lines(f);
            &&& s.len() == 5 + one_if(f.slow_count > 0) + one_if(f.cold_count > 0) + one_if(f.total_output > 50_000)
                + one_if(f.p95_ms > 60_000)
            &&& s[1] == "  Total LLM time : "@ + layout::duration_text(f.total_dur_ms as int)
            &&& s[2] == "  p95 turn time  : "@ + layout::duration_text(f.p95_ms as int)
            &&& s[3] == "  Slowest turn   : "@ + layout::duration_text(f.slowest_ms as int)
            &&& f.slow_count > 0 ==> s[4] == "  Slow turns(>30s): "@ + text::decimal(f.slow_count as nat) + "/"@
                + text::decimal(f.total as nat)
            &&& f.cold_count > 0 ==> s[4 + one_if(f.slow_count > 0)] == "  Cold starts    : "@ + text::decimal(
                f.cold_count as nat,
            ) + " turn(s) — no cache reads, full context rebuilt"@
            &&& f.total_output > 50_000 ==> s[4 + one_if(f.slow_count > 0) + one_if(f.cold_count > 0)]
                == "  Total output   : "@ + layout::tokens_text(f.total_output as nat)
                + " tokens — generation volume is the likely latency driver"@
            &&& f.p95_ms > 60_000 ==> s[s.len() - 2] == "  ⚠  p95 > 60s — most turns are slow, not just outliers"@
        }),
{
}

/// The head of the report shows the failures and the stalls exactly where something failed.
pub proof fn the_head_shows_failures(
    session: Seq<char>,
    models: Seq<char>,
    start: Seq<char>,
    end: Seq<char>,
    f: Findings,
)
    ensures
        ({
            let h = report::header_lines(session, models, start, end, f);
            &&& h.len() == 3 + one_if(f.errors > 0)
            &&& h[0] == "Session: "@ + session
            &&& h[1] == "Model:   "@ + models + "   Interactions: "@ + text::decimal(f.total as nat) + "   "@ + start
                + "–"@ + end
            &&& f.errors > 0 ==> h[2] == "Errors:  "@ + text::decimal(f.errors as nat) + "   Stalls: "@ + text::decimal(
                f.stalls as nat,
            )
        }),
{
}

/// What is picked comes from an interaction, as often as there are such.
proof fn lemma_select<T>(ias: Seq<Interaction>, f: spec_fn(Interaction) -> Option<T>, v: T)
    ensures
        report::select(ias, f).contains(v) <==> exists|i: int| 0 <= i < ias.len() && f(#[trigger] ias[i]) == Some(v),
        report::select(ias, f).len() == sums::how_many(ias, |ia: Interaction| f(ia) is Some),
    decreases ias.len(),
{
    let p = |ia: Interaction| f(ia) is Some;
    if ias.len() > 0 {
        let prior = ias.drop_last();
        lemma_select(prior, f, v);
        let had = report::select(prior, f);
        let has = report::select(ias, f);
        assert(ias[ias.len() - 1] == ias.last());
        if had.contains(v) {
            let j = had.index_of(v);
            assert(has[j] == v);
            let i = choose|i: int| 0 <= i < prior.len() && f(#[trigger] prior[i]) == Some(v);
            assert(ias[i] == prior[i]);
        }
        if has.contains(v) && !had.contains(v) {
            let j = has.index_of(v);
            if j < had.len() {
                assert(had[j] == v);
            }
        }
        if exists|i: int| 0 <= i < ias.len() && f(#[trigger] ias[i]) == Some(v) {
            let i = choose|i: int| 0 <= i < ias.len() && f(#[trigger] ias[i]) == Some(v);
            if i < prior.len() {
                assert(prior[i] == ias[i]);
            } else {
                assert(has[had.len() as int] == v);
            }
        }
    }
}

/// What identifies the failed interactions comes from them alone: the prompt, the response and the trace of
/// each, and the size of its body in bytes and in thousands of tokens of four bytes.
pub proof fn failures_are_identified(ias: Seq<Interaction>, id: Seq<char>)
    ensures
        report::select(ias, report::prompt_of()).contains(id) <==> exists|i: int|
            0 <= i < ias.len() && (#[trigger] ias[i]).is_error && text::optional(ias[i].prompt_id) == Some(id),
        report::select(ias, report::response_of()).contains(id) <==> exists|i: int|
            0 <= i < ias.len() && (#[trigger] ias[i]).is_error && text::optional(ias[i].response_id) == Some(id),
        report::select(ias, report::trace_of()).len() == sums::how_many(ias, |ia: Interaction| ia.is_error),
        report::select(ias, report::body_of()).contains(id) <==> exists|i: int|
            0 <= i < ias.len() && (#[trigger] ias[i]).is_error && ias[i].body_length is Some && id == text::decimal(
                ias[i].body_length->0 as nat,
            ) + " bytes (~"@ + text::decimal((ias[i].body_length->0 / 4000) as nat) + "K tokens)"@,
{
    lemma_select(ias, report::prompt_of(), id);
    lemma_select(ias, report::response_of(), id);
    lemma_select(ias, report::trace_of(), id);
    lemma_select(ias, report::body_of(), id);
    let f = report::trace_of();
    sums::lemma_as_many(ias, |ia: Interaction| f(ia) is Some, |ia: Interaction| ia.is_error);
    if report::select(ias, report::prompt_of()).contains(id) {
        let i = choose|i: int| 0 <= i < ias.len() && report::prompt_of()(#[trigger] ias[i]) == Some(id);
        assert(ias[i].is_error);
    }
    if report::select(ias, report::response_of()).contains(id) {
        let i = choose|i: int| 0 <= i < ias.len() && report::response_of()(#[trigger] ias[i]) == Some(id);
        assert(ias[i].is_error);
    }
    if report::select(ias, report::body_of()).contains(id) {
        let i = choose|i: int| 0 <= i < ias.len() && report::body_of()(#[trigger] ias[i]) == Some(id);
        assert(ias[i].is_error);
    }
}

/// The longest stall is the longest of the interactions that stalled.
pub proof fn the_longest_stall_is_of_a_stall(ias: Seq<Interaction>)
    ensures
        report::longest_stall(ias) is None <==> forall|i: int| 0 <= i < ias.len() ==> !(#[trigger] ias[i]).is_stall,
        report::longest_stall(ias) matches Some(d) ==> (exists|i: int|
            0 <= i < ias.len() && (#[trigger] ias[i]).is_stall && ias[i].duration_ms == d) && forall|i: int|
            0 <= i < ias.len() && (#[trigger] ias[i]).is_stall ==> ias[i].duration_ms <= d,
    decreases ias.len(),
{
    if ias.len() > 0 {
        let prior = ias.drop_last();
        the_longest_stall_is_of_a_stall(prior);
        assert(ias[ias.len() - 1] == ias.last());
        assert forall|i: int| 0 <= i < prior.len() implies #[trigger] prior[i] == ias[i] by {}
        if report::longest_stall(prior) is Some {
            let d = report::longest_stall(prior)->0;
            let i = choose|i: int| 0 <= i < prior.len() && (#[trigger] prior[i]).is_stall && prior[i].duration_ms == d;
            assert(ias[i] == prior[i]);
        }
        assert forall|i: int| 0 <= i < ias.len() && (#[trigger] ias[i]).is_stall implies report::longest_stall(
            ias,
        ) is Some && ias[i].duration_ms <= report::longest_stall(ias)->0 by {
            if i < prior.len() {
                assert(prior[i] == ias[i]);
            }
        }
        if report::longest_stall(ias) is None {
            assert forall|i: int| 0 <= i < ias.len() implies !(#[trigger] ias[i]).is_stall by {
                if i < prior.len() {
                    assert(prior[i] == ias[i]);
                }
            }
        }
    }
}

/// The stalls are counted and listed one by one, and the advice names a timeout and the longest stall in
/// whole seconds; without a stall nothing is said.
pub proof fn stalls_are_counted_and_listed(ias: Seq<Interaction>, suggest: bool)
    ensures
        ({
            let n = sums::how_many(ias, |ia: Interaction| ia.is_stall);
            let s = report::stall_lines(ias, suggest);
            &&& n == 0 ==> s.len() == 0
            &&& n > 0 ==> s.len() == 2 + n + if suggest {
                3int
            } else {
                0int
            }
            &&& n > 0 ==> s[0] == "⚠  "@ + text::decimal(n as nat) + " streaming stall(s) detected."@
        }),
{
    let f = report::stall_of();
    let stalled = |ia: Interaction| ia.is_stall;
    lemma_select(ias, f, Seq::empty());
    sums::lemma_as_many(ias, |ia: Interaction| f(ia) is Some, stalled);
    the_longest_stall_is_of_a_stall(ias);
    if report::longest_stall(ias) is None {
        sums::lemma_how_many(ias, stalled, 0);
    } else {
        let i = choose|i: int|
            0 <= i < ias.len() && (#[trigger] ias[i]).is_stall && ias[i].duration_ms == report::longest_stall(ias)->0;
        sums::lemma_sum_by_member(ias, i, sums::one_where(stalled));
    }
}

/// The outcome of an interaction tells a stall from another failure, and both from a success.
pub proof fn outcomes_are_told_apart(ia: Interaction)
    ensures
        ia.is_stall ==> report::status_cell(ia) == "ERROR [stall]"@,
        !ia.is_stall && ia.is_error ==> report::status_cell(ia) == "ERROR"@,
        !ia.is_stall && !ia.is_error ==> report::status_cell(ia) == "OK"@,
{
}

/// The growth of the context is shown where two interactions report their input: from the first of them to
/// the last, and the peak, in thousands of tokens.
pub proof fn growth_runs_from_first_to_last(ias: Seq<Interaction>, first: int, last: int)
    requires
        0 <= first < last < ias.len(),
        ias[first].input_tokens is Some,
        ias[last].input_tokens is Some,
        forall|i: int| 0 <= i < first ==> (#[trigger] ias[i]).input_tokens is None,
        forall|i: int| last < i < ias.len() ==> (#[trigger] ias[i]).input_tokens is None,
    ensures
        exists|peak: u64|
            report::growth_lines(ias).len() == 2 && report::growth_lines(ias)[0] == "Context growth: "@ + text::decimal(
                (ias[first].input_tokens->0 / 1000) as nat,
            ) + "K → "@ + text::decimal((ias[last].input_tokens->0 / 1000) as nat) + "K tokens across "@
                + text::decimal(ias.len()) + " interactions (peak: "@ + #[trigger] text::decimal((peak / 1000) as nat)
                + "K)"@ && forall|i: int|
                0 <= i < ias.len() && (#[trigger] ias[i]).input_tokens is Some ==> ias[i].input_tokens->0 <= peak,
{
    let series = report::select(ias, report::input_of());
    lemma_first_and_last(ias, first, last);
    report::largest_bounds_all(series);
    let peak = report::largest(series);
    assert forall|i: int| 0 <= i < ias.len() && (#[trigger] ias[i]).input_tokens is Some implies ias[i].input_tokens->0
        <= peak by {
        let v = ias[i].input_tokens->0;
        lemma_select(ias, report::input_of(), v);
        assert(report::input_of()(ias[i]) == Some(v));
        assert(series.contains(v));
        let j = series.index_of(v);
        assert(series[j] == v);
    }
    assert(report::growth_lines(ias)[0] == "Context growth: "@ + text::decimal(
        (ias[first].input_tokens->0 / 1000) as nat,
    ) + "K → "@ + text::decimal((ias[last].input_tokens->0 / 1000) as nat) + "K tokens across "@ + text::decimal(
        ias.len(),
    ) + " interactions (peak: "@ + text::decimal((peak / 1000) as nat) + "K)"@);
}

/// The first and the last of the inputs are those of the first and the last interaction that reports one.
proof fn lemma_first_and_last(ias: Seq<Interaction>, first: int, last: int)
    requires
        0 <= first <= last < ias.len(),
        ias[first].input_tokens is Some,
        ias[last].input_tokens is Some,
        forall|i: int| 0 <= i < first ==> (#[trigger] ias[i]).input_tokens is None,
        forall|i: int| last < i < ias.len() ==> (#[trigger] ias[i]).input_tokens is None,
    ensures
        ({
            let series = report::select(ias, report::input_of());
            &&& series.len() >= 1
            &&& first < last ==> series.len() >= 2
            &&& series[0] == ias[first].input_tokens->0
            &&& series.last() == ias[last].input_tokens->0
        }),
    decreases ias.len(),
{
    let prior = ias.drop_last();
    let f = report::input_of();
    let had = report::select(prior, f);
    assert forall|i: int| 0 <= i < prior.len() implies #[trigger] prior[i] == ias[i] by {}
    if last < ias.len() - 1 {
        assert(ias[ias.len() - 1].input_tokens is None);
        lemma_first_and_last(prior, first, last);
    } else if first < last {
        let before = lemma_last_before(ias, first, last);
        lemma_first_and_last(prior, first, before);
    } else {
        lemma_none(prior);
    }
}

/// There is a last interaction before another that reports its input.
proof fn lemma_last_before(ias: Seq<Interaction>, first: int, end: int) -> (k: int)
    requires
        0 <= first < end <= ias.len(),
        ias[first].input_tokens is Some,
    ensures
        first <= k < end,
        ias[k].input_tokens is Some,
        forall|i: int| k < i < end ==> (#[trigger] ias[i]).input_tokens is None,
    decreases end - first,
{
    if ias[end - 1].input_tokens is Some {
        end - 1
    } else {
        lemma_last_before(ias, first, end - 1)
    }
}

/// Interactions that report no input have none.
proof fn lemma_none(ias: Seq<Interaction>)
    requires
        forall|i: int| 0 <= i < ias.len() ==> (#[trigger] ias[i]).input_tokens is None,
    ensures
        report::select(ias, report::input_of()).len() == 0,
    decreases ias.len(),
{
    if ias.len() > 0 {
        let prior = ias.drop_last();
        assert forall|i: int| 0 <= i < prior.len() implies (#[trigger] prior[i]).input_tokens is None by {
            assert(prior[i] == ias[i]);
        }
        assert(ias[ias.len() - 1].input_tokens is None);
        lemma_none(prior);
    }
}

/// The line on all values of a distribution shows each of them behind its name.
pub proof fn statistics_stand_behind_their_names(s: DistributionStats)
    ensures
        histogram::stats_line(s) == "  n="@ + text::decimal(s.count as nat) + "  min="@ + s.min@ + "  p50="@ + s.p50@
            + "  p95="@ + s.p95@ + "  p99="@ + s.p99@ + "  max="@ + s.max@ + "  mean="@ + s.mean@,
{
    reveal_with_fuel(text::flat, 15);
    let parts = seq![
        "  n="@,
        text::decimal(s.count as nat),
        "  min="@,
        s.min@,
        "  p50="@,
        s.p50@,
        "  p95="@,
        s.p95@,
        "  p99="@,
        s.p99@,
        "  max="@,
        s.max@,
        "  mean="@,
        s.mean@,
    ];
    assert(Seq::<char>::empty() + "  n="@ =~= "  n="@);
    assert(histogram::stats_line(s) == text::flat(parts));
}

/// The line of a bin shows its lower bound, its upper bound, its count, and a bar of that count.
pub proof fn bins_show_their_bounds_and_counts(b: DistributionBucket, largest: u64)
    requires
        largest > 0,
        b.count <= largest,
    ensures
        exists|bar: Seq<char>|
            histogram::bucket_line(b, largest) == "  "@ + layout::right(b.min@, 14) + " – "@ + layout::left(b.max@, 14)
                + " "@ + layout::right(text::decimal(b.count as nat), 6) + "  "@ + bar && #[trigger] bar.len()
                == histogram::bar_length(b.count as int, largest as int) && forall|i: int|
                0 <= i < bar.len() ==> bar[i] == '#',
{
    reveal_with_fuel(text::flat, 9);
    let bar = histogram::bar(histogram::bar_length(b.count as int, largest as int));
    histogram::bars_fit(b.count as int, largest as int);
    assert(Seq::<char>::empty() + "  "@ =~= "  "@);
    assert(histogram::bucket_line(b, largest) == "  "@ + layout::right(b.min@, 14) + " – "@ + layout::left(b.max@, 14)
        + " "@ + layout::right(text::decimal(b.count as nat), 6) + "  "@ + bar);
    assert(bar.len() == histogram::bar_length(b.count as int, largest as int));
}

/// A distribution has a heading and a line for each bin in their order, and what is known of all values
/// behind an empty line; without bins it says so.
pub proof fn distributions_have_a_line_for_each_bin(
    metric: Seq<char>,
    scale: Seq<char>,
    buckets: Seq<DistributionBucket>,
    stats: Option<DistributionStats>,
    i: int,
)
    ensures
        ({
            let lines = histogram::distribution_lines(metric, scale, buckets, stats);
            &&& buckets.len() == 0 ==> lines.len() == 2 && lines[1] == "  no data in range"@
            &&& buckets.len() > 0 ==> lines.len() == 1 + buckets.len() + if stats is Some {
                2int
            } else {
                0int
            }
            &&& 0 <= i < buckets.len() ==> lines[1 + i] == histogram::bucket_line(
                buckets[i],
                histogram::scale_count(buckets),
            )
            &&& buckets.len() > 0 && stats is Some ==> lines.last() == histogram::stats_line(stats->0)
            &&& lines[0] == metric + " distribution ("@ + text::decimal(buckets.len()) + " buckets, "@ + scale
                + " scale):"@
        }),
{
    reveal_with_fuel(text::flat, 7);
    assert(Seq::<char>::empty() + metric =~= metric);
    assert(histogram::heading(metric, buckets.len(), scale) == metric + " distribution ("@ + text::decimal(
        buckets.len(),
    ) + " buckets, "@ + scale + " scale):"@);
}

} // verus!

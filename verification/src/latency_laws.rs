//! What the latency tables promise of the calls that they are made of.
use crate::group;
use crate::latency;
use crate::latency::{LatencyRow, LatencySample, LatencyStats, TtftReading};
use crate::latency_series;
use crate::latency_series::{ContextRow, LatencyByContextBin};
use crate::order;
use crate::ratio::Quotient;
use crate::sums;
use crate::text;
use vstd::prelude::*;

verus! {

/// The names of the bins are distinct.
proof fn lemma_bin_names()
    ensures
        "0–1K"@ != "1K–10K"@,
        "0–1K"@ != "10K–50K"@,
        "0–1K"@ != "50K–100K"@,
        "0–1K"@ != "100K+"@,
        "1K–10K"@ != "10K–50K"@,
        "1K–10K"@ != "50K–100K"@,
        "1K–10K"@ != "100K+"@,
        "10K–50K"@ != "50K–100K"@,
        "10K–50K"@ != "100K+"@,
        "50K–100K"@ != "100K+"@,
{
    reveal_strlit("0–1K");
    reveal_strlit("1K–10K");
    reveal_strlit("10K–50K");
    reveal_strlit("50K–100K");
    reveal_strlit("100K+");
    assert("0–1K"@.len() == 4 && "1K–10K"@.len() == 6 && "10K–50K"@.len() == 7 && "50K–100K"@.len() == 8
        && "100K+"@.len() == 5);
}

/// Every call is counted in a line of its model, and in the line of its size: below a thousand tokens,
/// below ten thousand, below fifty thousand, below a hundred thousand, or from there on. A size that is
/// negative counts among the largest.
pub proof fn every_call_is_in_the_bin_of_its_size(
    lines: Seq<LatencyByContextBin>,
    rows: Seq<ContextRow>,
    keys: Seq<(i64, Option<Seq<char>>)>,
    i: int,
) -> (k: int)
    requires
        latency_series::is_context_table(lines, rows, keys),
        0 <= i < rows.len(),
    ensures
        0 <= k < lines.len(),
        text::optional(lines[k].model) == text::optional(rows[i].model),
        0 <= rows[i].input_tokens < 1_000 <==> lines[k].bin@ == "0–1K"@,
        1_000 <= rows[i].input_tokens < 10_000 <==> lines[k].bin@ == "1K–10K"@,
        10_000 <= rows[i].input_tokens < 50_000 <==> lines[k].bin@ == "10K–50K"@,
        50_000 <= rows[i].input_tokens < 100_000 <==> lines[k].bin@ == "50K–100K"@,
        rows[i].input_tokens < 0 || rows[i].input_tokens >= 100_000 <==> lines[k].bin@ == "100K+"@,
        0 <= rows[i].input_tokens ==> lines[k].min_tokens <= rows[i].input_tokens < lines[k].max_tokens,
{
    lemma_bin_names();
    let ids = latency_series::context_keys(rows);
    let seen = group::first_seen(ids);
    assert(ids.contains(ids[i]));
    lemma_listed(keys, ids);
    assert(keys.contains(ids[i]));
    let k = keys.index_of(ids[i]);
    assert(latency_series::is_bin_line(lines[k], rows, keys[k]));
    k
}

/// A line bears one of five names, with the bounds that the name says.
pub proof fn lines_have_the_bounds_of_their_names(
    lines: Seq<LatencyByContextBin>,
    rows: Seq<ContextRow>,
    keys: Seq<(i64, Option<Seq<char>>)>,
    k: int,
)
    requires
        latency_series::is_context_table(lines, rows, keys),
        0 <= k < lines.len(),
    ensures
        lines[k].bin@ == "0–1K"@ || lines[k].bin@ == "1K–10K"@ || lines[k].bin@ == "10K–50K"@ || lines[k].bin@
            == "50K–100K"@ || lines[k].bin@ == "100K+"@,
        lines[k].bin@ == "0–1K"@ ==> lines[k].min_tokens == 0 && lines[k].max_tokens == 1_000,
        lines[k].bin@ == "1K–10K"@ ==> lines[k].min_tokens == 1_000 && lines[k].max_tokens == 10_000,
        lines[k].bin@ == "10K–50K"@ ==> lines[k].min_tokens == 10_000 && lines[k].max_tokens == 50_000,
        lines[k].bin@ == "50K–100K"@ ==> lines[k].min_tokens == 50_000 && lines[k].max_tokens == 100_000,
        lines[k].bin@ == "100K+"@ ==> lines[k].min_tokens == 100_000 && lines[k].max_tokens == u64::MAX,
{
    lemma_bin_names();
    assert(latency_series::context_keys(rows).contains(keys[k]));
    let i = latency_series::context_keys(rows).index_of(keys[k]);
    assert(latency_series::is_bin_line(lines[k], rows, keys[k]));
    assert(0 <= keys[k].0 <= 4);
}

/// As many distinct ids as occur leave none out.
proof fn lemma_listed<I>(keys: Seq<I>, ids: Seq<I>)
    requires
        keys.len() == group::first_seen(ids).len(),
        forall|k: int| 0 <= k < keys.len() ==> ids.contains(#[trigger] keys[k]),
        keys.no_duplicates(),
    ensures
        forall|id: I| #[trigger] ids.contains(id) ==> keys.contains(id),
{
    let seen = group::first_seen(ids);
    group::lemma_first_seen(ids);
    keys.unique_seq_to_set();
    seen.unique_seq_to_set();
    assert(keys.to_set().subset_of(seen.to_set())) by {
        assert forall|id: I| keys.to_set().contains(id) implies seen.to_set().contains(id) by {
            let k = keys.index_of(id);
            assert(ids.contains(keys[k]));
            assert(seen.contains(id));
        }
    }
    vstd::set_lib::lemma_subset_equality(keys.to_set(), seen.to_set());
    assert forall|id: I| #[trigger] ids.contains(id) implies keys.contains(id) by {
        assert(seen.contains(id));
        assert(seen.to_set().contains(id));
        assert(keys.to_set().contains(id));
    }
}

/// The position of a percentile is the whole number nearest to that share of the last position.
proof fn lemma_index(n: int, percent: int)
    requires
        n > 0,
        0 <= percent <= 100,
    ensures
        0 <= latency::percentile_index(n, percent) < n,
        100 * latency::percentile_index(n, percent) <= percent * (n - 1) + 50,
        100 * (latency::percentile_index(n, percent) + 1) > percent * (n - 1) + 50,
{
    latency::percentile_index_is_monotone(n, percent, 100);
    assert((n - 1) * percent == percent * (n - 1)) by (nonlinear_arith);
}

/// A percentile is one of the values, of the nearest rank: so many values lie below it, and so many do
/// not lie above it, as the percentage asks for, to the nearest whole number.
pub proof fn percentiles_are_of_the_nearest_rank(values: Seq<i64>, percent: int)
    requires
        values.len() > 0,
        0 <= percent <= 100,
    ensures
        values.contains(latency::percentile_of(values, percent)),
        100 * sums::how_many(values, |x: i64| x < latency::percentile_of(values, percent)) <= percent * (values.len()
            - 1) + 50,
        100 * sums::how_many(values, |x: i64| x <= latency::percentile_of(values, percent)) > percent * (values.len()
            - 1) + 50,
{
    let n = values.len() as int;
    let at = latency::percentile_index(n, percent);
    let sorted = order::ascending(values);
    let v = latency::percentile_of(values, percent);
    let below = |x: i64| x < v;
    let upto = |x: i64| x <= v;
    lemma_index(n, percent);
    order::lemma_ascending(values);
    assert(sorted.contains(sorted[at]));
    sums::lemma_sum_by_same_items(sorted, values, sums::one_where(below));
    sums::lemma_sum_by_same_items(sorted, values, sums::one_where(upto));
    sums::lemma_how_many(sorted, below, at);
    sums::lemma_how_many(sorted, upto, at + 1);
    assert forall|j: int| at <= j < n implies !below(#[trigger] sorted[j]) by {
        if j > at {
            assert(sorted[at] <= sorted[j]);
        }
    }
    assert forall|j: int| 0 <= j < at + 1 implies upto(#[trigger] sorted[j]) by {
        if j < at {
            assert(sorted[j] <= sorted[at]);
        }
    }
}

/// One quotient is smaller than another. Their denominators are positive.
pub open spec fn is_smaller(a: Quotient, b: Quotient) -> bool {
    a.numerator * b.denominator < b.numerator * a.denominator
}

/// A percentile of quotients is one of them, of the nearest rank by their values.
pub proof fn quotient_percentiles_are_of_the_nearest_rank(values: Seq<Quotient>, percent: int, q: Quotient)
    requires
        values.len() <= usize::MAX,
        0 <= percent <= 100,
        forall|i: int| 0 <= i < values.len() ==> (#[trigger] values[i]).denominator > 0,
        latency::quotient_percentile_of(values, percent) == Some(q),
    ensures
        values.contains(q),
        100 * sums::how_many(values, |x: Quotient| is_smaller(x, q)) <= percent * (values.len() - 1) + 50,
        100 * sums::how_many(values, |x: Quotient| !is_smaller(q, x)) > percent * (values.len() - 1) + 50,
{
    let n = values.len() as int;
    let at = latency::percentile_index(n, percent);
    let order = order::sorting(values);
    order::lemma_sorting(values);
    order::sorting_is_a_rearrangement(values, order);
    lemma_index(n, percent);
    let sorted = Seq::new(values.len(), |k: int| values[order[k] as int]);
    let below = |x: Quotient| is_smaller(x, q);
    let upto = |x: Quotient| !is_smaller(q, x);
    assert(sorted[at] == q);
    lemma_rearranged_sum(values, order, sums::one_where(below));
    lemma_rearranged_sum(values, order, sums::one_where(upto));
    sums::lemma_how_many(sorted, below, at);
    sums::lemma_how_many(sorted, upto, at + 1);
    assert forall|j: int| at <= j < n implies !below(#[trigger] sorted[j]) by {
        assert(order[j] < n && order[at] < n);
        if j > at {
            assert(order::precedes(values, order[at] as int, order[j] as int));
        }
    }
    assert forall|j: int| 0 <= j < at + 1 implies upto(#[trigger] sorted[j]) by {
        assert(order[j] < n && order[at] < n);
        if j < at {
            assert(order::precedes(values, order[j] as int, order[at] as int));
        }
    }
}

/// Sorting keeps sums.
proof fn lemma_rearranged_sum<R: order::Rank>(values: Seq<R>, order: Seq<usize>, f: spec_fn(R) -> int)
    requires
        order.len() == values.len(),
        order.no_duplicates(),
        forall|k: int| 0 <= k < order.len() ==> (#[trigger] order[k]) < values.len(),
    ensures
        sums::sum_by(Seq::new(values.len(), |k: int| values[order[k] as int]), f) == sums::sum_by(values, f),
{
    let numbers = Seq::new(values.len(), |i: int| f(values[i]));
    let positions = Seq::new(order.len(), |k: int| order[k] as int);
    let sorted = Seq::new(values.len(), |k: int| values[order[k] as int]);
    sums::lemma_same_sums(values, f, numbers);
    sums::lemma_sum_rearranged(numbers, positions);
    assert forall|k: int| 0 <= k < sorted.len() implies f(#[trigger] sorted[k]) == sums::picked(
        numbers,
        positions,
    )[k] by {
        assert(order[k] < values.len());
    }
    sums::lemma_same_sums(sorted, f, sums::picked(numbers, positions));
}

/// A count, zero where it is missing.
pub open spec fn counted(n: Option<i64>) -> int {
    match n {
        Some(v) => v as int,
        None => 0,
    }
}

/// The tokens of a prompt: those that were sent, those written to the cache, and those read from it.
pub open spec fn prompt_tokens(s: LatencySample) -> int {
    counted(s.input_tokens) + counted(s.cache_creation_tokens) + counted(s.cache_read_tokens)
}

/// Output over prompt.
pub open spec fn output_over_prompt(s: LatencySample) -> Quotient {
    Quotient { numerator: counted(s.output_tokens) as i64, denominator: prompt_tokens(s) as i64 }
}

/// Output over time.
pub open spec fn output_over_time(s: LatencySample) -> Quotient {
    Quotient { numerator: counted(s.output_tokens) as i64, denominator: s.duration_ns }
}

/// The ratios are those of the samples with a prompt.
proof fn lemma_ratios(samples: Seq<LatencySample>, p: spec_fn(Quotient) -> bool)
    ensures
        sums::how_many(latency::output_ratios(samples), p) == sums::how_many(
            samples,
            |s: LatencySample| prompt_tokens(s) > 0 && p(output_over_prompt(s)),
        ),
    decreases samples.len(),
{
    if samples.len() > 0 {
        lemma_ratios(samples.drop_last(), p);
        let earlier = latency::output_ratios(samples.drop_last());
        sums::lemma_sum_by_push(earlier, output_over_prompt(samples.last()), sums::one_where(p));
    }
}

/// Every ratio is that of a sample with a prompt.
proof fn lemma_ratio_of(samples: Seq<LatencySample>, j: int) -> (i: int)
    requires
        0 <= j < latency::output_ratios(samples).len(),
    ensures
        0 <= i < samples.len(),
        prompt_tokens(samples[i]) > 0,
        latency::output_ratios(samples)[j] == output_over_prompt(samples[i]),
    decreases samples.len(),
{
    if j < latency::output_ratios(samples.drop_last()).len() {
        lemma_ratio_of(samples.drop_last(), j)
    } else {
        samples.len() - 1
    }
}

/// The rates are those of the samples that took time and put out tokens.
proof fn lemma_rates(samples: Seq<LatencySample>, p: spec_fn(Quotient) -> bool)
    ensures
        sums::how_many(latency::token_rates(samples), p) == sums::how_many(
            samples,
            |s: LatencySample| s.duration_ns > 0 && counted(s.output_tokens) > 0 && p(output_over_time(s)),
        ),
        forall|j: int|
            0 <= j < latency::token_rates(samples).len() ==> (#[trigger] latency::token_rates(
                samples,
            )[j]).denominator > 0,
    decreases samples.len(),
{
    if samples.len() > 0 {
        lemma_rates(samples.drop_last(), p);
        let earlier = latency::token_rates(samples.drop_last());
        sums::lemma_sum_by_push(earlier, output_over_time(samples.last()), sums::one_where(p));
    }
}

/// The samples of one model are as many as the rows of that model.
proof fn lemma_of_model(rows: Seq<LatencyRow>, model: Option<Seq<char>>, p: spec_fn(LatencySample) -> bool)
    ensures
        sums::how_many(group::gather(latency::row_models(rows), latency::row_samples(rows), model), p) == sums::how_many(
            rows,
            |r: LatencyRow| text::optional(r.model) == model && p(r.sample),
        ),
    decreases rows.len(),
{
    if rows.len() > 0 {
        let prior = rows.drop_last();
        lemma_of_model(prior, model, p);
        assert(latency::row_models(rows).drop_last() =~= latency::row_models(prior));
        assert(latency::row_samples(rows).drop_last() =~= latency::row_samples(prior));
        sums::lemma_sum_by_push(
            group::gather(latency::row_models(prior), latency::row_samples(prior), model),
            rows.last().sample,
            sums::one_where(p),
        );
    }
}

/// What holds of every row's sample holds of those of one model.
proof fn lemma_fits(rows: Seq<LatencyRow>, model: Option<Seq<char>>)
    requires
        forall|i: int| 0 <= i < rows.len() ==> latency::context_fits((#[trigger] rows[i]).sample),
    ensures
        ({
            let own = group::gather(latency::row_models(rows), latency::row_samples(rows), model);
            &&& own.len() <= rows.len()
            &&& forall|i: int| 0 <= i < own.len() ==> latency::context_fits(#[trigger] own[i])
        }),
{
    let samples = latency::row_samples(rows);
    assert forall|i: int| 0 <= i < samples.len() implies (|s: LatencySample| latency::context_fits(s))(
        #[trigger] samples[i],
    ) by {
        assert(latency::context_fits(rows[i].sample));
    }
    group::lemma_gather_all(
        latency::row_models(rows),
        samples,
        model,
        |s: LatencySample| latency::context_fits(s),
    );
    group::lemma_gather_absent(latency::row_models(rows), samples, model);
}

/// The ratio of output to input of a model is that of one of its calls: its output over its whole
/// prompt, whether the prompt was sent, written to the cache or read from it. There is none if and only
/// if no call of the model has a prompt.
pub proof fn ratios_are_of_output_to_the_whole_prompt(
    table: Seq<LatencyStats>,
    rows: Seq<LatencyRow>,
    k: int,
    percent: int,
    ratio: Option<Quotient>,
)
    requires
        rows.len() <= usize::MAX,
        forall|i: int| 0 <= i < rows.len() ==> latency::context_fits((#[trigger] rows[i]).sample),
        latency::is_latency_table(table, rows),
        0 <= k < table.len(),
        (percent == 50 && ratio == table[k].output_input_ratio_p50) || (percent == 95 && ratio
            == table[k].output_input_ratio_p95) || (percent == 99 && ratio == table[k].output_input_ratio_p99),
    ensures
        ({
            let model = text::optional(table[k].model);
            let prompted = |r: LatencyRow| text::optional(r.model) == model && prompt_tokens(r.sample) > 0;
            let n = sums::how_many(rows, prompted);
            match ratio {
                None => n == 0,
                Some(q) => {
                    &&& exists|i: int|
                        0 <= i < rows.len() && text::optional((#[trigger] rows[i]).model) == model && q.denominator
                            > 0 && q.numerator == counted(rows[i].sample.output_tokens) && q.denominator == counted(
                            rows[i].sample.input_tokens,
                        ) + counted(rows[i].sample.cache_creation_tokens) + counted(
                            rows[i].sample.cache_read_tokens,
                        )
                    &&& 100 * sums::how_many(
                        rows,
                        |r: LatencyRow| text::optional(r.model) == model && prompt_tokens(r.sample) > 0
                            && is_smaller(output_over_prompt(r.sample), q),
                    ) <= percent * (n - 1) + 50
                    &&& 100 * sums::how_many(
                        rows,
                        |r: LatencyRow| text::optional(r.model) == model && prompt_tokens(r.sample) > 0
                            && !is_smaller(q, output_over_prompt(r.sample)),
                    ) > percent * (n - 1) + 50
                },
            }
        }),
{
    let model = text::optional(table[k].model);
    let own = group::gather(latency::row_models(rows), latency::row_samples(rows), model);
    let ratios = latency::output_ratios(own);
    assert(latency::describes(table[k], own));
    lemma_fits(rows, model);
    let yes = |q: Quotient| true;
    lemma_counted_ratios(rows, model, yes);
    sums::lemma_all(ratios);
    sums::lemma_as_many(
        rows,
        |r: LatencyRow| text::optional(r.model) == model && prompt_tokens(r.sample) > 0 && yes(
            output_over_prompt(r.sample),
        ),
        |r: LatencyRow| text::optional(r.model) == model && prompt_tokens(r.sample) > 0,
    );
    assert(ratio == latency::quotient_percentile_of(ratios, percent));
    lemma_ratios_bounded(own);
    if let Some(q) = ratio {
        assert forall|j: int| 0 <= j < ratios.len() implies (#[trigger] ratios[j]).denominator > 0 by {
            let i = lemma_ratio_of(own, j);
            assert(latency::context_fits(own[i]));
        }
        quotient_percentiles_are_of_the_nearest_rank(ratios, percent, q);
        let j = ratios.index_of(q);
        let at = lemma_ratio_of(own, j);
        assert(latency::context_fits(own[at]));
        let i = group::lemma_gathered_from(latency::row_models(rows), latency::row_samples(rows), model, at);
        assert(text::optional(rows[i].model) == model);
        lemma_counted_ratios(rows, model, |x: Quotient| is_smaller(x, q));
        lemma_counted_ratios(rows, model, |x: Quotient| !is_smaller(q, x));
        sums::lemma_as_many(
            rows,
            |r: LatencyRow| text::optional(r.model) == model && prompt_tokens(r.sample) > 0
                && (|x: Quotient| is_smaller(x, q))(output_over_prompt(r.sample)),
            |r: LatencyRow| text::optional(r.model) == model && prompt_tokens(r.sample) > 0 && is_smaller(
                output_over_prompt(r.sample),
                q,
            ),
        );
        sums::lemma_as_many(
            rows,
            |r: LatencyRow| text::optional(r.model) == model && prompt_tokens(r.sample) > 0
                && (|x: Quotient| !is_smaller(q, x))(output_over_prompt(r.sample)),
            |r: LatencyRow| text::optional(r.model) == model && prompt_tokens(r.sample) > 0 && !is_smaller(
                q,
                output_over_prompt(r.sample),
            ),
        );
    }
}

/// There are no more ratios than samples.
proof fn lemma_ratios_bounded(samples: Seq<LatencySample>)
    ensures
        latency::output_ratios(samples).len() <= samples.len(),
        latency::token_rates(samples).len() <= samples.len(),
    decreases samples.len(),
{
    if samples.len() > 0 {
        lemma_ratios_bounded(samples.drop_last());
    }
}

/// The ratios of one model, counted over the rows.
proof fn lemma_counted_ratios(rows: Seq<LatencyRow>, model: Option<Seq<char>>, p: spec_fn(Quotient) -> bool)
    ensures
        sums::how_many(
            latency::output_ratios(
                group::gather(latency::row_models(rows), latency::row_samples(rows), model),
            ),
            p,
        ) == sums::how_many(
            rows,
            |r: LatencyRow| text::optional(r.model) == model && prompt_tokens(r.sample) > 0 && p(
                output_over_prompt(r.sample),
            ),
        ),
{
    let own = group::gather(latency::row_models(rows), latency::row_samples(rows), model);
    let f = |s: LatencySample| prompt_tokens(s) > 0 && p(output_over_prompt(s));
    lemma_ratios(own, p);
    lemma_of_model(rows, model, f);
    sums::lemma_as_many(
        rows,
        |r: LatencyRow| text::optional(r.model) == model && f(r.sample),
        |r: LatencyRow| text::optional(r.model) == model && prompt_tokens(r.sample) > 0 && p(
            output_over_prompt(r.sample),
        ),
    );
}

/// The rates of one model, counted over the rows.
proof fn lemma_counted_rates(rows: Seq<LatencyRow>, model: Option<Seq<char>>, p: spec_fn(Quotient) -> bool)
    ensures
        sums::how_many(
            latency::token_rates(
                group::gather(latency::row_models(rows), latency::row_samples(rows), model),
            ),
            p,
        ) == sums::how_many(
            rows,
            |r: LatencyRow| text::optional(r.model) == model && r.sample.duration_ns > 0 && counted(
                r.sample.output_tokens,
            ) > 0 && p(output_over_time(r.sample)),
        ),
{
    let own = group::gather(latency::row_models(rows), latency::row_samples(rows), model);
    let f = |s: LatencySample| s.duration_ns > 0 && counted(s.output_tokens) > 0 && p(output_over_time(s));
    lemma_rates(own, p);
    lemma_of_model(rows, model, f);
    sums::lemma_as_many(
        rows,
        |r: LatencyRow| text::optional(r.model) == model && f(r.sample),
        |r: LatencyRow| text::optional(r.model) == model && r.sample.duration_ns > 0 && counted(
            r.sample.output_tokens,
        ) > 0 && p(output_over_time(r.sample)),
    );
}

/// Every rate is that of a sample.
proof fn lemma_rate_of(samples: Seq<LatencySample>, j: int) -> (i: int)
    requires
        0 <= j < latency::token_rates(samples).len(),
    ensures
        0 <= i < samples.len(),
        samples[i].duration_ns > 0,
        counted(samples[i].output_tokens) > 0,
        latency::token_rates(samples)[j] == output_over_time(samples[i]),
    decreases samples.len(),
{
    if j < latency::token_rates(samples.drop_last()).len() {
        lemma_rate_of(samples.drop_last(), j)
    } else {
        samples.len() - 1
    }
}

/// The output rate of a model is that of one of its calls: its output tokens over its nanoseconds. As
/// many calls are counted for it as took time and put out tokens, and there is none if and only if no
/// call did.
pub proof fn rates_are_of_output_to_time(
    table: Seq<LatencyStats>,
    rows: Seq<LatencyRow>,
    k: int,
    percent: int,
    rate: Option<Quotient>,
)
    requires
        rows.len() <= usize::MAX,
        forall|i: int| 0 <= i < rows.len() ==> latency::context_fits((#[trigger] rows[i]).sample),
        latency::is_latency_table(table, rows),
        0 <= k < table.len(),
        (percent == 10 && rate == table[k].derived_rate_p10) || (percent == 50 && rate
            == table[k].derived_rate_p50) || (percent == 90 && rate == table[k].derived_rate_p90) || (percent == 95
            && rate == table[k].derived_rate_p95) || (percent == 99 && rate == table[k].derived_rate_p99),
    ensures
        ({
            let model = text::optional(table[k].model);
            let n = sums::how_many(
                rows,
                |r: LatencyRow| text::optional(r.model) == model && r.sample.duration_ns > 0 && counted(
                    r.sample.output_tokens,
                ) > 0,
            );
            &&& table[k].throughput_sample_count == n
            &&& match rate {
                None => n == 0,
                Some(q) => {
                    &&& exists|i: int|
                        0 <= i < rows.len() && text::optional((#[trigger] rows[i]).model) == model && q.numerator > 0
                            && q.denominator > 0 && q.numerator == counted(rows[i].sample.output_tokens)
                            && q.denominator == rows[i].sample.duration_ns
                    &&& 100 * sums::how_many(
                        rows,
                        |r: LatencyRow| text::optional(r.model) == model && r.sample.duration_ns > 0 && counted(
                            r.sample.output_tokens,
                        ) > 0 && is_smaller(output_over_time(r.sample), q),
                    ) <= percent * (n - 1) + 50
                    &&& 100 * sums::how_many(
                        rows,
                        |r: LatencyRow| text::optional(r.model) == model && r.sample.duration_ns > 0 && counted(
                            r.sample.output_tokens,
                        ) > 0 && !is_smaller(q, output_over_time(r.sample)),
                    ) > percent * (n - 1) + 50
                },
            }
        }),
{
    let model = text::optional(table[k].model);
    let own = group::gather(latency::row_models(rows), latency::row_samples(rows), model);
    let rates = latency::token_rates(own);
    assert(latency::describes(table[k], own));
    lemma_fits(rows, model);
    lemma_ratios_bounded(own);
    let yes = |q: Quotient| true;
    lemma_rates(own, yes);
    lemma_counted_rates(rows, model, yes);
    sums::lemma_all(rates);
    sums::lemma_as_many(
        rows,
        |r: LatencyRow| text::optional(r.model) == model && r.sample.duration_ns > 0 && counted(
            r.sample.output_tokens,
        ) > 0 && yes(output_over_time(r.sample)),
        |r: LatencyRow| text::optional(r.model) == model && r.sample.duration_ns > 0 && counted(
            r.sample.output_tokens,
        ) > 0,
    );
    assert(rate == latency::quotient_percentile_of(rates, percent));
    if let Some(q) = rate {
        quotient_percentiles_are_of_the_nearest_rank(rates, percent, q);
        let j = rates.index_of(q);
        let at = lemma_rate_of(own, j);
        let i = group::lemma_gathered_from(latency::row_models(rows), latency::row_samples(rows), model, at);
        assert(text::optional(rows[i].model) == model);
        lemma_counted_rates(rows, model, |x: Quotient| is_smaller(x, q));
        lemma_counted_rates(rows, model, |x: Quotient| !is_smaller(q, x));
        sums::lemma_as_many(
            rows,
            |r: LatencyRow| text::optional(r.model) == model && r.sample.duration_ns > 0 && counted(
                r.sample.output_tokens,
            ) > 0 && (|x: Quotient| is_smaller(x, q))(output_over_time(r.sample)),
            |r: LatencyRow| text::optional(r.model) == model && r.sample.duration_ns > 0 && counted(
                r.sample.output_tokens,
            ) > 0 && is_smaller(output_over_time(r.sample), q),
        );
        sums::lemma_as_many(
            rows,
            |r: LatencyRow| text::optional(r.model) == model && r.sample.duration_ns > 0 && counted(
                r.sample.output_tokens,
            ) > 0 && (|x: Quotient| !is_smaller(q, x))(output_over_time(r.sample)),
            |r: LatencyRow| text::optional(r.model) == model && r.sample.duration_ns > 0 && counted(
                r.sample.output_tokens,
            ) > 0 && !is_smaller(q, output_over_time(r.sample)),
        );
    }
}

/// Whole milliseconds, of which the rest is dropped.
pub open spec fn in_millis(nanos: int) -> int {
    if nanos >= 0 {
        nanos / 1_000_000
    } else {
        -((-nanos) / 1_000_000)
    }
}

/// A valid time to first token.
pub open spec fn valid_ttft(s: LatencySample) -> Option<i64> {
    match s.ttft {
        TtftReading::Millis { ms, valid: true } => Some(ms),
        _ => None,
    }
}

/// The durations, the times to first token and the input sizes are those of the samples.
proof fn lemma_numbers(samples: Seq<LatencySample>, p: spec_fn(i64) -> bool)
    ensures
        sums::how_many(latency::durations(samples), p) == sums::how_many(
            samples,
            |s: LatencySample| p(in_millis(s.duration_ns as int) as i64),
        ),
        sums::how_many(latency::input_counts(samples), p) == sums::how_many(
            samples,
            |s: LatencySample| s.input_tokens is Some && p(s.input_tokens->0),
        ),
        sums::how_many(latency::ttft_values(latency::ttft_samples(samples)), p) == sums::how_many(
            samples,
            |s: LatencySample| valid_ttft(s) is Some && p(valid_ttft(s)->0),
        ),
    decreases samples.len(),
{
    if samples.len() > 0 {
        let prior = samples.drop_last();
        let s = samples.last();
        lemma_numbers(prior, p);
        assert(latency::durations(samples).drop_last() =~= latency::durations(prior));
        assert(latency::ttft_samples(samples).drop_last() =~= latency::ttft_samples(prior));
        if let Some(n) = s.input_tokens {
            sums::lemma_sum_by_push(latency::input_counts(prior), n, sums::one_where(p));
        }
        if let Some(ms) = valid_ttft(s) {
            sums::lemma_sum_by_push(latency::ttft_values(latency::ttft_samples(prior)), ms, sums::one_where(p));
        }
    }
}

/// The duration of a model is, at each percentile, that of one of its calls in whole milliseconds, of the
/// nearest rank among its calls; and all its calls are counted.
pub proof fn durations_are_of_the_calls(
    table: Seq<LatencyStats>,
    rows: Seq<LatencyRow>,
    k: int,
    percent: int,
    ms: i64,
)
    requires
        latency::is_latency_table(table, rows),
        0 <= k < table.len(),
        (percent == 50 && ms == table[k].p50_ms) || (percent == 95 && ms == table[k].p95_ms) || (percent == 99 && ms
            == table[k].p99_ms),
    ensures
        ({
            let model = text::optional(table[k].model);
            let n = sums::how_many(rows, |r: LatencyRow| text::optional(r.model) == model);
            &&& table[k].count == n
            &&& n > 0
            &&& 100 * sums::how_many(
                rows,
                |r: LatencyRow| text::optional(r.model) == model && in_millis(r.sample.duration_ns as int) < ms,
            ) <= percent * (n - 1) + 50
            &&& 100 * sums::how_many(
                rows,
                |r: LatencyRow| text::optional(r.model) == model && in_millis(r.sample.duration_ns as int) <= ms,
            ) > percent * (n - 1) + 50
        }),
{
    let model = text::optional(table[k].model);
    let own = group::gather(latency::row_models(rows), latency::row_samples(rows), model);
    let d = latency::durations(own);
    assert(latency::describes(table[k], own));
    assert(latency::row_models(rows).contains(model));
    group::lemma_gather_absent(latency::row_models(rows), latency::row_samples(rows), model);
    let yes = |s: LatencySample| true;
    sums::lemma_all(own);
    lemma_of_model(rows, model, yes);
    sums::lemma_as_many(
        rows,
        |r: LatencyRow| text::optional(r.model) == model && yes(r.sample),
        |r: LatencyRow| text::optional(r.model) == model,
    );
    percentiles_are_of_the_nearest_rank(d, percent);
    let below = |x: i64| x < ms;
    let upto = |x: i64| x <= ms;
    lemma_numbers(own, below);
    lemma_numbers(own, upto);
    let f = |s: LatencySample| below(in_millis(s.duration_ns as int) as i64);
    let g = |s: LatencySample| upto(in_millis(s.duration_ns as int) as i64);
    lemma_of_model(rows, model, f);
    lemma_of_model(rows, model, g);
    sums::lemma_as_many(
        rows,
        |r: LatencyRow| text::optional(r.model) == model && f(r.sample),
        |r: LatencyRow| text::optional(r.model) == model && in_millis(r.sample.duration_ns as int) < ms,
    );
    sums::lemma_as_many(
        rows,
        |r: LatencyRow| text::optional(r.model) == model && g(r.sample),
        |r: LatencyRow| text::optional(r.model) == model && in_millis(r.sample.duration_ns as int) <= ms,
    );
}

/// The input size of a model is, at each percentile, that of one of its calls, of the nearest rank among
/// those that report it; there is none if and only if no call does.
pub proof fn input_sizes_are_of_the_calls(
    table: Seq<LatencyStats>,
    rows: Seq<LatencyRow>,
    k: int,
    percent: int,
    value: Option<i64>,
)
    requires
        latency::is_latency_table(table, rows),
        0 <= k < table.len(),
        (percent == 50 && value == table[k].input_tokens_p50) || (percent == 95 && value == table[k].input_tokens_p95)
            || (percent == 99 && value == table[k].input_tokens_p99),
    ensures
        ({
            let model = text::optional(table[k].model);
            let n = sums::how_many(rows, |r: LatencyRow| text::optional(r.model) == model && r.sample.input_tokens is Some);
            &&& n >= 0
            &&& match value {
                None => n == 0,
                Some(v) => {
                    &&& n > 0
                    &&& 100 * sums::how_many(
                        rows,
                        |r: LatencyRow| text::optional(r.model) == model && r.sample.input_tokens is Some && r.sample.input_tokens->0 < v,
                    ) <= percent * (n - 1) + 50
                    &&& 100 * sums::how_many(
                        rows,
                        |r: LatencyRow| text::optional(r.model) == model && r.sample.input_tokens is Some && r.sample.input_tokens->0 <= v,
                    ) > percent * (n - 1) + 50
                },
            }
        }),
{
    let model = text::optional(table[k].model);
    let own = group::gather(latency::row_models(rows), latency::row_samples(rows), model);
    let list = latency::input_counts(own);
    assert(latency::describes(table[k], own));
    let yes = |x: i64| true;
    lemma_numbers(own, yes);
    sums::lemma_all(list);
    let h = |s: LatencySample| s.input_tokens is Some && yes(s.input_tokens->0);
    lemma_of_model(rows, model, h);
    sums::lemma_as_many(
        rows,
        |r: LatencyRow| text::optional(r.model) == model && h(r.sample),
        |r: LatencyRow| text::optional(r.model) == model && r.sample.input_tokens is Some,
    );
    if let Some(v) = value {
        percentiles_are_of_the_nearest_rank(list, percent);
        let below = |x: i64| x < v;
        let upto = |x: i64| x <= v;
        lemma_numbers(own, below);
        lemma_numbers(own, upto);
        let f = |s: LatencySample| s.input_tokens is Some && below(s.input_tokens->0);
        let g = |s: LatencySample| s.input_tokens is Some && upto(s.input_tokens->0);
        lemma_of_model(rows, model, f);
        lemma_of_model(rows, model, g);
        sums::lemma_as_many(
            rows,
            |r: LatencyRow| text::optional(r.model) == model && f(r.sample),
            |r: LatencyRow| text::optional(r.model) == model && r.sample.input_tokens is Some && r.sample.input_tokens->0 < v,
        );
        sums::lemma_as_many(
            rows,
            |r: LatencyRow| text::optional(r.model) == model && g(r.sample),
            |r: LatencyRow| text::optional(r.model) == model && r.sample.input_tokens is Some && r.sample.input_tokens->0 <= v,
        );
    }
}

/// The time to first token of a model is, at each percentile, that of one of its calls, of the nearest
/// rank among the valid ones, which are all counted; there is none if and only if no call has a valid one.
pub proof fn first_token_times_are_of_the_calls(
    table: Seq<LatencyStats>,
    rows: Seq<LatencyRow>,
    k: int,
    percent: int,
    value: Option<i64>,
)
    requires
        latency::is_latency_table(table, rows),
        0 <= k < table.len(),
        (percent == 50 && value == table[k].ttft_p50_ms) || (percent == 95 && value == table[k].ttft_p95_ms)
            || (percent == 99 && value == table[k].ttft_p99_ms),
    ensures
        ({
            let model = text::optional(table[k].model);
            let n = sums::how_many(rows, |r: LatencyRow| text::optional(r.model) == model && valid_ttft(r.sample) is Some);
            &&& table[k].ttft_count == n
            &&& match value {
                None => n == 0,
                Some(v) => {
                    &&& n > 0
                    &&& 100 * sums::how_many(
                        rows,
                        |r: LatencyRow| text::optional(r.model) == model && valid_ttft(r.sample) is Some && valid_ttft(r.sample)->0 < v,
                    ) <= percent * (n - 1) + 50
                    &&& 100 * sums::how_many(
                        rows,
                        |r: LatencyRow| text::optional(r.model) == model && valid_ttft(r.sample) is Some && valid_ttft(r.sample)->0 <= v,
                    ) > percent * (n - 1) + 50
                },
            }
        }),
{
    let model = text::optional(table[k].model);
    let own = group::gather(latency::row_models(rows), latency::row_samples(rows), model);
    let list = latency::ttft_values(latency::ttft_samples(own));
    assert(latency::describes(table[k], own));
    let yes = |x: i64| true;
    lemma_numbers(own, yes);
    sums::lemma_all(list);
    let h = |s: LatencySample| valid_ttft(s) is Some && yes(valid_ttft(s)->0);
    lemma_of_model(rows, model, h);
    sums::lemma_as_many(
        rows,
        |r: LatencyRow| text::optional(r.model) == model && h(r.sample),
        |r: LatencyRow| text::optional(r.model) == model && valid_ttft(r.sample) is Some,
    );
    if let Some(v) = value {
        percentiles_are_of_the_nearest_rank(list, percent);
        let below = |x: i64| x < v;
        let upto = |x: i64| x <= v;
        lemma_numbers(own, below);
        lemma_numbers(own, upto);
        let f = |s: LatencySample| valid_ttft(s) is Some && below(valid_ttft(s)->0);
        let g = |s: LatencySample| valid_ttft(s) is Some && upto(valid_ttft(s)->0);
        lemma_of_model(rows, model, f);
        lemma_of_model(rows, model, g);
        sums::lemma_as_many(
            rows,
            |r: LatencyRow| text::optional(r.model) == model && f(r.sample),
            |r: LatencyRow| text::optional(r.model) == model && valid_ttft(r.sample) is Some && valid_ttft(r.sample)->0 < v,
        );
        sums::lemma_as_many(
            rows,
            |r: LatencyRow| text::optional(r.model) == model && g(r.sample),
            |r: LatencyRow| text::optional(r.model) == model && valid_ttft(r.sample) is Some && valid_ttft(r.sample)->0 <= v,
        );
    }
}

/// A time to first token that tells nothing: it took at least nine tenths of a call that took time.
pub open spec fn tells_nothing(s: LatencySample) -> bool {
    valid_ttft(s) is Some && in_millis(s.duration_ns as int) > 0 && 10 * valid_ttft(s)->0 >= 9 * in_millis(
        s.duration_ns as int,
    )
}

/// A time to first token that is reported and not valid.
pub open spec fn is_rejected(s: LatencySample) -> bool {
    match s.ttft {
        TtftReading::Absent => false,
        TtftReading::Invalid => true,
        TtftReading::Millis { ms: _, valid } => !valid,
    }
}

/// The rejected and the late times are counted over the samples.
proof fn lemma_rejected(samples: Seq<LatencySample>)
    ensures
        latency::ttft_invalid(latency::ttft_samples(samples)) == sums::how_many(samples, |s: LatencySample| is_rejected(s)),
        latency::ttft_late(latency::ttft_samples(samples)) == sums::how_many(samples, |s: LatencySample| tells_nothing(s)),
    decreases samples.len(),
{
    if samples.len() > 0 {
        lemma_rejected(samples.drop_last());
        assert(latency::ttft_samples(samples).drop_last() =~= latency::ttft_samples(samples.drop_last()));
    }
}

/// The rejected times and those that tell nothing of streaming are counted over the calls of the model.
/// The times of a model as a whole tell nothing where there are at least ten of them, and at least nine in
/// ten tell nothing.
pub proof fn late_first_tokens_are_counted(table: Seq<LatencyStats>, rows: Seq<LatencyRow>, k: int)
    requires
        latency::is_latency_table(table, rows),
        0 <= k < table.len(),
    ensures
        ({
            let model = text::optional(table[k].model);
            let late = sums::how_many(rows, |r: LatencyRow| text::optional(r.model) == model && tells_nothing(r.sample));
            let valid = sums::how_many(rows, |r: LatencyRow| text::optional(r.model) == model && valid_ttft(r.sample) is Some);
            &&& table[k].ttft_invalid_count == sums::how_many(
                rows,
                |r: LatencyRow| text::optional(r.model) == model && is_rejected(r.sample),
            )
            &&& table[k].ttft_degenerate_count == late
            &&& table[k].ttft_degenerate <==> valid >= 10 && 10 * late >= 9 * valid
        }),
{
    let model = text::optional(table[k].model);
    let own = group::gather(latency::row_models(rows), latency::row_samples(rows), model);
    assert(latency::describes(table[k], own));
    first_token_times_are_of_the_calls(table, rows, k, 50, table[k].ttft_p50_ms);
    lemma_rejected(own);
    let f = |s: LatencySample| is_rejected(s);
    let g = |s: LatencySample| tells_nothing(s);
    lemma_of_model(rows, model, f);
    lemma_of_model(rows, model, g);
    sums::lemma_as_many(
        rows,
        |r: LatencyRow| text::optional(r.model) == model && f(r.sample),
        |r: LatencyRow| text::optional(r.model) == model && is_rejected(r.sample),
    );
    sums::lemma_as_many(
        rows,
        |r: LatencyRow| text::optional(r.model) == model && g(r.sample),
        |r: LatencyRow| text::optional(r.model) == model && tells_nothing(r.sample),
    );
}

/// Moving tokens of a prompt between what is sent, what is written to the cache and what is read from it
/// leaves the ratio of output to input as it is.
pub proof fn the_kind_of_prompt_tokens_does_not_matter(samples: Seq<LatencySample>, others: Seq<LatencySample>)
    requires
        samples.len() == others.len(),
        forall|i: int|
            0 <= i < samples.len() ==> {
                &&& counted((#[trigger] samples[i]).output_tokens) == counted(others[i].output_tokens)
                &&& counted(samples[i].input_tokens) + counted(samples[i].cache_creation_tokens) + counted(
                    samples[i].cache_read_tokens,
                ) == counted(others[i].input_tokens) + counted(others[i].cache_creation_tokens) + counted(
                    others[i].cache_read_tokens,
                )
            },
    ensures
        latency::output_ratios(samples) == latency::output_ratios(others),
        forall|s: LatencyStats, o: LatencyStats|
            #![trigger latency::describes(s, samples), latency::describes(o, others)]
            latency::describes(s, samples) && latency::describes(o, others) ==> s.output_input_ratio_p50
                == o.output_input_ratio_p50 && s.output_input_ratio_p95 == o.output_input_ratio_p95
                && s.output_input_ratio_p99 == o.output_input_ratio_p99,
    decreases samples.len(),
{
    if samples.len() > 0 {
        let last = samples.len() - 1;
        assert(counted(samples[last].output_tokens) == counted(others[last].output_tokens));
        assert forall|i: int| 0 <= i < samples.drop_last().len() implies {
            &&& counted((#[trigger] samples.drop_last()[i]).output_tokens) == counted(
                others.drop_last()[i].output_tokens,
            )
            &&& counted(samples.drop_last()[i].input_tokens) + counted(
                samples.drop_last()[i].cache_creation_tokens,
            ) + counted(samples.drop_last()[i].cache_read_tokens) == counted(others.drop_last()[i].input_tokens)
                + counted(others.drop_last()[i].cache_creation_tokens) + counted(
                others.drop_last()[i].cache_read_tokens,
            )
        } by {
            assert(samples.drop_last()[i] == samples[i]);
        }
        the_kind_of_prompt_tokens_does_not_matter(samples.drop_last(), others.drop_last());
    }
}

/// A line counts the calls of its model that are of its size.
pub proof fn lines_count_the_calls_of_their_size(
    lines: Seq<LatencyByContextBin>,
    rows: Seq<ContextRow>,
    keys: Seq<(i64, Option<Seq<char>>)>,
    k: int,
)
    requires
        latency_series::is_context_table(lines, rows, keys),
        0 <= k < lines.len(),
    ensures
        lines[k].summary.count == sums::how_many(
            rows,
            |r: ContextRow| text::optional(r.model) == text::optional(lines[k].model) && (lines[k].min_tokens
                <= r.input_tokens < lines[k].max_tokens || (r.input_tokens < 0 && lines[k].min_tokens == 100_000)),
        ),
{
    assert(latency_series::is_bin_line(lines[k], rows, keys[k]));
    assert(latency_series::context_keys(rows).contains(keys[k]));
    let at = latency_series::context_keys(rows).index_of(keys[k]);
    assert(0 <= keys[k].0 <= 4);
    lemma_of_key(rows, keys[k]);
    sums::lemma_as_many(
        rows,
        |r: ContextRow| text::optional(r.model) == keys[k].1 && latency_series::bin_of(r.input_tokens as int)
            == keys[k].0,
        |r: ContextRow| text::optional(r.model) == text::optional(lines[k].model) && (lines[k].min_tokens
            <= r.input_tokens < lines[k].max_tokens || (r.input_tokens < 0 && lines[k].min_tokens == 100_000)),
    );
}

/// As many timings stand beside a bin and a model as rows are of them.
proof fn lemma_of_key(rows: Seq<ContextRow>, key: (i64, Option<Seq<char>>))
    ensures
        group::gather(latency_series::context_keys(rows), latency_series::context_timings(rows), key).len()
            == sums::how_many(
            rows,
            |r: ContextRow| text::optional(r.model) == key.1 && latency_series::bin_of(r.input_tokens as int)
                == key.0,
        ),
    decreases rows.len(),
{
    if rows.len() > 0 {
        let prior = rows.drop_last();
        lemma_of_key(prior, key);
        assert(latency_series::context_keys(rows).drop_last() =~= latency_series::context_keys(prior));
        assert(latency_series::context_timings(rows).drop_last() =~= latency_series::context_timings(prior));
    }
}

/// Models with more spans come first, and models with as many in the order of their names.
pub proof fn models_with_more_spans_come_first(table: Seq<LatencyStats>, rows: Seq<LatencyRow>, j: int, k: int)
    requires
        latency::is_latency_table(table, rows),
        0 <= j < k < table.len(),
    ensures
        table[j].count >= table[k].count,
        table[j].count == table[k].count ==> order::label_leq(
            text::optional(table[j].model),
            text::optional(table[k].model),
        ) && text::optional(table[j].model) != text::optional(table[k].model),
{
    assert(latency::stats_before(table[j], table[k]));
}

} // verus!

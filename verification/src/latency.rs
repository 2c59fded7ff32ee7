//! Latency and time-to-first-token statistics.
use crate::group;
use crate::group::Key;
use crate::order;
use crate::order::LabelRank;
use crate::ratio::Quotient;
use crate::text;
use vstd::prelude::*;

verus! {

/// The position of a percentile among `n` sorted values: `(n - 1) * percent / 100`, rounded to the
/// nearest whole number and upward from halfway.
pub open spec fn percentile_index(n: int, percent: int) -> int {
    ((n - 1) * percent + 50) / 100
}

/// The percentile of some values, zero where there are none.
pub open spec fn percentile_of(values: Seq<i64>, percent: int) -> i64 {
    if values.len() == 0 {
        0
    } else {
        order::ascending(values)[percentile_index(values.len() as int, percent)]
    }
}

/// The percentile of some quotients, where there are any.
pub open spec fn quotient_percentile_of(values: Seq<Quotient>, percent: int) -> Option<Quotient> {
    if values.len() == 0 {
        None
    } else {
        Some(values[order::sorting(values)[percentile_index(values.len() as int, percent)] as int])
    }
}

/// The percentile of some values, where there are any.
pub open spec fn some_percentile(values: Seq<i64>, percent: int) -> Option<i64> {
    if values.len() == 0 {
        None
    } else {
        Some(percentile_of(values, percent))
    }
}

/// A percentile position lies among the values, and a higher percentile never lies before a lower one.
pub proof fn percentile_index_is_monotone(n: int, low: int, high: int)
    requires
        n > 0,
        0 <= low <= high <= 100,
    ensures
        0 <= percentile_index(n, low) <= percentile_index(n, high) < n,
        percentile_index(n, 0) == 0,
        percentile_index(n, 100) == n - 1,
{
    assert(0 <= (n - 1) * low <= (n - 1) * high <= (n - 1) * 100) by (nonlinear_arith)
        requires
            n > 0,
            0 <= low <= high <= 100,
    ;
    assert((n - 1) * 0 == 0) by (nonlinear_arith);
}

/// A percentile is one of the values, and a higher percentile is never smaller.
pub proof fn percentiles_are_ordered(values: Seq<i64>, low: int, high: int)
    requires
        values.len() > 0,
        0 <= low <= high <= 100,
    ensures
        values.contains(percentile_of(values, low)),
        percentile_of(values, low) <= percentile_of(values, high),
{
    let s = order::ascending(values);
    order::lemma_ascending(values);
    percentile_index_is_monotone(values.len() as int, low, high);
    assert(s.contains(s[percentile_index(values.len() as int, low)]));
}

/// The position of a percentile among `n` sorted values.
fn index_of_percentile(n: usize, percent: u64) -> (i: usize)
    requires
        n > 0,
        percent <= 100,
    ensures
        i == percentile_index(n as int, percent as int),
        i < n,
{
    proof {
        percentile_index_is_monotone(n as int, percent as int, 100);
        assert(0 <= (n - 1) * percent <= 0xffff_ffff_ffff_ffff * 100) by (nonlinear_arith)
            requires
                0 < n <= 0xffff_ffff_ffff_ffff,
                percent <= 100,
        ;
    }
    let i: u128 = (((n - 1) as u128) * (percent as u128) + 50) / 100;
    i as usize
}

/// The percentile of values in ascending order, zero where there are none.
pub fn percentile(sorted: &Vec<i64>, percent: u64) -> (v: i64)
    requires
        percent <= 100,
    ensures
        v == if sorted@.len() == 0 {
            0
        } else {
            sorted@[percentile_index(sorted@.len() as int, percent as int)]
        },
{
    if sorted.len() == 0 {
        return 0;
    }
    sorted[index_of_percentile(sorted.len(), percent)]
}

/// The percentile of values in ascending order, where there are any.
fn optional_percentile(sorted: &Vec<i64>, percent: u64) -> (v: Option<i64>)
    requires
        percent <= 100,
    ensures
        v == if sorted@.len() == 0 {
            None
        } else {
            Some(sorted@[percentile_index(sorted@.len() as int, percent as int)])
        },
{
    if sorted.len() == 0 {
        return None;
    }
    Some(percentile(sorted, percent))
}

/// The percentile of quotients, of which `sorting` is the order, where there are any.
fn quotient_percentile(values: &Vec<Quotient>, sorting: &Vec<usize>, percent: u64) -> (v: Option<Quotient>)
    requires
        percent <= 100,
        sorting@ == order::sorting(values@),
        order::sorts(values@, sorting@),
    ensures
        v == quotient_percentile_of(values@, percent as int),
{
    if values.len() == 0 {
        return None;
    }
    let at: usize = index_of_percentile(values.len(), percent);
    Some(values[sorting[at]])
}

/// The sum of some signed numbers.
pub open spec fn total(values: Seq<i64>) -> int
    decreases values.len(),
{
    if values.len() == 0 {
        0
    } else {
        total(values.drop_last()) + values.last()
    }
}

/// Adds up signed numbers.
pub fn add_up(values: &Vec<i64>) -> (sum: i128)
    ensures
        sum == total(values@),
{
    let mut sum: i128 = 0;
    let mut i: usize = 0;
    while i < values.len()
        invariant
            i <= values@.len(),
            sum == total(values@.take(i as int)),
            -0x8000_0000_0000_0000 * i <= sum <= 0x7fff_ffff_ffff_ffff * i,
        decreases values@.len() - i,
    {
        assert(values@.take(i + 1).drop_last() =~= values@.take(i as int));
        assert(-0x8000_0000_0000_0000 * (i + 1) >= -0x8000_0000_0000_0000_0000_0000_0000_0000
            && 0x7fff_ffff_ffff_ffff * (i + 1) <= 0x7fff_ffff_ffff_ffff_ffff_ffff_ffff_ffff)
            by (nonlinear_arith)
            requires
                0 <= i < 0xffff_ffff_ffff_ffff,
        ;
        sum = sum + values[i] as i128;
        i = i + 1;
    }
    assert(values@.take(i as int) =~= values@);
    sum
}

/// What a span says of its time to first token.
#[derive(Clone, Copy, Debug, PartialEq, Eq, Structural)]
pub enum TtftReading {
    /// Nothing.
    Absent,
    /// Something that is no time.
    Invalid,
    /// A time in milliseconds, and whether it was classified as valid beside the span's duration.
    Millis { ms: i64, valid: bool },
}

/// A reading counts as invalid: it is no time, or one that was not classified as valid.
pub open spec fn is_invalid(reading: TtftReading) -> bool {
    match reading {
        TtftReading::Absent => false,
        TtftReading::Invalid => true,
        TtftReading::Millis { ms: _, valid } => !valid,
    }
}

/// Where a time to first token is read from: the text, and how many milliseconds one unit of it is.
pub struct TtftSource {
    pub raw: String,
    pub millis_per_unit: u32,
}

/// Picks the attribute that the time to first token is read from: the OpenTelemetry attribute in
/// seconds, else the `llm` attribute in seconds, else the custom attribute in milliseconds.
pub fn ttft_source(
    otel_ttft_secs: &Option<String>,
    llm_ttft_secs: &Option<String>,
    custom_ttft_ms: &Option<String>,
) -> (source: Option<TtftSource>)
    ensures
        match (*otel_ttft_secs, *llm_ttft_secs, *custom_ttft_ms) {
            (Some(raw), _, _) => source matches Some(s) && s.raw@ == raw@ && s.millis_per_unit == 1000,
            (None, Some(raw), _) => source matches Some(s) && s.raw@ == raw@ && s.millis_per_unit == 1000,
            (None, None, Some(raw)) => source matches Some(s) && s.raw@ == raw@ && s.millis_per_unit == 1,
            (None, None, None) => source is None,
        },
{
    if let Some(raw) = otel_ttft_secs {
        return Some(TtftSource { raw: raw.clone(), millis_per_unit: 1000 });
    }
    if let Some(raw) = llm_ttft_secs {
        return Some(TtftSource { raw: raw.clone(), millis_per_unit: 1000 });
    }
    if let Some(raw) = custom_ttft_ms {
        return Some(TtftSource { raw: raw.clone(), millis_per_unit: 1 });
    }
    None
}

/// A span's duration and its reading.
#[derive(Clone, Copy, Debug, PartialEq, Eq, Structural)]
pub struct TtftSample {
    pub duration_ms: i64,
    pub reading: TtftReading,
}

/// The first token took at least nine tenths of the span, so that the time tells nothing of streaming.
pub open spec fn is_late(duration_ms: int, ttft_ms: int) -> bool {
    duration_ms > 0 && 10 * ttft_ms >= 9 * duration_ms
}

/// The valid times that the samples hold.
pub open spec fn ttft_values(samples: Seq<TtftSample>) -> Seq<i64>
    decreases samples.len(),
{
    if samples.len() == 0 {
        Seq::empty()
    } else {
        match samples.last().reading {
            TtftReading::Millis { ms, valid: true } => ttft_values(samples.drop_last()).push(ms),
            _ => ttft_values(samples.drop_last()),
        }
    }
}

/// The number of samples that hold something else than a valid time.
pub open spec fn ttft_invalid(samples: Seq<TtftSample>) -> int
    decreases samples.len(),
{
    if samples.len() == 0 {
        0
    } else {
        ttft_invalid(samples.drop_last()) + if is_invalid(samples.last().reading) {
            1int
        } else {
            0int
        }
    }
}

/// The number of samples with a valid time whose first token came late.
pub open spec fn ttft_late(samples: Seq<TtftSample>) -> int
    decreases samples.len(),
{
    if samples.len() == 0 {
        0
    } else {
        ttft_late(samples.drop_last()) + match samples.last().reading {
            TtftReading::Millis { ms, valid: true } => if is_late(samples.last().duration_ms as int, ms as int) {
                1int
            } else {
                0int
            },
            _ => 0int,
        }
    }
}

/// Every sample is counted once: as a valid time, as invalid, or as one that says nothing. Late times
/// are valid ones.
pub proof fn readings_are_counted_once(samples: Seq<TtftSample>)
    ensures
        ttft_values(samples).len() + ttft_invalid(samples) + samples.filter(
            |s: TtftSample| s.reading is Absent,
        ).len() == samples.len(),
        0 <= ttft_late(samples) <= ttft_values(samples).len(),
        0 <= ttft_invalid(samples),
    decreases samples.len(),
{
    reveal(Seq::filter);
    if samples.len() > 0 {
        readings_are_counted_once(samples.drop_last());
    }
}

/// At least ten times of which at least nine in ten came late.
pub open spec fn mostly_late(times: int, late: int) -> bool {
    times >= 10 && late * 100 >= times * 90
}

/// Collected times to first token.
pub struct TtftAccum {
    pub values_ms: Vec<i64>,
    pub invalid_count: usize,
    pub degenerate_count: usize,
}

impl TtftAccum {
    /// The accumulator holds what the samples say.
    pub open spec fn holds(self, samples: Seq<TtftSample>) -> bool {
        &&& self.values_ms@ == ttft_values(samples)
        &&& self.invalid_count == ttft_invalid(samples)
        &&& self.degenerate_count == ttft_late(samples)
    }

    /// An accumulator without samples.
    pub fn new() -> (t: TtftAccum)
        ensures
            t.holds(Seq::empty()),
    {
        TtftAccum { values_ms: Vec::new(), invalid_count: 0, degenerate_count: 0 }
    }

    /// Takes one more sample.
    pub fn record(&mut self, duration_ms: i64, reading: TtftReading)
        requires
            old(self).invalid_count < usize::MAX,
            old(self).degenerate_count < usize::MAX,
        ensures
            forall|samples: Seq<TtftSample>| #[trigger]
                old(self).holds(samples) ==> final(self).holds(
                    samples.push(TtftSample { duration_ms, reading }),
                ),
            final(self).invalid_count <= old(self).invalid_count + 1,
            final(self).degenerate_count <= old(self).degenerate_count + 1,
    {
        proof {
            assert forall|samples: Seq<TtftSample>| #[trigger] old(self).holds(samples) implies samples.push(
                TtftSample { duration_ms, reading },
            ).drop_last() == samples by {
                assert(samples.push(TtftSample { duration_ms, reading }).drop_last() =~= samples);
            }
        }
        match reading {
            TtftReading::Absent => {},
            TtftReading::Invalid => {
                self.invalid_count = self.invalid_count + 1;
            },
            TtftReading::Millis { ms: ttft_ms, valid } => {
                if !valid {
                    self.invalid_count = self.invalid_count + 1;
                    return;
                }
                if duration_ms > 0 && 10 * (ttft_ms as i128) >= 9 * (duration_ms as i128) {
                    self.degenerate_count = self.degenerate_count + 1;
                }
                self.values_ms.push(ttft_ms);
            },
        }
    }

    /// Whether most first tokens came so late that the times tell nothing of streaming.
    pub fn is_degenerate(&self) -> (r: bool)
        ensures
            r == mostly_late(self.values_ms@.len() as int, self.degenerate_count as int),
    {
        self.values_ms.len() >= 10 && (self.degenerate_count as u128) * 100 >= (self.values_ms.len() as u128) * 90
    }
}

/// What one request span measured.
#[derive(Clone, Copy, Debug, PartialEq, Eq, Structural)]
pub struct LatencySample {
    pub duration_ns: i64,
    pub ttft: TtftReading,
    pub output_tokens: Option<i64>,
    pub input_tokens: Option<i64>,
    pub cache_creation_tokens: Option<i64>,
    pub cache_read_tokens: Option<i64>,
}

/// One request span.
pub struct LatencyRow {
    pub model: Option<String>,
    pub sample: LatencySample,
}

/// Nanoseconds as whole milliseconds; the rest is dropped.
pub open spec fn whole_millis(nanos: int) -> int {
    if nanos >= 0 {
        nanos / 1_000_000
    } else {
        -((-nanos) / 1_000_000)
    }
}

/// Nanoseconds as whole milliseconds.
pub fn to_millis(nanos: i64) -> (ms: i64)
    ensures
        ms == whole_millis(nanos as int),
{
    if nanos >= 0 {
        ((nanos as u64) / 1_000_000) as i64
    } else {
        let n: u64 = (-(nanos as i128)) as u64;
        -((n / 1_000_000) as i64)
    }
}

/// A missing count is zero.
pub open spec fn or_zero(n: Option<i64>) -> int {
    match n {
        Some(v) => v as int,
        None => 0,
    }
}

fn count_or_zero(n: Option<i64>) -> (v: i64)
    ensures
        v == or_zero(n),
{
    match n {
        Some(v) => v,
        None => 0,
    }
}

/// The durations in milliseconds.
pub open spec fn durations(samples: Seq<LatencySample>) -> Seq<i64> {
    Seq::new(samples.len(), |i: int| whole_millis(samples[i].duration_ns as int) as i64)
}

/// The times to first token beside the durations.
pub open spec fn ttft_samples(samples: Seq<LatencySample>) -> Seq<TtftSample> {
    Seq::new(
        samples.len(),
        |i: int|
            TtftSample {
                duration_ms: whole_millis(samples[i].duration_ns as int) as i64,
                reading: samples[i].ttft,
            },
    )
}

/// The output rate of each span that took time and put out tokens: tokens over nanoseconds.
pub open spec fn token_rates(samples: Seq<LatencySample>) -> Seq<Quotient>
    decreases samples.len(),
{
    if samples.len() == 0 {
        Seq::empty()
    } else {
        let earlier = token_rates(samples.drop_last());
        let s = samples.last();
        if s.duration_ns > 0 && or_zero(s.output_tokens) > 0 {
            earlier.push(
                Quotient { numerator: or_zero(s.output_tokens) as i64, denominator: s.duration_ns },
            )
        } else {
            earlier
        }
    }
}

/// The input tokens of each span that reports them.
pub open spec fn input_counts(samples: Seq<LatencySample>) -> Seq<i64>
    decreases samples.len(),
{
    if samples.len() == 0 {
        Seq::empty()
    } else {
        match samples.last().input_tokens {
            Some(n) => input_counts(samples.drop_last()).push(n),
            None => input_counts(samples.drop_last()),
        }
    }
}

/// The tokens that a span was given: fresh ones, and those written to or read from the cache.
pub open spec fn context_tokens(s: LatencySample) -> int {
    or_zero(s.input_tokens) + or_zero(s.cache_creation_tokens) + or_zero(s.cache_read_tokens)
}

/// The ratio of output to context of each span that has context.
pub open spec fn output_ratios(samples: Seq<LatencySample>) -> Seq<Quotient>
    decreases samples.len(),
{
    if samples.len() == 0 {
        Seq::empty()
    } else {
        let earlier = output_ratios(samples.drop_last());
        let s = samples.last();
        if context_tokens(s) > 0 {
            earlier.push(
                Quotient {
                    numerator: or_zero(s.output_tokens) as i64,
                    denominator: context_tokens(s) as i64,
                },
            )
        } else {
            earlier
        }
    }
}

/// The context of a span is a number that fits.
pub open spec fn context_fits(s: LatencySample) -> bool {
    &&& i64::MIN <= or_zero(s.input_tokens) + or_zero(s.cache_creation_tokens) <= i64::MAX
    &&& i64::MIN <= context_tokens(s) <= i64::MAX
}

/// Latency statistics of one model.
pub struct LatencyStats {
    pub model: Option<String>,
    pub count: usize,
    /// The sum of the durations, whose mean is this over `count`.
    pub total_ms: i128,
    pub p50_ms: i64,
    pub p95_ms: i64,
    pub p99_ms: i64,
    pub ttft_count: usize,
    pub ttft_invalid_count: usize,
    pub ttft_degenerate_count: usize,
    pub ttft_degenerate: bool,
    pub ttft_p50_ms: Option<i64>,
    pub ttft_p95_ms: Option<i64>,
    pub ttft_p99_ms: Option<i64>,
    /// The number of spans with an output rate.
    pub throughput_sample_count: usize,
    /// Output rates in tokens per nanosecond.
    pub derived_rate_p10: Option<Quotient>,
    pub derived_rate_p50: Option<Quotient>,
    pub derived_rate_p90: Option<Quotient>,
    pub derived_rate_p95: Option<Quotient>,
    pub derived_rate_p99: Option<Quotient>,
    pub input_tokens_p50: Option<i64>,
    pub input_tokens_p95: Option<i64>,
    pub input_tokens_p99: Option<i64>,
    pub output_input_ratio_p50: Option<Quotient>,
    pub output_input_ratio_p95: Option<Quotient>,
    pub output_input_ratio_p99: Option<Quotient>,
}

/// The statistics are those of the samples.
pub open spec fn describes(stats: LatencyStats, samples: Seq<LatencySample>) -> bool {
    let d = durations(samples);
    let t = ttft_values(ttft_samples(samples));
    let rates = token_rates(samples);
    let inputs = input_counts(samples);
    let ratios = output_ratios(samples);
    &&& stats.count == samples.len()
    &&& stats.total_ms == total(d)
    &&& stats.p50_ms == percentile_of(d, 50)
    &&& stats.p95_ms == percentile_of(d, 95)
    &&& stats.p99_ms == percentile_of(d, 99)
    &&& stats.ttft_count == t.len()
    &&& stats.ttft_invalid_count == ttft_invalid(ttft_samples(samples))
    &&& stats.ttft_degenerate_count == ttft_late(ttft_samples(samples))
    &&& stats.ttft_degenerate == mostly_late(t.len() as int, ttft_late(ttft_samples(samples)))
    &&& stats.ttft_p50_ms == some_percentile(t, 50)
    &&& stats.ttft_p95_ms == some_percentile(t, 95)
    &&& stats.ttft_p99_ms == some_percentile(t, 99)
    &&& stats.throughput_sample_count == rates.len()
    &&& stats.derived_rate_p10 == quotient_percentile_of(rates, 10)
    &&& stats.derived_rate_p50 == quotient_percentile_of(rates, 50)
    &&& stats.derived_rate_p90 == quotient_percentile_of(rates, 90)
    &&& stats.derived_rate_p95 == quotient_percentile_of(rates, 95)
    &&& stats.derived_rate_p99 == quotient_percentile_of(rates, 99)
    &&& stats.input_tokens_p50 == some_percentile(inputs, 50)
    &&& stats.input_tokens_p95 == some_percentile(inputs, 95)
    &&& stats.input_tokens_p99 == some_percentile(inputs, 99)
    &&& stats.output_input_ratio_p50 == quotient_percentile_of(ratios, 50)
    &&& stats.output_input_ratio_p95 == quotient_percentile_of(ratios, 95)
    &&& stats.output_input_ratio_p99 == quotient_percentile_of(ratios, 99)
}

/// Computes the statistics of some samples.
fn describe(model: Option<String>, samples: &Vec<LatencySample>) -> (stats: LatencyStats)
    requires
        forall|i: int| 0 <= i < samples@.len() ==> context_fits(#[trigger] samples@[i]),
    ensures
        text::optional(stats.model) == text::optional(model),
        describes(stats, samples@),
{
    let mut all_durations: Vec<i64> = Vec::new();
    let mut ttft = TtftAccum::new();
    let mut rates: Vec<Quotient> = Vec::new();
    let mut inputs: Vec<i64> = Vec::new();
    let mut ratios: Vec<Quotient> = Vec::new();
    let mut i: usize = 0;
    assert(ttft_samples(samples@.take(0)) =~= Seq::empty());
    while i < samples.len()
        invariant
            i <= samples@.len(),
            forall|j: int| 0 <= j < samples@.len() ==> context_fits(#[trigger] samples@[j]),
            all_durations@ == durations(samples@.take(i as int)),
            ttft.holds(ttft_samples(samples@.take(i as int))),
            ttft.invalid_count <= i,
            ttft.degenerate_count <= i,
            rates@ == token_rates(samples@.take(i as int)),
            inputs@ == input_counts(samples@.take(i as int)),
            ratios@ == output_ratios(samples@.take(i as int)),
        decreases samples@.len() - i,
    {
        let s: LatencySample = samples[i];
        let ms: i64 = to_millis(s.duration_ns);
        proof {
            assert(context_fits(samples@[i as int]));
            assert(samples@.take(i + 1).drop_last() =~= samples@.take(i as int));
            assert(durations(samples@.take(i + 1)) =~= durations(samples@.take(i as int)).push(ms));
            assert(ttft_samples(samples@.take(i + 1)) =~= ttft_samples(samples@.take(i as int)).push(
                TtftSample { duration_ms: ms, reading: s.ttft },
            ));
        }
        all_durations.push(ms);
        ttft.record(ms, s.ttft);
        let output: i64 = count_or_zero(s.output_tokens);
        if s.duration_ns > 0 && output > 0 {
            rates.push(Quotient { numerator: output, denominator: s.duration_ns });
        }
        if let Some(n) = s.input_tokens {
            inputs.push(n);
        }
        let context: i64 = count_or_zero(s.input_tokens) + count_or_zero(s.cache_creation_tokens)
            + count_or_zero(s.cache_read_tokens);
        if context > 0 {
            ratios.push(Quotient { numerator: output, denominator: context });
        }
        i = i + 1;
    }
    assert(samples@.take(i as int) =~= samples@);
    let sorted_durations = order::sorted_values(&all_durations);
    let sorted_ttft = order::sorted_values(&ttft.values_ms);
    let sorted_inputs = order::sorted_values(&inputs);
    proof {
        order::lemma_ascending(all_durations@);
        order::lemma_ascending(ttft.values_ms@);
        order::lemma_ascending(inputs@);
    }
    let by_rate = order::order_of(&rates);
    let by_ratio = order::order_of(&ratios);
    LatencyStats {
        model,
        count: all_durations.len(),
        total_ms: add_up(&all_durations),
        p50_ms: percentile(&sorted_durations, 50),
        p95_ms: percentile(&sorted_durations, 95),
        p99_ms: percentile(&sorted_durations, 99),
        ttft_count: ttft.values_ms.len(),
        ttft_invalid_count: ttft.invalid_count,
        ttft_degenerate_count: ttft.degenerate_count,
        ttft_degenerate: ttft.is_degenerate(),
        ttft_p50_ms: optional_percentile(&sorted_ttft, 50),
        ttft_p95_ms: optional_percentile(&sorted_ttft, 95),
        ttft_p99_ms: optional_percentile(&sorted_ttft, 99),
        throughput_sample_count: rates.len(),
        derived_rate_p10: quotient_percentile(&rates, &by_rate, 10),
        derived_rate_p50: quotient_percentile(&rates, &by_rate, 50),
        derived_rate_p90: quotient_percentile(&rates, &by_rate, 90),
        derived_rate_p95: quotient_percentile(&rates, &by_rate, 95),
        derived_rate_p99: quotient_percentile(&rates, &by_rate, 99),
        input_tokens_p50: optional_percentile(&sorted_inputs, 50),
        input_tokens_p95: optional_percentile(&sorted_inputs, 95),
        input_tokens_p99: optional_percentile(&sorted_inputs, 99),
        output_input_ratio_p50: quotient_percentile(&ratios, &by_ratio, 50),
        output_input_ratio_p95: quotient_percentile(&ratios, &by_ratio, 95),
        output_input_ratio_p99: quotient_percentile(&ratios, &by_ratio, 99),
    }
}

/// The model of each row.
pub open spec fn row_models(rows: Seq<LatencyRow>) -> Seq<Option<Seq<char>>> {
    Seq::new(rows.len(), |i: int| text::optional(rows[i].model))
}

/// The sample of each row.
pub open spec fn row_samples(rows: Seq<LatencyRow>) -> Seq<LatencySample> {
    Seq::new(rows.len(), |i: int| rows[i].sample)
}

/// One model comes before another: it has more spans, or as many under an earlier name.
pub open spec fn stats_before(a: LatencyStats, b: LatencyStats) -> bool {
    a.count > b.count || (a.count == b.count && order::label_leq(
        text::optional(a.model),
        text::optional(b.model),
    ) && text::optional(a.model) != text::optional(b.model))
}

/// One line for each model, with the statistics of its spans, the most spans first.
pub open spec fn is_latency_table(table: Seq<LatencyStats>, rows: Seq<LatencyRow>) -> bool {
    &&& table.len() == group::first_seen(row_models(rows)).len()
    &&& forall|k: int|
        0 <= k < table.len() ==> {
            &&& row_models(rows).contains(text::optional((#[trigger] table[k]).model))
            &&& describes(
                table[k],
                group::gather(row_models(rows), row_samples(rows), text::optional(table[k].model)),
            )
        }
    &&& forall|j: int, k: int|
        0 <= j < k < table.len() ==> stats_before(#[trigger] table[j], #[trigger] table[k])
}

/// Latency statistics by model.
pub fn latency_stats(rows: &Vec<LatencyRow>) -> (table: Vec<LatencyStats>)
    requires
        forall|i: int| 0 <= i < rows@.len() ==> context_fits((#[trigger] rows@[i]).sample),
    ensures
        is_latency_table(table@, rows@),
{
    let ghost ids = row_models(rows@);
    let ghost samples = row_samples(rows@);
    let mut keys: Vec<Option<String>> = Vec::new();
    let mut values: Vec<LatencySample> = Vec::new();
    let mut i: usize = 0;
    while i < rows.len()
        invariant
            i <= rows@.len(),
            keys@.len() == i,
            values@.len() == i,
            forall|j: int| 0 <= j < i ==> (#[trigger] keys@[j]).id() == row_models(rows@)[j],
            forall|j: int| 0 <= j < i ==> #[trigger] values@[j] == row_samples(rows@)[j],
        decreases rows@.len() - i,
    {
        keys.push(text::copy_optional(&rows[i].model));
        values.push(rows[i].sample);
        i = i + 1;
    }
    assert(group::ids(keys@) =~= ids);
    assert(values@ =~= samples);
    let groups = group::group_values(&keys, &values);
    proof {
        group::lemma_first_seen(ids);
    }
    let mut unsorted: Vec<LatencyStats> = Vec::new();
    let mut ranks: Vec<LabelRank> = Vec::new();
    let mut g: usize = 0;
    while g < groups.len()
        invariant
            g <= groups@.len(),
            ids == row_models(rows@),
            samples == row_samples(rows@),
            forall|i: int| 0 <= i < rows@.len() ==> context_fits((#[trigger] rows@[i]).sample),
            group::is_grouping(groups@, ids, samples),
            unsorted@.len() == g,
            ranks@.len() == g,
            forall|h: int|
                0 <= h < g ==> {
                    &&& text::optional((#[trigger] unsorted@[h]).model) == group::first_seen(ids)[h]
                    &&& describes(unsorted@[h], group::gather(ids, samples, group::first_seen(ids)[h]))
                },
            forall|h: int|
                0 <= h < g ==> {
                    &&& (#[trigger] ranks@[h]).number == -(unsorted@[h].count as int)
                    &&& text::optional(ranks@[h].label) == group::first_seen(ids)[h]
                },
        decreases groups@.len() - g,
    {
        proof {
            assert(groups@[g as int].key.id() == group::first_seen(ids)[g as int]);
            assert forall|i: int| 0 <= i < samples.len() implies (|s: LatencySample| context_fits(s))(
                #[trigger] samples[i],
            ) by {
                assert(context_fits(rows@[i].sample));
            }
            group::lemma_gather_all(
                ids,
                samples,
                groups@[g as int].key.id(),
                |s: LatencySample| context_fits(s),
            );
        }
        let stats = describe(text::copy_optional(&groups[g].key), &groups[g].members);
        ranks.push(
            LabelRank { number: -(stats.count as i128), label: text::copy_optional(&groups[g].key) },
        );
        unsorted.push(stats);
        g = g + 1;
    }
    let order = order::order_of(&ranks);
    proof {
        order::sorting_is_a_rearrangement(ranks@, order@);
    }
    let ghost all = unsorted@;
    let table = order::arrange(unsorted, &order);
    proof {
        let seen = group::first_seen(ids);
        assert forall|k: int| 0 <= k < table@.len() implies ids.contains(
            text::optional((#[trigger] table@[k]).model),
        ) && describes(table@[k], group::gather(ids, samples, text::optional(table@[k].model))) by {
            let from = order@[k] as int;
            assert(table@[k] == all[from]);
            assert(text::optional(all[from].model) == seen[from]);
            assert(seen.contains(seen[from]));
        }
        assert forall|j: int, k: int| 0 <= j < k < table@.len() implies stats_before(
            #[trigger] table@[j],
            #[trigger] table@[k],
        ) by {
            let a = order@[j] as int;
            let b = order@[k] as int;
            assert(table@[j] == all[a] && table@[k] == all[b]);
            assert(order::precedes(ranks@, a, b));
            assert(a != b);
            assert(text::optional(all[a].model) == seen[a]);
            assert(text::optional(all[b].model) == seen[b]);
        }
    }
    table
}

} // verus!

//! What counters, turns and requests are credited with: what they report.
use crate::cache;
use crate::cache::{CacheEconModelEntry, CacheEconSeriesPoint, CodexUsage, CreditView, RequestUsage};
use crate::cache_laws;
use crate::counter;
use crate::counter::{CounterRow, CounterWindowDelta, SeriesId, SeriesLast};
use crate::group;
use crate::group::Key;
use crate::order;
use crate::provider_laws;
use crate::sums;
use crate::text;
use crate::tokens;
use crate::tokens::Category;
use vstd::prelude::*;

verus! {

/// What a counter grew by from one value to a later one. A counter without an earlier value started from
/// zero, and one that stands below its earlier value started anew from zero.
pub open spec fn grew_by(before: Option<i64>, after: int, growth: int) -> bool {
    match before {
        Some(b) => if after >= b {
            b + growth == after
        } else {
            growth == after
        },
        None => growth == after,
    }
}

/// The usage of a series grew by what it says.
proof fn lemma_usage(before: Option<i64>, after: i64)
    requires
        after >= 0,
    ensures
        grew_by(before, after as int, counter::usage(after, before)),
{
}

/// Every usage is what one series grew by, and every series that grew has a usage.
proof fn lemma_usages(series: Seq<SeriesLast>, baselines: Seq<Option<i64>>)
    requires
        series.len() == baselines.len(),
    ensures
        forall|d: int|
            0 <= d < counter::usages(series, baselines).len() ==> exists|i: int|
                0 <= i < series.len() && (#[trigger] series[i]).labels.id() == (
                #[trigger] counter::usages(series, baselines)[d]).0 && counter::usages(series, baselines)[d].1
                    == counter::usage(series[i].last.value, baselines[i]),
        forall|i: int|
            0 <= i < series.len() && counter::usage((#[trigger] series[i]).last.value, baselines[i]) > 0
                ==> counter::usages(series, baselines).contains(
                (series[i].labels.id(), counter::usage(series[i].last.value, baselines[i])),
            ),
    decreases series.len(),
{
    if series.len() > 0 {
        let prior = series.drop_last();
        let before = baselines.drop_last();
        lemma_usages(prior, before);
        let earlier = counter::usages(prior, before);
        let all = counter::usages(series, baselines);
        let last = series.len() - 1;
        assert(series[last] == series.last() && baselines[last] == baselines.last());
        assert forall|d: int| 0 <= d < all.len() implies exists|i: int|
            0 <= i < series.len() && (#[trigger] series[i]).labels.id() == (#[trigger] all[d]).0 && all[d].1
                == counter::usage(series[i].last.value, baselines[i]) by {
            if d < earlier.len() {
                assert(all[d] == earlier[d]);
                let i = choose|i: int|
                    0 <= i < prior.len() && (#[trigger] prior[i]).labels.id() == earlier[d].0 && earlier[d].1
                        == counter::usage(prior[i].last.value, before[i]);
                assert(series[i] == prior[i] && baselines[i] == before[i]);
            } else {
                assert(series[last].labels.id() == all[d].0);
            }
        }
        assert forall|i: int|
            0 <= i < series.len() && counter::usage((#[trigger] series[i]).last.value, baselines[i]) > 0 implies all.contains(
            (series[i].labels.id(), counter::usage(series[i].last.value, baselines[i])),
        ) by {
            let pair = (series[i].labels.id(), counter::usage(series[i].last.value, baselines[i]));
            if i < last {
                assert(prior[i] == series[i] && before[i] == baselines[i]);
                assert(earlier.contains(pair));
                let d = earlier.index_of(pair);
                assert(all[d] == pair);
            } else {
                assert(all[earlier.len() as int] == pair);
            }
        }
    }
}

/// The usage of a series in a window is what its counter grew by since the value before the window, and
/// each series whose counter grew has one.
pub proof fn usage_is_what_counters_grew_by(
    series: Seq<SeriesLast>,
    baselines: Seq<Option<i64>>,
    deltas: Seq<CounterWindowDelta>,
    d: int,
    i: int,
)
    requires
        series.len() == baselines.len(),
        counter::delta_pairs(deltas) == counter::usages(series, baselines),
        forall|i: int| 0 <= i < series.len() ==> (#[trigger] series[i]).last.value >= 0,
        0 <= d < deltas.len(),
        0 <= i < series.len(),
    ensures
        exists|s: int|
            0 <= s < series.len() && (#[trigger] series[s]).labels.id() == deltas[d].labels.id() && grew_by(
                baselines[s],
                series[s].last.value as int,
                deltas[d].delta as int,
            ),
        !grew_by(baselines[i], series[i].last.value as int, 0) ==> exists|e: int|
            0 <= e < deltas.len() && (#[trigger] deltas[e]).labels.id() == series[i].labels.id() && grew_by(
                baselines[i],
                series[i].last.value as int,
                deltas[e].delta as int,
            ),
{
    lemma_usages(series, baselines);
    let pairs = counter::delta_pairs(deltas);
    assert(pairs[d] == (deltas[d].labels.id(), deltas[d].delta as int));
    let s = choose|s: int|
        0 <= s < series.len() && (#[trigger] series[s]).labels.id() == pairs[d].0 && pairs[d].1 == counter::usage(
            series[s].last.value,
            baselines[s],
        );
    lemma_usage(baselines[s], series[s].last.value);
    lemma_usage(baselines[i], series[i].last.value);
    if !grew_by(baselines[i], series[i].last.value as int, 0) {
        let pair = (series[i].labels.id(), counter::usage(series[i].last.value, baselines[i]));
        assert(pairs.contains(pair));
        let e = pairs.index_of(pair);
        assert(pairs[e] == (deltas[e].labels.id(), deltas[e].delta as int));
        assert(deltas[e].labels.id() == series[i].labels.id());
    }
}

/// The value of a row; a missing one is zero.
pub open spec fn value_of(row: CounterRow) -> int {
    match row.value {
        Some(v) => v as int,
        None => 0,
    }
}

/// Row `j` is the latest before row `k` in its series.
pub open spec fn comes_before(rows: Seq<CounterRow>, j: int, k: int) -> bool {
    &&& 0 <= j < k
    &&& rows[j].labels.id() == rows[k].labels.id()
    &&& forall|i: int| j < i < k ==> (#[trigger] rows[i]).labels.id() != rows[k].labels.id()
}

/// The series of row `k` grew by `growth` to that row: since the row before it in the series, or since
/// the baseline of the series where it is the first.
pub open spec fn is_growth(rows: Seq<CounterRow>, baseline: Option<i64>, k: int, growth: int) -> bool {
    &&& forall|j: int|
        #[trigger] comes_before(rows, j, k) ==> grew_by(Some(value_of(rows[j]) as i64), value_of(rows[k]), growth)
    &&& (forall|j: int| 0 <= j < k ==> (#[trigger] rows[j]).labels.id() != rows[k].labels.id()) ==> grew_by(
        baseline,
        value_of(rows[k]),
        growth,
    )
}

/// The last value that is gathered stands at the last place of its key.
proof fn lemma_last<I>(ids: Seq<I>, values: Seq<i64>, id: I) -> (j: int)
    requires
        ids.len() == values.len(),
    ensures
        group::gather(ids, values, id).len() == 0 ==> forall|i: int| 0 <= i < ids.len() ==> (#[trigger] ids[i]) != id,
        group::gather(ids, values, id).len() > 0 ==> 0 <= j < ids.len() && ids[j] == id && values[j] == group::gather(
            ids,
            values,
            id,
        ).last() && forall|i: int| j < i < ids.len() ==> (#[trigger] ids[i]) != id,
    decreases ids.len(),
{
    if ids.len() == 0 {
        -1
    } else if ids.last() == id {
        ids.len() - 1
    } else {
        let prior = ids.drop_last();
        let j = lemma_last(prior, values.drop_last(), id);
        assert forall|i: int| 0 <= i < prior.len() implies #[trigger] ids[i] == prior[i] by {}
        if group::gather(ids, values, id).len() == 0 {
            assert forall|i: int| 0 <= i < ids.len() implies (#[trigger] ids[i]) != id by {
                if i < prior.len() {
                    assert(prior[i] != id);
                }
            }
        } else {
            assert forall|i: int| j < i < ids.len() implies (#[trigger] ids[i]) != id by {
                if i < prior.len() {
                    assert(prior[i] != id);
                }
            }
        }
        j
    }
}

/// What row `k` is credited is what its series grew by.
proof fn lemma_growth(
    rows: Seq<CounterRow>,
    series: Seq<SeriesId>,
    baselines: Seq<Option<i64>>,
    k: int,
    growth: int,
)
    requires
        0 <= k < rows.len(),
        value_of(rows[k]) >= 0,
        is_growth(rows, baselines[series.index_of(rows[k].labels.id())], k, growth),
    ensures
        growth == counter::usage(
            counter::value_or_zero(rows[k].value),
            cache::reference(rows, series, baselines, k),
        ),
        growth >= 0,
{
    let ids = counter::series_ids(rows);
    let earlier = ids.take(k);
    let values = cache::values(rows).take(k);
    assert(ids[k] == rows[k].labels.id());
    let j = lemma_last(earlier, values, ids[k]);
    if group::gather(earlier, values, ids[k]).len() > 0 {
        assert(rows[j].labels.id() == earlier[j]);
        assert forall|i: int| j < i < k implies (#[trigger] rows[i]).labels.id() != rows[k].labels.id() by {
            assert(earlier[i] == rows[i].labels.id());
        }
        assert(comes_before(rows, j, k));
        assert(values[j] == value_of(rows[j]));
    } else {
        assert forall|j: int| 0 <= j < k implies (#[trigger] rows[j]).labels.id() != rows[k].labels.id() by {
            assert(earlier[j] == rows[j].labels.id());
        }
    }
}

/// The bucket that an instant falls in: a whole number of widths from zero, at the instant or nearer to
/// zero, by less than a width.
pub open spec fn falls_in(instant: int, bucket_ns: int, bucket: int) -> bool {
    &&& bucket % bucket_ns == 0
    &&& instant >= 0 ==> bucket <= instant < bucket + bucket_ns
    &&& instant < 0 ==> bucket - bucket_ns < instant <= bucket
}

/// An instant falls in one bucket.
proof fn lemma_bucket(instant: i64, bucket_ns: int, bucket: int)
    requires
        bucket_ns > 0,
    ensures
        falls_in(instant as int, bucket_ns, bucket) <==> bucket == cache::bucket_start(
            instant as int,
            bucket_ns,
        ) as i64,
        i64::MIN <= cache::bucket_start(instant as int, bucket_ns) <= i64::MAX,
{
    let t = instant as int;
    let start = cache::bucket_start(t, bucket_ns);
    let q = if t >= 0 { t / bucket_ns } else { -((-t) / bucket_ns) };
    cache::bucket_start_is_near(t, bucket_ns);
    assert(start == q * bucket_ns) by (nonlinear_arith)
        requires
            t >= 0 ==> q == t / bucket_ns && start == (t / bucket_ns) * bucket_ns,
            t < 0 ==> q == -((-t) / bucket_ns) && start == -(((-t) / bucket_ns) * bucket_ns),
    ;
    vstd::arithmetic::div_mod::lemma_mod_multiples_basic(q, bucket_ns);
    assert(start % bucket_ns == 0);
    if t >= 0 {
        assert(start >= 0) by (nonlinear_arith)
            requires
                start == (t / bucket_ns) * bucket_ns,
                t >= 0,
                bucket_ns > 0,
        ;
    } else {
        assert(start <= 0) by (nonlinear_arith)
            requires
                start == -(((-t) / bucket_ns) * bucket_ns),
                t < 0,
                bucket_ns > 0,
        ;
    }
    if falls_in(t, bucket_ns, bucket) {
        let p = bucket / bucket_ns;
        vstd::arithmetic::div_mod::lemma_fundamental_div_mod(bucket, bucket_ns);
        assert(p == q) by (nonlinear_arith)
            requires
                bucket == bucket_ns * p,
                start == q * bucket_ns,
                -bucket_ns < bucket - start < bucket_ns,
                bucket_ns > 0,
        ;
        assert(bucket == start) by (nonlinear_arith)
            requires
                bucket == bucket_ns * p,
                start == q * bucket_ns,
                p == q,
        ;
    }
}

/// What is asked of: a model, a bucket, or both. Without either, all is.
pub ghost struct Asked {
    pub model: Option<Seq<char>>,
    pub bucket: Option<i64>,
}

/// A row is asked for, by the model that it names and the instant that it is of. A row without a model
/// counts under `(unknown)`.
pub open spec fn asks_for(asked: Asked, model: Option<Seq<char>>, instant: i64, bucket_ns: int) -> bool {
    &&& asked.model matches Some(m) ==> model == Some(m) || (model is None && m == "(unknown)"@)
    &&& asked.bucket matches Some(b) ==> falls_in(instant as int, bucket_ns, b as int)
}

/// The tokens that the counter rows report in a category.
pub open spec fn counted(
    rows: Seq<CounterRow>,
    growth: Seq<int>,
    asked: Asked,
    bucket_ns: int,
    c: Category,
    n: nat,
) -> int
    decreases n,
{
    if n == 0 {
        0
    } else {
        let row = rows[n - 1];
        counted(rows, growth, asked, bucket_ns, c, (n - 1) as nat) + if asks_for(
            asked,
            provider_laws::label(row.labels@, "$.model"@),
            row.timestamp,
            bucket_ns,
        ) && provider_laws::label(row.labels@, "$.type"@) == Some(provider_laws::counter_type(c)) {
            growth[n - 1]
        } else {
            0
        }
    }
}

/// The tokens that a per-turn sum reports in a category.
pub open spec fn turn_tokens(asked: Asked, bucket_ns: int, c: Category) -> spec_fn(CodexUsage) -> int {
    |u: CodexUsage|
        if asks_for(asked, text::optional(u.model), u.bucket, bucket_ns) && u.token_type@ == provider_laws::turn_type(
            c,
        ) {
            u.tokens as int
        } else {
            0int
        }
}

/// The tokens that requests report in a category. Less than none is none.
pub open spec fn request_tokens(asked: Asked, bucket_ns: int, c: Category) -> spec_fn(RequestUsage) -> int {
    |u: RequestUsage|
        if !asks_for(asked, text::optional(u.model), u.bucket, bucket_ns) {
            0int
        } else if c == Category::Input && u.input > 0 {
            u.input as int
        } else if c == Category::CacheRead && u.cache_read > 0 {
            u.cache_read as int
        } else if c == Category::CacheWrite && u.cache_creation > 0 {
            u.cache_creation as int
        } else {
            0int
        }
}

/// The tokens in a category of a credit that is asked for.
spec fn credited(asked: Asked, c: Category) -> spec_fn(CreditView) -> int {
    |x: CreditView|
        if (asked.model matches Some(m) ==> x.model == m) && (asked.bucket matches Some(b) ==> x.bucket == b) {
            x.tokens.count(c)
        } else {
            0int
        }
}

/// A category that bears on the cache.
pub open spec fn is_prompt(c: Category) -> bool {
    c == Category::Input || c == Category::CacheRead || c == Category::CacheWrite
}

/// What the counter rows are credited is what they report.
proof fn lemma_counted(
    rows: Seq<CounterRow>,
    series: Seq<SeriesId>,
    baselines: Seq<Option<i64>>,
    growth: Seq<int>,
    asked: Asked,
    bucket_ns: int,
    c: Category,
    n: nat,
)
    requires
        bucket_ns > 0,
        is_prompt(c),
        n <= rows.len(),
        forall|k: int|
            0 <= k < rows.len() ==> value_of(#[trigger] rows[k]) >= 0 && is_growth(
                rows,
                baselines[series.index_of(rows[k].labels.id())],
                k,
                growth[k],
            ),
    ensures
        sums::sum_by(
            cache::counter_credits(rows, series, baselines, bucket_ns, n as int),
            credited(asked, c),
        ) == counted(rows, growth, asked, bucket_ns, c, n),
    decreases n,
{
    if n > 0 {
        let k = n - 1;
        let row = rows[k];
        lemma_counted(rows, series, baselines, growth, asked, bucket_ns, c, k as nat);
        lemma_growth(rows, series, baselines, k, growth[k]);
        provider_laws::lemma_labels(row.labels@);
        if let Some(kind) = counter::label_at(row.labels@, 2) {
            provider_laws::types_name_one_category(kind, c);
        }
        if let Some(b) = asked.bucket {
            lemma_bucket(row.timestamp, bucket_ns, b as int);
        }
        let earlier = cache::counter_credits(rows, series, baselines, bucket_ns, k);
        let category = cache::prompt_category(tokens::opencode_category(counter::label_at(row.labels@, 2)));
        lemma_grown_fits(rows, series, baselines, k);
        if growth[k] != 0 && category is Some {
            let x = CreditView {
                model: cache::model_name(counter::label_at(row.labels@, 1)),
                bucket: cache::bucket_start(row.timestamp as int, bucket_ns) as i64,
                tokens: tokens::of_category(category, cache::wrapped(growth[k])),
            };
            sums::lemma_sum_by_push(earlier, x, credited(asked, c));
        }
    }
}

/// A growth fits into its type.
proof fn lemma_grown_fits(rows: Seq<CounterRow>, series: Seq<SeriesId>, baselines: Seq<Option<i64>>, k: int)
    ensures
        counter::usage(
            counter::value_or_zero(rows[k].value),
            cache::reference(rows, series, baselines, k),
        ) <= u64::MAX,
{
}

/// What the per-turn sums are credited is what they report.
proof fn lemma_turns(codex: Seq<CodexUsage>, asked: Asked, bucket_ns: int, c: Category)
    requires
        bucket_ns > 0,
        is_prompt(c),
    ensures
        sums::sum_by(cache::codex_credits(codex, bucket_ns), credited(asked, c)) == sums::sum_by(
            codex,
            turn_tokens(asked, bucket_ns, c),
        ),
    decreases codex.len(),
{
    if codex.len() > 0 {
        let row = codex.last();
        lemma_turns(codex.drop_last(), asked, bucket_ns, c);
        provider_laws::types_name_one_category(row.token_type@, c);
        if let Some(b) = asked.bucket {
            lemma_bucket(row.bucket, bucket_ns, b as int);
        }
        let earlier = cache::codex_credits(codex.drop_last(), bucket_ns);
        let category = cache::prompt_category(tokens::codex_category(Some(row.token_type@)));
        if row.tokens != 0 && category is Some {
            let x = CreditView {
                model: cache::model_name(text::optional(row.model)),
                bucket: cache::bucket_start(row.bucket as int, bucket_ns) as i64,
                tokens: tokens::of_category(category, row.tokens),
            };
            sums::lemma_sum_by_push(earlier, x, credited(asked, c));
        }
    }
}

/// What the requests are credited is what they report.
proof fn lemma_requests(requests: Seq<RequestUsage>, asked: Asked, bucket_ns: int, c: Category)
    requires
        bucket_ns > 0,
        is_prompt(c),
    ensures
        sums::sum_by(cache::request_credits(requests, bucket_ns), credited(asked, c)) == sums::sum_by(
            requests,
            request_tokens(asked, bucket_ns, c),
        ),
    decreases requests.len(),
{
    if requests.len() > 0 {
        let row = requests.last();
        lemma_requests(requests.drop_last(), asked, bucket_ns, c);
        if let Some(b) = asked.bucket {
            lemma_bucket(row.bucket, bucket_ns, b as int);
        }
        let all = cache::request_credits(requests, bucket_ns);
        assert(all.drop_last() =~= cache::request_credits(requests.drop_last(), bucket_ns));
    }
}

/// What is gathered under a model or a bucket sums up over the credits to it.
proof fn lemma_gathered(credits: Seq<CreditView>, model: Seq<char>, bucket: i64, c: Category)
    ensures
        sums::sum_by(
            group::gather(cache::credit_models(credits), cache::credit_tokens(credits), model),
            tokens::count_of(c),
        ) == sums::sum_by(credits, credited(Asked { model: Some(model), bucket: None }, c)),
        sums::sum_by(
            group::gather(cache::credit_buckets(credits), cache::credit_tokens(credits), bucket),
            tokens::count_of(c),
        ) == sums::sum_by(credits, credited(Asked { model: None, bucket: Some(bucket) }, c)),
    decreases credits.len(),
{
    if credits.len() > 0 {
        let prior = credits.drop_last();
        lemma_gathered(prior, model, bucket, c);
        assert(cache::credit_models(credits).drop_last() =~= cache::credit_models(prior));
        assert(cache::credit_buckets(credits).drop_last() =~= cache::credit_buckets(prior));
        assert(cache::credit_tokens(credits).drop_last() =~= cache::credit_tokens(prior));
        sums::lemma_sum_by_push(
            group::gather(cache::credit_models(prior), cache::credit_tokens(prior), model),
            credits.last().tokens,
            tokens::count_of(c),
        );
        sums::lemma_sum_by_push(
            group::gather(cache::credit_buckets(prior), cache::credit_tokens(prior), bucket),
            credits.last().tokens,
            tokens::count_of(c),
        );
    }
}

/// `growth` holds what the series of each row grew by to that row, the rows in the order of time.
pub open spec fn are_growths(rows: Seq<CounterRow>, baselines: Seq<Option<i64>>, growth: Seq<int>) -> bool {
    let sorted = cache::in_time_order(rows);
    &&& growth.len() == rows.len()
    &&& forall|k: int|
        0 <= k < rows.len() ==> value_of(#[trigger] sorted[k]) >= 0 && is_growth(
            sorted,
            cache_laws::baseline_of(rows, baselines, sorted[k].labels.id()),
            k,
            growth[k],
        )
}

/// The tokens in a category that all sources report.
pub open spec fn reported(
    rows: Seq<CounterRow>,
    growth: Seq<int>,
    codex: Seq<CodexUsage>,
    requests: Seq<RequestUsage>,
    asked: Asked,
    bucket_ns: int,
    c: Category,
) -> int {
    counted(cache::in_time_order(rows), growth, asked, bucket_ns, c, rows.len()) + sums::sum_by(
        codex,
        turn_tokens(asked, bucket_ns, c),
    ) + sums::sum_by(requests, request_tokens(asked, bucket_ns, c))
}

/// What is credited is what the sources report.
proof fn lemma_reported(
    rows: Seq<CounterRow>,
    baselines: Seq<Option<i64>>,
    growth: Seq<int>,
    codex: Seq<CodexUsage>,
    requests: Seq<RequestUsage>,
    asked: Asked,
    bucket_ns: int,
    c: Category,
)
    requires
        bucket_ns > 0,
        is_prompt(c),
        are_growths(rows, baselines, growth),
    ensures
        sums::sum_by(cache::all_credits(rows, baselines, codex, requests, bucket_ns), credited(asked, c)) == reported(
            rows,
            growth,
            codex,
            requests,
            asked,
            bucket_ns,
            c,
        ),
{
    let sorted = cache::in_time_order(rows);
    let series = group::first_seen(counter::series_ids(rows));
    let first = cache::counter_credits(sorted, series, baselines, bucket_ns, rows.len() as int);
    let second = cache::codex_credits(codex, bucket_ns);
    let third = cache::request_credits(requests, bucket_ns);
    assert(sorted.len() == rows.len());
    lemma_counted(sorted, series, baselines, growth, asked, bucket_ns, c, rows.len());
    lemma_turns(codex, asked, bucket_ns, c);
    lemma_requests(requests, asked, bucket_ns, c);
    sums::lemma_sum_by_concat(first, second, credited(asked, c));
    sums::lemma_sum_by_concat(first + second, third, credited(asked, c));
}

/// The rows in the order of time are the same rows, the earlier ones first.
pub proof fn rows_are_read_in_the_order_of_time(rows: Seq<CounterRow>, j: int, k: int)
    requires
        rows.len() <= usize::MAX,
        0 <= j < k < rows.len(),
    ensures
        cache::in_time_order(rows).len() == rows.len(),
        cache::in_time_order(rows)[j].timestamp <= cache::in_time_order(rows)[k].timestamp,
        cache::in_time_order(rows).contains(rows[j]),
{
    let ranks = cache::time_ranks(rows);
    let order = order::sorting(ranks);
    order::lemma_sorting(ranks);
    order::sorting_is_a_rearrangement(ranks, order);
    assert(order::precedes(ranks, order[j] as int, order[k] as int));
    assert(order.contains(j as usize));
    let p = order.index_of(j as usize);
    assert(cache::in_time_order(rows)[p] == rows[j]);
}

/// The input, the cache reads and the cache writes of a model are those that the counter's series grew
/// by, and that the turns and the requests report, under that model. The hit rate is that of reads among
/// reads and input.
pub proof fn models_are_credited_with_what_is_reported(
    entry: CacheEconModelEntry,
    rows: Seq<CounterRow>,
    baselines: Seq<Option<i64>>,
    growth: Seq<int>,
    codex: Seq<CodexUsage>,
    requests: Seq<RequestUsage>,
    bucket_ns: int,
)
    requires
        bucket_ns > 0,
        are_growths(rows, baselines, growth),
        cache::entry_adds_up(entry, cache::all_credits(rows, baselines, codex, requests, bucket_ns)),
        entry.cache_read_tokens + entry.input_tokens <= u64::MAX,
    ensures
        ({
            let asked = Asked { model: Some(entry.model@), bucket: None };
            &&& entry.input_tokens == reported(rows, growth, codex, requests, asked, bucket_ns, Category::Input)
            &&& entry.cache_read_tokens == reported(
                rows,
                growth,
                codex,
                requests,
                asked,
                bucket_ns,
                Category::CacheRead,
            )
            &&& entry.cache_write_tokens == reported(
                rows,
                growth,
                codex,
                requests,
                asked,
                bucket_ns,
                Category::CacheWrite,
            )
        }),
        entry.hit_rate is Some <==> entry.cache_read_tokens + entry.input_tokens > 0,
        entry.hit_rate matches Some(r) ==> r.numerator == entry.cache_read_tokens && r.denominator
            == entry.cache_read_tokens + entry.input_tokens,
        entry.read_write_ratio is Some <==> entry.cache_write_tokens > 0,
        entry.read_write_ratio matches Some(r) ==> r.numerator == entry.cache_read_tokens && r.denominator
            == entry.cache_write_tokens,
{
    let asked = Asked { model: Some(entry.model@), bucket: None };
    let credits = cache::all_credits(rows, baselines, codex, requests, bucket_ns);
    lemma_gathered(credits, entry.model@, 0, Category::Input);
    lemma_gathered(credits, entry.model@, 0, Category::CacheRead);
    lemma_gathered(credits, entry.model@, 0, Category::CacheWrite);
    lemma_reported(rows, baselines, growth, codex, requests, asked, bucket_ns, Category::Input);
    lemma_reported(rows, baselines, growth, codex, requests, asked, bucket_ns, Category::CacheRead);
    lemma_reported(rows, baselines, growth, codex, requests, asked, bucket_ns, Category::CacheWrite);
}

/// The input, the cache reads and the cache writes of a point are those that the counter's series grew
/// by, and that the turns and the requests report, in its bucket. The hit rate is that of reads among
/// reads and input.
pub proof fn buckets_are_credited_with_what_is_reported(
    point: CacheEconSeriesPoint,
    rows: Seq<CounterRow>,
    baselines: Seq<Option<i64>>,
    growth: Seq<int>,
    codex: Seq<CodexUsage>,
    requests: Seq<RequestUsage>,
    bucket_ns: int,
)
    requires
        bucket_ns > 0,
        are_growths(rows, baselines, growth),
        cache::point_adds_up(point, cache::all_credits(rows, baselines, codex, requests, bucket_ns)),
        point.cache_read + point.input <= u64::MAX,
    ensures
        ({
            let asked = Asked { model: None, bucket: Some(point.timestamp) };
            &&& point.input == reported(rows, growth, codex, requests, asked, bucket_ns, Category::Input)
            &&& point.cache_read == reported(rows, growth, codex, requests, asked, bucket_ns, Category::CacheRead)
            &&& point.cache_write == reported(rows, growth, codex, requests, asked, bucket_ns, Category::CacheWrite)
        }),
        point.hit_rate is Some <==> point.cache_read + point.input > 0,
        point.hit_rate matches Some(r) ==> r.numerator == point.cache_read && r.denominator == point.cache_read
            + point.input,
{
    let asked = Asked { model: None, bucket: Some(point.timestamp) };
    let credits = cache::all_credits(rows, baselines, codex, requests, bucket_ns);
    lemma_gathered(credits, Seq::empty(), point.timestamp, Category::Input);
    lemma_gathered(credits, Seq::empty(), point.timestamp, Category::CacheRead);
    lemma_gathered(credits, Seq::empty(), point.timestamp, Category::CacheWrite);
    lemma_reported(rows, baselines, growth, codex, requests, asked, bucket_ns, Category::Input);
    lemma_reported(rows, baselines, growth, codex, requests, asked, bucket_ns, Category::CacheRead);
    lemma_reported(rows, baselines, growth, codex, requests, asked, bucket_ns, Category::CacheWrite);
}

/// Models that read more from the cache come first, and no model is listed twice.
pub proof fn models_with_more_reads_come_first(
    entries: Seq<CacheEconModelEntry>,
    credits: Seq<CreditView>,
    d: int,
    e: int,
)
    requires
        cache::is_model_table(entries, credits),
        0 <= d < e < entries.len(),
    ensures
        entries[d].cache_read_tokens >= entries[e].cache_read_tokens,
        entries[d].cache_read_tokens == entries[e].cache_read_tokens ==> text::text_leq(
            entries[d].model@,
            entries[e].model@,
        ) && entries[d].model@ != entries[e].model@,
{
    assert(cache::entry_before(entries[d], entries[e]));
}

} // verus!

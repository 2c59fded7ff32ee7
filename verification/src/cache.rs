//! Prompt-cache economics: what was read from the cache, what was written to it, and what it missed,
//! by model and by time bucket.
use crate::counter;
use crate::counter::{CounterRow, SeriesId};
use crate::error::StorageError;
use crate::group;
use crate::group::Key;
use crate::order;
use crate::order::{LabelRank, SmallestFirst};
use crate::ratio;
use crate::ratio::Ratio;
use crate::sums;
use crate::text;
use crate::tokens;
use crate::tokens::{Category, RoleTokenUsage};
use vstd::prelude::*;

verus! {

/// The cache hit rate, `cache_read / (cache_read + input)`. There is none without prompt tokens.
pub fn cache_hit_rate(cache_read: u64, input: u64) -> (r: Option<Ratio>)
    requires
        cache_read + input <= u64::MAX,
    ensures
        r == ratio::ratio(cache_read as int, cache_read + input),
{
    ratio::make_ratio(cache_read, cache_read + input)
}

/// The read:write ratio, `cache_read / cache_write`. There is none without cache writes.
pub fn cache_read_write_ratio(cache_read: u64, cache_write: u64) -> (r: Option<Ratio>)
    ensures
        r == ratio::ratio(cache_read as int, cache_write as int),
{
    ratio::make_ratio(cache_read, cache_write)
}

/// A hit rate lies between zero and one, and is one where nothing missed the cache.
pub proof fn hit_rate_is_a_share(cache_read: u64, input: u64)
    requires
        0 < cache_read + input <= u64::MAX,
    ensures
        ratio::ratio(cache_read as int, cache_read + input) matches Some(r) && r.numerator <= r.denominator
            && (r.numerator == r.denominator <==> input == 0),
{
}

/// Tokens that a coding agent reported for one turn, by model and token type, within one bucket.
pub struct CodexUsage {
    pub bucket: i64,
    pub model: Option<String>,
    pub token_type: String,
    pub tokens: u64,
}

/// Token sums over request spans, by model, within one bucket.
pub struct RequestUsage {
    pub bucket: i64,
    pub model: Option<String>,
    pub input: i64,
    pub cache_creation: i64,
    pub cache_read: i64,
}

/// Tokens credited to a model and to a time bucket.
pub struct Credit {
    pub model: String,
    pub bucket: i64,
    pub tokens: RoleTokenUsage,
}

/// What a credit says.
pub ghost struct CreditView {
    pub model: Seq<char>,
    pub bucket: i64,
    pub tokens: RoleTokenUsage,
}

impl View for Credit {
    type V = CreditView;

    open spec fn view(&self) -> CreditView {
        CreditView { model: self.model@, bucket: self.bucket, tokens: self.tokens }
    }
}

/// The start of the bucket that `timestamp` falls in. Buckets are counted from zero, in both
/// directions.
pub open spec fn bucket_start(timestamp: int, bucket_ns: int) -> int {
    if timestamp >= 0 {
        (timestamp / bucket_ns) * bucket_ns
    } else {
        -(((-timestamp) / bucket_ns) * bucket_ns)
    }
}

/// A bucket start lies within one width of the timestamps that fall in the bucket, and the bucket of a
/// bucket start is itself.
pub proof fn bucket_start_is_near(timestamp: int, bucket_ns: int)
    requires
        bucket_ns > 0,
    ensures
        timestamp >= 0 ==> bucket_start(timestamp, bucket_ns) <= timestamp < bucket_start(
            timestamp,
            bucket_ns,
        ) + bucket_ns,
        timestamp < 0 ==> bucket_start(timestamp, bucket_ns) - bucket_ns < timestamp <= bucket_start(
            timestamp,
            bucket_ns,
        ),
        bucket_start(bucket_start(timestamp, bucket_ns), bucket_ns) == bucket_start(timestamp, bucket_ns),
{
    let t = if timestamp >= 0 { timestamp } else { -timestamp };
    let q = t / bucket_ns;
    vstd::arithmetic::div_mod::lemma_fundamental_div_mod(t, bucket_ns);
    vstd::arithmetic::div_mod::lemma_mod_bound(t, bucket_ns);
    vstd::arithmetic::div_mod::lemma_div_pos_is_pos(t, bucket_ns);
    vstd::arithmetic::mul::lemma_mul_is_commutative(q, bucket_ns);
    vstd::arithmetic::div_mod::lemma_div_multiples_vanish(q, bucket_ns);
    assert(q * bucket_ns >= 0) by (nonlinear_arith)
        requires
            q >= 0,
            bucket_ns > 0,
    ;
    if q * bucket_ns == 0 {
        vstd::arithmetic::div_mod::lemma_div_basics(bucket_ns);
        assert(0int * bucket_ns == 0) by (nonlinear_arith);
    }
}

/// The start of the bucket that `timestamp` falls in.
pub fn start_of_bucket(timestamp: i64, bucket_ns: i64) -> (start: i64)
    requires
        bucket_ns > 0,
    ensures
        start == bucket_start(timestamp as int, bucket_ns as int),
{
    proof {
        bucket_start_is_near(timestamp as int, bucket_ns as int);
    }
    if timestamp >= 0 {
        let t: u64 = timestamp as u64;
        let b: u64 = bucket_ns as u64;
        assert((t / b) * b <= t) by (nonlinear_arith)
            requires
                b > 0,
        ;
        ((t / b) * b) as i64
    } else {
        let t: u128 = (-(timestamp as i128)) as u128;
        let b: u128 = bucket_ns as u128;
        assert((t / b) * b <= t) by (nonlinear_arith)
            requires
                b > 0,
        ;
        (-(((t / b) * b) as i128)) as i64
    }
}

/// The name under which a model is reported.
pub open spec fn model_name(model: Option<Seq<char>>) -> Seq<char> {
    match model {
        Some(m) => m,
        None => "(unknown)"@,
    }
}

/// The name under which a model is reported.
pub fn name_model(model: &Option<String>) -> (name: String)
    ensures
        name@ == model_name(text::optional(*model)),
{
    match model {
        Some(m) => m.clone(),
        None => "(unknown)".to_owned(),
    }
}

/// Only prompt tokens bear on the cache: output and reasoning tokens do not.
pub open spec fn prompt_category(c: Option<Category>) -> Option<Category> {
    match c {
        Some(Category::Input) => c,
        Some(Category::CacheRead) => c,
        Some(Category::CacheWrite) => c,
        _ => None,
    }
}

/// Keeps a category that bears on the cache.
fn keep_prompt_category(c: Option<Category>) -> (r: Option<Category>)
    ensures
        r == prompt_category(c),
{
    match c {
        Some(Category::Input) => c,
        Some(Category::CacheRead) => c,
        Some(Category::CacheWrite) => c,
        _ => None,
    }
}

/// A signed amount as an unsigned one, which wraps around below zero.
pub open spec fn wrapped(amount: int) -> u64 {
    if amount < 0 {
        (amount + 0x1_0000_0000_0000_0000) as u64
    } else {
        amount as u64
    }
}

/// How rows sort by time.
pub open spec fn time_ranks(rows: Seq<CounterRow>) -> Seq<SmallestFirst> {
    Seq::new(rows.len(), |i: int| SmallestFirst(rows[i].timestamp as i128))
}

/// The rows in the order of time; rows of one time keep their order.
pub open spec fn in_time_order(rows: Seq<CounterRow>) -> Seq<CounterRow> {
    Seq::new(rows.len(), |k: int| rows[order::sorting(time_ranks(rows))[k] as int])
}

/// The values of the rows.
pub open spec fn values(rows: Seq<CounterRow>) -> Seq<i64> {
    Seq::new(rows.len(), |i: int| counter::value_or_zero(rows[i].value))
}

/// What row `k` is measured against: the value of the row before it in its series, or the baseline of
/// the series where it is the first.
pub open spec fn reference(
    rows: Seq<CounterRow>,
    series: Seq<SeriesId>,
    baselines: Seq<Option<i64>>,
    k: int,
) -> Option<i64> {
    let ids = counter::series_ids(rows);
    last_or(
        group::gather(ids.take(k), values(rows).take(k), ids[k]),
        baselines[series.index_of(ids[k])],
    )
}

/// The last value, or a fallback where there is none.
pub open spec fn last_or(earlier: Seq<i64>, fallback: Option<i64>) -> Option<i64> {
    if earlier.len() > 0 {
        Some(earlier.last())
    } else {
        fallback
    }
}

/// What the first `k` rows, in the order of time, credit: each row the growth of its series, under the
/// model and the category that its labels name.
pub open spec fn counter_credits(
    rows: Seq<CounterRow>,
    series: Seq<SeriesId>,
    baselines: Seq<Option<i64>>,
    bucket_ns: int,
    k: int,
) -> Seq<CreditView>
    decreases k,
{
    if k <= 0 {
        Seq::empty()
    } else {
        let earlier = counter_credits(rows, series, baselines, bucket_ns, k - 1);
        let row = rows[k - 1];
        let growth = counter::usage(
            counter::value_or_zero(row.value),
            reference(rows, series, baselines, k - 1),
        );
        let category = prompt_category(tokens::opencode_category(counter::label_at(row.labels@, 2)));
        if growth == 0 || category is None {
            earlier
        } else {
            earlier.push(
                CreditView {
                    model: model_name(counter::label_at(row.labels@, 1)),
                    bucket: bucket_start(row.timestamp as int, bucket_ns) as i64,
                    tokens: tokens::of_category(category, wrapped(growth)),
                },
            )
        }
    }
}

/// What the per-turn token sums credit. A sum of zero, or of another category, credits nothing.
pub open spec fn codex_credits(rows: Seq<CodexUsage>, bucket_ns: int) -> Seq<CreditView>
    decreases rows.len(),
{
    if rows.len() == 0 {
        Seq::empty()
    } else {
        let earlier = codex_credits(rows.drop_last(), bucket_ns);
        let row = rows.last();
        let category = prompt_category(tokens::codex_category(Some(row.token_type@)));
        if row.tokens == 0 || category is None {
            earlier
        } else {
            earlier.push(
                CreditView {
                    model: model_name(text::optional(row.model)),
                    bucket: bucket_start(row.bucket as int, bucket_ns) as i64,
                    tokens: tokens::of_category(category, row.tokens),
                },
            )
        }
    }
}

/// A negative sum counts as zero.
pub open spec fn at_least_zero(n: i64) -> u64 {
    if n < 0 {
        0
    } else {
        n as u64
    }
}

/// What the request spans credit.
pub open spec fn request_credits(rows: Seq<RequestUsage>, bucket_ns: int) -> Seq<CreditView> {
    Seq::new(
        rows.len(),
        |i: int|
            CreditView {
                model: model_name(text::optional(rows[i].model)),
                bucket: bucket_start(rows[i].bucket as int, bucket_ns) as i64,
                tokens: RoleTokenUsage {
                    input: at_least_zero(rows[i].input),
                    output: 0,
                    cache_read: at_least_zero(rows[i].cache_read),
                    cache_write: at_least_zero(rows[i].cache_creation),
                    reasoning: 0,
                },
            },
    )
}

/// What some credits say.
pub open spec fn views(credits: Seq<Credit>) -> Seq<CreditView> {
    Seq::new(credits.len(), |i: int| credits[i]@)
}

/// The distinct series of the rows, in the order of their first occurrence: those whose baselines are
/// looked up.
pub fn distinct_series(rows: &Vec<CounterRow>) -> (series: Vec<Vec<Option<String>>>)
    ensures
        group::ids(series@) == group::first_seen(counter::series_ids(rows@)),
{
    let last = counter::last_values(rows);
    let mut series: Vec<Vec<Option<String>>> = Vec::new();
    let mut i: usize = 0;
    while i < last.len()
        invariant
            i <= last@.len(),
            series@.len() == i,
            forall|j: int| 0 <= j < i ==> (#[trigger] series@[j]).id() == last@[j].labels.id(),
        decreases last@.len() - i,
    {
        series.push(last[i].labels.duplicate());
        i = i + 1;
    }
    assert(group::ids(series@) =~= group::first_seen(counter::series_ids(rows@)));
    series
}

/// The position of a series that is known to occur.
fn find_series(series: &Vec<Vec<Option<String>>>, labels: &Vec<Option<String>>) -> (at: usize)
    requires
        group::ids(series@).contains(labels.id()),
        group::ids(series@).no_duplicates(),
    ensures
        at < series@.len(),
        at == group::ids(series@).index_of(labels.id()),
{
    let ghost ids = group::ids(series@);
    let mut at: usize = 0;
    while at < series.len()
        invariant
            at <= series@.len(),
            ids == group::ids(series@),
            ids.contains(labels.id()),
            ids.no_duplicates(),
            forall|j: int| 0 <= j < at ==> (#[trigger] series@[j]).id() != labels.id(),
        decreases series@.len() - at,
    {
        if series[at].same(labels) {
            assert(ids[at as int] == labels.id());
            assert(ids.index_of(labels.id()) == at);
            return at;
        }
        at = at + 1;
    }
    proof {
        let j = ids.index_of(labels.id());
        assert(series@[j].id() == ids[j]);
    }
    at
}

/// Credits the growth of each counter row, in the order of time.
fn credit_counters(
    rows: &Vec<CounterRow>,
    baselines: &Vec<Option<i64>>,
    bucket_ns: i64,
) -> (credits: Vec<Credit>)
    requires
        bucket_ns > 0,
        baselines@.len() == group::first_seen(counter::series_ids(rows@)).len(),
    ensures
        views(credits@) == counter_credits(
            in_time_order(rows@),
            group::first_seen(counter::series_ids(rows@)),
            baselines@,
            bucket_ns as int,
            rows@.len() as int,
        ),
{
    let series = distinct_series(rows);
    let ghost names = group::first_seen(counter::series_ids(rows@));
    let mut ranks: Vec<SmallestFirst> = Vec::new();
    let mut i: usize = 0;
    while i < rows.len()
        invariant
            i <= rows@.len(),
            ranks@.len() == i,
            forall|j: int| 0 <= j < i ==> #[trigger] ranks@[j] == time_ranks(rows@)[j],
        decreases rows@.len() - i,
    {
        ranks.push(SmallestFirst(rows[i].timestamp as i128));
        i = i + 1;
    }
    assert(ranks@ =~= time_ranks(rows@));
    let order = order::order_of(&ranks);
    let ghost ordered = in_time_order(rows@);
    let ghost ids = counter::series_ids(ordered);
    let ghost vals = values(ordered);
    let mut references: Vec<Option<i64>> = Vec::new();
    i = 0;
    while i < baselines.len()
        invariant
            i <= baselines@.len(),
            references@ == baselines@.take(i as int),
        decreases baselines@.len() - i,
    {
        references.push(baselines[i]);
        assert(references@ =~= baselines@.take(i + 1));
        i = i + 1;
    }
    let mut credits: Vec<Credit> = Vec::new();
    let mut k: usize = 0;
    proof {
        group::lemma_first_seen(counter::series_ids(rows@));
        assert(references@ =~= baselines@);
        assert(views(credits@) =~= Seq::empty());
    }
    while k < rows.len()
        invariant
            k <= rows@.len(),
            bucket_ns > 0,
            order@ == order::sorting(time_ranks(rows@)),
            order::sorts(time_ranks(rows@), order@),
            ordered == in_time_order(rows@),
            ids == counter::series_ids(ordered),
            vals == values(ordered),
            names == group::first_seen(counter::series_ids(rows@)),
            names == group::ids(series@),
            names.no_duplicates(),
            forall|id: SeriesId| #[trigger] names.contains(id) <==> counter::series_ids(rows@).contains(id),
            baselines@.len() == names.len(),
            references@.len() == names.len(),
            forall|s: int|
                0 <= s < names.len() ==> #[trigger] references@[s] == last_or(
                    group::gather(ids.take(k as int), vals.take(k as int), names[s]),
                    baselines@[s],
                ),
            views(credits@) == counter_credits(ordered, names, baselines@, bucket_ns as int, k as int),
        decreases rows@.len() - k,
    {
        let at: usize = order[k];
        let row = &rows[at];
        let ghost id = row.labels.id();
        proof {
            assert(ordered[k as int] == rows@[at as int]);
            assert(counter::series_ids(rows@)[at as int] == id);
            assert(ids[k as int] == id);
            assert(counter::series_ids(rows@).contains(id));
            assert(names.contains(id));
        }
        let s: usize = find_series(&series, &row.labels);
        assert(names[s as int] == id);
        let value: i64 = match row.value {
            Some(v) => v,
            None => 0,
        };
        let against: i64 = match references[s] {
            Some(v) => v,
            None => 0,
        };
        assert(references@[s as int] == reference(ordered, names, baselines@, k as int));
        let growth: i128 = if value < against {
            value as i128
        } else {
            value as i128 - against as i128
        };
        assert(growth == counter::usage(value, references@[s as int]));
        let ghost before = references@;
        references.set(s, Some(value));
        proof {
            let t = ids.take(k + 1);
            let v = vals.take(k + 1);
            assert(t.drop_last() =~= ids.take(k as int));
            assert(v.drop_last() =~= vals.take(k as int));
            assert forall|n: int| 0 <= n < names.len() implies #[trigger] references@[n] == last_or(
                group::gather(t, v, names[n]),
                baselines@[n],
            ) by {
                assert(before[n] == last_or(
                    group::gather(ids.take(k as int), vals.take(k as int), names[n]),
                    baselines@[n],
                ));
                if n == s {
                    assert(group::gather(t, v, names[n]).last() == value);
                } else {
                    assert(names[n] != names[s as int]);
                }
            }
        }
        let kind = counter::copy_label(&row.labels, 2);
        let category = keep_prompt_category(tokens::find_opencode_category(&kind));
        if growth != 0 && category.is_some() {
            let amount: u64 = if growth < 0 {
                (growth + 0x1_0000_0000_0000_0000) as u64
            } else {
                growth as u64
            };
            let model = counter::copy_label(&row.labels, 1);
            let ghost had = credits@;
            credits.push(
                Credit {
                    model: name_model(&model),
                    bucket: start_of_bucket(row.timestamp, bucket_ns),
                    tokens: tokens::tokens_in_category(category, amount),
                },
            );
            assert(views(credits@) =~= views(had).push(credits@.last()@));
        }
        k = k + 1;
    }
    credits
}

/// Credits the per-turn token sums.
fn credit_codex(rows: &Vec<CodexUsage>, bucket_ns: i64) -> (credits: Vec<Credit>)
    requires
        bucket_ns > 0,
    ensures
        views(credits@) == codex_credits(rows@, bucket_ns as int),
{
    let mut credits: Vec<Credit> = Vec::new();
    let mut i: usize = 0;
    assert(views(credits@) =~= codex_credits(rows@.take(0), bucket_ns as int));
    while i < rows.len()
        invariant
            i <= rows@.len(),
            bucket_ns > 0,
            views(credits@) == codex_credits(rows@.take(i as int), bucket_ns as int),
        decreases rows@.len() - i,
    {
        let row = &rows[i];
        assert(rows@.take(i + 1).drop_last() =~= rows@.take(i as int));
        let kind: Option<String> = Some(row.token_type.clone());
        let category = keep_prompt_category(tokens::find_codex_category(&kind));
        if row.tokens != 0 && category.is_some() {
            let ghost had = credits@;
            credits.push(
                Credit {
                    model: name_model(&row.model),
                    bucket: start_of_bucket(row.bucket, bucket_ns),
                    tokens: tokens::tokens_in_category(category, row.tokens),
                },
            );
            assert(views(credits@) =~= views(had).push(credits@.last()@));
        }
        i = i + 1;
    }
    assert(rows@.take(i as int) =~= rows@);
    credits
}

/// A negative sum counts as zero.
fn clamp(n: i64) -> (r: u64)
    ensures
        r == at_least_zero(n),
{
    if n < 0 {
        0
    } else {
        n as u64
    }
}

/// Credits the token sums of the request spans.
fn credit_requests(rows: &Vec<RequestUsage>, bucket_ns: i64) -> (credits: Vec<Credit>)
    requires
        bucket_ns > 0,
    ensures
        views(credits@) == request_credits(rows@, bucket_ns as int),
{
    let mut credits: Vec<Credit> = Vec::new();
    let mut i: usize = 0;
    while i < rows.len()
        invariant
            i <= rows@.len(),
            bucket_ns > 0,
            credits@.len() == i,
            forall|j: int| 0 <= j < i ==> (#[trigger] credits@[j])@ == request_credits(rows@, bucket_ns as int)[j],
        decreases rows@.len() - i,
    {
        let row = &rows[i];
        proof {
            bucket_start_is_near(row.bucket as int, bucket_ns as int);
        }
        credits.push(
            Credit {
                model: name_model(&row.model),
                bucket: start_of_bucket(row.bucket, bucket_ns),
                tokens: RoleTokenUsage {
                    input: clamp(row.input),
                    output: 0,
                    cache_read: clamp(row.cache_read),
                    cache_write: clamp(row.cache_creation),
                    reasoning: 0,
                },
            },
        );
        i = i + 1;
    }
    assert(views(credits@) =~= request_credits(rows@, bucket_ns as int));
    credits
}

/// Cache economics of one model.
pub struct CacheEconModelEntry {
    pub model: String,
    pub input_tokens: u64,
    pub cache_read_tokens: u64,
    pub cache_write_tokens: u64,
    pub hit_rate: Option<Ratio>,
    pub read_write_ratio: Option<Ratio>,
    /// Whether the savings were priced. They are not where the tokens are added up.
    pub savings_known: bool,
}

/// Cache economics of one time bucket.
pub struct CacheEconSeriesPoint {
    pub timestamp: i64,
    pub input: u64,
    pub cache_read: u64,
    pub cache_write: u64,
    pub hit_rate: Option<Ratio>,
}

/// Cache economics over a window, by time bucket and by model.
pub struct CacheEconomicsResponse {
    pub series: Vec<CacheEconSeriesPoint>,
    pub models: Vec<CacheEconModelEntry>,
}

/// The model of each credit.
pub open spec fn credit_models(credits: Seq<CreditView>) -> Seq<Seq<char>> {
    Seq::new(credits.len(), |i: int| credits[i].model)
}

/// The bucket of each credit.
pub open spec fn credit_buckets(credits: Seq<CreditView>) -> Seq<i64> {
    Seq::new(credits.len(), |i: int| credits[i].bucket)
}

/// The tokens of each credit.
pub open spec fn credit_tokens(credits: Seq<CreditView>) -> Seq<RoleTokenUsage> {
    Seq::new(credits.len(), |i: int| credits[i].tokens)
}

/// The entry holds what the credits of its model add up to.
pub open spec fn entry_adds_up(entry: CacheEconModelEntry, credits: Seq<CreditView>) -> bool {
    let own = group::gather(credit_models(credits), credit_tokens(credits), entry.model@);
    let read = entry.cache_read_tokens as int;
    &&& entry.input_tokens == sums::sum_by(own, tokens::count_of(Category::Input))
    &&& entry.cache_read_tokens == sums::sum_by(own, tokens::count_of(Category::CacheRead))
    &&& entry.cache_write_tokens == sums::sum_by(own, tokens::count_of(Category::CacheWrite))
    &&& entry.hit_rate == ratio::ratio(read, read + entry.input_tokens)
    &&& entry.read_write_ratio == ratio::ratio(read, entry.cache_write_tokens as int)
    &&& !entry.savings_known
}

/// One entry comes before another: it read more from the cache, or as much under an earlier name.
pub open spec fn entry_before(a: CacheEconModelEntry, b: CacheEconModelEntry) -> bool {
    a.cache_read_tokens > b.cache_read_tokens || (a.cache_read_tokens == b.cache_read_tokens
        && text::text_leq(a.model@, b.model@) && a.model@ != b.model@)
}

/// One entry for each model that the credits name, the most cache reads first.
pub open spec fn is_model_table(entries: Seq<CacheEconModelEntry>, credits: Seq<CreditView>) -> bool {
    &&& entries.len() == group::first_seen(credit_models(credits)).len()
    &&& forall|e: int|
        0 <= e < entries.len() ==> {
            &&& credit_models(credits).contains((#[trigger] entries[e]).model@)
            &&& entry_adds_up(entries[e], credits)
        }
    &&& forall|d: int, e: int|
        0 <= d < e < entries.len() ==> entry_before(#[trigger] entries[d], #[trigger] entries[e])
}

/// The point holds what the credits of its bucket add up to.
pub open spec fn point_adds_up(point: CacheEconSeriesPoint, credits: Seq<CreditView>) -> bool {
    let own = group::gather(credit_buckets(credits), credit_tokens(credits), point.timestamp);
    &&& point.input == sums::sum_by(own, tokens::count_of(Category::Input))
    &&& point.cache_read == sums::sum_by(own, tokens::count_of(Category::CacheRead))
    &&& point.cache_write == sums::sum_by(own, tokens::count_of(Category::CacheWrite))
    &&& point.hit_rate == ratio::ratio(point.cache_read as int, point.cache_read + point.input)
}

/// One point for each bucket that the credits fall in, in the order of time.
pub open spec fn is_bucket_series(points: Seq<CacheEconSeriesPoint>, credits: Seq<CreditView>) -> bool {
    &&& points.len() == group::first_seen(credit_buckets(credits)).len()
    &&& forall|p: int|
        0 <= p < points.len() ==> {
            &&& credit_buckets(credits).contains((#[trigger] points[p]).timestamp)
            &&& point_adds_up(points[p], credits)
        }
    &&& forall|p: int, q: int|
        0 <= p < q < points.len() ==> (#[trigger] points[p]).timestamp < (#[trigger] points[q]).timestamp
}

/// Adds up the credits of each model.
fn tabulate_models(credits: &Vec<Credit>) -> (entries: Vec<CacheEconModelEntry>)
    requires
        sums::sum_by(credit_tokens(views(credits@)), tokens::sum_of()) <= u64::MAX,
    ensures
        is_model_table(entries@, views(credits@)),
{
    let ghost c = views(credits@);
    let ghost ids = credit_models(c);
    let ghost toks = credit_tokens(c);
    let mut keys: Vec<String> = Vec::new();
    let mut values: Vec<RoleTokenUsage> = Vec::new();
    let mut i: usize = 0;
    while i < credits.len()
        invariant
            i <= credits@.len(),
            c == views(credits@),
            keys@.len() == i,
            values@.len() == i,
            forall|j: int| 0 <= j < i ==> (#[trigger] keys@[j])@ == c[j].model,
            forall|j: int| 0 <= j < i ==> #[trigger] values@[j] == c[j].tokens,
        decreases credits@.len() - i,
    {
        keys.push(credits[i].model.clone());
        values.push(credits[i].tokens);
        i = i + 1;
    }
    assert(group::ids(keys@) =~= ids);
    assert(values@ =~= toks);
    let groups = group::group_values(&keys, &values);
    proof {
        group::lemma_first_seen(ids);
        assert forall|g: int| 0 <= g < groups@.len() implies sums::sum_by(
            (#[trigger] groups@[g]).members@,
            tokens::sum_of(),
        ) <= u64::MAX by {
            sums::lemma_gather_bound(ids, toks, groups@[g].key.id(), tokens::sum_of());
        }
    }
    let totals = tokens::group_totals(&groups);
    let mut ranks: Vec<LabelRank> = Vec::new();
    let mut g: usize = 0;
    while g < groups.len()
        invariant
            g <= groups@.len(),
            totals@.len() == groups@.len(),
            ranks@.len() == g,
            forall|h: int|
                0 <= h < g ==> {
                    &&& (#[trigger] ranks@[h]).number == -(totals@[h].cache_read as int)
                    &&& text::optional(ranks@[h].label) == Some(groups@[h].key@)
                },
        decreases groups@.len() - g,
    {
        ranks.push(
            LabelRank { number: -(totals[g].cache_read as i128), label: Some(groups[g].key.clone()) },
        );
        g = g + 1;
    }
    let order = order::order_of(&ranks);
    proof {
        order::sorting_is_a_rearrangement(ranks@, order@);
    }
    let mut entries: Vec<CacheEconModelEntry> = Vec::new();
    let mut e: usize = 0;
    while e < order.len()
        invariant
            e <= order@.len(),
            order@.len() == groups@.len(),
            totals@.len() == groups@.len(),
            order::sorts(ranks@, order@),
            ids == credit_models(c),
            toks == credit_tokens(c),
            group::is_grouping(groups@, ids, toks),
            forall|h: int|
                0 <= h < groups@.len() ==> {
                    &&& tokens::adds_up(#[trigger] totals@[h], groups@[h].members@)
                    &&& totals@[h].sum() == sums::sum_by(groups@[h].members@, tokens::sum_of())
                },
            forall|h: int|
                0 <= h < groups@.len() ==> sums::sum_by((#[trigger] groups@[h]).members@, tokens::sum_of())
                    <= u64::MAX,
            entries@.len() == e,
            forall|d: int|
                0 <= d < e ==> {
                    let from = order@[d] as int;
                    &&& (#[trigger] entries@[d]).model@ == groups@[from].key@
                    &&& entries@[d].cache_read_tokens == totals@[from].cache_read
                    &&& entry_adds_up(entries@[d], c)
                },
        decreases order@.len() - e,
    {
        let at: usize = order[e];
        let total: RoleTokenUsage = totals[at];
        proof {
            assert(groups@[at as int].members@ == group::gather(ids, toks, groups@[at as int].key.id()));
            assert(total.sum() <= u64::MAX);
            assert(total.count(Category::Input) == total.input);
            assert(total.count(Category::CacheRead) == total.cache_read);
            assert(total.count(Category::CacheWrite) == total.cache_write);
        }
        entries.push(
            CacheEconModelEntry {
                model: groups[at].key.clone(),
                input_tokens: total.input,
                cache_read_tokens: total.cache_read,
                cache_write_tokens: total.cache_write,
                hit_rate: cache_hit_rate(total.cache_read, total.input),
                read_write_ratio: cache_read_write_ratio(total.cache_read, total.cache_write),
                savings_known: false,
            },
        );
        e = e + 1;
    }
    proof {
        let seen = group::first_seen(ids);
        assert forall|d: int| 0 <= d < entries@.len() implies ids.contains((#[trigger] entries@[d]).model@) by {
            let from = order@[d] as int;
            assert(groups@[from].key.id() == seen[from]);
            assert(seen.contains(seen[from]));
        }
        assert forall|d: int, f: int| 0 <= d < f < entries@.len() implies entry_before(
            #[trigger] entries@[d],
            #[trigger] entries@[f],
        ) by {
            let a = order@[d] as int;
            let b = order@[f] as int;
            assert(order::precedes(ranks@, a, b));
            assert(a != b);
            assert(groups@[a].key.id() == seen[a]);
            assert(groups@[b].key.id() == seen[b]);
        }
    }
    entries
}

/// Adds up the credits of each bucket.
fn tabulate_buckets(credits: &Vec<Credit>) -> (points: Vec<CacheEconSeriesPoint>)
    requires
        sums::sum_by(credit_tokens(views(credits@)), tokens::sum_of()) <= u64::MAX,
    ensures
        is_bucket_series(points@, views(credits@)),
{
    let ghost c = views(credits@);
    let ghost ids = credit_buckets(c);
    let ghost toks = credit_tokens(c);
    let mut keys: Vec<i64> = Vec::new();
    let mut values: Vec<RoleTokenUsage> = Vec::new();
    let mut i: usize = 0;
    while i < credits.len()
        invariant
            i <= credits@.len(),
            c == views(credits@),
            keys@.len() == i,
            values@.len() == i,
            forall|j: int| 0 <= j < i ==> #[trigger] keys@[j] == c[j].bucket,
            forall|j: int| 0 <= j < i ==> #[trigger] values@[j] == c[j].tokens,
        decreases credits@.len() - i,
    {
        keys.push(credits[i].bucket);
        values.push(credits[i].tokens);
        i = i + 1;
    }
    assert(group::ids(keys@) =~= ids);
    assert(values@ =~= toks);
    let groups = group::group_values(&keys, &values);
    proof {
        group::lemma_first_seen(ids);
        assert forall|g: int| 0 <= g < groups@.len() implies sums::sum_by(
            (#[trigger] groups@[g]).members@,
            tokens::sum_of(),
        ) <= u64::MAX by {
            sums::lemma_gather_bound(ids, toks, groups@[g].key.id(), tokens::sum_of());
        }
    }
    let totals = tokens::group_totals(&groups);
    let mut ranks: Vec<SmallestFirst> = Vec::new();
    let mut g: usize = 0;
    while g < groups.len()
        invariant
            g <= groups@.len(),
            ranks@.len() == g,
            forall|h: int| 0 <= h < g ==> (#[trigger] ranks@[h]).0 == groups@[h].key,
        decreases groups@.len() - g,
    {
        ranks.push(SmallestFirst(groups[g].key as i128));
        g = g + 1;
    }
    let order = order::order_of(&ranks);
    proof {
        order::sorting_is_a_rearrangement(ranks@, order@);
    }
    let mut points: Vec<CacheEconSeriesPoint> = Vec::new();
    let mut p: usize = 0;
    while p < order.len()
        invariant
            p <= order@.len(),
            order@.len() == groups@.len(),
            totals@.len() == groups@.len(),
            order::sorts(ranks@, order@),
            ids == credit_buckets(c),
            toks == credit_tokens(c),
            group::is_grouping(groups@, ids, toks),
            forall|h: int|
                0 <= h < groups@.len() ==> {
                    &&& tokens::adds_up(#[trigger] totals@[h], groups@[h].members@)
                    &&& totals@[h].sum() == sums::sum_by(groups@[h].members@, tokens::sum_of())
                },
            forall|h: int|
                0 <= h < groups@.len() ==> sums::sum_by((#[trigger] groups@[h]).members@, tokens::sum_of())
                    <= u64::MAX,
            points@.len() == p,
            forall|q: int|
                0 <= q < p ==> {
                    &&& (#[trigger] points@[q]).timestamp == groups@[order@[q] as int].key
                    &&& point_adds_up(points@[q], c)
                },
        decreases order@.len() - p,
    {
        let at: usize = order[p];
        let total: RoleTokenUsage = totals[at];
        proof {
            assert(groups@[at as int].members@ == group::gather(ids, toks, groups@[at as int].key.id()));
            assert(total.sum() <= u64::MAX);
            assert(total.count(Category::Input) == total.input);
            assert(total.count(Category::CacheRead) == total.cache_read);
            assert(total.count(Category::CacheWrite) == total.cache_write);
        }
        points.push(
            CacheEconSeriesPoint {
                timestamp: groups[at].key,
                input: total.input,
                cache_read: total.cache_read,
                cache_write: total.cache_write,
                hit_rate: cache_hit_rate(total.cache_read, total.input),
            },
        );
        p = p + 1;
    }
    proof {
        let seen = group::first_seen(ids);
        assert forall|q: int| 0 <= q < points@.len() implies ids.contains((#[trigger] points@[q]).timestamp) by {
            let from = order@[q] as int;
            assert(groups@[from].key.id() == seen[from]);
            assert(seen.contains(seen[from]));
        }
        assert forall|q: int, r: int| 0 <= q < r < points@.len() implies (#[trigger] points@[q]).timestamp
            < (#[trigger] points@[r]).timestamp by {
            let a = order@[q] as int;
            let b = order@[r] as int;
            assert(order::precedes(ranks@, a, b));
            assert(a != b);
            assert(groups@[a].key.id() == seen[a]);
            assert(groups@[b].key.id() == seen[b]);
        }
    }
    points
}

/// The refusal of a bucket width that is not positive.
pub open spec fn bucket_refusal(bucket_ns: i64) -> Seq<char> {
    "bucket_ns must be positive, got "@ + text::signed_decimal(bucket_ns as int)
}

/// Refuses a bucket width that is not positive.
pub fn check_bucket(bucket_ns: i64) -> (r: Result<(), StorageError>)
    ensures
        r is Ok <==> bucket_ns > 0,
        bucket_ns <= 0 ==> (r matches Err(StorageError::QueryError(m)) && m@ == bucket_refusal(bucket_ns)),
{
    if bucket_ns <= 0 {
        let mut message = "bucket_ns must be positive, got ".to_owned();
        message.append(text::render_i64(bucket_ns).as_str());
        return Err(StorageError::QueryError(message));
    }
    Ok(())
}

/// All that the three sources credit. Each agent reports through one of them, so that nothing is
/// credited twice.
pub open spec fn all_credits(
    rows: Seq<CounterRow>,
    baselines: Seq<Option<i64>>,
    codex: Seq<CodexUsage>,
    requests: Seq<RequestUsage>,
    bucket_ns: int,
) -> Seq<CreditView> {
    counter_credits(
        in_time_order(rows),
        group::first_seen(counter::series_ids(rows)),
        baselines,
        bucket_ns,
        rows.len() as int,
    ) + codex_credits(codex, bucket_ns) + request_credits(requests, bucket_ns)
}

/// Credits what the three sources report.
fn credit_all(
    rows: &Vec<CounterRow>,
    baselines: &Vec<Option<i64>>,
    codex: &Vec<CodexUsage>,
    requests: &Vec<RequestUsage>,
    bucket_ns: i64,
) -> (credits: Vec<Credit>)
    requires
        bucket_ns > 0,
        baselines@.len() == group::first_seen(counter::series_ids(rows@)).len(),
    ensures
        views(credits@) == all_credits(rows@, baselines@, codex@, requests@, bucket_ns as int),
{
    let mut credits = credit_counters(rows, baselines, bucket_ns);
    let ghost first = credits@;
    let mut more = credit_codex(codex, bucket_ns);
    let ghost second = more@;
    credits.append(&mut more);
    let mut rest = credit_requests(requests, bucket_ns);
    let ghost third = rest@;
    credits.append(&mut rest);
    assert(views(credits@) =~= views(first) + views(second) + views(third));
    credits
}

/// Whether all that is credited can be counted in 64 bits.
pub fn economics_fit(
    rows: &Vec<CounterRow>,
    baselines: &Vec<Option<i64>>,
    codex: &Vec<CodexUsage>,
    requests: &Vec<RequestUsage>,
    bucket_ns: i64,
) -> (r: bool)
    requires
        baselines@.len() == group::first_seen(counter::series_ids(rows@)).len(),
    ensures
        r == (bucket_ns > 0 ==> sums::sum_by(
            credit_tokens(all_credits(rows@, baselines@, codex@, requests@, bucket_ns as int)),
            tokens::sum_of(),
        ) <= u64::MAX),
{
    if bucket_ns <= 0 {
        return true;
    }
    let credits = credit_all(rows, baselines, codex, requests, bucket_ns);
    let ghost toks = credit_tokens(views(credits@));
    let mut total: u128 = 0;
    let mut i: usize = 0;
    while i < credits.len()
        invariant
            i <= credits@.len(),
            bucket_ns > 0,
            toks == credit_tokens(views(credits@)),
            views(credits@) == all_credits(rows@, baselines@, codex@, requests@, bucket_ns as int),
            total == sums::sum_by(toks.take(i as int), tokens::sum_of()),
            total <= u64::MAX,
        decreases credits@.len() - i,
    {
        let t = &credits[i].tokens;
        proof {
            assert(toks[i as int] == *t);
            sums::lemma_sum_by_take(toks, i as int, tokens::sum_of());
            sums::lemma_sum_by_prefix(toks, i + 1, tokens::sum_of());
        }
        total = total + t.input as u128 + t.output as u128 + t.cache_read as u128 + t.cache_write as u128
            + t.reasoning as u128;
        if total > u64::MAX as u128 {
            return false;
        }
        i = i + 1;
    }
    assert(toks.take(i as int) =~= toks);
    true
}

/// Cache economics from the rows of the cumulative token counter with the baseline of each distinct
/// series, the per-turn token sums, and the token sums of the request spans.
pub fn cache_economics(
    rows: &Vec<CounterRow>,
    baselines: &Vec<Option<i64>>,
    codex: &Vec<CodexUsage>,
    requests: &Vec<RequestUsage>,
    bucket_ns: i64,
) -> (r: Result<CacheEconomicsResponse, StorageError>)
    requires
        baselines@.len() == group::first_seen(counter::series_ids(rows@)).len(),
        bucket_ns > 0 ==> sums::sum_by(
            credit_tokens(all_credits(rows@, baselines@, codex@, requests@, bucket_ns as int)),
            tokens::sum_of(),
        ) <= u64::MAX,
    ensures
        bucket_ns <= 0 ==> (r matches Err(StorageError::QueryError(m)) && m@ == bucket_refusal(bucket_ns)),
        bucket_ns > 0 ==> {
            let credits = all_credits(rows@, baselines@, codex@, requests@, bucket_ns as int);
            r matches Ok(response) && is_bucket_series(response.series@, credits) && is_model_table(
                response.models@,
                credits,
            )
        },
{
    match check_bucket(bucket_ns) {
        Err(e) => {
            return Err(e);
        },
        Ok(_) => {},
    }
    let credits = credit_all(rows, baselines, codex, requests, bucket_ns);
    let series = tabulate_buckets(&credits);
    let models = tabulate_models(&credits);
    Ok(CacheEconomicsResponse { series, models })
}

/// The prompt tokens in one category that an entry holds.
pub open spec fn entry_count(entry: CacheEconModelEntry, c: Category) -> int {
    match c {
        Category::Input => entry.input_tokens as int,
        Category::CacheRead => entry.cache_read_tokens as int,
        Category::CacheWrite => entry.cache_write_tokens as int,
        _ => 0,
    }
}

/// The prompt tokens in one category that a point holds.
pub open spec fn point_count(point: CacheEconSeriesPoint, c: Category) -> int {
    match c {
        Category::Input => point.input as int,
        Category::CacheRead => point.cache_read as int,
        Category::CacheWrite => point.cache_write as int,
        _ => 0,
    }
}

/// Every credited token is reported once by model and once by bucket: in each prompt category the
/// models add up to what the buckets add up to, which is what was credited.
pub proof fn models_and_buckets_agree(
    entries: Seq<CacheEconModelEntry>,
    points: Seq<CacheEconSeriesPoint>,
    credits: Seq<CreditView>,
    c: Category,
)
    requires
        is_model_table(entries, credits),
        is_bucket_series(points, credits),
        prompt_category(Some(c)) is Some,
    ensures
        sums::sum(Seq::new(entries.len(), |e: int| entry_count(entries[e], c))) == sums::sum_by(
            credit_tokens(credits),
            tokens::count_of(c),
        ),
        sums::sum(Seq::new(points.len(), |p: int| point_count(points[p], c))) == sums::sum_by(
            credit_tokens(credits),
            tokens::count_of(c),
        ),
{
    let toks = credit_tokens(credits);
    let f = tokens::count_of(c);
    let models = Seq::new(entries.len(), |e: int| entries[e].model@);
    assert forall|e: int| 0 <= e < models.len() implies credit_models(credits).contains(#[trigger] models[e]) by {
        assert(credit_models(credits).contains(entries[e].model@));
    }
    assert forall|d: int, e: int| 0 <= d < models.len() && 0 <= e < models.len() && d != e implies models[d]
        != models[e] by {
        if d < e {
            assert(entry_before(entries[d], entries[e]));
        } else {
            assert(entry_before(entries[e], entries[d]));
        }
    }
    sums::listed_groups_keep_the_total(credit_models(credits), toks, f, models);
    assert(Seq::new(entries.len(), |e: int| entry_count(entries[e], c)) =~= sums::sums_beside(
        credit_models(credits),
        toks,
        f,
        models,
    )) by {
        assert forall|e: int| 0 <= e < entries.len() implies entry_count(#[trigger] entries[e], c)
            == sums::sum_by(group::gather(credit_models(credits), toks, models[e]), f) by {
            assert(entry_adds_up(entries[e], credits));
        }
    }
    let starts = Seq::new(points.len(), |p: int| points[p].timestamp);
    assert forall|p: int| 0 <= p < starts.len() implies credit_buckets(credits).contains(#[trigger] starts[p]) by {
        assert(credit_buckets(credits).contains(points[p].timestamp));
    }
    assert forall|p: int, q: int| 0 <= p < starts.len() && 0 <= q < starts.len() && p != q implies starts[p]
        != starts[q] by {
        assert(points[p].timestamp != points[q].timestamp) by {
            if p < q {
                assert(points[p].timestamp < points[q].timestamp);
            } else {
                assert(points[q].timestamp < points[p].timestamp);
            }
        }
    }
    sums::listed_groups_keep_the_total(credit_buckets(credits), toks, f, starts);
    assert(Seq::new(points.len(), |p: int| point_count(points[p], c)) =~= sums::sums_beside(
        credit_buckets(credits),
        toks,
        f,
        starts,
    )) by {
        assert forall|p: int| 0 <= p < points.len() implies point_count(#[trigger] points[p], c)
            == sums::sum_by(group::gather(credit_buckets(credits), toks, starts[p]), f) by {
            assert(point_adds_up(points[p], credits));
        }
    }
}

} // verus!

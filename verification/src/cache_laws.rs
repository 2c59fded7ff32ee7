//! What prompt-cache economics does not depend on: the order in which the rows are stored, and the
//! rows of token types that do not bear on the cache.
use crate::cache;
use crate::cache::{
    CacheEconModelEntry, CacheEconSeriesPoint, CodexUsage, CreditView, RequestUsage,
};
use crate::counter;
use crate::counter::{CounterRow, SeriesId};
use crate::group;
use crate::group::Key;
use crate::order;
use crate::sums;
use crate::text;
use crate::tokens;
use crate::tokens::{Category, RoleTokenUsage};
use vstd::multiset::Multiset;
use vstd::prelude::*;

verus! {

/// What a counter row says.
pub ghost struct RowFacts {
    pub series: SeriesId,
    pub timestamp: i64,
    pub value: i64,
}

/// What a per-turn token sum says.
pub ghost struct CodexFacts {
    pub bucket: i64,
    pub model: Option<Seq<char>>,
    pub token_type: Seq<char>,
    pub tokens: u64,
}

/// What the token sums of request spans say.
pub ghost struct RequestFacts {
    pub bucket: i64,
    pub model: Option<Seq<char>>,
    pub input: i64,
    pub cache_creation: i64,
    pub cache_read: i64,
}

/// What the counter rows say.
pub open spec fn row_facts(rows: Seq<CounterRow>) -> Seq<RowFacts> {
    Seq::new(
        rows.len(),
        |i: int|
            RowFacts {
                series: rows[i].labels.id(),
                timestamp: rows[i].timestamp,
                value: counter::value_or_zero(rows[i].value),
            },
    )
}

/// What the per-turn token sums say.
pub open spec fn codex_facts(rows: Seq<CodexUsage>) -> Seq<CodexFacts> {
    Seq::new(
        rows.len(),
        |i: int|
            CodexFacts {
                bucket: rows[i].bucket,
                model: text::optional(rows[i].model),
                token_type: rows[i].token_type@,
                tokens: rows[i].tokens,
            },
    )
}

/// What the token sums of the request spans say.
pub open spec fn request_facts(rows: Seq<RequestUsage>) -> Seq<RequestFacts> {
    Seq::new(
        rows.len(),
        |i: int|
            RequestFacts {
                bucket: rows[i].bucket,
                model: text::optional(rows[i].model),
                input: rows[i].input,
                cache_creation: rows[i].cache_creation,
                cache_read: rows[i].cache_read,
            },
    )
}

/// No series has two rows of one time.
pub open spec fn has_distinct_times(facts: Seq<RowFacts>) -> bool {
    forall|i: int, j: int|
        0 <= i < j < facts.len() && (#[trigger] facts[i]).series == (#[trigger] facts[j]).series
            ==> facts[i].timestamp != facts[j].timestamp
}

/// The baseline that stands beside a series.
pub open spec fn baseline_of(rows: Seq<CounterRow>, baselines: Seq<Option<i64>>, id: SeriesId) -> Option<i64> {
    baselines[group::first_seen(counter::series_ids(rows)).index_of(id)]
}

/// The label at a position of a series, where there is one.
spec fn name_at(series: SeriesId, i: int) -> Option<Seq<char>> {
    if i < series.len() {
        series[i]
    } else {
        None
    }
}

/// What a row credits that is measured against `reference`.
spec fn fact_credit(fact: RowFacts, reference: Option<i64>, bucket_ns: int) -> Option<CreditView> {
    let growth = counter::usage(fact.value, reference);
    let category = cache::prompt_category(tokens::opencode_category(name_at(fact.series, 2)));
    if growth == 0 || category is None {
        None
    } else {
        Some(
            CreditView {
                model: cache::model_name(name_at(fact.series, 1)),
                bucket: cache::bucket_start(fact.timestamp as int, bucket_ns) as i64,
                tokens: tokens::of_category(category, cache::wrapped(growth)),
            },
        )
    }
}

/// `s` is the last row before `fact` in its series.
spec fn is_prior(facts: Multiset<RowFacts>, fact: RowFacts, s: RowFacts) -> bool {
    &&& facts.count(s) > 0
    &&& s.series == fact.series
    &&& s.timestamp < fact.timestamp
    &&& forall|u: RowFacts|
        #[trigger] facts.count(u) > 0 && u.series == fact.series && u.timestamp < fact.timestamp
            ==> u.timestamp <= s.timestamp
}

/// What a row is measured against, in whatever order the rows come.
spec fn measured(facts: Multiset<RowFacts>, fact: RowFacts, baseline: Option<i64>) -> Option<i64> {
    if exists|s: RowFacts| is_prior(facts, fact, s) {
        Some((choose|s: RowFacts| is_prior(facts, fact, s)).value)
    } else {
        baseline
    }
}

/// One where a row credits `v`.
spec fn credits_it(
    facts: Multiset<RowFacts>,
    baseline: spec_fn(SeriesId) -> Option<i64>,
    bucket_ns: int,
    v: CreditView,
) -> spec_fn(RowFacts) -> int {
    |f: RowFacts|
        if fact_credit(f, measured(facts, f, baseline(f.series)), bucket_ns) == Some(v) {
            1int
        } else {
            0int
        }
}

/// The baselines beside the series, as a function.
spec fn baseline_beside(series: Seq<SeriesId>, baselines: Seq<Option<i64>>) -> spec_fn(SeriesId) -> Option<i64> {
    |id: SeriesId| baselines[series.index_of(id)]
}

/// The last of the gathered values is the last that stands beside the id.
proof fn lemma_gather_last<I, T>(ids: Seq<I>, values: Seq<T>, id: I) -> (at: int)
    requires
        ids.len() == values.len(),
    ensures
        group::gather(ids, values, id).len() == 0 ==> forall|j: int| 0 <= j < ids.len() ==> #[trigger] ids[j] != id,
        group::gather(ids, values, id).len() > 0 ==> {
            &&& 0 <= at < ids.len()
            &&& ids[at] == id
            &&& group::gather(ids, values, id).last() == values[at]
            &&& forall|j: int| at < j < ids.len() ==> #[trigger] ids[j] != id
        },
    decreases ids.len(),
{
    if ids.len() == 0 {
        0
    } else if ids.last() == id {
        ids.len() - 1
    } else {
        let prior = ids.drop_last();
        let at = lemma_gather_last(prior, values.drop_last(), id);
        assert forall|j: int| 0 <= j < prior.len() implies #[trigger] ids[j] == prior[j] by {}
        at
    }
}

/// In rows that come in the order of time, what a row is measured against does not depend on that
/// order.
proof fn lemma_reference(
    rows: Seq<CounterRow>,
    series: Seq<SeriesId>,
    baselines: Seq<Option<i64>>,
    k: int,
)
    requires
        0 <= k < rows.len(),
        has_distinct_times(row_facts(rows)),
        forall|i: int, j: int|
            0 <= i < j < rows.len() ==> (#[trigger] rows[i]).timestamp <= (#[trigger] rows[j]).timestamp,
    ensures
        cache::reference(rows, series, baselines, k) == measured(
            row_facts(rows).to_multiset(),
            row_facts(rows)[k],
            baseline_beside(series, baselines)(row_facts(rows)[k].series),
        ),
{
    broadcast use vstd::seq_lib::group_to_multiset_ensures;

    let facts = row_facts(rows);
    let all = facts.to_multiset();
    let fact = facts[k];
    let ids = counter::series_ids(rows).take(k);
    let vals = cache::values(rows).take(k);
    let at = lemma_gather_last(ids, vals, fact.series);
    let found = group::gather(ids, vals, fact.series);
    assert forall|u: RowFacts|
        #[trigger] all.count(u) > 0 && u.series == fact.series && u.timestamp < fact.timestamp implies found.len()
        > 0 && u.timestamp <= facts[at].timestamp by {
        assert(facts.contains(u));
        let i = facts.index_of(u);
        assert(rows[i].timestamp == u.timestamp);
        assert(rows[k].timestamp == fact.timestamp);
        assert(i < k);
        assert(ids[i] == fact.series);
        if i < at {
            assert(rows[at].timestamp == facts[at].timestamp);
        }
    }
    if found.len() > 0 {
        let s = facts[at];
        assert(ids[at] == rows[at].labels.id());
        assert(facts.contains(s));
        assert(facts[at].series == facts[k].series);
        assert(rows[at].timestamp <= rows[k].timestamp);
        assert(is_prior(all, fact, s));
        let chosen = choose|s: RowFacts| is_prior(all, fact, s);
        assert(facts.contains(chosen));
        let c = facts.index_of(chosen);
        assert(all.count(chosen) > 0 && all.count(s) > 0);
        assert(facts[c].timestamp == facts[at].timestamp);
        assert(c == at);
    } else {
        assert forall|s: RowFacts| !is_prior(all, fact, s) by {
            if is_prior(all, fact, s) {
                assert(all.count(s) > 0);
            }
        }
    }
}

/// The labels of a row are those of its series.
proof fn lemma_names(labels: Vec<Option<String>>, i: int)
    requires
        0 <= i,
    ensures
        counter::label_at(labels@, i) == name_at(labels.id(), i),
{
    if i < labels@.len() {
        assert(labels.id()[i] == labels@[i].id());
    }
}

/// How often the first `k` rows, which come in the order of time, credit `v`.
proof fn lemma_credits_counted(
    rows: Seq<CounterRow>,
    series: Seq<SeriesId>,
    baselines: Seq<Option<i64>>,
    bucket_ns: int,
    k: int,
    v: CreditView,
)
    requires
        0 <= k <= rows.len(),
        has_distinct_times(row_facts(rows)),
        forall|i: int, j: int|
            0 <= i < j < rows.len() ==> (#[trigger] rows[i]).timestamp <= (#[trigger] rows[j]).timestamp,
    ensures
        sums::sum_by(cache::counter_credits(rows, series, baselines, bucket_ns, k), sums::one_for(v))
            == sums::sum_by(
            row_facts(rows).take(k),
            credits_it(row_facts(rows).to_multiset(), baseline_beside(series, baselines), bucket_ns, v),
        ),
    decreases k,
{
    if k > 0 {
        let facts = row_facts(rows);
        let f = credits_it(facts.to_multiset(), baseline_beside(series, baselines), bucket_ns, v);
        let earlier = cache::counter_credits(rows, series, baselines, bucket_ns, k - 1);
        let row = rows[k - 1];
        lemma_credits_counted(rows, series, baselines, bucket_ns, k - 1, v);
        lemma_reference(rows, series, baselines, k - 1);
        lemma_names(row.labels, 1);
        lemma_names(row.labels, 2);
        sums::lemma_sum_by_take(facts, k - 1, f);
        let credit = fact_credit(facts[k - 1], cache::reference(rows, series, baselines, k - 1), bucket_ns);
        if credit is Some {
            assert(cache::counter_credits(rows, series, baselines, bucket_ns, k) == earlier.push(credit->0));
            sums::lemma_sum_by_push(earlier, credit->0, sums::one_for(v));
        } else {
            assert(cache::counter_credits(rows, series, baselines, bucket_ns, k) == earlier);
        }
    }
}

/// Sorting by time keeps what the rows say, and the times within a series distinct.
proof fn lemma_sorted_rows(rows: Seq<CounterRow>)
    requires
        rows.len() <= usize::MAX,
        has_distinct_times(row_facts(rows)),
    ensures
        row_facts(cache::in_time_order(rows)).to_multiset() == row_facts(rows).to_multiset(),
        has_distinct_times(row_facts(cache::in_time_order(rows))),
        forall|i: int, j: int|
            0 <= i < j < rows.len() ==> (#[trigger] cache::in_time_order(rows)[i]).timestamp <= (
            #[trigger] cache::in_time_order(rows)[j]).timestamp,
{
    let ranks = cache::time_ranks(rows);
    let sorting = order::sorting(ranks);
    let sorted = cache::in_time_order(rows);
    let facts = row_facts(rows);
    order::lemma_sorting(ranks);
    order::sorting_is_a_rearrangement(ranks, sorting);
    assert forall|i: int, j: int| 0 <= i < j < rows.len() implies (#[trigger] sorted[i]).timestamp <= (
    #[trigger] sorted[j]).timestamp by {
        assert(order::precedes(ranks, sorting[i] as int, sorting[j] as int));
    }
    assert forall|i: int| 0 <= i < sorted.len() implies #[trigger] row_facts(sorted)[i] == facts[sorting[i] as int] by {
        assert(sorting[i] < ranks.len());
    }
    assert forall|i: int, j: int|
        0 <= i < j < sorted.len() && (#[trigger] row_facts(sorted)[i]).series == (#[trigger] row_facts(
            sorted,
        )[j]).series implies row_facts(sorted)[i].timestamp != row_facts(sorted)[j].timestamp by {
        let a = sorting[i] as int;
        let b = sorting[j] as int;
        assert(a != b);
        assert(row_facts(sorted)[i] == facts[a] && row_facts(sorted)[j] == facts[b]);
        if b < a {
            assert(facts[b].series == facts[a].series);
        }
    }
    let positions = Seq::new(sorting.len(), |k: int| sorting[k] as int);
    assert forall|v: RowFacts| sums::sum_by(row_facts(sorted), #[trigger] sums::one_for(v)) == sums::sum_by(
        facts,
        sums::one_for(v),
    ) by {
        let f = sums::one_for(v);
        let ones = Seq::new(facts.len(), |i: int| f(facts[i]));
        sums::lemma_same_sums(facts, f, ones);
        sums::lemma_sum_rearranged(ones, positions);
        sums::lemma_same_sums(row_facts(sorted), f, sums::picked(ones, positions));
    }
    sums::lemma_same_items(row_facts(sorted), facts);
}

/// Rows that say the same have the same series, and as distinct times.
proof fn lemma_same_rows(a: Seq<RowFacts>, b: Seq<RowFacts>)
    requires
        a.to_multiset() == b.to_multiset(),
        has_distinct_times(a),
    ensures
        a.len() == b.len(),
        has_distinct_times(b),
        forall|f: RowFacts| #[trigger] a.contains(f) <==> b.contains(f),
{
    broadcast use vstd::seq_lib::group_to_multiset_ensures;

    assert(a.len() == a.to_multiset().len() && b.len() == b.to_multiset().len());
    assert forall|f: RowFacts| #[trigger] a.contains(f) <==> b.contains(f) by {
        vstd::seq_lib::to_multiset_contains(a, f);
        vstd::seq_lib::to_multiset_contains(b, f);
    }
    assert(a.no_duplicates());
    a.lemma_multiset_has_no_duplicates();
    b.lemma_multiset_has_no_duplicates_conv();
    assert forall|i: int, j: int|
        0 <= i < j < b.len() && (#[trigger] b[i]).series == (#[trigger] b[j]).series implies b[i].timestamp
        != b[j].timestamp by {
        assert(b.contains(b[i]) && b.contains(b[j]));
        assert(a.contains(b[i]) && a.contains(b[j]));
        let p = a.index_of(b[i]);
        let q = a.index_of(b[j]);
        assert(b[i] != b[j]);
        assert(a[p] == b[i] && a[q] == b[j]);
        if q < p {
            assert(a[q].series == a[p].series);
        }
    }
}

/// Two functions that agree on the items have one sum.
proof fn lemma_agreeing_sums<T>(s: Seq<T>, f: spec_fn(T) -> int, g: spec_fn(T) -> int)
    requires
        forall|i: int| 0 <= i < s.len() ==> f(#[trigger] s[i]) == g(s[i]),
    ensures
        sums::sum_by(s, f) == sums::sum_by(s, g),
    decreases s.len(),
{
    if s.len() > 0 {
        lemma_agreeing_sums(s.drop_last(), f, g);
    }
}

/// The counter rows credit the same in whatever order they are stored.
proof fn lemma_counters(
    rows: Seq<CounterRow>,
    baselines: Seq<Option<i64>>,
    others: Seq<CounterRow>,
    other_baselines: Seq<Option<i64>>,
    bucket_ns: int,
)
    requires
        rows.len() <= usize::MAX,
        has_distinct_times(row_facts(rows)),
        row_facts(rows).to_multiset() == row_facts(others).to_multiset(),
        forall|id: SeriesId| #[trigger] counter::series_ids(rows).contains(id) ==> baseline_of(rows, baselines, id)
            == baseline_of(others, other_baselines, id),
    ensures
        cache::counter_credits(
            cache::in_time_order(rows),
            group::first_seen(counter::series_ids(rows)),
            baselines,
            bucket_ns,
            rows.len() as int,
        ).to_multiset() == cache::counter_credits(
            cache::in_time_order(others),
            group::first_seen(counter::series_ids(others)),
            other_baselines,
            bucket_ns,
            others.len() as int,
        ).to_multiset(),
{
    let a = cache::in_time_order(rows);
    let b = cache::in_time_order(others);
    let n = rows.len() as int;
    let names = group::first_seen(counter::series_ids(rows));
    let other_names = group::first_seen(counter::series_ids(others));
    lemma_same_rows(row_facts(rows), row_facts(others));
    lemma_sorted_rows(rows);
    lemma_sorted_rows(others);
    let x = cache::counter_credits(a, names, baselines, bucket_ns, n);
    let y = cache::counter_credits(b, other_names, other_baselines, bucket_ns, n);
    let all = row_facts(rows).to_multiset();
    assert forall|v: CreditView| sums::sum_by(x, #[trigger] sums::one_for(v)) == sums::sum_by(y, sums::one_for(v)) by {
        let f = credits_it(all, baseline_beside(names, baselines), bucket_ns, v);
        let g = credits_it(all, baseline_beside(other_names, other_baselines), bucket_ns, v);
        lemma_credits_counted(a, names, baselines, bucket_ns, n, v);
        lemma_credits_counted(b, other_names, other_baselines, bucket_ns, n, v);
        assert(row_facts(a).take(n) =~= row_facts(a));
        assert(row_facts(b).take(n) =~= row_facts(b));
        lemma_same_rows(row_facts(a), row_facts(rows));
        assert forall|i: int| 0 <= i < row_facts(a).len() implies f(#[trigger] row_facts(a)[i]) == g(
            row_facts(a)[i],
        ) by {
            let fact = row_facts(a)[i];
            assert(row_facts(a).contains(fact));
            let p = row_facts(rows).index_of(fact);
            assert(counter::series_ids(rows)[p] == fact.series);
            assert(counter::series_ids(rows).contains(fact.series));
            assert(baseline_of(rows, baselines, fact.series) == baseline_of(others, other_baselines, fact.series));
        }
        lemma_agreeing_sums(row_facts(a), f, g);
        sums::lemma_sum_by_same_items(row_facts(a), row_facts(b), g);
    }
    sums::lemma_same_items(x, y);
}

/// What a per-turn token sum credits.
spec fn codex_credit(fact: CodexFacts, bucket_ns: int) -> Option<CreditView> {
    let category = cache::prompt_category(tokens::codex_category(Some(fact.token_type)));
    if fact.tokens == 0 || category is None {
        None
    } else {
        Some(
            CreditView {
                model: cache::model_name(fact.model),
                bucket: cache::bucket_start(fact.bucket as int, bucket_ns) as i64,
                tokens: tokens::of_category(category, fact.tokens),
            },
        )
    }
}

/// What some per-turn token sums credit, one after the other.
spec fn codex_fact_credits(facts: Seq<CodexFacts>, bucket_ns: int) -> Seq<CreditView>
    decreases facts.len(),
{
    if facts.len() == 0 {
        Seq::empty()
    } else {
        let earlier = codex_fact_credits(facts.drop_last(), bucket_ns);
        match codex_credit(facts.last(), bucket_ns) {
            Some(credit) => earlier.push(credit),
            None => earlier,
        }
    }
}

/// The credits follow from what the sums say.
proof fn lemma_codex_facts(rows: Seq<CodexUsage>, bucket_ns: int)
    ensures
        cache::codex_credits(rows, bucket_ns) == codex_fact_credits(codex_facts(rows), bucket_ns),
    decreases rows.len(),
{
    if rows.len() > 0 {
        lemma_codex_facts(rows.drop_last(), bucket_ns);
        assert(codex_facts(rows).drop_last() =~= codex_facts(rows.drop_last()));
    }
}

/// One where a per-turn token sum credits `v`.
spec fn codex_credits_it(bucket_ns: int, v: CreditView) -> spec_fn(CodexFacts) -> int {
    |f: CodexFacts|
        if codex_credit(f, bucket_ns) == Some(v) {
            1int
        } else {
            0int
        }
}

/// How often some per-turn token sums credit `v`.
proof fn lemma_codex_counted(facts: Seq<CodexFacts>, bucket_ns: int, v: CreditView)
    ensures
        sums::sum_by(codex_fact_credits(facts, bucket_ns), sums::one_for(v)) == sums::sum_by(
            facts,
            codex_credits_it(bucket_ns, v),
        ),
    decreases facts.len(),
{
    if facts.len() > 0 {
        lemma_codex_counted(facts.drop_last(), bucket_ns, v);
        let earlier = codex_fact_credits(facts.drop_last(), bucket_ns);
        match codex_credit(facts.last(), bucket_ns) {
            Some(credit) => sums::lemma_sum_by_push(earlier, credit, sums::one_for(v)),
            None => {},
        }
    }
}

/// The per-turn token sums credit the same in whatever order they are stored.
proof fn lemma_codex(rows: Seq<CodexUsage>, others: Seq<CodexUsage>, bucket_ns: int)
    requires
        codex_facts(rows).to_multiset() == codex_facts(others).to_multiset(),
    ensures
        cache::codex_credits(rows, bucket_ns).to_multiset() == cache::codex_credits(others, bucket_ns).to_multiset(),
{
    let x = cache::codex_credits(rows, bucket_ns);
    let y = cache::codex_credits(others, bucket_ns);
    lemma_codex_facts(rows, bucket_ns);
    lemma_codex_facts(others, bucket_ns);
    assert forall|v: CreditView| sums::sum_by(x, #[trigger] sums::one_for(v)) == sums::sum_by(y, sums::one_for(v)) by {
        lemma_codex_counted(codex_facts(rows), bucket_ns, v);
        lemma_codex_counted(codex_facts(others), bucket_ns, v);
        sums::lemma_sum_by_same_items(codex_facts(rows), codex_facts(others), codex_credits_it(bucket_ns, v));
    }
    sums::lemma_same_items(x, y);
}

/// What the token sums of one request row credit.
spec fn request_credit(bucket_ns: int) -> spec_fn(RequestFacts) -> CreditView {
    |fact: RequestFacts|
        CreditView {
            model: cache::model_name(fact.model),
            bucket: cache::bucket_start(fact.bucket as int, bucket_ns) as i64,
            tokens: RoleTokenUsage {
                input: cache::at_least_zero(fact.input),
                output: 0,
                cache_read: cache::at_least_zero(fact.cache_read),
                cache_write: cache::at_least_zero(fact.cache_creation),
                reasoning: 0,
            },
        }
}

/// The sum over the images of some items.
proof fn lemma_mapped_sum<T, U>(s: Seq<T>, m: spec_fn(T) -> U, f: spec_fn(U) -> int)
    ensures
        sums::sum_by(s.map_values(m), f) == sums::sum_by(s, |x: T| f(m(x))),
    decreases s.len(),
{
    if s.len() > 0 {
        lemma_mapped_sum(s.drop_last(), m, f);
        assert(s.map_values(m).drop_last() =~= s.drop_last().map_values(m));
    }
}

/// The request spans credit the same in whatever order their sums are stored.
proof fn lemma_requests(rows: Seq<RequestUsage>, others: Seq<RequestUsage>, bucket_ns: int)
    requires
        request_facts(rows).to_multiset() == request_facts(others).to_multiset(),
    ensures
        cache::request_credits(rows, bucket_ns).to_multiset() == cache::request_credits(
            others,
            bucket_ns,
        ).to_multiset(),
{
    let x = cache::request_credits(rows, bucket_ns);
    let y = cache::request_credits(others, bucket_ns);
    let m = request_credit(bucket_ns);
    assert(x =~= request_facts(rows).map_values(m));
    assert(y =~= request_facts(others).map_values(m));
    assert forall|v: CreditView| sums::sum_by(x, #[trigger] sums::one_for(v)) == sums::sum_by(y, sums::one_for(v)) by {
        let f = sums::one_for(v);
        lemma_mapped_sum(request_facts(rows), m, f);
        lemma_mapped_sum(request_facts(others), m, f);
        sums::lemma_sum_by_same_items(request_facts(rows), request_facts(others), |x: RequestFacts| f(m(x)));
    }
    sums::lemma_same_items(x, y);
}

/// The model of a credit, as a function.
spec fn model_of() -> spec_fn(CreditView) -> Seq<char> {
    |c: CreditView| c.model
}

/// The bucket of a credit, as a function.
spec fn bucket_of() -> spec_fn(CreditView) -> i64 {
    |c: CreditView| c.bucket
}

/// The tokens of a credit, as a function.
spec fn tokens_of() -> spec_fn(CreditView) -> RoleTokenUsage {
    |c: CreditView| c.tokens
}

/// The sum beside one id is the same for the same items.
proof fn lemma_gathered<T, I, U>(
    a: Seq<T>,
    b: Seq<T>,
    id_of: spec_fn(T) -> I,
    value_of: spec_fn(T) -> U,
    id: I,
    f: spec_fn(U) -> int,
)
    requires
        a.to_multiset() == b.to_multiset(),
    ensures
        sums::sum_by(group::gather(a.map_values(id_of), a.map_values(value_of), id), f) == sums::sum_by(
            group::gather(b.map_values(id_of), b.map_values(value_of), id),
            f,
        ),
{
    let g = |x: T|
        if id_of(x) == id {
            f(value_of(x))
        } else {
            0int
        };
    sums::lemma_gathered_sum(a, id_of, value_of, id, f);
    sums::lemma_gathered_sum(b, id_of, value_of, id, f);
    sums::lemma_sum_by_same_items(a, b, g);
}

/// The same items have the same ids, and as many of them.
proof fn lemma_same_ids<T, I>(a: Seq<T>, b: Seq<T>, id_of: spec_fn(T) -> I)
    requires
        a.to_multiset() == b.to_multiset(),
    ensures
        forall|id: I| #[trigger] a.map_values(id_of).contains(id) <==> b.map_values(id_of).contains(id),
        group::first_seen(a.map_values(id_of)).len() == group::first_seen(b.map_values(id_of)).len(),
{
    assert forall|id: I| #[trigger] a.map_values(id_of).contains(id) <==> b.map_values(id_of).contains(id) by {
        if a.map_values(id_of).contains(id) {
            lemma_has_id(a, b, id_of, id);
        }
        if b.map_values(id_of).contains(id) {
            lemma_has_id(b, a, id_of, id);
        }
    }
    let x = group::first_seen(a.map_values(id_of));
    let y = group::first_seen(b.map_values(id_of));
    group::lemma_first_seen(a.map_values(id_of));
    group::lemma_first_seen(b.map_values(id_of));
    x.unique_seq_to_set();
    y.unique_seq_to_set();
    assert forall|id: I| x.to_set().contains(id) <==> y.to_set().contains(id) by {
        assert(x.contains(id) <==> a.map_values(id_of).contains(id));
        assert(y.contains(id) <==> b.map_values(id_of).contains(id));
    }
    assert(x.to_set() =~= y.to_set());
}

/// An id of some items is one of the same items in another order.
proof fn lemma_has_id<T, I>(a: Seq<T>, b: Seq<T>, id_of: spec_fn(T) -> I, id: I)
    requires
        a.to_multiset() == b.to_multiset(),
        a.map_values(id_of).contains(id),
    ensures
        b.map_values(id_of).contains(id),
{
    let v = a[a.map_values(id_of).index_of(id)];
    assert(a.contains(v));
    vstd::seq_lib::to_multiset_contains(a, v);
    vstd::seq_lib::to_multiset_contains(b, v);
    assert(b.map_values(id_of)[b.index_of(v)] == id);
}

/// The keys and tokens of credits, as images.
proof fn lemma_images(credits: Seq<CreditView>)
    ensures
        cache::credit_models(credits) == credits.map_values(model_of()),
        cache::credit_buckets(credits) == credits.map_values(bucket_of()),
        cache::credit_tokens(credits) == credits.map_values(tokens_of()),
{
    assert(cache::credit_models(credits) =~= credits.map_values(model_of()));
    assert(cache::credit_buckets(credits) =~= credits.map_values(bucket_of()));
    assert(cache::credit_tokens(credits) =~= credits.map_values(tokens_of()));
}

/// Credits that are the same in another order add up to the same for every model and for every bucket.
pub proof fn credits_add_up_in_any_order(
    credits: Seq<CreditView>,
    others: Seq<CreditView>,
    model: Seq<char>,
    bucket: i64,
    c: Category,
)
    requires
        credits.to_multiset() == others.to_multiset(),
    ensures
        sums::sum_by(
            group::gather(cache::credit_models(credits), cache::credit_tokens(credits), model),
            tokens::count_of(c),
        ) == sums::sum_by(
            group::gather(cache::credit_models(others), cache::credit_tokens(others), model),
            tokens::count_of(c),
        ),
        sums::sum_by(
            group::gather(cache::credit_buckets(credits), cache::credit_tokens(credits), bucket),
            tokens::count_of(c),
        ) == sums::sum_by(
            group::gather(cache::credit_buckets(others), cache::credit_tokens(others), bucket),
            tokens::count_of(c),
        ),
{
    lemma_images(credits);
    lemma_images(others);
    lemma_gathered(credits, others, model_of(), tokens_of(), model, tokens::count_of(c));
    lemma_gathered(credits, others, bucket_of(), tokens_of(), bucket, tokens::count_of(c));
}

/// A table of credits is the table of the same credits in another order.
proof fn lemma_tables(
    entries: Seq<CacheEconModelEntry>,
    points: Seq<CacheEconSeriesPoint>,
    credits: Seq<CreditView>,
    others: Seq<CreditView>,
)
    requires
        credits.to_multiset() == others.to_multiset(),
    ensures
        cache::is_model_table(entries, credits) ==> cache::is_model_table(entries, others),
        cache::is_bucket_series(points, credits) ==> cache::is_bucket_series(points, others),
{
    lemma_images(credits);
    lemma_images(others);
    lemma_same_ids(credits, others, model_of());
    lemma_same_ids(credits, others, bucket_of());
    if cache::is_model_table(entries, credits) {
        assert forall|e: int| 0 <= e < entries.len() implies {
            &&& cache::credit_models(others).contains((#[trigger] entries[e]).model@)
            &&& cache::entry_adds_up(entries[e], others)
        } by {
            assert(cache::credit_models(credits).contains(entries[e].model@));
            credits_add_up_in_any_order(credits, others, entries[e].model@, 0, Category::Input);
            credits_add_up_in_any_order(credits, others, entries[e].model@, 0, Category::CacheRead);
            credits_add_up_in_any_order(credits, others, entries[e].model@, 0, Category::CacheWrite);
        }
    }
    if cache::is_bucket_series(points, credits) {
        assert forall|p: int| 0 <= p < points.len() implies {
            &&& cache::credit_buckets(others).contains((#[trigger] points[p]).timestamp)
            &&& cache::point_adds_up(points[p], others)
        } by {
            assert(cache::credit_buckets(credits).contains(points[p].timestamp));
            credits_add_up_in_any_order(credits, others, Seq::empty(), points[p].timestamp, Category::Input);
            credits_add_up_in_any_order(credits, others, Seq::empty(), points[p].timestamp, Category::CacheRead);
            credits_add_up_in_any_order(credits, others, Seq::empty(), points[p].timestamp, Category::CacheWrite);
        }
    }
}

/// The order in which rows are stored does not change cache economics. Rows that say the same in
/// another order, where no series has two counter rows of one time and each series keeps its baseline,
/// give the same credits: for every model and every bucket they add up to the same, and the tables of
/// the one are the tables of the other.
pub proof fn stored_order_does_not_matter(
    rows: Seq<CounterRow>,
    baselines: Seq<Option<i64>>,
    codex: Seq<CodexUsage>,
    requests: Seq<RequestUsage>,
    other_rows: Seq<CounterRow>,
    other_baselines: Seq<Option<i64>>,
    other_codex: Seq<CodexUsage>,
    other_requests: Seq<RequestUsage>,
    bucket_ns: int,
)
    requires
        rows.len() <= usize::MAX,
        has_distinct_times(row_facts(rows)),
        row_facts(rows).to_multiset() == row_facts(other_rows).to_multiset(),
        codex_facts(codex).to_multiset() == codex_facts(other_codex).to_multiset(),
        request_facts(requests).to_multiset() == request_facts(other_requests).to_multiset(),
        forall|id: SeriesId| #[trigger] counter::series_ids(rows).contains(id) ==> baseline_of(rows, baselines, id)
            == baseline_of(other_rows, other_baselines, id),
    ensures
        ({
            let credits = cache::all_credits(rows, baselines, codex, requests, bucket_ns);
            let others = cache::all_credits(other_rows, other_baselines, other_codex, other_requests, bucket_ns);
            &&& credits.to_multiset() == others.to_multiset()
            &&& forall|model: Seq<char>, c: Category|
                #![trigger group::gather(cache::credit_models(credits), cache::credit_tokens(credits), model), tokens::count_of(c)]
                sums::sum_by(
                    group::gather(cache::credit_models(credits), cache::credit_tokens(credits), model),
                    tokens::count_of(c),
                ) == sums::sum_by(
                    group::gather(cache::credit_models(others), cache::credit_tokens(others), model),
                    tokens::count_of(c),
                )
            &&& forall|bucket: i64, c: Category|
                #![trigger group::gather(cache::credit_buckets(credits), cache::credit_tokens(credits), bucket), tokens::count_of(c)]
                sums::sum_by(
                    group::gather(cache::credit_buckets(credits), cache::credit_tokens(credits), bucket),
                    tokens::count_of(c),
                ) == sums::sum_by(
                    group::gather(cache::credit_buckets(others), cache::credit_tokens(others), bucket),
                    tokens::count_of(c),
                )
            &&& forall|entries: Seq<CacheEconModelEntry>| #[trigger]
                cache::is_model_table(entries, credits) <==> cache::is_model_table(entries, others)
            &&& forall|points: Seq<CacheEconSeriesPoint>| #[trigger]
                cache::is_bucket_series(points, credits) <==> cache::is_bucket_series(points, others)
        }),
{
    let credits = cache::all_credits(rows, baselines, codex, requests, bucket_ns);
    let others = cache::all_credits(other_rows, other_baselines, other_codex, other_requests, bucket_ns);
    let a = cache::counter_credits(
        cache::in_time_order(rows),
        group::first_seen(counter::series_ids(rows)),
        baselines,
        bucket_ns,
        rows.len() as int,
    );
    let b = cache::counter_credits(
        cache::in_time_order(other_rows),
        group::first_seen(counter::series_ids(other_rows)),
        other_baselines,
        bucket_ns,
        other_rows.len() as int,
    );
    let a2 = cache::codex_credits(codex, bucket_ns);
    let b2 = cache::codex_credits(other_codex, bucket_ns);
    let a3 = cache::request_credits(requests, bucket_ns);
    let b3 = cache::request_credits(other_requests, bucket_ns);
    lemma_counters(rows, baselines, other_rows, other_baselines, bucket_ns);
    lemma_codex(codex, other_codex, bucket_ns);
    lemma_requests(requests, other_requests, bucket_ns);
    assert forall|v: CreditView| sums::sum_by(credits, #[trigger] sums::one_for(v)) == sums::sum_by(
        others,
        sums::one_for(v),
    ) by {
        let f = sums::one_for(v);
        sums::lemma_sum_by_concat(a, a2, f);
        sums::lemma_sum_by_concat(a + a2, a3, f);
        sums::lemma_sum_by_concat(b, b2, f);
        sums::lemma_sum_by_concat(b + b2, b3, f);
        sums::lemma_sum_by_same_items(a, b, f);
        sums::lemma_sum_by_same_items(a2, b2, f);
        sums::lemma_sum_by_same_items(a3, b3, f);
    }
    sums::lemma_same_items(credits, others);
    assert forall|model: Seq<char>, c: Category|
        #![trigger group::gather(cache::credit_models(credits), cache::credit_tokens(credits), model), tokens::count_of(c)]
        sums::sum_by(
            group::gather(cache::credit_models(credits), cache::credit_tokens(credits), model),
            tokens::count_of(c),
        ) == sums::sum_by(
            group::gather(cache::credit_models(others), cache::credit_tokens(others), model),
            tokens::count_of(c),
        ) by {
        credits_add_up_in_any_order(credits, others, model, 0, c);
    }
    assert forall|bucket: i64, c: Category|
        #![trigger group::gather(cache::credit_buckets(credits), cache::credit_tokens(credits), bucket), tokens::count_of(c)]
        sums::sum_by(
            group::gather(cache::credit_buckets(credits), cache::credit_tokens(credits), bucket),
            tokens::count_of(c),
        ) == sums::sum_by(
            group::gather(cache::credit_buckets(others), cache::credit_tokens(others), bucket),
            tokens::count_of(c),
        ) by {
        credits_add_up_in_any_order(credits, others, Seq::empty(), bucket, c);
    }
    assert forall|entries: Seq<CacheEconModelEntry>| #[trigger]
        cache::is_model_table(entries, credits) <==> cache::is_model_table(entries, others) by {
        lemma_tables(entries, Seq::empty(), credits, others);
        lemma_tables(entries, Seq::empty(), others, credits);
    }
    assert forall|points: Seq<CacheEconSeriesPoint>| #[trigger]
        cache::is_bucket_series(points, credits) <==> cache::is_bucket_series(points, others) by {
        lemma_tables(Seq::empty(), points, credits, others);
        lemma_tables(Seq::empty(), points, others, credits);
    }
}

/// The sums of the token types that bear on the cache, in their order.
pub open spec fn prompt_facts(facts: Seq<CodexFacts>) -> Seq<CodexFacts>
    decreases facts.len(),
{
    if facts.len() == 0 {
        Seq::empty()
    } else {
        let earlier = prompt_facts(facts.drop_last());
        if cache::prompt_category(tokens::codex_category(Some(facts.last().token_type))) is Some {
            earlier.push(facts.last())
        } else {
            earlier
        }
    }
}

/// The credits follow from the sums of the token types that bear on the cache.
proof fn lemma_prompt_facts(facts: Seq<CodexFacts>, bucket_ns: int)
    ensures
        codex_fact_credits(facts, bucket_ns) == codex_fact_credits(prompt_facts(facts), bucket_ns),
    decreases facts.len(),
{
    if facts.len() > 0 {
        lemma_prompt_facts(facts.drop_last(), bucket_ns);
        let earlier = prompt_facts(facts.drop_last());
        assert(earlier.push(facts.last()).drop_last() =~= earlier);
    }
}

/// Only prompt tokens are credited: per-turn sums that agree on input, cached input and cache writes
/// credit the same, whatever they hold of the types `total`, `output` and `reasoning_output`, or of
/// types that are not known.
pub proof fn only_prompt_tokens_are_credited(
    rows: Seq<CounterRow>,
    baselines: Seq<Option<i64>>,
    codex: Seq<CodexUsage>,
    others: Seq<CodexUsage>,
    requests: Seq<RequestUsage>,
    bucket_ns: int,
)
    requires
        prompt_facts(codex_facts(codex)) == prompt_facts(codex_facts(others)),
    ensures
        cache::codex_credits(codex, bucket_ns) == cache::codex_credits(others, bucket_ns),
        cache::all_credits(rows, baselines, codex, requests, bucket_ns) == cache::all_credits(
            rows,
            baselines,
            others,
            requests,
            bucket_ns,
        ),
{
    lemma_codex_facts(codex, bucket_ns);
    lemma_codex_facts(others, bucket_ns);
    lemma_prompt_facts(codex_facts(codex), bucket_ns);
    lemma_prompt_facts(codex_facts(others), bucket_ns);
}

/// A per-turn sum of the type `total`, `output` or `reasoning_output` may be left out.
pub proof fn totals_and_outputs_are_left_out(fact: CodexFacts, facts: Seq<CodexFacts>)
    requires
        fact.token_type == "total"@ || fact.token_type == "output"@ || fact.token_type == "reasoning_output"@,
    ensures
        prompt_facts(facts.push(fact)) == prompt_facts(facts),
{
    reveal_strlit("total");
    reveal_strlit("input");
    reveal_strlit("output");
    reveal_strlit("reasoning_output");
    reveal_strlit("cached_input");
    reveal_strlit("cache_write_input");
    assert(facts.push(fact).drop_last() =~= facts);
    assert("total"@.len() == 5 && "output"@.len() == 6 && "input"@.len() == 5);
    assert("total"@[0] == 't' && "input"@[0] == 'i');
}

} // verus!

//! The usage of each model under its identity, and the models that answered in place of another.
use crate::counts;
use crate::group;
use crate::group::Key;
use crate::order;
use crate::order::LargestFirst;
use crate::sums;
use crate::text;
use vstd::prelude::*;

verus! {

/// The calls under one identity that asked for one model and were answered by one model.
pub struct ModelUsageRow {
    /// The identity of the model: its provider and its name.
    pub model: String,
    pub request_model: Option<String>,
    pub response_model: Option<String>,
    pub input_tokens: u64,
    pub output_tokens: u64,
    pub requests: usize,
}

/// The usage of one model.
pub struct ModelUsage {
    pub model: String,
    pub input_tokens: u64,
    pub output_tokens: u64,
    pub requests: usize,
    /// The calls that another model answered than the one asked for.
    pub rerouted_count: usize,
    /// The model that most of those calls were answered by.
    pub response_model: Option<String>,
}

/// Another model answered than the one asked for. Both have to be known.
pub open spec fn differ(request: Option<Seq<char>>, response: Option<Seq<char>>) -> bool {
    request is Some && response is Some && request != response
}

/// The calls of a row were answered by another model than the one asked for.
pub open spec fn is_rerouted(row: ModelUsageRow) -> bool {
    differ(text::optional(row.request_model), text::optional(row.response_model))
}

fn differs(request: &Option<String>, response: &Option<String>) -> (r: bool)
    ensures
        r == differ(text::optional(*request), text::optional(*response)),
{
    match (request, response) {
        (Some(a), Some(b)) => !text::same_text(a.as_str(), b.as_str()),
        _ => false,
    }
}

/// The input of a row, as a function.
pub open spec fn input() -> spec_fn(ModelUsageRow) -> int {
    |r: ModelUsageRow| r.input_tokens as int
}

/// The output of a row, as a function.
pub open spec fn output() -> spec_fn(ModelUsageRow) -> int {
    |r: ModelUsageRow| r.output_tokens as int
}

/// The calls of a row, as a function.
pub open spec fn requests() -> spec_fn(ModelUsageRow) -> int {
    |r: ModelUsageRow| r.requests as int
}

/// The rerouted calls of a row, as a function.
pub open spec fn rerouted() -> spec_fn(ModelUsageRow) -> int {
    |r: ModelUsageRow|
        if is_rerouted(r) {
            r.requests as int
        } else {
            0
        }
}

/// The models that answered in place of another, and how many calls each row counts.
pub open spec fn reroutes(rows: Seq<ModelUsageRow>) -> Seq<(Seq<char>, usize)>
    decreases rows.len(),
{
    if rows.len() == 0 {
        Seq::empty()
    } else {
        let earlier = reroutes(rows.drop_last());
        match (is_rerouted(rows.last()), text::optional(rows.last().response_model)) {
            (true, Some(m)) => earlier.push((m, rows.last().requests)),
            _ => earlier,
        }
    }
}

/// The model that answered most of the rerouted calls; the first of equals.
pub open spec fn dominant(rows: Seq<ModelUsageRow>) -> Option<Seq<char>> {
    let ranked = counts::ranked(counts::tallied(reroutes(rows)));
    if ranked.len() == 0 {
        None
    } else {
        Some(ranked[0].0)
    }
}

/// The usage adds up the rows of one identity.
pub open spec fn is_usage(u: ModelUsage, model: Seq<char>, own: Seq<ModelUsageRow>) -> bool {
    &&& u.model@ == model
    &&& u.input_tokens == sums::sum_by(own, input())
    &&& u.output_tokens == sums::sum_by(own, output())
    &&& u.requests == sums::sum_by(own, requests())
    &&& u.rerouted_count == sums::sum_by(own, rerouted())
    &&& text::optional(u.response_model) == dominant(own)
}

/// The identities of the rows.
pub open spec fn models(rows: Seq<ModelUsageRow>) -> Seq<Seq<char>> {
    Seq::new(rows.len(), |i: int| rows[i].model@)
}

/// The rows of one identity.
pub open spec fn rows_of(rows: Seq<ModelUsageRow>, model: Seq<char>) -> Seq<ModelUsageRow> {
    group::gather(models(rows), rows, model)
}

/// How identities rank: the most tokens first.
pub open spec fn usage_ranks(rows: Seq<ModelUsageRow>) -> Seq<LargestFirst> {
    Seq::new(
        group::first_seen(models(rows)).len(),
        |g: int|
            LargestFirst(
                (sums::sum_by(rows_of(rows, group::first_seen(models(rows))[g]), input()) + sums::sum_by(
                    rows_of(rows, group::first_seen(models(rows))[g]),
                    output(),
                )) as u128,
            ),
    )
}

/// The sums over the rows fit into their types.
pub open spec fn can_add(rows: Seq<ModelUsageRow>) -> bool {
    &&& sums::sum_by(rows, input()) <= u64::MAX
    &&& sums::sum_by(rows, output()) <= u64::MAX
    &&& sums::sum_by(rows, requests()) <= usize::MAX
}

/// Rerouted calls are calls.
pub proof fn rerouted_calls_are_calls(rows: Seq<ModelUsageRow>)
    ensures
        0 <= sums::sum_by(rows, rerouted()) <= sums::sum_by(rows, requests()),
        sums::sum_by(counts::counts_of(reroutes(rows)), counts::as_count()) == sums::sum_by(
            rows,
            rerouted(),
        ),
    decreases rows.len(),
{
    if rows.len() > 0 {
        rerouted_calls_are_calls(rows.drop_last());
        let earlier = reroutes(rows.drop_last());
        if is_rerouted(rows.last()) {
            assert(counts::counts_of(reroutes(rows)) =~= counts::counts_of(earlier).push(
                rows.last().requests,
            ));
            sums::lemma_sum_by_push(
                counts::counts_of(earlier),
                rows.last().requests,
                counts::as_count(),
            );
        }
    }
}

/// A model answers for another exactly where some calls were rerouted.
pub proof fn substitutes_come_from_rerouting(rows: Seq<ModelUsageRow>)
    ensures
        dominant(rows) is Some <==> exists|i: int| 0 <= i < rows.len() && is_rerouted(#[trigger] rows[i]),
{
    let counted = reroutes(rows);
    group::lemma_first_seen(counts::names_of(counted));
    if counted.len() > 0 {
        assert(counts::names_of(counted).contains(counted[0].0)) by {
            assert(counts::names_of(counted)[0] == counted[0].0);
        }
        assert(group::first_seen(counts::names_of(counted)).contains(counted[0].0));
    }
    lemma_reroutes_exist(rows);
}

proof fn lemma_reroutes_exist(rows: Seq<ModelUsageRow>)
    ensures
        reroutes(rows).len() > 0 <==> exists|i: int|
            0 <= i < rows.len() && is_rerouted(#[trigger] rows[i]),
    decreases rows.len(),
{
    if rows.len() > 0 {
        let prior = rows.drop_last();
        lemma_reroutes_exist(prior);
        if exists|i: int| 0 <= i < rows.len() && is_rerouted(#[trigger] rows[i]) {
            let i = choose|i: int| 0 <= i < rows.len() && is_rerouted(#[trigger] rows[i]);
            if i < prior.len() {
                assert(prior[i] == rows[i]);
            }
        }
        if reroutes(prior).len() > 0 {
            let i = choose|i: int| 0 <= i < prior.len() && is_rerouted(#[trigger] prior[i]);
            assert(rows[i] == prior[i]);
        }
        if is_rerouted(rows.last()) {
            assert(rows[rows.len() - 1] == rows.last());
        }
    }
}

/// Adds up the rows at some positions.
fn add_rows(model: String, rows: &Vec<ModelUsageRow>, at: &Vec<usize>) -> (u: ModelUsage)
    requires
        forall|k: int| 0 <= k < at@.len() ==> (#[trigger] at@[k]) < rows@.len(),
        can_add(group::at_positions(rows@, at@)),
    ensures
        is_usage(u, model@, group::at_positions(rows@, at@)),
{
    let ghost own = group::at_positions(rows@, at@);
    let mut input_tokens: u64 = 0;
    let mut output_tokens: u64 = 0;
    let mut calls: usize = 0;
    let mut rerouted_count: usize = 0;
    let mut names: Vec<String> = Vec::new();
    let mut amounts: Vec<usize> = Vec::new();
    let mut k: usize = 0;
    assert(reroutes(own.take(0)) =~= Seq::<(Seq<char>, usize)>::empty());
    assert(group::ids(names@) =~= counts::names_of(reroutes(own.take(0))));
    assert(amounts@ =~= counts::counts_of(reroutes(own.take(0))));
    while k < at.len()
        invariant
            k <= at@.len(),
            own == group::at_positions(rows@, at@),
            can_add(own),
            forall|j: int| 0 <= j < at@.len() ==> (#[trigger] at@[j]) < rows@.len(),
            input_tokens == sums::sum_by(own.take(k as int), input()),
            output_tokens == sums::sum_by(own.take(k as int), output()),
            calls == sums::sum_by(own.take(k as int), requests()),
            rerouted_count == sums::sum_by(own.take(k as int), rerouted()),
            rerouted_count <= calls,
            group::ids(names@) == counts::names_of(reroutes(own.take(k as int))),
            amounts@ == counts::counts_of(reroutes(own.take(k as int))),
        decreases at@.len() - k,
    {
        let row = &rows[at[k]];
        let ghost earlier = reroutes(own.take(k as int));
        let ghost later = reroutes(own.take(k + 1));
        proof {
            assert(own[k as int] == *row);
            assert(own.take(k + 1).drop_last() =~= own.take(k as int));
            sums::lemma_sum_by_take(own, k as int, input());
            sums::lemma_sum_by_take(own, k as int, output());
            sums::lemma_sum_by_take(own, k as int, requests());
            sums::lemma_sum_by_take(own, k as int, rerouted());
            sums::lemma_sum_by_prefix(own, k + 1, input());
            sums::lemma_sum_by_prefix(own, k + 1, output());
            sums::lemma_sum_by_prefix(own, k + 1, requests());
        }
        input_tokens = input_tokens + row.input_tokens;
        output_tokens = output_tokens + row.output_tokens;
        calls = calls + row.requests;
        if differs(&row.request_model, &row.response_model) {
            rerouted_count = rerouted_count + row.requests;
            if let Some(m) = &row.response_model {
                let ghost had = names@;
                names.push(m.clone());
                amounts.push(row.requests);
                assert(group::ids(names@) =~= group::ids(had).push(m@));
                assert(later =~= earlier.push((m@, row.requests)));
                assert(counts::names_of(later) =~= counts::names_of(earlier).push(m@));
                assert(counts::counts_of(later) =~= counts::counts_of(earlier).push(row.requests));
            }
        }
        k = k + 1;
    }
    assert(own.take(k as int) =~= own);
    proof {
        rerouted_calls_are_calls(own);
    }
    let ranked = counts::tally_counts(&names, &amounts, Ghost(reroutes(own)));
    let response_model = if ranked.len() == 0 {
        None
    } else {
        assert(counts::entry_views(ranked@)[0].0 == ranked@[0].name@);
        Some(ranked[0].name.clone())
    };
    assert(counts::entry_views(ranked@).len() == ranked@.len());
    ModelUsage { model, input_tokens, output_tokens, requests: calls, rerouted_count, response_model }
}

fn list_models(rows: &Vec<ModelUsageRow>) -> (names: Vec<String>)
    ensures
        group::ids(names@) == models(rows@),
{
    let mut names: Vec<String> = Vec::new();
    let mut i: usize = 0;
    while i < rows.len()
        invariant
            i <= rows@.len(),
            names@.len() == i,
            forall|j: int| 0 <= j < i ==> (#[trigger] names@[j])@ == rows@[j].model@,
        decreases rows@.len() - i,
    {
        names.push(rows[i].model.clone());
        i = i + 1;
    }
    assert(group::ids(names@) =~= models(rows@));
    names
}

/// Adds up the calls under each identity, the most tokens first; equal ones keep the order in which
/// they first occur.
pub fn model_usage(rows: &Vec<ModelUsageRow>) -> (out: Vec<ModelUsage>)
    requires
        can_add(rows@),
    ensures
        out@.len() == group::first_seen(models(rows@)).len(),
        order::sorts(usage_ranks(rows@), order::sorting(usage_ranks(rows@))),
        forall|k: int|
            0 <= k < out@.len() ==> is_usage(
                #[trigger] out@[k],
                group::first_seen(models(rows@))[order::sorting(usage_ranks(rows@))[k] as int],
                rows_of(
                    rows@,
                    group::first_seen(models(rows@))[order::sorting(usage_ranks(rows@))[k] as int],
                ),
            ),
{
    let ghost ids = models(rows@);
    let names = list_models(rows);
    assert(names@.len() == group::ids(names@).len());
    let groups = group::group_positions(&names);
    let mut usages: Vec<ModelUsage> = Vec::new();
    let mut ranks: Vec<LargestFirst> = Vec::new();
    let mut g: usize = 0;
    assert(rows.len() == rows@.len());
    while g < groups.len()
        invariant
            g <= groups@.len(),
            ids == models(rows@),
            rows@.len() <= usize::MAX,
            can_add(rows@),
            group::is_grouping(groups@, ids, group::all_positions(ids.len())),
            usages@.len() == g,
            ranks@.len() == g,
            forall|k: int|
                0 <= k < g ==> is_usage(
                    #[trigger] usages@[k],
                    group::first_seen(ids)[k],
                    rows_of(rows@, group::first_seen(ids)[k]),
                ),
            forall|k: int| 0 <= k < g ==> #[trigger] ranks@[k] == usage_ranks(rows@)[k],
        decreases groups@.len() - g,
    {
        let ghost id = group::first_seen(ids)[g as int];
        proof {
            assert(groups@[g as int].key.id() == id);
            group::lemma_gather_positions(ids, rows@, id);
            sums::lemma_gather_bound(ids, rows@, id, input());
            sums::lemma_gather_bound(ids, rows@, id, output());
            sums::lemma_gather_bound(ids, rows@, id, requests());
        }
        let u = add_rows(groups[g].key.clone(), rows, &groups[g].members);
        let tokens: u128 = u.input_tokens as u128 + u.output_tokens as u128;
        usages.push(u);
        ranks.push(LargestFirst(tokens));
        g = g + 1;
    }
    assert(ranks@ =~= usage_ranks(rows@));
    let sorted = order::order_of(&ranks);
    order::arrange(usages, &sorted)
}

/// The calls that asked for one model and were answered by one model.
pub struct ModelDriftPair {
    pub request_model: Option<String>,
    pub response_model: Option<String>,
    pub count: usize,
    /// Another model answered than the one asked for.
    pub differs: bool,
}

/// Makes a pair of a row.
pub fn drift_pair(request_model: Option<String>, response_model: Option<String>, count: i64) -> (p:
    ModelDriftPair)
    ensures
        text::optional(p.request_model) == text::optional(request_model),
        text::optional(p.response_model) == text::optional(response_model),
        p.count == count as usize,
        p.differs == differ(text::optional(request_model), text::optional(response_model)),
{
    let differs = differs(&request_model, &response_model);
    ModelDriftPair {
        request_model,
        response_model,
        count: #[verifier::truncate] (count as usize),
        differs,
    }
}

/// The usage of all models adds up to the usage of all rows.
pub proof fn identities_keep_the_total(rows: Seq<ModelUsageRow>)
    ensures
        sums::sum(sums::group_sums(models(rows), rows, input())) == sums::sum_by(rows, input()),
        sums::sum(sums::group_sums(models(rows), rows, output())) == sums::sum_by(rows, output()),
        sums::sum(sums::group_sums(models(rows), rows, requests())) == sums::sum_by(rows, requests()),
{
    sums::groups_keep_the_total(models(rows), rows, input());
    sums::groups_keep_the_total(models(rows), rows, output());
    sums::groups_keep_the_total(models(rows), rows, requests());
}

} // verus!

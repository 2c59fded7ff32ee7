//! What the mix of providers promises of the telemetry that it is made of.
use crate::counter;
use crate::counter::CounterWindowDelta;
use crate::group;
use crate::order;
use crate::providers;
use crate::providers::{
    CodexTurn, LineView, ProviderCreditView, ProviderMixResponse, ProviderModelEntry, ProviderRow, RequestMix,
    TokenCreditView,
};
use crate::sources;
use crate::sums;
use crate::tally;
use crate::tally::Named;
use crate::text;
use crate::tokens;
use crate::tokens::Category;
use vstd::prelude::*;

verus! {

/// The label under a path.
pub open spec fn label(labels: Seq<Option<String>>, path: Seq<char>) -> Option<Seq<char>> {
    let i = sources::token_labels().index_of(path);
    if i < labels.len() {
        text::optional(labels[i])
    } else {
        None
    }
}

/// The paths of the labels stand where the labels are read.
pub proof fn lemma_labels(labels: Seq<Option<String>>)
    ensures
        label(labels, "$.agent"@) == counter::label_at(labels, 0),
        label(labels, "$.model"@) == counter::label_at(labels, 1),
        label(labels, "$.type"@) == counter::label_at(labels, 2),
        label(labels, "$.\"session.id\""@) == counter::label_at(labels, 3),
{
    reveal_strlit("$.agent");
    reveal_strlit("$.model");
    reveal_strlit("$.type");
    reveal_strlit("$.\"session.id\"");
    let paths = sources::token_labels();
    assert("$.agent"@.len() == 7 && "$.model"@.len() == 7 && "$.type"@.len() == 6);
    assert("$.agent"@[2] == 'a' && "$.model"@[2] == 'm');
    assert("$.\"session.id\""@.len() == 14);
    assert(paths.len() == 4);
    assert(paths[0] == "$.agent"@ && paths[1] == "$.model"@ && paths[2] == "$.type"@ && paths[3]
        == "$.\"session.id\""@);
    assert(paths.contains("$.agent"@) && paths.contains("$.model"@) && paths.contains("$.type"@) && paths.contains("$.\"session.id\""@));
}

/// The type under which the cumulative counter reports a category.
pub open spec fn counter_type(c: Category) -> Seq<char> {
    match c {
        Category::Input => "input"@,
        Category::Output => "output"@,
        Category::CacheRead => "cacheRead"@,
        Category::CacheWrite => "cacheCreation"@,
        Category::Reasoning => "reasoning"@,
    }
}

/// The type under which turns report a category.
pub open spec fn turn_type(c: Category) -> Seq<char> {
    match c {
        Category::Input => "input"@,
        Category::Output => "output"@,
        Category::CacheRead => "cached_input"@,
        Category::CacheWrite => "cache_write_input"@,
        Category::Reasoning => "reasoning_output"@,
    }
}

/// The tokens in a category that requests report.
pub open spec fn request_count(r: RequestMix, c: Category) -> int {
    match c {
        Category::Input => r.input as int,
        Category::Output => r.output as int,
        Category::CacheRead => r.cache_read as int,
        Category::CacheWrite => r.cache_creation as int,
        Category::Reasoning => 0,
    }
}

/// A category has one type, and a type at most one category.
pub proof fn types_name_one_category(kind: Seq<char>, c: Category)
    ensures
        tokens::opencode_category(Some(kind)) == Some(c) <==> kind == counter_type(c),
        tokens::codex_category(Some(kind)) == Some(c) <==> kind == turn_type(c),
        kind == "total"@ ==> tokens::codex_category(Some(kind)) is None,
{
    reveal_strlit("input");
    reveal_strlit("output");
    reveal_strlit("cacheRead");
    reveal_strlit("cacheCreation");
    reveal_strlit("reasoning");
    reveal_strlit("cached_input");
    reveal_strlit("cache_write_input");
    reveal_strlit("reasoning_output");
    reveal_strlit("total");
    assert("input"@.len() == 5 && "output"@.len() == 6 && "cacheRead"@.len() == 9 && "cacheCreation"@.len() == 13
        && "reasoning"@.len() == 9 && "cached_input"@.len() == 12 && "cache_write_input"@.len() == 17
        && "reasoning_output"@.len() == 16 && "total"@.len() == 5);
    assert("cacheRead"@[0] == 'c' && "reasoning"@[0] == 'r' && "input"@[0] == 'i' && "total"@[0] == 't');
}

/// The tokens of a model in a category that a counter series reports.
pub open spec fn series_tokens(model: Seq<char>, c: Category) -> spec_fn(CounterWindowDelta) -> int {
    |d: CounterWindowDelta|
        if label(d.labels@, "$.type"@) == Some(counter_type(c)) && (label(d.labels@, "$.model"@) == Some(model) || (
        label(d.labels@, "$.model"@) is None && model == "(unknown)"@)) {
            d.delta as int
        } else {
            0int
        }
}

/// The tokens of a model in a category that a turn reports.
pub open spec fn turn_tokens(model: Seq<char>, c: Category) -> spec_fn(CodexTurn) -> int {
    |t: CodexTurn|
        if text::optional(t.model) == Some(model) && text::optional(t.token_type) == Some(turn_type(c)) {
            t.tokens as int
        } else {
            0int
        }
}

/// The tokens of a model in a category that requests report.
pub open spec fn request_tokens(model: Seq<char>, c: Category) -> spec_fn(RequestMix) -> int {
    |r: RequestMix|
        if text::optional(r.model) == Some(model) {
            request_count(r, c)
        } else {
            0int
        }
}

/// The tokens of a model in a category that all sources report.
pub open spec fn reported_tokens(
    deltas: Seq<CounterWindowDelta>,
    turns: Seq<CodexTurn>,
    requests: Seq<RequestMix>,
    model: Seq<char>,
    c: Category,
) -> int {
    sums::sum_by(deltas, series_tokens(model, c)) + sums::sum_by(turns, turn_tokens(model, c)) + sums::sum_by(
        requests,
        request_tokens(model, c),
    )
}

/// How often telemetry names a provider for a model: the rows that do, and the calls of the requests
/// that do.
pub open spec fn namings(
    rows: Seq<ProviderRow>,
    requests: Seq<RequestMix>,
    model: Seq<char>,
    provider: Seq<char>,
) -> int {
    sums::sum_by(
        rows,
        |r: ProviderRow|
            if text::optional(r.model) == Some(model) && text::optional(r.provider) == Some(provider) {
                1int
            } else {
                0int
            },
    ) + sums::sum_by(
        requests,
        |r: RequestMix|
            if text::optional(r.model) == Some(model) && text::optional(r.system) == Some(provider) {
                r.calls as int
            } else {
                0int
            },
    )
}

/// How often telemetry names any provider for a model.
pub open spec fn all_namings(rows: Seq<ProviderRow>, requests: Seq<RequestMix>, model: Seq<char>) -> int {
    sums::sum_by(
        rows,
        |r: ProviderRow|
            if text::optional(r.model) == Some(model) && r.provider is Some {
                1int
            } else {
                0int
            },
    ) + sums::sum_by(
        requests,
        |r: RequestMix|
            if text::optional(r.model) == Some(model) && r.system is Some {
                r.calls as int
            } else {
                0int
            },
    )
}

/// Telemetry names this provider for the model.
pub open spec fn is_named(
    rows: Seq<ProviderRow>,
    requests: Seq<RequestMix>,
    model: Seq<char>,
    provider: Seq<char>,
) -> bool {
    ||| exists|i: int|
        0 <= i < rows.len() && text::optional((#[trigger] rows[i]).model) == Some(model) && text::optional(
            rows[i].provider,
        ) == Some(provider)
    ||| exists|i: int|
        0 <= i < requests.len() && text::optional((#[trigger] requests[i]).model) == Some(model) && text::optional(
            requests[i].system,
        ) == Some(provider)
}

/// The weight of a credit under one model and one provider.
spec fn weight_under(model: Seq<char>, provider: Seq<char>) -> spec_fn(ProviderCreditView) -> int {
    |x: ProviderCreditView|
        if x.model == model && x.provider == provider {
            x.weight as int
        } else {
            0int
        }
}

/// The weight of a credit under one model.
spec fn weight_of(model: Seq<char>) -> spec_fn(ProviderCreditView) -> int {
    |x: ProviderCreditView|
        if x.model == model {
            x.weight as int
        } else {
            0int
        }
}

/// The weights of a model's providers, summed over the credits.
proof fn lemma_weight(pc: Seq<ProviderCreditView>, model: Seq<char>, provider: Seq<char>)
    ensures
        sums::sum_by(
            group::gather(providers::names_of(pc, model), providers::loads_of(pc, model), provider),
            sums::as_int(),
        ) == sums::sum_by(pc, weight_under(model, provider)),
        sums::sum_by(providers::loads_of(pc, model), sums::as_int()) == sums::sum_by(pc, weight_of(model)),
        providers::names_of(pc, model).len() == providers::loads_of(pc, model).len(),
    decreases pc.len(),
{
    if pc.len() > 0 {
        let prior = pc.drop_last();
        let x = pc.last();
        lemma_weight(prior, model, provider);
        assert(providers::provider_models(pc).drop_last() =~= providers::provider_models(prior));
        assert(Seq::new(pc.len(), |i: int| pc[i].provider).drop_last() =~= Seq::new(
            prior.len(),
            |i: int| prior[i].provider,
        ));
        assert(Seq::new(pc.len(), |i: int| pc[i].weight).drop_last() =~= Seq::new(
            prior.len(),
            |i: int| prior[i].weight,
        ));
        let names = providers::names_of(prior, model);
        let loads = providers::loads_of(prior, model);
        if x.model == model {
            assert(providers::names_of(pc, model) == names.push(x.provider));
            assert(providers::loads_of(pc, model) == loads.push(x.weight));
            assert(names.push(x.provider).drop_last() =~= names);
            assert(loads.push(x.weight).drop_last() =~= loads);
            sums::lemma_sum_by_push(loads, x.weight, sums::as_int());
            sums::lemma_sum_by_push(group::gather(names, loads, provider), x.weight, sums::as_int());
        } else {
            assert(providers::names_of(pc, model) == names);
            assert(providers::loads_of(pc, model) == loads);
        }
    }
}

/// The weights that rows give.
proof fn lemma_row_weights(rows: Seq<ProviderRow>, model: Seq<char>, provider: Seq<char>)
    ensures
        sums::sum_by(providers::row_weights(rows), weight_under(model, provider)) == namings(
            rows,
            Seq::empty(),
            model,
            provider,
        ),
        sums::sum_by(providers::row_weights(rows), weight_of(model)) == all_namings(rows, Seq::empty(), model),
    decreases rows.len(),
{
    if rows.len() > 0 {
        lemma_row_weights(rows.drop_last(), model, provider);
        let earlier = providers::row_weights(rows.drop_last());
        match (rows.last().provider, rows.last().model) {
            (Some(p), Some(m)) => {
                let x = providers::row_weights(rows).last();
                assert(providers::row_weights(rows) =~= earlier.push(x));
                sums::lemma_sum_by_push(earlier, x, weight_under(model, provider));
                sums::lemma_sum_by_push(earlier, x, weight_of(model));
            },
            _ => {},
        }
    }
}

/// The weights that requests give.
proof fn lemma_request_weights(requests: Seq<RequestMix>, model: Seq<char>, provider: Seq<char>)
    ensures
        sums::sum_by(providers::request_weights(requests), weight_under(model, provider)) == namings(
            Seq::empty(),
            requests,
            model,
            provider,
        ),
        sums::sum_by(providers::request_weights(requests), weight_of(model)) == all_namings(
            Seq::empty(),
            requests,
            model,
        ),
    decreases requests.len(),
{
    if requests.len() > 0 {
        lemma_request_weights(requests.drop_last(), model, provider);
        let earlier = providers::request_weights(requests.drop_last());
        match (requests.last().system, requests.last().model) {
            (Some(p), Some(m)) => {
                let x = providers::request_weights(requests).last();
                assert(providers::request_weights(requests) =~= earlier.push(x));
                sums::lemma_sum_by_push(earlier, x, weight_under(model, provider));
                sums::lemma_sum_by_push(earlier, x, weight_of(model));
            },
            _ => {},
        }
    }
}

/// The weight of a provider is how often telemetry names it for the model.
proof fn lemma_namings(rows: Seq<ProviderRow>, requests: Seq<RequestMix>, model: Seq<char>, provider: Seq<char>)
    ensures
        ({
            let pc = providers::provider_credits(rows, requests);
            &&& sums::sum_by(pc, weight_under(model, provider)) == namings(rows, requests, model, provider)
            &&& sums::sum_by(pc, weight_of(model)) == all_namings(rows, requests, model)
        }),
{
    let a = providers::row_weights(rows);
    let b = providers::request_weights(requests);
    lemma_row_weights(rows, model, provider);
    lemma_request_weights(requests, model, provider);
    sums::lemma_sum_by_concat(a, b, weight_under(model, provider));
    sums::lemma_sum_by_concat(a, b, weight_of(model));
}

/// The tokens in a category of a credit under one model.
spec fn own_tokens(model: Seq<char>, c: Category) -> spec_fn(TokenCreditView) -> int {
    |x: TokenCreditView|
        if x.model == model {
            x.tokens.count(c)
        } else {
            0int
        }
}

/// Tokens of one category count in that category alone.
proof fn lemma_of_category(category: Option<Category>, v: u64, c: Category)
    ensures
        tokens::of_category(category, v).count(c) == if category == Some(c) {
            v as int
        } else {
            0
        },
{
}

/// A model's tokens, summed over the credits.
proof fn lemma_model_tokens(tc: Seq<TokenCreditView>, model: Seq<char>, c: Category)
    ensures
        sums::sum_by(
            group::gather(providers::token_models(tc), providers::token_amounts(tc), model),
            tokens::count_of(c),
        ) == sums::sum_by(tc, own_tokens(model, c)),
    decreases tc.len(),
{
    if tc.len() > 0 {
        let prior = tc.drop_last();
        lemma_model_tokens(prior, model, c);
        assert(providers::token_models(tc).drop_last() =~= providers::token_models(prior));
        assert(providers::token_amounts(tc).drop_last() =~= providers::token_amounts(prior));
        sums::lemma_sum_by_push(
            group::gather(providers::token_models(prior), providers::token_amounts(prior), model),
            tc.last().tokens,
            tokens::count_of(c),
        );
    }
}

/// What the counter series credit.
proof fn lemma_series(deltas: Seq<CounterWindowDelta>, model: Seq<char>, c: Category)
    ensures
        sums::sum_by(
            Seq::new(deltas.len(), |i: int| providers::usage_credit(deltas[i])),
            own_tokens(model, c),
        ) == sums::sum_by(deltas, series_tokens(model, c)),
    decreases deltas.len(),
{
    if deltas.len() > 0 {
        let prior = deltas.drop_last();
        let d = deltas.last();
        lemma_series(prior, model, c);
        assert(Seq::new(deltas.len(), |i: int| providers::usage_credit(deltas[i])).drop_last() =~= Seq::new(
            prior.len(),
            |i: int| providers::usage_credit(prior[i]),
        ));
        lemma_labels(d.labels@);
        let kind = counter::label_at(d.labels@, 2);
        lemma_of_category(tokens::opencode_category(kind), d.delta, c);
        if let Some(k) = kind {
            types_name_one_category(k, c);
        }
    }
}

/// What the turns credit.
proof fn lemma_turns(turns: Seq<CodexTurn>, model: Seq<char>, c: Category)
    ensures
        sums::sum_by(providers::turn_credits(turns), own_tokens(model, c)) == sums::sum_by(
            turns,
            turn_tokens(model, c),
        ),
    decreases turns.len(),
{
    if turns.len() > 0 {
        let t = turns.last();
        let earlier = providers::turn_credits(turns.drop_last());
        lemma_turns(turns.drop_last(), model, c);
        if t.model is Some {
            let x = providers::turn_credits(turns).last();
            assert(providers::turn_credits(turns) =~= earlier.push(x));
            sums::lemma_sum_by_push(earlier, x, own_tokens(model, c));
            let kind = text::optional(t.token_type);
            lemma_of_category(tokens::codex_category(kind), t.tokens, c);
            if let Some(k) = kind {
                types_name_one_category(k, c);
            }
        }
    }
}

/// What the requests credit.
proof fn lemma_requests(requests: Seq<RequestMix>, model: Seq<char>, c: Category)
    ensures
        sums::sum_by(providers::request_credits(requests), own_tokens(model, c)) == sums::sum_by(
            requests,
            request_tokens(model, c),
        ),
    decreases requests.len(),
{
    if requests.len() > 0 {
        let r = requests.last();
        let earlier = providers::request_credits(requests.drop_last());
        lemma_requests(requests.drop_last(), model, c);
        if r.model is Some {
            let x = providers::request_credits(requests).last();
            assert(providers::request_credits(requests) =~= earlier.push(x));
            sums::lemma_sum_by_push(earlier, x, own_tokens(model, c));
        }
    }
}

/// A model's line of the table holds what all sources report of it.
proof fn lemma_reported(
    deltas: Seq<CounterWindowDelta>,
    turns: Seq<CodexTurn>,
    requests: Seq<RequestMix>,
    g: int,
    c: Category,
)
    requires
        providers::all_tokens(providers::token_credits(deltas, turns, requests)) <= u64::MAX,
        0 <= g < providers::model_table(providers::token_credits(deltas, turns, requests)).len(),
    ensures
        ({
            let line = providers::model_table(providers::token_credits(deltas, turns, requests))[g];
            line.1.count(c) == reported_tokens(deltas, turns, requests, line.0, c)
        }),
{
    let tc = providers::token_credits(deltas, turns, requests);
    let names = providers::token_models(tc);
    let amounts = providers::token_amounts(tc);
    let line = providers::model_table(tc)[g];
    let own = group::gather(names, amounts, line.0);
    sums::lemma_gather_bound(names, amounts, line.0, tokens::sum_of());
    tally::lemma_total_is_exact(own);
    assert(line.1.count(c) == sums::sum_by(own, tokens::count_of(c)));
    lemma_model_tokens(tc, line.0, c);
    let a = Seq::new(deltas.len(), |i: int| providers::usage_credit(deltas[i]));
    let b = providers::turn_credits(turns);
    let d = providers::request_credits(requests);
    sums::lemma_sum_by_concat(a, b, own_tokens(line.0, c));
    sums::lemma_sum_by_concat(a + b, d, own_tokens(line.0, c));
    lemma_series(deltas, line.0, c);
    lemma_turns(turns, line.0, c);
    lemma_requests(requests, line.0, c);
}

/// A line comes from the table.
proof fn lemma_line_from(table: Seq<Named>, pc: Seq<ProviderCreditView>, j: int) -> (g: int)
    requires
        0 <= j < providers::lines(table, pc).len(),
    ensures
        0 <= g < table.len(),
        providers::attributed(table[g], pc).contains(providers::lines(table, pc)[j]),
    decreases table.len(),
{
    let earlier = providers::lines(table.drop_last(), pc);
    let own = providers::attributed(table.last(), pc);
    if j < earlier.len() {
        lemma_line_from(table.drop_last(), pc, j)
    } else {
        assert(own[j - earlier.len()] == providers::lines(table, pc)[j]);
        table.len() - 1
    }
}

/// What the table attributes is a line.
proof fn lemma_line_of(table: Seq<Named>, pc: Seq<ProviderCreditView>, g: int, line: LineView)
    requires
        0 <= g < table.len(),
        providers::attributed(table[g], pc).contains(line),
    ensures
        providers::lines(table, pc).contains(line),
    decreases table.len(),
{
    let earlier = providers::lines(table.drop_last(), pc);
    let own = providers::attributed(table.last(), pc);
    if g < table.len() - 1 {
        lemma_line_of(table.drop_last(), pc, g, line);
        let j = earlier.index_of(line);
        assert(providers::lines(table, pc)[j] == line);
    } else {
        let j = own.index_of(line);
        assert(providers::lines(table, pc)[earlier.len() + j] == line);
    }
}

/// A credit names its provider, and a provider that is named has a credit.
proof fn lemma_named(rows: Seq<ProviderRow>, requests: Seq<RequestMix>, model: Seq<char>, provider: Seq<char>)
    ensures
        providers::names_of(providers::provider_credits(rows, requests), model).contains(provider) <==> is_named(
            rows,
            requests,
            model,
            provider,
        ),
{
    let a = providers::row_weights(rows);
    let b = providers::request_weights(requests);
    let pc = providers::provider_credits(rows, requests);
    lemma_names(pc, model, provider);
    lemma_named_rows(rows, model, provider);
    lemma_named_requests(requests, model, provider);
    if credits_name(pc, model, provider) {
        let i = choose|i: int| 0 <= i < pc.len() && (#[trigger] pc[i]).model == model && pc[i].provider == provider;
        if i < a.len() {
            assert(a[i] == pc[i]);
        } else {
            assert(b[i - a.len()] == pc[i]);
        }
    }
    if credits_name(a, model, provider) {
        let i = choose|i: int| 0 <= i < a.len() && (#[trigger] a[i]).model == model && a[i].provider == provider;
        assert(pc[i] == a[i]);
    }
    if credits_name(b, model, provider) {
        let i = choose|i: int| 0 <= i < b.len() && (#[trigger] b[i]).model == model && b[i].provider == provider;
        assert(pc[a.len() + i] == b[i]);
    }
}

/// Some credit names the provider for the model.
spec fn credits_name(pc: Seq<ProviderCreditView>, model: Seq<char>, provider: Seq<char>) -> bool {
    exists|i: int| 0 <= i < pc.len() && (#[trigger] pc[i]).model == model && pc[i].provider == provider
}

/// The names of a model are those in its credits.
proof fn lemma_names(pc: Seq<ProviderCreditView>, model: Seq<char>, provider: Seq<char>)
    ensures
        providers::names_of(pc, model).contains(provider) <==> credits_name(pc, model, provider),
    decreases pc.len(),
{
    let all = Seq::new(pc.len(), |i: int| pc[i].provider);
    if pc.len() > 0 {
        let prior = pc.drop_last();
        let x = pc.last();
        let names = providers::names_of(prior, model);
        lemma_names(prior, model, provider);
        assert(providers::provider_models(pc).drop_last() =~= providers::provider_models(prior));
        assert(all.drop_last() =~= Seq::new(prior.len(), |i: int| prior[i].provider));
        if credits_name(prior, model, provider) {
            let i = choose|i: int|
                0 <= i < prior.len() && (#[trigger] prior[i]).model == model && prior[i].provider == provider;
            assert(pc[i] == prior[i]);
        }
        if credits_name(pc, model, provider) {
            let i = choose|i: int|
                0 <= i < pc.len() && (#[trigger] pc[i]).model == model && pc[i].provider == provider;
            if i < prior.len() {
                assert(prior[i] == pc[i]);
            }
        }
        if x.model == model {
            assert(providers::names_of(pc, model) == names.push(x.provider));
            if names.contains(provider) {
                let j = names.index_of(provider);
                assert(names.push(x.provider)[j] == provider);
            }
            if x.provider == provider {
                assert(names.push(x.provider)[names.len() as int] == provider);
                assert(pc[pc.len() - 1].provider == provider);
            }
            if names.push(x.provider).contains(provider) && x.provider != provider {
                let j = names.push(x.provider).index_of(provider);
                assert(names[j] == provider);
            }
        } else {
            assert(providers::names_of(pc, model) == names);
        }
    }
}

/// The rows that name a provider have credits.
proof fn lemma_named_rows(rows: Seq<ProviderRow>, model: Seq<char>, provider: Seq<char>)
    ensures
        credits_name(providers::row_weights(rows), model, provider) <==> is_named(
            rows,
            Seq::empty(),
            model,
            provider,
        ),
    decreases rows.len(),
{
    if rows.len() > 0 {
        let prior = rows.drop_last();
        let a = providers::row_weights(prior);
        let b = providers::row_weights(rows);
        lemma_named_rows(prior, model, provider);
        if is_named(rows, Seq::empty(), model, provider) {
            let i = choose|i: int|
                0 <= i < rows.len() && text::optional((#[trigger] rows[i]).model) == Some(model) && text::optional(
                    rows[i].provider,
                ) == Some(provider);
            if i < prior.len() {
                assert(prior[i] == rows[i]);
                let j = choose|j: int| 0 <= j < a.len() && (#[trigger] a[j]).model == model && a[j].provider == provider;
                assert(b[j] == a[j]);
            } else {
                assert(b[a.len() as int].model == model);
            }
        }
        if credits_name(b, model, provider) {
            let j = choose|j: int| 0 <= j < b.len() && (#[trigger] b[j]).model == model && b[j].provider == provider;
            if j < a.len() {
                assert(a[j] == b[j]);
                let i = choose|i: int|
                    0 <= i < prior.len() && text::optional((#[trigger] prior[i]).model) == Some(model)
                        && text::optional(prior[i].provider) == Some(provider);
                assert(rows[i] == prior[i]);
            } else {
                assert(text::optional(rows[rows.len() - 1].model) == Some(model));
            }
        }
    }
}

/// The requests that name a provider have credits.
proof fn lemma_named_requests(requests: Seq<RequestMix>, model: Seq<char>, provider: Seq<char>)
    ensures
        credits_name(providers::request_weights(requests), model, provider) <==> is_named(
            Seq::empty(),
            requests,
            model,
            provider,
        ),
    decreases requests.len(),
{
    if requests.len() > 0 {
        let prior = requests.drop_last();
        let a = providers::request_weights(prior);
        let b = providers::request_weights(requests);
        lemma_named_requests(prior, model, provider);
        if is_named(Seq::empty(), requests, model, provider) {
            let i = choose|i: int|
                0 <= i < requests.len() && text::optional((#[trigger] requests[i]).model) == Some(model)
                    && text::optional(requests[i].system) == Some(provider);
            if i < prior.len() {
                assert(prior[i] == requests[i]);
                let j = choose|j: int| 0 <= j < a.len() && (#[trigger] a[j]).model == model && a[j].provider == provider;
                assert(b[j] == a[j]);
            } else {
                assert(b[a.len() as int].model == model);
            }
        }
        if credits_name(b, model, provider) {
            let j = choose|j: int| 0 <= j < b.len() && (#[trigger] b[j]).model == model && b[j].provider == provider;
            if j < a.len() {
                assert(a[j] == b[j]);
                let i = choose|i: int|
                    0 <= i < prior.len() && text::optional((#[trigger] prior[i]).model) == Some(model)
                        && text::optional(prior[i].system) == Some(provider);
                assert(requests[i] == prior[i]);
            } else {
                assert(text::optional(requests[requests.len() - 1].model) == Some(model));
            }
        }
    }
}

/// `part` is, to within one unit, the share of `total` that `weight` is of `weights`.
pub open spec fn is_share(part: int, total: int, weight: int, weights: int) -> bool {
    total * weight - weights < part * weights <= total * weight + weights
}

/// An apportioned part is a share.
proof fn lemma_share(total: int, weights: Seq<int>, i: int)
    requires
        0 <= total,
        tokens::are_weights(weights),
        weights.len() <= usize::MAX,
        sums::sum(weights) > 0,
        0 <= i < weights.len(),
    ensures
        is_share(tokens::apportioned(total, weights)[i], total, weights[i], sums::sum(weights)),
{
    let all = sums::sum(weights);
    let w = weights[i];
    let x = tokens::apportioned(total, weights)[i];
    let f = (total * w) / all;
    tokens::apportionment_is_within_one(total, weights, i);
    assert(tokens::floors(total, weights)[i] == f);
    vstd::arithmetic::div_mod::lemma_fundamental_div_mod(total * w, all);
    vstd::arithmetic::div_mod::lemma_mod_bound(total * w, all);
    assert(f * all <= x * all <= (f + 1) * all) by (nonlinear_arith)
        requires
            f <= x <= f + 1,
            all > 0,
    ;
    assert((f + 1) * all == f * all + all) by (nonlinear_arith);
    assert(all * f == f * all) by (nonlinear_arith);
}

/// The response lists the providers of what the sources report.
pub open spec fn is_mix(
    r: ProviderMixResponse,
    deltas: Seq<CounterWindowDelta>,
    rows: Seq<ProviderRow>,
    turns: Seq<CodexTurn>,
    requests: Seq<RequestMix>,
) -> bool {
    let tc = providers::token_credits(deltas, turns, requests);
    let pc = providers::provider_credits(rows, requests);
    let l = providers::lines(providers::model_table(tc), pc);
    &&& providers::all_tokens(tc) <= u64::MAX
    &&& rows.len() + requests.len() <= usize::MAX
    &&& l.len() <= usize::MAX
    &&& r.total_tokens == providers::all_tokens(tc)
    &&& r.method@ == if providers::splits_any(providers::model_table(tc), pc) {
        "token-share-split"@
    } else {
        "direct"@
    }
    &&& r.providers@.len() == providers::ranked_providers(l).len()
    &&& forall|k: int|
        0 <= k < r.providers@.len() ==> providers::is_provider_entry(
            #[trigger] r.providers@[k],
            providers::ranked_providers(l)[k],
            l,
            tc,
        )
}

/// There are no more credits than rows and requests.
proof fn lemma_credit_count(rows: Seq<ProviderRow>, requests: Seq<RequestMix>)
    ensures
        providers::row_weights(rows).len() <= rows.len(),
        providers::request_weights(requests).len() <= requests.len(),
    decreases rows.len() + requests.len(),
{
    if rows.len() > 0 {
        lemma_credit_count(rows.drop_last(), requests);
    } else if requests.len() > 0 {
        lemma_credit_count(rows, requests.drop_last());
    }
}

/// The lines hold no more tokens than there are.
proof fn lemma_bounded(
    r: ProviderMixResponse,
    deltas: Seq<CounterWindowDelta>,
    rows: Seq<ProviderRow>,
    turns: Seq<CodexTurn>,
    requests: Seq<RequestMix>,
)
    requires
        is_mix(r, deltas, rows, turns, requests),
    ensures
        ({
            let tc = providers::token_credits(deltas, turns, requests);
            let pc = providers::provider_credits(rows, requests);
            let l = providers::lines(providers::model_table(tc), pc);
            &&& pc.len() <= usize::MAX
            &&& sums::sum_by(providers::line_models(l), tally::named_sum()) <= providers::all_tokens(tc)
        }),
{
    let tc = providers::token_credits(deltas, turns, requests);
    let pc = providers::provider_credits(rows, requests);
    lemma_credit_count(rows, requests);
    providers::lemma_lines_sum(providers::model_table(tc), pc);
    tally::tally_keeps_the_total(providers::token_models(tc), providers::token_amounts(tc));
    tally::lemma_grand_total(providers::model_table(tc));
}

/// What a provider is given of a model's tokens, category by category, is the share that its namings are
/// of all: the rows that name it for the model, and the calls of the requests that do. Nobody else is given
/// anything, and where no provider is named the tokens stay together under an unknown one.
pub proof fn tokens_are_shared_by_rows_and_calls(
    r: ProviderMixResponse,
    deltas: Seq<CounterWindowDelta>,
    rows: Seq<ProviderRow>,
    turns: Seq<CodexTurn>,
    requests: Seq<RequestMix>,
    k: int,
    i: int,
    c: Category,
)
    requires
        is_mix(r, deltas, rows, turns, requests),
        0 <= k < r.providers@.len(),
        0 <= i < r.providers@[k].models@.len(),
    ensures
        ({
            let provider = r.providers@[k].provider@;
            let model = r.providers@[k].models@[i].model@;
            let part = r.providers@[k].models@[i].tokens.count(c);
            let total = reported_tokens(deltas, turns, requests, model, c);
            let all = all_namings(rows, requests, model);
            &&& all > 0 ==> is_named(rows, requests, model, provider) && is_share(
                part,
                total,
                namings(rows, requests, model, provider),
                all,
            )
            &&& (forall|p: Seq<char>| !is_named(rows, requests, model, p)) ==> provider == "(unknown)"@ && part
                == total
            &&& (exists|p: Seq<char>| is_named(rows, requests, model, p)) && all == 0 ==> is_named(
                rows,
                requests,
                model,
                provider,
            ) && part == 0
        }),
{
    let tc = providers::token_credits(deltas, turns, requests);
    let pc = providers::provider_credits(rows, requests);
    let table = providers::model_table(tc);
    let l = providers::lines(table, pc);
    let provider = r.providers@[k].provider@;
    let model = r.providers@[k].models@[i].model@;
    lemma_bounded(r, deltas, rows, turns, requests);
    assert(providers::is_provider_entry(r.providers@[k], providers::ranked_providers(l)[k], l, tc));
    let under = providers::models_under(l, provider);
    assert(providers::is_model_entry(r.providers@[k].models@[i], under[i], tc));
    providers::lemma_models_under(l, provider, providers::all_tokens(tc));
    let own = group::gather(providers::line_providers(l), providers::line_models(l), provider);
    tally::ranking_rearranges(own);
    assert(under.contains(under[i]));
    assert(own.contains(under[i]));
    let at = own.index_of(under[i]);
    let j = group::lemma_gathered_from(providers::line_providers(l), providers::line_models(l), provider, at);
    assert(l[j].provider == provider && l[j].model == model && l[j].tokens
        == r.providers@[k].models@[i].tokens);
    let g = lemma_line_from(table, pc, j);
    lemma_reported(deltas, turns, requests, g, c);
    let given = providers::attributed(table[g], pc);
    let n = given.index_of(l[j]);
    let names = providers::names_of(pc, model);
    let seen = providers::providers_of(pc, model);
    let weights = providers::weights_of(pc, model);
    assert(table[g].0 == model);
    group::lemma_first_seen(names);
    providers::lemma_weights(pc, model);
    lemma_weight(pc, model, provider);
    lemma_namings(rows, requests, model, provider);
    assert(sums::sum(weights) == all_namings(rows, requests, model));
    if seen.len() == 0 {
        assert forall|p: Seq<char>| !is_named(rows, requests, model, p) by {
            lemma_named(rows, requests, model, p);
            if names.contains(p) {
                assert(seen.contains(p));
            }
        }
        assert(weights.len() == 0);
        assert(sums::sum(weights) == 0);
    } else {
        assert(seen[n] == provider);
        assert(seen.contains(provider));
        assert(names.contains(provider));
        lemma_named(rows, requests, model, provider);
        assert(is_named(rows, requests, model, provider));
        assert(weights[n] == namings(rows, requests, model, provider));
        let total = table[g].1.count(c);
        tokens::apportionment_is_exact(total, weights);
        assert(0 <= tokens::apportioned(total, weights)[n] <= total);
        assert(l[j].tokens.count(c) == tokens::apportioned(total, weights)[n]);
        if sums::sum(weights) > 0 {
            lemma_share(total, weights, n);
        } else {
            sums::lemma_sum_prefix(weights, weights.len() as int);
            assert(weights.take(weights.len() as int) =~= weights);
        }
    }
}

/// A label stands for a model; a missing one stands for `(unknown)`.
pub open spec fn names_model(name: Option<Seq<char>>, model: Seq<char>) -> bool {
    name == Some(model) || (name is None && model == "(unknown)"@)
}

/// Some series, turn or request reports on the model. A turn or a request without a
/// model reports on none.
pub open spec fn is_reported(
    deltas: Seq<CounterWindowDelta>,
    turns: Seq<CodexTurn>,
    requests: Seq<RequestMix>,
    model: Seq<char>,
) -> bool {
    ||| exists|i: int| 0 <= i < deltas.len() && names_model(label((#[trigger] deltas[i]).labels@, "$.model"@), model)
    ||| exists|i: int| 0 <= i < turns.len() && text::optional((#[trigger] turns[i]).model) == Some(model)
    ||| exists|i: int| 0 <= i < requests.len() && text::optional((#[trigger] requests[i]).model) == Some(model)
}

/// The turns credit the models that they name.
proof fn lemma_turn_models(turns: Seq<CodexTurn>, model: Seq<char>)
    ensures
        (exists|j: int|
            0 <= j < providers::turn_credits(turns).len() && (#[trigger] providers::turn_credits(turns)[j]).model
                == model) <==> exists|i: int|
            0 <= i < turns.len() && text::optional((#[trigger] turns[i]).model) == Some(model),
        forall|j: int|
            0 <= j < providers::turn_credits(turns).len() ==> (#[trigger] providers::turn_credits(turns)[j]).session is None,
    decreases turns.len(),
{
    if turns.len() > 0 {
        let prior = turns.drop_last();
        let a = providers::turn_credits(prior);
        let b = providers::turn_credits(turns);
        lemma_turn_models(prior, model);
        if exists|j: int| 0 <= j < b.len() && (#[trigger] b[j]).model == model {
            let j = choose|j: int| 0 <= j < b.len() && (#[trigger] b[j]).model == model;
            if j < a.len() {
                assert(a[j] == b[j]);
                let i = choose|i: int| 0 <= i < prior.len() && text::optional((#[trigger] prior[i]).model) == Some(model);
                assert(turns[i] == prior[i]);
            } else {
                assert(text::optional(turns[turns.len() - 1].model) == Some(model));
            }
        }
        if exists|i: int| 0 <= i < turns.len() && text::optional((#[trigger] turns[i]).model) == Some(model) {
            let i = choose|i: int| 0 <= i < turns.len() && text::optional((#[trigger] turns[i]).model) == Some(model);
            if i < prior.len() {
                assert(prior[i] == turns[i]);
                let j = choose|j: int| 0 <= j < a.len() && (#[trigger] a[j]).model == model;
                assert(b[j] == a[j]);
            } else {
                assert(b[a.len() as int].model == model);
            }
        }
        assert forall|j: int| 0 <= j < b.len() implies (#[trigger] b[j]).session is None by {
            if j < a.len() {
                assert(a[j] == b[j]);
            }
        }
    }
}

/// The requests credit the models that they name, with their sessions.
proof fn lemma_request_models(requests: Seq<RequestMix>, model: Seq<char>, session: Option<Seq<char>>)
    ensures
        (exists|j: int|
            0 <= j < providers::request_credits(requests).len() && (#[trigger] providers::request_credits(
                requests,
            )[j]).model == model && (session is Some ==> providers::request_credits(requests)[j].session == session))
            <==> exists|i: int|
            0 <= i < requests.len() && text::optional((#[trigger] requests[i]).model) == Some(model) && (session is Some
                ==> text::optional(requests[i].session) == session),
    decreases requests.len(),
{
    if requests.len() > 0 {
        let prior = requests.drop_last();
        let a = providers::request_credits(prior);
        let b = providers::request_credits(requests);
        lemma_request_models(prior, model, session);
        if exists|j: int|
            0 <= j < b.len() && (#[trigger] b[j]).model == model && (session is Some ==> b[j].session == session) {
            let j = choose|j: int|
                0 <= j < b.len() && (#[trigger] b[j]).model == model && (session is Some ==> b[j].session == session);
            if j < a.len() {
                assert(a[j] == b[j]);
                let i = choose|i: int|
                    0 <= i < prior.len() && text::optional((#[trigger] prior[i]).model) == Some(model) && (session is Some
                        ==> text::optional(prior[i].session) == session);
                assert(requests[i] == prior[i]);
            } else {
                assert(text::optional(requests[requests.len() - 1].model) == Some(model));
            }
        }
        if exists|i: int|
            0 <= i < requests.len() && text::optional((#[trigger] requests[i]).model) == Some(model) && (session is Some
                ==> text::optional(requests[i].session) == session) {
            let i = choose|i: int|
                0 <= i < requests.len() && text::optional((#[trigger] requests[i]).model) == Some(model) && (
                session is Some ==> text::optional(requests[i].session) == session);
            if i < prior.len() {
                assert(prior[i] == requests[i]);
                let j = choose|j: int|
                    0 <= j < a.len() && (#[trigger] a[j]).model == model && (session is Some ==> a[j].session == session);
                assert(b[j] == a[j]);
            } else {
                assert(b[a.len() as int].model == model);
            }
        }
    }
}

/// The models of the credits are those that are reported on.
proof fn lemma_models(
    deltas: Seq<CounterWindowDelta>,
    turns: Seq<CodexTurn>,
    requests: Seq<RequestMix>,
    model: Seq<char>,
)
    ensures
        providers::token_models(providers::token_credits(deltas, turns, requests)).contains(model) <==> is_reported(
            deltas,
            turns,
            requests,
            model,
        ),
{
    let tc = providers::token_credits(deltas, turns, requests);
    let ids = providers::token_models(tc);
    let b = providers::turn_credits(turns);
    let c = providers::request_credits(requests);
    let n = deltas.len() as int;
    lemma_turn_models(turns, model);
    lemma_request_models(requests, model, None);
    if ids.contains(model) {
        let i = ids.index_of(model);
        assert(tc[i].model == model);
        if i < n {
            assert(tc[i] == providers::usage_credit(deltas[i]));
            lemma_labels(deltas[i].labels@);
            assert(names_model(label(deltas[i].labels@, "$.model"@), model));
        } else if i < n + b.len() {
            assert(tc[i] == b[i - n]);
        } else {
            assert(tc[i] == c[i - n - b.len()]);
        }
    }
    if exists|i: int| 0 <= i < n && names_model(label((#[trigger] deltas[i]).labels@, "$.model"@), model) {
        let i = choose|i: int| 0 <= i < n && names_model(label((#[trigger] deltas[i]).labels@, "$.model"@), model);
        lemma_labels(deltas[i].labels@);
        assert(tc[i] == providers::usage_credit(deltas[i]));
        assert(ids[i] == model);
    }
    if exists|i: int| 0 <= i < turns.len() && text::optional((#[trigger] turns[i]).model) == Some(model) {
        let j = choose|j: int| 0 <= j < b.len() && (#[trigger] b[j]).model == model;
        assert(tc[n + j] == b[j]);
        assert(ids[n + j] == model);
    }
    if exists|i: int| 0 <= i < requests.len() && text::optional((#[trigger] requests[i]).model) == Some(model) {
        let j = choose|j: int| 0 <= j < c.len() && (#[trigger] c[j]).model == model;
        assert(tc[n + b.len() + j] == c[j]);
        assert(ids[n + b.len() + j] == model);
    }
}

/// Every provider that is named for a model that is reported on is listed with that model, and so is the
/// unknown one where none is named.
pub proof fn every_provider_of_a_model_is_listed(
    r: ProviderMixResponse,
    deltas: Seq<CounterWindowDelta>,
    rows: Seq<ProviderRow>,
    turns: Seq<CodexTurn>,
    requests: Seq<RequestMix>,
    model: Seq<char>,
    provider: Seq<char>,
)
    requires
        is_mix(r, deltas, rows, turns, requests),
        is_reported(deltas, turns, requests, model),
        is_named(rows, requests, model, provider) || (provider == "(unknown)"@ && forall|p: Seq<char>|
            !is_named(rows, requests, model, p)),
    ensures
        exists|k: int, i: int|
            0 <= k < r.providers@.len() && 0 <= i < r.providers@[k].models@.len() && r.providers@[k].provider@
                == provider && (#[trigger] r.providers@[k].models@[i]).model@ == model,
{
    let tc = providers::token_credits(deltas, turns, requests);
    let pc = providers::provider_credits(rows, requests);
    let table = providers::model_table(tc);
    let l = providers::lines(table, pc);
    let ids = providers::token_models(tc);
    lemma_models(deltas, turns, requests, model);
    group::lemma_first_seen(ids);
    assert(group::first_seen(ids).contains(model));
    let g = group::first_seen(ids).index_of(model);
    assert(table[g].0 == model);
    let names = providers::names_of(pc, model);
    let seen = providers::providers_of(pc, model);
    group::lemma_first_seen(names);
    let given = providers::attributed(table[g], pc);
    let at = if is_named(rows, requests, model, provider) {
        lemma_named(rows, requests, model, provider);
        assert(seen.contains(provider));
        seen.index_of(provider)
    } else {
        if seen.len() > 0 {
            lemma_named(rows, requests, model, seen[0]);
            assert(seen.contains(seen[0]));
        }
        0
    };
    assert(given[at].provider == provider && given[at].model == model);
    lemma_line_of(table, pc, g, given[at]);
    let j = l.index_of(given[at]);
    let owners = providers::line_providers(l);
    let listed = group::first_seen(owners);
    group::lemma_first_seen(owners);
    assert(owners[j] == provider);
    assert(listed.contains(provider));
    let ranks = providers::provider_ranks(l);
    let order = order::sorting(ranks);
    order::lemma_sorting(ranks);
    order::sorting_is_a_rearrangement(ranks, order);
    let place = listed.index_of(provider);
    assert(order.contains(place as usize));
    let k = order.index_of(place as usize);
    assert(providers::ranked_providers(l)[k] == provider);
    assert(providers::is_provider_entry(r.providers@[k], provider, l, tc));
    lemma_bounded(r, deltas, rows, turns, requests);
    providers::lemma_models_under(l, provider, providers::all_tokens(tc));
    let own = group::gather(owners, providers::line_models(l), provider);
    group::lemma_gathered_into(owners, providers::line_models(l), j);
    tally::ranking_rearranges(own);
    let under = providers::models_under(l, provider);
    assert(own.contains(providers::line_models(l)[j]));
    assert(under.contains(providers::line_models(l)[j]));
    let i = under.index_of(providers::line_models(l)[j]);
    assert(providers::is_model_entry(r.providers@[k].models@[i], under[i], tc));
    assert(r.providers@[k].models@[i].model@ == model);
}

/// Tokens are split exactly where a model that is reported on has two providers.
pub proof fn tokens_are_split_between_providers(
    r: ProviderMixResponse,
    deltas: Seq<CounterWindowDelta>,
    rows: Seq<ProviderRow>,
    turns: Seq<CodexTurn>,
    requests: Seq<RequestMix>,
)
    requires
        is_mix(r, deltas, rows, turns, requests),
    ensures
        r.method@ == "direct"@ || r.method@ == "token-share-split"@,
        r.method@ == "token-share-split"@ <==> exists|model: Seq<char>, p: Seq<char>, q: Seq<char>|
            is_reported(deltas, turns, requests, model) && p != q && #[trigger] is_named(rows, requests, model, p)
                && #[trigger] is_named(rows, requests, model, q),
{
    reveal_strlit("direct");
    reveal_strlit("token-share-split");
    assert("direct"@.len() == 6 && "token-share-split"@.len() == 17);
    let tc = providers::token_credits(deltas, turns, requests);
    let pc = providers::provider_credits(rows, requests);
    let table = providers::model_table(tc);
    let ids = providers::token_models(tc);
    group::lemma_first_seen(ids);
    if providers::splits_any(table, pc) {
        let i = choose|i: int| 0 <= i < table.len() && providers::providers_of(pc, (#[trigger] table[i]).0).len() > 1;
        let model = table[i].0;
        let seen = providers::providers_of(pc, model);
        group::lemma_first_seen(providers::names_of(pc, model));
        assert(group::first_seen(ids).contains(model));
        lemma_models(deltas, turns, requests, model);
        assert(seen.contains(seen[0]) && seen.contains(seen[1]));
        lemma_named(rows, requests, model, seen[0]);
        lemma_named(rows, requests, model, seen[1]);
        assert(seen[0] != seen[1]);
        assert(is_named(rows, requests, model, seen[0]) && is_named(rows, requests, model, seen[1]));
    }
    if exists|model: Seq<char>, p: Seq<char>, q: Seq<char>|
        is_reported(deltas, turns, requests, model) && p != q && #[trigger] is_named(rows, requests, model, p)
            && #[trigger] is_named(rows, requests, model, q) {
        let (model, p, q) = choose|model: Seq<char>, p: Seq<char>, q: Seq<char>|
            is_reported(deltas, turns, requests, model) && p != q && #[trigger] is_named(rows, requests, model, p)
                && #[trigger] is_named(rows, requests, model, q);
        lemma_models(deltas, turns, requests, model);
        assert(group::first_seen(ids).contains(model));
        let g = group::first_seen(ids).index_of(model);
        assert(table[g].0 == model);
        let seen = providers::providers_of(pc, model);
        group::lemma_first_seen(providers::names_of(pc, model));
        lemma_named(rows, requests, model, p);
        lemma_named(rows, requests, model, q);
        assert(seen.contains(p) && seen.contains(q));
        let a = seen.index_of(p);
        let b = seen.index_of(q);
        assert(a != b);
        assert(providers::providers_of(pc, table[g].0).len() > 1);
    }
}

/// The sessions of a model that its credits name are those of its series and of its requests.
proof fn lemma_sessions(tc: Seq<TokenCreditView>, model: Seq<char>, session: Seq<char>)
    ensures
        providers::sessions_of(tc, model).contains(session) <==> exists|i: int|
            0 <= i < tc.len() && (#[trigger] tc[i]).model == model && tc[i].session == Some(session),
    decreases tc.len(),
{
    if tc.len() > 0 {
        let prior = tc.drop_last();
        let had = providers::sessions_of(prior, model);
        let has = providers::sessions_of(tc, model);
        lemma_sessions(prior, model, session);
        assert(tc[tc.len() - 1] == tc.last());
        if had.contains(session) {
            let j = had.index_of(session);
            assert(has[j] == session);
            let i = choose|i: int|
                0 <= i < prior.len() && (#[trigger] prior[i]).model == model && prior[i].session == Some(session);
            assert(tc[i] == prior[i]);
        }
        if has.contains(session) && !had.contains(session) {
            let j = has.index_of(session);
            if j < had.len() {
                assert(had[j] == session);
            }
        }
        if exists|i: int| 0 <= i < tc.len() && (#[trigger] tc[i]).model == model && tc[i].session == Some(session) {
            let i = choose|i: int|
                0 <= i < tc.len() && (#[trigger] tc[i]).model == model && tc[i].session == Some(session);
            if i < prior.len() {
                assert(prior[i] == tc[i]);
            } else {
                assert(has[had.len() as int] == session);
            }
        }
    }
}

/// A session of a model: a series or a request names both.
pub open spec fn is_session(
    deltas: Seq<CounterWindowDelta>,
    requests: Seq<RequestMix>,
    model: Seq<char>,
    session: Seq<char>,
) -> bool {
    ||| exists|i: int|
        0 <= i < deltas.len() && names_model(label((#[trigger] deltas[i]).labels@, "$.model"@), model) && label(
            deltas[i].labels@,
            "$.\"session.id\""@,
        ) == Some(session)
    ||| exists|i: int|
        0 <= i < requests.len() && text::optional((#[trigger] requests[i]).model) == Some(model)
            && text::optional(requests[i].session) == Some(session)
}

/// The sessions of a model are the distinct ones that its series and its requests name.
pub proof fn sessions_are_those_of_the_model(
    r: ProviderMixResponse,
    deltas: Seq<CounterWindowDelta>,
    rows: Seq<ProviderRow>,
    turns: Seq<CodexTurn>,
    requests: Seq<RequestMix>,
    k: int,
    i: int,
)
    requires
        is_mix(r, deltas, rows, turns, requests),
        0 <= k < r.providers@.len(),
        0 <= i < r.providers@[k].models@.len(),
    ensures
        exists|sessions: Seq<Seq<char>>|
            r.providers@[k].models@[i].sessions == sessions.len() && sessions.no_duplicates() && forall|s: Seq<char>|
                #[trigger] sessions.contains(s) <==> is_session(deltas, requests, r.providers@[k].models@[i].model@, s),
{
    let tc = providers::token_credits(deltas, turns, requests);
    let pc = providers::provider_credits(rows, requests);
    let l = providers::lines(providers::model_table(tc), pc);
    let model = r.providers@[k].models@[i].model@;
    assert(providers::is_provider_entry(r.providers@[k], providers::ranked_providers(l)[k], l, tc));
    let under = providers::models_under(l, r.providers@[k].provider@);
    assert(providers::is_model_entry(r.providers@[k].models@[i], under[i], tc));
    let all = providers::sessions_of(tc, model);
    let sessions = group::first_seen(all);
    group::lemma_first_seen(all);
    let b = providers::turn_credits(turns);
    let c = providers::request_credits(requests);
    let n = deltas.len() as int;
    lemma_turn_models(turns, model);
    assert forall|s: Seq<char>| #[trigger] sessions.contains(s) <==> is_session(deltas, requests, model, s) by {
        lemma_sessions(tc, model, s);
        lemma_request_models(requests, model, Some(s));
        if exists|i: int| 0 <= i < tc.len() && (#[trigger] tc[i]).model == model && tc[i].session == Some(s) {
            let j = choose|j: int| 0 <= j < tc.len() && (#[trigger] tc[j]).model == model && tc[j].session == Some(s);
            if j < n {
                lemma_labels(deltas[j].labels@);
                assert(tc[j] == providers::usage_credit(deltas[j]));
                assert(names_model(label(deltas[j].labels@, "$.model"@), model));
            } else if j < n + b.len() {
                assert(tc[j] == b[j - n]);
            } else {
                assert(tc[j] == c[j - n - b.len()]);
            }
        }
        if exists|i: int|
            0 <= i < n && names_model(label((#[trigger] deltas[i]).labels@, "$.model"@), model) && label(
                deltas[i].labels@,
                "$.\"session.id\""@,
            ) == Some(s) {
            let i = choose|i: int|
                0 <= i < n && names_model(label((#[trigger] deltas[i]).labels@, "$.model"@), model) && label(
                    deltas[i].labels@,
                    "$.\"session.id\""@,
                ) == Some(s);
            lemma_labels(deltas[i].labels@);
            assert(tc[i] == providers::usage_credit(deltas[i]));
        }
        if exists|i: int|
            0 <= i < requests.len() && text::optional((#[trigger] requests[i]).model) == Some(model)
                && text::optional(requests[i].session) == Some(s) {
            let j = choose|j: int| 0 <= j < c.len() && (#[trigger] c[j]).model == model && c[j].session == Some(s);
            assert(tc[n + b.len() + j] == c[j]);
        }
    }
}

/// The share of a provider is that of the tokens of its models among all tokens, and providers with more
/// tokens come first.
pub proof fn shares_are_of_the_models_tokens(
    r: ProviderMixResponse,
    deltas: Seq<CounterWindowDelta>,
    rows: Seq<ProviderRow>,
    turns: Seq<CodexTurn>,
    requests: Seq<RequestMix>,
    k: int,
)
    requires
        is_mix(r, deltas, rows, turns, requests),
        0 <= k < r.providers@.len(),
    ensures
        r.providers@[k].share is Some <==> r.total_tokens > 0,
        r.providers@[k].share matches Some(s) ==> s.denominator == r.total_tokens && s.numerator == sums::sum_by(
            r.providers@[k].models@,
            |m: ProviderModelEntry|
                m.tokens.input + m.tokens.output + m.tokens.cache_read + m.tokens.cache_write + m.tokens.reasoning,
        ),
        forall|j: int|
            0 <= j < k ==> ((#[trigger] r.providers@[j]).share matches Some(s) ==> r.providers@[k].share matches Some(t)
                && s.numerator >= t.numerator),
{
    let tc = providers::token_credits(deltas, turns, requests);
    let pc = providers::provider_credits(rows, requests);
    let l = providers::lines(providers::model_table(tc), pc);
    let provider = r.providers@[k].provider@;
    assert(providers::is_provider_entry(r.providers@[k], providers::ranked_providers(l)[k], l, tc));
    lemma_bounded(r, deltas, rows, turns, requests);
    providers::lemma_models_under(l, provider, providers::all_tokens(tc));
    let under = providers::models_under(l, provider);
    let f = |m: ProviderModelEntry|
        m.tokens.input + m.tokens.output + m.tokens.cache_read + m.tokens.cache_write + m.tokens.reasoning;
    let numbers = Seq::new(under.len(), |i: int| under[i].1.sum());
    assert forall|i: int| 0 <= i < r.providers@[k].models@.len() implies f(#[trigger] r.providers@[k].models@[i])
        == numbers[i] by {
        assert(providers::is_model_entry(r.providers@[k].models@[i], under[i], tc));
    }
    sums::lemma_same_sums(r.providers@[k].models@, f, numbers);
    group::lemma_first_seen(providers::line_providers(l));
    let ranks = providers::provider_ranks(l);
    let order = order::sorting(ranks);
    order::lemma_sorting(ranks);
    order::sorting_is_a_rearrangement(ranks, order);
    assert forall|j: int| 0 <= j < k implies ((#[trigger] r.providers@[j]).share matches Some(s)
        ==> r.providers@[k].share matches Some(t) && s.numerator >= t.numerator) by {
        assert(providers::is_provider_entry(r.providers@[j], providers::ranked_providers(l)[j], l, tc));
        providers::lemma_models_under(l, r.providers@[j].provider@, providers::all_tokens(tc));
        assert(order::precedes(ranks, order[j] as int, order[k] as int));
    }
}

/// Of two parts of an apportionment, one rounded up and one rounded down, the one rounded up had the larger
/// remainder, or as large a one and came first.
pub proof fn larger_remainders_are_rounded_up(total: int, weights: Seq<int>, i: int, j: int)
    requires
        0 <= total,
        tokens::are_weights(weights),
        weights.len() <= usize::MAX,
        sums::sum(weights) > 0,
        total <= u64::MAX,
        sums::sum(weights) <= u64::MAX,
        0 <= i < weights.len(),
        0 <= j < weights.len(),
        tokens::apportioned(total, weights)[i] * sums::sum(weights) > total * weights[i],
        tokens::apportioned(total, weights)[j] * sums::sum(weights) <= total * weights[j],
    ensures
        ({
            let w = sums::sum(weights);
            let up = total * weights[i] - (tokens::apportioned(total, weights)[i] - 1) * w;
            let down = total * weights[j] - tokens::apportioned(total, weights)[j] * w;
            up > down || (up == down && i < j)
        }),
{
    let w = sums::sum(weights);
    let parts = tokens::apportioned(total, weights);
    let ranks = tokens::claims(total, weights);
    let order = order::sorting(ranks);
    let left = tokens::leftover(total, weights);
    order::lemma_sorting(ranks);
    order::sorting_is_a_rearrangement(ranks, order);
    lemma_floor(total, weights[i], w);
    lemma_floor(total, weights[j], w);
    let fi = (total * weights[i]) / w;
    let fj = (total * weights[j]) / w;
    assert((fi + 1) * w == fi * w + w) by (nonlinear_arith);
    assert((fj + 1) * w == fj * w + w) by (nonlinear_arith);
    assert(order.contains(i as usize) && order.contains(j as usize));
    let a = order.index_of(i as usize);
    let b = order.index_of(j as usize);
    assert(a < left);
    assert(b >= left);
    assert(order::precedes(ranks, order[a] as int, order[b] as int));
    assert((parts[i] - 1) * w == fi * w) by (nonlinear_arith)
        requires
            parts[i] == fi + 1,
    ;
}

/// A product divided by a sum leaves less than the sum.
proof fn lemma_floor(total: int, weight: int, w: int)
    requires
        total >= 0,
        weight >= 0,
        w > 0,
    ensures
        (total * weight) % w == total * weight - (total * weight) / w * w,
        0 <= (total * weight) % w < w,
{
    vstd::arithmetic::div_mod::lemma_fundamental_div_mod(total * weight, w);
    vstd::arithmetic::mul::lemma_mul_is_commutative((total * weight) / w, w);
    vstd::arithmetic::div_mod::lemma_mod_bound(total * weight, w);
}

} // verus!

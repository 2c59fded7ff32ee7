//! The mix of providers and models over a window.
//!
//! Each agent contributes through exactly one source of tokens, so that no token is counted twice. A
//! model's tokens are attributed to its providers by the number of telemetry rows that name them;
//! where no row names a provider, the provider is unknown, never guessed.
use crate::cache;
use crate::counter;
use crate::counter::CounterWindowDelta;
use crate::group;
use crate::group::Key;
use crate::order;
use crate::order::LargestFirst;
use crate::ratio;
use crate::ratio::Ratio;
use crate::sums;
use crate::tally;
use crate::tally::{Named, NamedTokens};
use crate::text;
use crate::tokens;
use crate::tokens::{Category, RoleTokenUsage};
use vstd::prelude::*;

verus! {

/// A row that names the provider of a model.
pub struct ProviderRow {
    pub provider: Option<String>,
    pub model: Option<String>,
}

/// Tokens of one type that one turn used.
pub struct CodexTurn {
    pub model: Option<String>,
    pub token_type: Option<String>,
    pub tokens: u64,
}

/// Token sums over the request spans of one model, provider and session.
pub struct RequestMix {
    pub model: Option<String>,
    pub system: Option<String>,
    pub session: Option<String>,
    pub input: u64,
    pub output: u64,
    pub cache_creation: u64,
    pub cache_read: u64,
    pub calls: u64,
}

/// Tokens of a model, with the session where it is known.
struct TokenCredit {
    model: String,
    session: Option<String>,
    tokens: RoleTokenUsage,
}

/// Tokens of a model, with the session where it is known.
pub ghost struct TokenCreditView {
    pub model: Seq<char>,
    pub session: Option<Seq<char>>,
    pub tokens: RoleTokenUsage,
}

impl View for TokenCredit {
    type V = TokenCreditView;

    closed spec fn view(&self) -> TokenCreditView {
        TokenCreditView {
            model: self.model@,
            session: text::optional(self.session),
            tokens: self.tokens,
        }
    }
}

/// A provider of a model, with the number of rows that name it.
struct ProviderCredit {
    model: String,
    provider: String,
    weight: u64,
}

/// A provider of a model, with the number of rows that name it.
pub ghost struct ProviderCreditView {
    pub model: Seq<char>,
    pub provider: Seq<char>,
    pub weight: u64,
}

impl View for ProviderCredit {
    type V = ProviderCreditView;

    closed spec fn view(&self) -> ProviderCreditView {
        ProviderCreditView { model: self.model@, provider: self.provider@, weight: self.weight }
    }
}

/// What the usage of one counter series credits.
pub open spec fn usage_credit(d: CounterWindowDelta) -> TokenCreditView {
    TokenCreditView {
        model: cache::model_name(counter::label_at(d.labels@, 1)),
        session: counter::label_at(d.labels@, 3),
        tokens: tokens::of_category(tokens::opencode_category(counter::label_at(d.labels@, 2)), d.delta),
    }
}

/// What the turns credit: those without a model nothing, those of an unknown token type no tokens.
pub open spec fn turn_credits(turns: Seq<CodexTurn>) -> Seq<TokenCreditView>
    decreases turns.len(),
{
    if turns.len() == 0 {
        Seq::empty()
    } else {
        let earlier = turn_credits(turns.drop_last());
        let turn = turns.last();
        match turn.model {
            Some(m) => earlier.push(
                TokenCreditView {
                    model: m@,
                    session: None,
                    tokens: tokens::of_category(
                        tokens::codex_category(text::optional(turn.token_type)),
                        turn.tokens,
                    ),
                },
            ),
            None => earlier,
        }
    }
}

/// The tokens of the requests.
pub open spec fn request_tokens(r: RequestMix) -> RoleTokenUsage {
    RoleTokenUsage {
        input: r.input,
        output: r.output,
        cache_read: r.cache_read,
        cache_write: r.cache_creation,
        reasoning: 0,
    }
}

/// What the requests credit: those without a model nothing.
pub open spec fn request_credits(requests: Seq<RequestMix>) -> Seq<TokenCreditView>
    decreases requests.len(),
{
    if requests.len() == 0 {
        Seq::empty()
    } else {
        let earlier = request_credits(requests.drop_last());
        let r = requests.last();
        match r.model {
            Some(m) => earlier.push(
                TokenCreditView {
                    model: m@,
                    session: text::optional(r.session),
                    tokens: request_tokens(r),
                },
            ),
            None => earlier,
        }
    }
}

/// The providers that the rows name, each row once.
pub open spec fn row_weights(rows: Seq<ProviderRow>) -> Seq<ProviderCreditView>
    decreases rows.len(),
{
    if rows.len() == 0 {
        Seq::empty()
    } else {
        let earlier = row_weights(rows.drop_last());
        match (rows.last().provider, rows.last().model) {
            (Some(p), Some(m)) => earlier.push(
                ProviderCreditView { model: m@, provider: p@, weight: 1 },
            ),
            _ => earlier,
        }
    }
}

/// The providers that the requests name, each with the number of calls.
pub open spec fn request_weights(requests: Seq<RequestMix>) -> Seq<ProviderCreditView>
    decreases requests.len(),
{
    if requests.len() == 0 {
        Seq::empty()
    } else {
        let earlier = request_weights(requests.drop_last());
        let r = requests.last();
        match (r.system, r.model) {
            (Some(p), Some(m)) => earlier.push(
                ProviderCreditView { model: m@, provider: p@, weight: r.calls },
            ),
            _ => earlier,
        }
    }
}

/// All tokens that the three sources credit.
pub open spec fn token_credits(
    deltas: Seq<CounterWindowDelta>,
    turns: Seq<CodexTurn>,
    requests: Seq<RequestMix>,
) -> Seq<TokenCreditView> {
    Seq::new(deltas.len(), |i: int| usage_credit(deltas[i])) + turn_credits(turns) + request_credits(
        requests,
    )
}

/// All providers that the sources name.
pub open spec fn provider_credits(
    rows: Seq<ProviderRow>,
    requests: Seq<RequestMix>,
) -> Seq<ProviderCreditView> {
    row_weights(rows) + request_weights(requests)
}

/// The model of each token credit.
pub open spec fn token_models(credits: Seq<TokenCreditView>) -> Seq<Seq<char>> {
    Seq::new(credits.len(), |i: int| credits[i].model)
}

/// The tokens of each token credit.
pub open spec fn token_amounts(credits: Seq<TokenCreditView>) -> Seq<RoleTokenUsage> {
    Seq::new(credits.len(), |i: int| credits[i].tokens)
}

/// The models and their tokens, in the order in which the models first occur.
pub open spec fn model_table(credits: Seq<TokenCreditView>) -> Seq<Named> {
    tally::tally(token_models(credits), token_amounts(credits))
}

/// The number of tokens over all credits.
pub open spec fn all_tokens(credits: Seq<TokenCreditView>) -> int {
    sums::sum_by(token_amounts(credits), tokens::sum_of())
}

/// The sessions that the credits of a model name.
pub open spec fn sessions_of(credits: Seq<TokenCreditView>, model: Seq<char>) -> Seq<Seq<char>>
    decreases credits.len(),
{
    if credits.len() == 0 {
        Seq::empty()
    } else {
        let earlier = sessions_of(credits.drop_last(), model);
        match credits.last().session {
            Some(s) => if credits.last().model == model {
                earlier.push(s)
            } else {
                earlier
            },
            None => earlier,
        }
    }
}

/// The model of each provider credit.
pub open spec fn provider_models(credits: Seq<ProviderCreditView>) -> Seq<Seq<char>> {
    Seq::new(credits.len(), |i: int| credits[i].model)
}

/// The providers named in the credits of a model.
pub open spec fn names_of(credits: Seq<ProviderCreditView>, model: Seq<char>) -> Seq<Seq<char>> {
    group::gather(
        provider_models(credits),
        Seq::new(credits.len(), |i: int| credits[i].provider),
        model,
    )
}

/// The weights in the credits of a model.
pub open spec fn loads_of(credits: Seq<ProviderCreditView>, model: Seq<char>) -> Seq<u64> {
    group::gather(
        provider_models(credits),
        Seq::new(credits.len(), |i: int| credits[i].weight),
        model,
    )
}

/// The distinct providers of a model, in the order in which they are first named.
pub open spec fn providers_of(credits: Seq<ProviderCreditView>, model: Seq<char>) -> Seq<Seq<char>> {
    group::first_seen(names_of(credits, model))
}

/// The weight of each distinct provider of a model.
pub open spec fn weights_of(credits: Seq<ProviderCreditView>, model: Seq<char>) -> Seq<int> {
    sums::group_sums(names_of(credits, model), loads_of(credits, model), sums::as_int())
}

/// The weights of all credits.
pub open spec fn all_weights(credits: Seq<ProviderCreditView>) -> int {
    sums::sum_by(Seq::new(credits.len(), |i: int| credits[i].weight), sums::as_int())
}

/// Tokens of one model attributed to one provider.
struct Line {
    provider: String,
    model: String,
    tokens: RoleTokenUsage,
}

/// Tokens of one model attributed to one provider.
pub ghost struct LineView {
    pub provider: Seq<char>,
    pub model: Seq<char>,
    pub tokens: RoleTokenUsage,
}

impl View for Line {
    type V = LineView;

    closed spec fn view(&self) -> LineView {
        LineView { provider: self.provider@, model: self.model@, tokens: self.tokens }
    }
}

/// How one model's tokens are attributed: to its providers by weight, or to an unknown provider where
/// none is named.
pub open spec fn attributed(line: Named, credits: Seq<ProviderCreditView>) -> Seq<LineView> {
    let providers = providers_of(credits, line.0);
    if providers.len() == 0 {
        seq![LineView { provider: "(unknown)"@, model: line.0, tokens: line.1 }]
    } else {
        Seq::new(
            providers.len(),
            |i: int|
                LineView {
                    provider: providers[i],
                    model: line.0,
                    tokens: tokens::split(line.1, weights_of(credits, line.0), i),
                },
        )
    }
}

/// How all models' tokens are attributed.
pub open spec fn lines(table: Seq<Named>, credits: Seq<ProviderCreditView>) -> Seq<LineView>
    decreases table.len(),
{
    if table.len() == 0 {
        Seq::empty()
    } else {
        lines(table.drop_last(), credits) + attributed(table.last(), credits)
    }
}

/// The provider of each line.
pub open spec fn line_providers(lines: Seq<LineView>) -> Seq<Seq<char>> {
    Seq::new(lines.len(), |i: int| lines[i].provider)
}

/// The model and the tokens of each line.
pub open spec fn line_models(lines: Seq<LineView>) -> Seq<Named> {
    Seq::new(lines.len(), |i: int| (lines[i].model, lines[i].tokens))
}

/// The models of one provider, the most tokens first.
pub open spec fn models_under(lines: Seq<LineView>, provider: Seq<char>) -> Seq<Named> {
    tally::ranked(group::gather(line_providers(lines), line_models(lines), provider))
}

/// The distinct providers, in the order of the lines.
pub open spec fn listed(lines: Seq<LineView>) -> Seq<Seq<char>> {
    group::first_seen(line_providers(lines))
}

/// How the providers rank: the most tokens first.
pub open spec fn provider_ranks(lines: Seq<LineView>) -> Seq<LargestFirst> {
    Seq::new(
        listed(lines).len(),
        |i: int| LargestFirst(tally::grand_total(models_under(lines, listed(lines)[i])) as u128),
    )
}

/// The providers with the most tokens first.
pub open spec fn ranked_providers(lines: Seq<LineView>) -> Seq<Seq<char>> {
    Seq::new(listed(lines).len(), |k: int| listed(lines)[order::sorting(provider_ranks(lines))[k] as int])
}

/// Some model has more than one provider.
pub open spec fn splits_any(table: Seq<Named>, credits: Seq<ProviderCreditView>) -> bool {
    exists|i: int| 0 <= i < table.len() && providers_of(credits, (#[trigger] table[i]).0).len() > 1
}

/// One model under a provider.
pub struct ProviderModelEntry {
    pub model: String,
    pub tokens: RoleTokenUsage,
    /// The number of distinct sessions of the model.
    pub sessions: u64,
}

/// One provider and its models.
pub struct ProviderMixEntry {
    pub provider: String,
    /// The provider's share of all tokens.
    pub share: Option<Ratio>,
    pub models: Vec<ProviderModelEntry>,
}

/// The mix of providers and models.
pub struct ProviderMixResponse {
    /// `direct` where every model has one provider, else `token-share-split`.
    pub method: String,
    pub providers: Vec<ProviderMixEntry>,
    pub total_tokens: u64,
}

/// The model entry is that of one line.
pub open spec fn is_model_entry(
    entry: ProviderModelEntry,
    line: Named,
    credits: Seq<TokenCreditView>,
) -> bool {
    &&& entry.model@ == line.0
    &&& entry.tokens == line.1
    &&& entry.sessions == group::first_seen(sessions_of(credits, line.0)).len()
}

/// The provider entry is that of one provider.
pub open spec fn is_provider_entry(
    entry: ProviderMixEntry,
    provider: Seq<char>,
    attributed_lines: Seq<LineView>,
    credits: Seq<TokenCreditView>,
) -> bool {
    let models = models_under(attributed_lines, provider);
    &&& entry.provider@ == provider
    &&& entry.share == ratio::ratio(tally::grand_total(models), all_tokens(credits))
    &&& entry.models@.len() == models.len()
    &&& forall|i: int|
        0 <= i < models.len() ==> is_model_entry(#[trigger] entry.models@[i], models[i], credits)
}

/// What some token credits say.
spec fn token_views(credits: Seq<TokenCredit>) -> Seq<TokenCreditView> {
    Seq::new(credits.len(), |i: int| credits[i]@)
}

/// What some provider credits say.
spec fn provider_views(credits: Seq<ProviderCredit>) -> Seq<ProviderCreditView> {
    Seq::new(credits.len(), |i: int| credits[i]@)
}

/// What some lines say.
spec fn line_views(lines: Seq<Line>) -> Seq<LineView> {
    Seq::new(lines.len(), |i: int| lines[i]@)
}

fn read_usage(deltas: &Vec<CounterWindowDelta>) -> (out: Vec<TokenCredit>)
    ensures
        token_views(out@) == Seq::new(deltas@.len(), |i: int| usage_credit(deltas@[i])),
{
    let mut out: Vec<TokenCredit> = Vec::new();
    let mut i: usize = 0;
    while i < deltas.len()
        invariant
            i <= deltas@.len(),
            out@.len() == i,
            forall|j: int| 0 <= j < i ==> (#[trigger] out@[j])@ == usage_credit(deltas@[j]),
        decreases deltas@.len() - i,
    {
        let d = &deltas[i];
        let kind = counter::copy_label(&d.labels, 2);
        let category = tokens::find_opencode_category(&kind);
        let model = counter::copy_label(&d.labels, 1);
        out.push(
            TokenCredit {
                model: cache::name_model(&model),
                session: counter::copy_label(&d.labels, 3),
                tokens: tokens::tokens_in_category(category, d.delta),
            },
        );
        i = i + 1;
    }
    assert(token_views(out@) =~= Seq::new(deltas@.len(), |i: int| usage_credit(deltas@[i])));
    out
}

fn read_turns(turns: &Vec<CodexTurn>) -> (out: Vec<TokenCredit>)
    ensures
        token_views(out@) == turn_credits(turns@),
{
    let mut out: Vec<TokenCredit> = Vec::new();
    let mut i: usize = 0;
    assert(token_views(out@) =~= turn_credits(turns@.take(0)));
    while i < turns.len()
        invariant
            i <= turns@.len(),
            token_views(out@) == turn_credits(turns@.take(i as int)),
        decreases turns@.len() - i,
    {
        let turn = &turns[i];
        assert(turns@.take(i + 1).drop_last() =~= turns@.take(i as int));
        if let Some(m) = &turn.model {
            let ghost had = out@;
            let category = tokens::find_codex_category(&turn.token_type);
            out.push(
                TokenCredit {
                    model: m.clone(),
                    session: None,
                    tokens: tokens::tokens_in_category(category, turn.tokens),
                },
            );
            assert(token_views(out@) =~= token_views(had).push(out@.last()@));
        }
        i = i + 1;
    }
    assert(turns@.take(i as int) =~= turns@);
    out
}

fn read_requests(requests: &Vec<RequestMix>) -> (out: Vec<TokenCredit>)
    ensures
        token_views(out@) == request_credits(requests@),
{
    let mut out: Vec<TokenCredit> = Vec::new();
    let mut i: usize = 0;
    assert(token_views(out@) =~= request_credits(requests@.take(0)));
    while i < requests.len()
        invariant
            i <= requests@.len(),
            token_views(out@) == request_credits(requests@.take(i as int)),
        decreases requests@.len() - i,
    {
        let r = &requests[i];
        assert(requests@.take(i + 1).drop_last() =~= requests@.take(i as int));
        if let Some(m) = &r.model {
            let ghost had = out@;
            out.push(
                TokenCredit {
                    model: m.clone(),
                    session: text::copy_optional(&r.session),
                    tokens: RoleTokenUsage {
                        input: r.input,
                        output: r.output,
                        cache_read: r.cache_read,
                        cache_write: r.cache_creation,
                        reasoning: 0,
                    },
                },
            );
            assert(token_views(out@) =~= token_views(had).push(out@.last()@));
        }
        i = i + 1;
    }
    assert(requests@.take(i as int) =~= requests@);
    out
}

fn read_row_weights(rows: &Vec<ProviderRow>) -> (out: Vec<ProviderCredit>)
    ensures
        provider_views(out@) == row_weights(rows@),
{
    let mut out: Vec<ProviderCredit> = Vec::new();
    let mut i: usize = 0;
    assert(provider_views(out@) =~= row_weights(rows@.take(0)));
    while i < rows.len()
        invariant
            i <= rows@.len(),
            provider_views(out@) == row_weights(rows@.take(i as int)),
        decreases rows@.len() - i,
    {
        let row = &rows[i];
        assert(rows@.take(i + 1).drop_last() =~= rows@.take(i as int));
        if let (Some(p), Some(m)) = (&row.provider, &row.model) {
            let ghost had = out@;
            out.push(ProviderCredit { model: m.clone(), provider: p.clone(), weight: 1 });
            assert(provider_views(out@) =~= provider_views(had).push(out@.last()@));
        }
        i = i + 1;
    }
    assert(rows@.take(i as int) =~= rows@);
    out
}

fn read_request_weights(requests: &Vec<RequestMix>) -> (out: Vec<ProviderCredit>)
    ensures
        provider_views(out@) == request_weights(requests@),
{
    let mut out: Vec<ProviderCredit> = Vec::new();
    let mut i: usize = 0;
    assert(provider_views(out@) =~= request_weights(requests@.take(0)));
    while i < requests.len()
        invariant
            i <= requests@.len(),
            provider_views(out@) == request_weights(requests@.take(i as int)),
        decreases requests@.len() - i,
    {
        let r = &requests[i];
        assert(requests@.take(i + 1).drop_last() =~= requests@.take(i as int));
        if let (Some(p), Some(m)) = (&r.system, &r.model) {
            let ghost had = out@;
            out.push(ProviderCredit { model: m.clone(), provider: p.clone(), weight: r.calls });
            assert(provider_views(out@) =~= provider_views(had).push(out@.last()@));
        }
        i = i + 1;
    }
    assert(requests@.take(i as int) =~= requests@);
    out
}

/// The distinct providers of a model with their weights.
fn weigh_providers(credits: &Vec<ProviderCredit>, model: &String) -> (out: Vec<(String, u64)>)
    requires
        all_weights(provider_views(credits@)) <= u64::MAX,
    ensures
        out@.len() == providers_of(provider_views(credits@), model@).len(),
        forall|i: int|
            0 <= i < out@.len() ==> (#[trigger] out@[i]).0@ == providers_of(
                provider_views(credits@),
                model@,
            )[i],
        tokens::weights_of(out@) == weights_of(provider_views(credits@), model@),
        sums::sum(tokens::weights_of(out@)) <= u64::MAX,
{
    let ghost c = provider_views(credits@);
    let ghost models = provider_models(c);
    let ghost all_names = Seq::new(c.len(), |i: int| c[i].provider);
    let ghost all_loads = Seq::new(c.len(), |i: int| c[i].weight);
    let mut names: Vec<String> = Vec::new();
    let mut loads: Vec<u64> = Vec::new();
    let mut i: usize = 0;
    assert(group::ids(names@) =~= group::gather(models.take(0), all_names.take(0), model@));
    assert(loads@ =~= group::gather(models.take(0), all_loads.take(0), model@));
    while i < credits.len()
        invariant
            i <= credits@.len(),
            c == provider_views(credits@),
            models == provider_models(c),
            all_names == Seq::new(c.len(), |i: int| c[i].provider),
            all_loads == Seq::new(c.len(), |i: int| c[i].weight),
            names@.len() == loads@.len(),
            group::ids(names@) == group::gather(models.take(i as int), all_names.take(i as int), model@),
            loads@ == group::gather(models.take(i as int), all_loads.take(i as int), model@),
        decreases credits@.len() - i,
    {
        let credit = &credits[i];
        proof {
            assert(models.take(i + 1).drop_last() =~= models.take(i as int));
            assert(all_names.take(i + 1).drop_last() =~= all_names.take(i as int));
            assert(all_loads.take(i + 1).drop_last() =~= all_loads.take(i as int));
        }
        if text::same_text(credit.model.as_str(), model.as_str()) {
            let ghost had = names@;
            names.push(credit.provider.clone());
            loads.push(credit.weight);
            assert(group::ids(names@) =~= group::ids(had).push(credit.provider@));
        }
        i = i + 1;
    }
    proof {
        assert(models.take(i as int) =~= models);
        assert(all_names.take(i as int) =~= all_names);
        assert(all_loads.take(i as int) =~= all_loads);
        sums::lemma_gather_bound(models, all_loads, model@, sums::as_int());
        sums::groups_keep_the_total(group::ids(names@), loads@, sums::as_int());
    }
    let ghost ids = group::ids(names@);
    let groups = group::group_values(&names, &loads);
    let mut out: Vec<(String, u64)> = Vec::new();
    let mut g: usize = 0;
    while g < groups.len()
        invariant
            g <= groups@.len(),
            group::is_grouping(groups@, ids, loads@),
            ids.len() == loads@.len(),
            sums::sum_by(loads@, sums::as_int()) <= u64::MAX,
            out@.len() == g,
            forall|h: int|
                0 <= h < g ==> {
                    &&& (#[trigger] out@[h]).0@ == group::first_seen(ids)[h]
                    &&& out@[h].1 == sums::group_sums(ids, loads@, sums::as_int())[h]
                },
        decreases groups@.len() - g,
    {
        proof {
            assert(groups@[g as int].key.id() == group::first_seen(ids)[g as int]);
            sums::lemma_gather_bound(ids, loads@, groups@[g as int].key.id(), sums::as_int());
        }
        out.push((groups[g].key.clone(), sums::sum_u64(&groups[g].members)));
        g = g + 1;
    }
    assert(tokens::weights_of(out@) =~= sums::group_sums(ids, loads@, sums::as_int()));
    out
}

/// Attributes the tokens of all models.
fn attribute_all(table: &Vec<NamedTokens>, credits: &Vec<ProviderCredit>) -> (r: (Vec<Line>, bool))
    requires
        all_weights(provider_views(credits@)) <= u64::MAX,
    ensures
        line_views(r.0@) == lines(tally::views(table@), provider_views(credits@)),
        r.1 == splits_any(tally::views(table@), provider_views(credits@)),
{
    let ghost t = tally::views(table@);
    let ghost c = provider_views(credits@);
    let mut out: Vec<Line> = Vec::new();
    let mut split = false;
    let mut i: usize = 0;
    assert(line_views(out@) =~= lines(t.take(0), c));
    while i < table.len()
        invariant
            i <= table@.len(),
            t == tally::views(table@),
            c == provider_views(credits@),
            all_weights(c) <= u64::MAX,
            line_views(out@) == lines(t.take(i as int), c),
            split == splits_any(t.take(i as int), c),
        decreases table@.len() - i,
    {
        let line = &table[i];
        let ghost now = t.take(i as int);
        let ghost next = t.take(i + 1);
        let ghost had = out@;
        proof {
            assert(next.drop_last() =~= now);
            assert(next.last() == t[i as int]);
            assert(t[i as int] == (line.name@, line.tokens));
        }
        let providers = weigh_providers(credits, &line.name);
        if providers.len() == 0 {
            out.push(
                Line { provider: "(unknown)".to_owned(), model: line.name.clone(), tokens: line.tokens },
            );
            assert(line_views(out@) =~= line_views(had) + attributed(t[i as int], c));
        } else {
            let shares = tokens::attribute_model_to_providers(line.tokens, providers.as_slice());
            let mut k: usize = 0;
            assert(line_views(out@) =~= line_views(had) + attributed(t[i as int], c).take(0));
            while k < shares.len()
                invariant
                    k <= shares@.len(),
                    i < table@.len(),
                    t == tally::views(table@),
                    line == table@[i as int],
                    t[i as int] == (line.name@, line.tokens),
                    shares@.len() == providers_of(c, line.name@).len(),
                    shares@.len() > 0,
                    forall|j: int|
                        0 <= j < shares@.len() ==> {
                            &&& (#[trigger] shares@[j]).provider@ == providers_of(c, line.name@)[j]
                            &&& shares@[j].tokens == tokens::split(
                                line.tokens,
                                weights_of(c, line.name@),
                                j,
                            )
                        },
                    line_views(out@) == line_views(had) + attributed(t[i as int], c).take(k as int),
                decreases shares@.len() - k,
            {
                let ghost before = out@;
                out.push(
                    Line {
                        provider: shares[k].provider.clone(),
                        model: line.name.clone(),
                        tokens: shares[k].tokens,
                    },
                );
                proof {
                    let a = attributed(t[i as int], c);
                    assert(out@.last()@ == a[k as int]);
                    assert(line_views(out@) =~= line_views(before).push(out@.last()@));
                    assert(a.take(k + 1) =~= a.take(k as int).push(a[k as int]));
                    assert(line_views(had) + a.take(k + 1) =~= (line_views(had) + a.take(k as int)).push(
                        a[k as int],
                    ));
                }
                k = k + 1;
            }
            assert(attributed(t[i as int], c).take(k as int) =~= attributed(t[i as int], c));
        }
        proof {
            if splits_any(now, c) {
                let j = choose|j: int| 0 <= j < now.len() && providers_of(c, (#[trigger] now[j]).0).len() > 1;
                assert(next[j] == now[j]);
            }
            if splits_any(next, c) && !splits_any(now, c) {
                let j = choose|j: int| 0 <= j < next.len() && providers_of(c, (#[trigger] next[j]).0).len() > 1;
                if j < now.len() {
                    assert(now[j] == next[j]);
                }
            }
            if providers@.len() > 1 {
                assert(providers_of(c, next[i as int].0).len() > 1);
            }
        }
        if providers.len() > 1 {
            split = true;
        }
        i = i + 1;
    }
    assert(t.take(i as int) =~= t);
    (out, split)
}

/// The models of one provider, as they stand in the lines.
fn models_of_provider(all: &Vec<Line>, provider: &String) -> (out: Vec<NamedTokens>)
    ensures
        tally::views(out@) == group::gather(
            line_providers(line_views(all@)),
            line_models(line_views(all@)),
            provider@,
        ),
{
    let ghost l = line_views(all@);
    let ghost ids = line_providers(l);
    let ghost models = line_models(l);
    let mut out: Vec<NamedTokens> = Vec::new();
    let mut i: usize = 0;
    assert(tally::views(out@) =~= group::gather(ids.take(0), models.take(0), provider@));
    while i < all.len()
        invariant
            i <= all@.len(),
            l == line_views(all@),
            ids == line_providers(l),
            models == line_models(l),
            tally::views(out@) == group::gather(ids.take(i as int), models.take(i as int), provider@),
        decreases all@.len() - i,
    {
        let line = &all[i];
        proof {
            assert(ids.take(i + 1).drop_last() =~= ids.take(i as int));
            assert(models.take(i + 1).drop_last() =~= models.take(i as int));
        }
        if text::same_text(line.provider.as_str(), provider.as_str()) {
            let ghost had = out@;
            out.push(NamedTokens { name: line.model.clone(), tokens: line.tokens });
            assert(tally::views(out@) =~= tally::views(had).push((line.model@, line.tokens)));
        }
        i = i + 1;
    }
    assert(ids.take(i as int) =~= ids);
    assert(models.take(i as int) =~= models);
    out
}

/// The number of distinct sessions of a model.
fn count_sessions(credits: &Vec<TokenCredit>, model: &String) -> (n: usize)
    ensures
        n == group::first_seen(sessions_of(token_views(credits@), model@)).len(),
{
    let ghost c = token_views(credits@);
    let mut sessions: Vec<String> = Vec::new();
    let mut i: usize = 0;
    assert(group::ids(sessions@) =~= sessions_of(c.take(0), model@));
    while i < credits.len()
        invariant
            i <= credits@.len(),
            c == token_views(credits@),
            group::ids(sessions@) == sessions_of(c.take(i as int), model@),
        decreases credits@.len() - i,
    {
        let credit = &credits[i];
        assert(c.take(i + 1).drop_last() =~= c.take(i as int));
        if let Some(s) = &credit.session {
            if text::same_text(credit.model.as_str(), model.as_str()) {
                let ghost had = sessions@;
                sessions.push(s.clone());
                assert(group::ids(sessions@) =~= group::ids(had).push(s@));
            }
        }
        i = i + 1;
    }
    assert(c.take(i as int) =~= c);
    tally::count_distinct(&sessions)
}

/// The weights of a model's providers are weights, and as many as the providers.
pub proof fn lemma_weights(credits: Seq<ProviderCreditView>, model: Seq<char>)
    ensures
        tokens::are_weights(weights_of(credits, model)),
        weights_of(credits, model).len() == providers_of(credits, model).len() <= credits.len(),
        sums::sum(weights_of(credits, model)) == sums::sum_by(loads_of(credits, model), sums::as_int()),
{
    let names = names_of(credits, model);
    let loads = loads_of(credits, model);
    let models = provider_models(credits);
    let all_names = Seq::new(credits.len(), |i: int| credits[i].provider);
    let all_loads = Seq::new(credits.len(), |i: int| credits[i].weight);
    lemma_gather_lengths(models, all_names, all_loads, model);
    group::lemma_gather_absent(models, all_names, model);
    group::lemma_first_seen(names);
    assert forall|i: int| 0 <= i < weights_of(credits, model).len() implies #[trigger] weights_of(
        credits,
        model,
    )[i] >= 0 by {
        sums::lemma_gather_bound(names, loads, group::first_seen(names)[i], sums::as_int());
    }
    sums::groups_keep_the_total(names, loads, sums::as_int());
}

/// As many of one list stand beside an id as of another.
proof fn lemma_gather_lengths<I, S, T>(ids: Seq<I>, a: Seq<S>, b: Seq<T>, id: I)
    requires
        ids.len() == a.len() == b.len(),
    ensures
        group::gather(ids, a, id).len() == group::gather(ids, b, id).len(),
    decreases ids.len(),
{
    if ids.len() > 0 {
        lemma_gather_lengths(ids.drop_last(), a.drop_last(), b.drop_last(), id);
    }
}

/// The lines of one model hold its tokens, or fewer where its providers weigh nothing.
proof fn lemma_attributed_sum(line: Named, credits: Seq<ProviderCreditView>)
    requires
        credits.len() <= usize::MAX,
    ensures
        0 <= sums::sum_by(line_models(attributed(line, credits)), tally::named_sum()) <= line.1.sum(),
        providers_of(credits, line.0).len() == 0 || sums::sum(weights_of(credits, line.0)) > 0
            ==> sums::sum_by(line_models(attributed(line, credits)), tally::named_sum()) == line.1.sum(),
{
    let m = line_models(attributed(line, credits));
    let ws = weights_of(credits, line.0);
    lemma_weights(credits, line.0);
    if providers_of(credits, line.0).len() == 0 {
        assert(m =~= seq![line]);
        assert(m.drop_last() =~= Seq::<Named>::empty());
        assert(sums::sum_by(m, tally::named_sum()) == line.1.sum()) by {
            reveal_with_fuel(sums::sum_by, 2);
        }
    } else {
        let parts = tokens::splits(line.1, ws);
        tokens::split_keeps_every_category(line.1, ws, Category::Input);
        tokens::split_keeps_every_category(line.1, ws, Category::Output);
        tokens::split_keeps_every_category(line.1, ws, Category::CacheRead);
        tokens::split_keeps_every_category(line.1, ws, Category::CacheWrite);
        tokens::split_keeps_every_category(line.1, ws, Category::Reasoning);
        tally::lemma_sum_of_categories(parts);
        let amounts = Seq::new(parts.len(), |i: int| parts[i].sum());
        assert(m.len() == parts.len());
        assert forall|i: int| 0 <= i < m.len() implies tally::named_sum()(#[trigger] m[i]) == amounts[i] by {
            assert(m[i].1 == parts[i]);
        }
        sums::lemma_same_sums(m, tally::named_sum(), amounts);
        sums::lemma_same_sums(parts, tokens::sum_of(), amounts);
    }
}

/// Every model of the table has no named provider, or providers that weigh something.
pub open spec fn all_weigh(table: Seq<Named>, credits: Seq<ProviderCreditView>) -> bool {
    forall|i: int|
        0 <= i < table.len() ==> providers_of(credits, (#[trigger] table[i]).0).len() == 0 || sums::sum(
            weights_of(credits, table[i].0),
        ) > 0
}

/// All lines together hold the tokens of the table, or fewer where some providers weigh nothing.
pub proof fn lemma_lines_sum(table: Seq<Named>, credits: Seq<ProviderCreditView>)
    requires
        credits.len() <= usize::MAX,
    ensures
        0 <= sums::sum_by(line_models(lines(table, credits)), tally::named_sum()) <= sums::sum_by(
            table,
            tally::named_sum(),
        ),
        all_weigh(table, credits) ==> sums::sum_by(line_models(lines(table, credits)), tally::named_sum())
            == sums::sum_by(table, tally::named_sum()),
    decreases table.len(),
{
    if table.len() == 0 {
        assert(line_models(lines(table, credits)) =~= Seq::<Named>::empty());
    } else {
        let prior = table.drop_last();
        lemma_lines_sum(prior, credits);
        lemma_attributed_sum(table.last(), credits);
        let a = lines(prior, credits);
        let b = attributed(table.last(), credits);
        assert(line_models(lines(table, credits)) =~= line_models(a) + line_models(b));
        sums::lemma_sum_by_concat(line_models(a), line_models(b), tally::named_sum());
        if all_weigh(table, credits) {
            assert forall|i: int| 0 <= i < prior.len() implies providers_of(
                credits,
                (#[trigger] prior[i]).0,
            ).len() == 0 || sums::sum(weights_of(credits, prior[i].0)) > 0 by {
                assert(table[i] == prior[i]);
            }
            assert(table[table.len() - 1] == table.last());
        }
    }
}

/// One provider's models hold no more than all lines, and ranking them keeps their number.
pub proof fn lemma_models_under(l: Seq<LineView>, provider: Seq<char>, bound: int)
    requires
        l.len() <= usize::MAX,
        sums::sum_by(line_models(l), tally::named_sum()) <= bound <= u64::MAX,
    ensures
        ({
            let own = group::gather(line_providers(l), line_models(l), provider);
            &&& forall|i: int| 0 <= i < own.len() ==> 0 <= (#[trigger] own[i]).1.sum() <= u64::MAX
            &&& own.len() <= usize::MAX
            &&& tally::grand_total(own) == sums::sum_by(own, tally::named_sum())
            &&& tally::grand_total(models_under(l, provider)) == tally::grand_total(own)
            &&& 0 <= tally::grand_total(own) <= bound
        }),
{
    let own = group::gather(line_providers(l), line_models(l), provider);
    sums::lemma_gather_bound(line_providers(l), line_models(l), provider, tally::named_sum());
    group::lemma_gather_absent(line_providers(l), line_models(l), provider);
    assert forall|i: int| 0 <= i < own.len() implies 0 <= (#[trigger] own[i]).1.sum() <= u64::MAX by {
        sums::lemma_sum_by_member(own, i, tally::named_sum());
    }
    tally::lemma_grand_total(own);
    tally::ranking_rearranges(own);
}

/// Makes the entries of one provider's models.
fn model_entries(models: &Vec<NamedTokens>, credits: &Vec<TokenCredit>) -> (out: Vec<ProviderModelEntry>)
    ensures
        out@.len() == models@.len(),
        forall|i: int|
            0 <= i < models@.len() ==> is_model_entry(
                #[trigger] out@[i],
                tally::views(models@)[i],
                token_views(credits@),
            ),
{
    let mut out: Vec<ProviderModelEntry> = Vec::new();
    let mut i: usize = 0;
    while i < models.len()
        invariant
            i <= models@.len(),
            out@.len() == i,
            forall|j: int|
                0 <= j < i ==> is_model_entry(
                    #[trigger] out@[j],
                    tally::views(models@)[j],
                    token_views(credits@),
                ),
        decreases models@.len() - i,
    {
        let sessions: usize = count_sessions(credits, &models[i].name);
        out.push(
            ProviderModelEntry {
                model: models[i].name.clone(),
                tokens: models[i].tokens,
                sessions: sessions as u64,
            },
        );
        i = i + 1;
    }
    out
}

/// Lists the providers of the lines, the most tokens first.
fn list_providers(all: &Vec<Line>, credits: &Vec<TokenCredit>, total: u64) -> (out: Vec<ProviderMixEntry>)
    requires
        total == all_tokens(token_views(credits@)),
        sums::sum_by(line_models(line_views(all@)), tally::named_sum()) <= total,
    ensures
        out@.len() == ranked_providers(line_views(all@)).len(),
        forall|k: int|
            0 <= k < out@.len() ==> is_provider_entry(
                #[trigger] out@[k],
                ranked_providers(line_views(all@))[k],
                line_views(all@),
                token_views(credits@),
            ),
{
    let ghost l = line_views(all@);
    let ghost c = token_views(credits@);
    let mut names: Vec<String> = Vec::new();
    let mut i: usize = 0;
    while i < all.len()
        invariant
            i <= all@.len(),
            l == line_views(all@),
            names@.len() == i,
            forall|j: int| 0 <= j < i ==> (#[trigger] names@[j])@ == line_providers(l)[j],
        decreases all@.len() - i,
    {
        names.push(all[i].provider.clone());
        i = i + 1;
    }
    assert(group::ids(names@) =~= line_providers(l));
    let providers = tally::distinct(&names);
    let mut models: Vec<Vec<NamedTokens>> = Vec::new();
    let mut totals: Vec<u64> = Vec::new();
    let mut ranks: Vec<LargestFirst> = Vec::new();
    let mut g: usize = 0;
    while g < providers.len()
        invariant
            g <= providers@.len(),
            l == line_views(all@),
            l.len() <= usize::MAX,
            sums::sum_by(line_models(l), tally::named_sum()) <= total,
            group::ids(providers@) == listed(l),
            models@.len() == g,
            totals@.len() == g,
            ranks@.len() == g,
            forall|h: int|
                0 <= h < g ==> tally::views((#[trigger] models@[h])@) == models_under(l, listed(l)[h]),
            forall|h: int|
                0 <= h < g ==> #[trigger] totals@[h] == tally::grand_total(
                    models_under(l, listed(l)[h]),
                ),
            forall|h: int| 0 <= h < g ==> #[trigger] ranks@[h] == provider_ranks(l)[h],
        decreases providers@.len() - g,
    {
        proof {
            assert(group::ids(providers@)[g as int] == providers@[g as int]@);
            lemma_models_under(l, listed(l)[g as int], total as int);
        }
        let own = models_of_provider(all, &providers[g]);
        proof {
            assert forall|i: int| 0 <= i < own@.len() implies (#[trigger] own@[i]).tokens.sum() <= u64::MAX by {
                assert(tally::views(own@)[i].1.sum() <= u64::MAX);
            }
        }
        let ranked = tally::rank_tokens(&own);
        let sum: u64 = tally::sum_named(&ranked);
        models.push(ranked);
        totals.push(sum);
        ranks.push(LargestFirst(sum as u128));
        g = g + 1;
    }
    assert(ranks@ =~= provider_ranks(l));
    let order = order::order_of(&ranks);
    let mut out: Vec<ProviderMixEntry> = Vec::new();
    let mut k: usize = 0;
    while k < order.len()
        invariant
            k <= order@.len(),
            l == line_views(all@),
            c == token_views(credits@),
            total == all_tokens(c),
            group::ids(providers@) == listed(l),
            order@ == order::sorting(provider_ranks(l)),
            order::sorts(provider_ranks(l), order@),
            models@.len() == providers@.len(),
            totals@.len() == providers@.len(),
            forall|h: int|
                0 <= h < models@.len() ==> tally::views((#[trigger] models@[h])@) == models_under(
                    l,
                    listed(l)[h],
                ),
            forall|h: int|
                0 <= h < totals@.len() ==> #[trigger] totals@[h] == tally::grand_total(
                    models_under(l, listed(l)[h]),
                ),
            out@.len() == k,
            forall|j: int|
                0 <= j < k ==> is_provider_entry(#[trigger] out@[j], ranked_providers(l)[j], l, c),
        decreases order@.len() - k,
    {
        let at: usize = order[k];
        assert(group::ids(providers@)[at as int] == providers@[at as int]@);
        assert(tally::views(models@[at as int]@) == models_under(l, listed(l)[at as int]));
        out.push(
            ProviderMixEntry {
                provider: providers[at].clone(),
                share: ratio::make_ratio(totals[at], total),
                models: model_entries(&models[at], credits),
            },
        );
        k = k + 1;
    }
    out
}

/// The mix of providers and models, from the windowed usage of the cumulative token counter, the rows
/// that name providers, the turns, and the request spans.
pub fn provider_mix(
    deltas: &Vec<CounterWindowDelta>,
    rows: &Vec<ProviderRow>,
    turns: &Vec<CodexTurn>,
    requests: &Vec<RequestMix>,
) -> (r: ProviderMixResponse)
    requires
        all_tokens(token_credits(deltas@, turns@, requests@)) <= u64::MAX,
        all_weights(provider_credits(rows@, requests@)) <= u64::MAX,
    ensures
        ({
            let tc = token_credits(deltas@, turns@, requests@);
            let pc = provider_credits(rows@, requests@);
            let l = lines(model_table(tc), pc);
            &&& r.total_tokens == all_tokens(tc)
            &&& r.method@ == if splits_any(model_table(tc), pc) {
                "token-share-split"@
            } else {
                "direct"@
            }
            &&& r.providers@.len() == ranked_providers(l).len()
            &&& forall|k: int|
                0 <= k < r.providers@.len() ==> is_provider_entry(
                    #[trigger] r.providers@[k],
                    ranked_providers(l)[k],
                    l,
                    tc,
                )
        }),
{
    let mut tokens_in = read_usage(deltas);
    let ghost first = tokens_in@;
    let mut from_turns = read_turns(turns);
    let ghost second = from_turns@;
    tokens_in.append(&mut from_turns);
    let mut from_requests = read_requests(requests);
    let ghost third = from_requests@;
    tokens_in.append(&mut from_requests);
    let ghost tc = token_credits(deltas@, turns@, requests@);
    assert(token_views(tokens_in@) =~= token_views(first) + token_views(second) + token_views(third));
    let mut named = read_row_weights(rows);
    let ghost fourth = named@;
    let mut named_more = read_request_weights(requests);
    let ghost fifth = named_more@;
    named.append(&mut named_more);
    let ghost pc = provider_credits(rows@, requests@);
    assert(provider_views(named@) =~= provider_views(fourth) + provider_views(fifth));
    let mut names: Vec<String> = Vec::new();
    let mut amounts: Vec<RoleTokenUsage> = Vec::new();
    let mut i: usize = 0;
    while i < tokens_in.len()
        invariant
            i <= tokens_in@.len(),
            tc == token_views(tokens_in@),
            names@.len() == i,
            amounts@.len() == i,
            forall|j: int| 0 <= j < i ==> (#[trigger] names@[j])@ == token_models(tc)[j],
            forall|j: int| 0 <= j < i ==> #[trigger] amounts@[j] == token_amounts(tc)[j],
        decreases tokens_in@.len() - i,
    {
        names.push(tokens_in[i].model.clone());
        amounts.push(tokens_in[i].tokens);
        i = i + 1;
    }
    assert(group::ids(names@) =~= token_models(tc));
    assert(amounts@ =~= token_amounts(tc));
    let total: u64 = tokens::sum_tokens(&amounts).total();
    let table = tally::tally_tokens(&names, &amounts);
    let (all, split) = attribute_all(&table, &named);
    proof {
        tally::tally_keeps_the_total(token_models(tc), token_amounts(tc));
        tally::lemma_grand_total(model_table(tc));
        lemma_lines_sum(model_table(tc), pc);
    }
    let providers = list_providers(&all, &tokens_in, total);
    let method = if split {
        "token-share-split".to_owned()
    } else {
        "direct".to_owned()
    };
    ProviderMixResponse { method, providers, total_tokens: total }
}

/// No token is lost or counted twice: as long as named providers weigh something, the providers'
/// tokens add up to all tokens.
pub proof fn providers_hold_all_tokens(tc: Seq<TokenCreditView>, pc: Seq<ProviderCreditView>)
    requires
        all_tokens(tc) <= u64::MAX,
        pc.len() <= usize::MAX,
        lines(model_table(tc), pc).len() <= usize::MAX,
        all_weigh(model_table(tc), pc),
    ensures
        sums::sum(
            Seq::new(
                listed(lines(model_table(tc), pc)).len(),
                |g: int|
                    tally::grand_total(
                        models_under(
                            lines(model_table(tc), pc),
                            listed(lines(model_table(tc), pc))[g],
                        ),
                    ),
            ),
        ) == all_tokens(tc),
{
    let l = lines(model_table(tc), pc);
    tally::tally_keeps_the_total(token_models(tc), token_amounts(tc));
    tally::lemma_grand_total(model_table(tc));
    lemma_lines_sum(model_table(tc), pc);
    sums::groups_keep_the_total(line_providers(l), line_models(l), tally::named_sum());
    assert(Seq::new(listed(l).len(), |g: int| tally::grand_total(models_under(l, listed(l)[g])))
        =~= sums::group_sums(line_providers(l), line_models(l), tally::named_sum())) by {
        assert forall|g: int| 0 <= g < listed(l).len() implies tally::grand_total(
            models_under(l, #[trigger] listed(l)[g]),
        ) == sums::sum_by(
            group::gather(line_providers(l), line_models(l), listed(l)[g]),
            tally::named_sum(),
        ) by {
            lemma_models_under(l, listed(l)[g], all_tokens(tc));
        }
    }
}

} // verus!

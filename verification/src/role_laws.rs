//! What the breakdown by role promises of the rows that it is made of.
use crate::counter;
use crate::counter::CounterWindowDelta;
use crate::group;
use crate::order;
use crate::provider_laws;
use crate::roles;
use crate::roles::{AgentRolesResponse, Presence, RoleCreditView};
use crate::sums;
use crate::tally;
use crate::text;
use crate::tokens;
use crate::tokens::{Category, RoleTokenUsage};
use vstd::prelude::*;

verus! {

/// The response is that of the rows.
pub open spec fn is_breakdown(
    r: AgentRolesResponse,
    deltas: Seq<CounterWindowDelta>,
    presence: Seq<Presence>,
) -> bool {
    let c = roles::credits(deltas, presence);
    &&& roles::all_tokens(c) <= u64::MAX
    &&& c.len() <= usize::MAX
    &&& r.roles@.len() == roles::role_table(c).len()
    &&& forall|k: int|
        0 <= k < r.roles@.len() ==> roles::breaks_down(#[trigger] r.roles@[k], c, roles::role_table(c)[k])
    &&& r.unknown_share == roles::unknown_share(c)
}

/// A label names something; a missing one stands for the name `unknown`.
pub open spec fn names(label: Option<Seq<char>>, name: Seq<char>) -> bool {
    label == Some(name) || (label is None && name == "unknown"@)
}

/// The tokens in a category that a series reports of a role.
pub open spec fn role_tokens(role: Seq<char>, c: Category) -> spec_fn(CounterWindowDelta) -> int {
    |d: CounterWindowDelta|
        if names(provider_laws::label(d.labels@, "$.agent"@), role) && provider_laws::label(d.labels@, "$.type"@)
            == Some(provider_laws::counter_type(c)) {
            d.delta as int
        } else {
            0int
        }
}

/// The tokens in a category that a series reports of a model under a role.
pub open spec fn model_tokens(role: Seq<char>, model: Seq<char>, c: Category) -> spec_fn(CounterWindowDelta) -> int {
    |d: CounterWindowDelta|
        if names(provider_laws::label(d.labels@, "$.agent"@), role) && names(
            provider_laws::label(d.labels@, "$.model"@),
            model,
        ) && provider_laws::label(d.labels@, "$.type"@) == Some(provider_laws::counter_type(c)) {
            d.delta as int
        } else {
            0int
        }
}

/// The tokens in a category of a credit to a role.
spec fn credit_tokens(role: Seq<char>, c: Category) -> spec_fn(RoleCreditView) -> int {
    |x: RoleCreditView|
        if x.role == role {
            x.tokens.count(c)
        } else {
            0int
        }
}

/// The tokens in a category of a credit to a model under a role.
spec fn credit_model_tokens(role: Seq<char>, model: Seq<char>, c: Category) -> spec_fn(RoleCreditView) -> int {
    |x: RoleCreditView|
        if x.role == role && x.model == Some(model) {
            x.tokens.count(c)
        } else {
            0int
        }
}

/// What is gathered under a role sums up over the credits to it.
proof fn lemma_role_sum(credits: Seq<RoleCreditView>, role: Seq<char>, c: Category)
    ensures
        sums::sum_by(
            group::gather(roles::roles_of(credits), roles::tokens_of(credits), role),
            tokens::count_of(c),
        ) == sums::sum_by(credits, credit_tokens(role, c)),
    decreases credits.len(),
{
    if credits.len() > 0 {
        let prior = credits.drop_last();
        lemma_role_sum(prior, role, c);
        assert(roles::roles_of(credits).drop_last() =~= roles::roles_of(prior));
        assert(roles::tokens_of(credits).drop_last() =~= roles::tokens_of(prior));
        sums::lemma_sum_by_push(
            group::gather(roles::roles_of(prior), roles::tokens_of(prior), role),
            credits.last().tokens,
            tokens::count_of(c),
        );
    }
}

/// What is gathered under a model of a role sums up over the credits to it.
proof fn lemma_model_sum(credits: Seq<RoleCreditView>, role: Seq<char>, model: Seq<char>, c: Category)
    ensures
        sums::sum_by(
            group::gather(
                roles::models_of(roles::own(credits, role)),
                roles::model_tokens_of(roles::own(credits, role)),
                model,
            ),
            tokens::count_of(c),
        ) == sums::sum_by(credits, credit_model_tokens(role, model, c)),
        roles::models_of(roles::own(credits, role)).len() == roles::model_tokens_of(roles::own(credits, role)).len(),
        roles::models_of(roles::own(credits, role)).len() <= credits.len(),
    decreases credits.len(),
{
    if credits.len() > 0 {
        let prior = credits.drop_last();
        lemma_model_sum(prior, role, model, c);
        assert(roles::roles_of(credits).drop_last() =~= roles::roles_of(prior));
        let had = roles::own(prior, role);
        let x = credits.last();
        if x.role == role {
            let has = roles::own(credits, role);
            assert(has =~= had.push(x));
            assert(has.drop_last() =~= had);
            if x.model is Some {
                let ms = roles::models_of(has);
                let ts = roles::model_tokens_of(has);
                assert(ms.drop_last() =~= roles::models_of(had));
                assert(ts.drop_last() =~= roles::model_tokens_of(had));
                sums::lemma_sum_by_push(
                    group::gather(roles::models_of(had), roles::model_tokens_of(had), model),
                    x.tokens,
                    tokens::count_of(c),
                );
            }
        }
    }
}

/// A credit for usage counts what its series reports.
proof fn lemma_usage(d: CounterWindowDelta, role: Seq<char>, model: Seq<char>, c: Category)
    ensures
        credit_tokens(role, c)(roles::usage_credit(d)) == role_tokens(role, c)(d),
        credit_model_tokens(role, model, c)(roles::usage_credit(d)) == model_tokens(role, model, c)(d),
{
    provider_laws::lemma_labels(d.labels@);
    match counter::label_at(d.labels@, 2) {
        Some(kind) => {
            provider_laws::types_name_one_category(kind, Category::Input);
            provider_laws::types_name_one_category(kind, Category::Output);
            provider_laws::types_name_one_category(kind, Category::CacheRead);
            provider_laws::types_name_one_category(kind, Category::CacheWrite);
            provider_laws::types_name_one_category(kind, Category::Reasoning);
        },
        None => {},
    }
}

/// The credits to a role and to its models count what the series report.
proof fn lemma_credits(
    deltas: Seq<CounterWindowDelta>,
    presence: Seq<Presence>,
    role: Seq<char>,
    model: Seq<char>,
    c: Category,
)
    ensures
        sums::sum_by(roles::credits(deltas, presence), credit_tokens(role, c)) == sums::sum_by(
            deltas,
            role_tokens(role, c),
        ),
        sums::sum_by(roles::credits(deltas, presence), credit_model_tokens(role, model, c)) == sums::sum_by(
            deltas,
            model_tokens(role, model, c),
        ),
{
    let used = Seq::new(deltas.len(), |i: int| roles::usage_credit(deltas[i]));
    let seen = Seq::new(presence.len(), |i: int| roles::presence_credit(presence[i]));
    sums::lemma_sum_by_concat(used, seen, credit_tokens(role, c));
    sums::lemma_sum_by_concat(used, seen, credit_model_tokens(role, model, c));
    lemma_used(deltas, role, model, c);
    lemma_seen(presence, role, model, c);
}

/// The credits for usage count what the series report.
proof fn lemma_used(deltas: Seq<CounterWindowDelta>, role: Seq<char>, model: Seq<char>, c: Category)
    ensures
        ({
            let used = Seq::new(deltas.len(), |i: int| roles::usage_credit(deltas[i]));
            &&& sums::sum_by(used, credit_tokens(role, c)) == sums::sum_by(deltas, role_tokens(role, c))
            &&& sums::sum_by(used, credit_model_tokens(role, model, c)) == sums::sum_by(
                deltas,
                model_tokens(role, model, c),
            )
        }),
    decreases deltas.len(),
{
    let used = Seq::new(deltas.len(), |i: int| roles::usage_credit(deltas[i]));
    if deltas.len() > 0 {
        let prior = deltas.drop_last();
        lemma_used(prior, role, model, c);
        assert(used.drop_last() =~= Seq::new(prior.len(), |i: int| roles::usage_credit(prior[i])));
        lemma_usage(deltas.last(), role, model, c);
    }
}

/// The credits for presence hold no tokens.
proof fn lemma_seen(presence: Seq<Presence>, role: Seq<char>, model: Seq<char>, c: Category)
    ensures
        ({
            let seen = Seq::new(presence.len(), |i: int| roles::presence_credit(presence[i]));
            &&& sums::sum_by(seen, credit_tokens(role, c)) == 0
            &&& sums::sum_by(seen, credit_model_tokens(role, model, c)) == 0
        }),
    decreases presence.len(),
{
    let seen = Seq::new(presence.len(), |i: int| roles::presence_credit(presence[i]));
    if presence.len() > 0 {
        let prior = presence.drop_last();
        lemma_seen(prior, role, model, c);
        assert(seen.drop_last() =~= Seq::new(prior.len(), |i: int| roles::presence_credit(prior[i])));
    }
}

/// The tokens of a role in each category are those that the series with the role's label report under
/// the type of the category. A series without a role counts under `unknown`.
pub proof fn roles_have_the_tokens_of_their_series(
    r: AgentRolesResponse,
    deltas: Seq<CounterWindowDelta>,
    presence: Seq<Presence>,
    k: int,
)
    requires
        is_breakdown(r, deltas, presence),
        0 <= k < r.roles@.len(),
    ensures
        r.roles@[k].tokens.input == sums::sum_by(deltas, role_tokens(r.roles@[k].role@, Category::Input)),
        r.roles@[k].tokens.output == sums::sum_by(deltas, role_tokens(r.roles@[k].role@, Category::Output)),
        r.roles@[k].tokens.cache_read == sums::sum_by(deltas, role_tokens(r.roles@[k].role@, Category::CacheRead)),
        r.roles@[k].tokens.cache_write == sums::sum_by(deltas, role_tokens(r.roles@[k].role@, Category::CacheWrite)),
        r.roles@[k].tokens.reasoning == sums::sum_by(deltas, role_tokens(r.roles@[k].role@, Category::Reasoning)),
{
    let c = roles::credits(deltas, presence);
    let role = r.roles@[k].role@;
    let ids = roles::roles_of(c);
    let amounts = roles::tokens_of(c);
    assert(roles::breaks_down(r.roles@[k], c, roles::role_table(c)[k]));
    roles::lemma_role_line(c, role);
    sums::lemma_gather_bound(ids, amounts, role, tokens::sum_of());
    tally::lemma_total_is_exact(group::gather(ids, amounts, role));
    let t = r.roles@[k].tokens;
    assert(t == tally::total_of(group::gather(ids, amounts, role)));
    assert(t.count(Category::Input) == sums::sum_by(deltas, role_tokens(role, Category::Input))) by {
        lemma_role_sum(c, role, Category::Input);
        lemma_credits(deltas, presence, role, role, Category::Input);
    }
    assert(t.count(Category::Output) == sums::sum_by(deltas, role_tokens(role, Category::Output))) by {
        lemma_role_sum(c, role, Category::Output);
        lemma_credits(deltas, presence, role, role, Category::Output);
    }
    assert(t.count(Category::CacheRead) == sums::sum_by(deltas, role_tokens(role, Category::CacheRead))) by {
        lemma_role_sum(c, role, Category::CacheRead);
        lemma_credits(deltas, presence, role, role, Category::CacheRead);
    }
    assert(t.count(Category::CacheWrite) == sums::sum_by(deltas, role_tokens(role, Category::CacheWrite))) by {
        lemma_role_sum(c, role, Category::CacheWrite);
        lemma_credits(deltas, presence, role, role, Category::CacheWrite);
    }
    assert(t.count(Category::Reasoning) == sums::sum_by(deltas, role_tokens(role, Category::Reasoning))) by {
        lemma_role_sum(c, role, Category::Reasoning);
        lemma_credits(deltas, presence, role, role, Category::Reasoning);
    }
}

/// Roles with more tokens come first, no role is listed twice, and a role is listed exactly where a
/// series or a presence row names it.
pub proof fn roles_are_listed_once(
    r: AgentRolesResponse,
    deltas: Seq<CounterWindowDelta>,
    presence: Seq<Presence>,
    role: Seq<char>,
)
    requires
        is_breakdown(r, deltas, presence),
    ensures
        forall|j: int, k: int|
            0 <= j < k < r.roles@.len() ==> (#[trigger] r.roles@[j]).tokens.input + r.roles@[j].tokens.output
                + r.roles@[j].tokens.cache_read + r.roles@[j].tokens.cache_write + r.roles@[j].tokens.reasoning >= (
            #[trigger] r.roles@[k]).tokens.input + r.roles@[k].tokens.output + r.roles@[k].tokens.cache_read
                + r.roles@[k].tokens.cache_write + r.roles@[k].tokens.reasoning,
        forall|j: int, k: int|
            0 <= j < k < r.roles@.len() ==> (#[trigger] r.roles@[j]).role@ != (#[trigger] r.roles@[k]).role@,
        (exists|k: int| 0 <= k < r.roles@.len() && (#[trigger] r.roles@[k]).role@ == role) <==> (exists|i: int|
            0 <= i < deltas.len() && names(provider_laws::label((#[trigger] deltas[i]).labels@, "$.agent"@), role)) || (
        exists|i: int|
            0 <= i < presence.len() && names(text::optional((#[trigger] presence[i]).role), role)),
{
    let c = roles::credits(deltas, presence);
    let table = roles::role_table(c);
    let ids = roles::roles_of(c);
    let amounts = roles::tokens_of(c);
    let t = tally::tally(ids, amounts);
    roles::lemma_role_line(c, role);
    group::lemma_first_seen(ids);
    assert forall|i: int| 0 <= i < t.len() implies 0 <= (#[trigger] t[i]).1.sum() <= u64::MAX by {
        let seen = group::first_seen(ids);
        sums::lemma_gather_bound(ids, amounts, seen[i], tokens::sum_of());
        tally::lemma_total_is_exact(group::gather(ids, amounts, seen[i]));
    }
    tally::ranking_rearranges(t);
    assert forall|j: int, k: int| 0 <= j < k < r.roles@.len() implies (#[trigger] r.roles@[j]).tokens.sum() >= (
    #[trigger] r.roles@[k]).tokens.sum() by {
        assert(roles::breaks_down(r.roles@[j], c, table[j]));
        assert(roles::breaks_down(r.roles@[k], c, table[k]));
        assert(table[j].1.sum() >= table[k].1.sum());
    }
    let keys = tally::ranks(t);
    let order = order::sorting(keys);
    order::lemma_sorting(keys);
    order::sorting_is_a_rearrangement(keys, order);
    assert forall|j: int, k: int| 0 <= j < k < r.roles@.len() implies (#[trigger] r.roles@[j]).role@ != (
    #[trigger] r.roles@[k]).role@ by {
        assert(roles::breaks_down(r.roles@[j], c, table[j]));
        assert(roles::breaks_down(r.roles@[k], c, table[k]));
        assert(order[j] != order[k]);
        assert(table[j] == t[order[j] as int] && table[k] == t[order[k] as int]);
        assert(group::first_seen(ids)[order[j] as int] != group::first_seen(ids)[order[k] as int]);
    }
    if exists|k: int| 0 <= k < r.roles@.len() && (#[trigger] r.roles@[k]).role@ == role {
        let k = choose|k: int| 0 <= k < r.roles@.len() && (#[trigger] r.roles@[k]).role@ == role;
        assert(roles::breaks_down(r.roles@[k], c, table[k]));
        assert(table[k].0 == role);
        assert(ids.contains(role));
        let i = ids.index_of(role);
        if i < deltas.len() {
            provider_laws::lemma_labels(deltas[i].labels@);
            assert(c[i] == roles::usage_credit(deltas[i]));
        } else {
            assert(c[i] == roles::presence_credit(presence[i - deltas.len()]));
        }
    }
    if exists|i: int|
        0 <= i < deltas.len() && names(provider_laws::label((#[trigger] deltas[i]).labels@, "$.agent"@), role) {
        let i = choose|i: int|
            0 <= i < deltas.len() && names(provider_laws::label((#[trigger] deltas[i]).labels@, "$.agent"@), role);
        provider_laws::lemma_labels(deltas[i].labels@);
        assert(c[i] == roles::usage_credit(deltas[i]));
        assert(ids[i] == role);
        assert(ids.contains(role));
        let k = choose|k: int| 0 <= k < table.len() && (#[trigger] table[k]).0 == role;
        assert(roles::breaks_down(r.roles@[k], c, table[k]));
    }
    if exists|i: int| 0 <= i < presence.len() && names(text::optional((#[trigger] presence[i]).role), role) {
        let i = choose|i: int| 0 <= i < presence.len() && names(text::optional((#[trigger] presence[i]).role), role);
        assert(c[deltas.len() + i] == roles::presence_credit(presence[i]));
        assert(ids[deltas.len() + i] == role);
        assert(ids.contains(role));
        let k = choose|k: int| 0 <= k < table.len() && (#[trigger] table[k]).0 == role;
        assert(roles::breaks_down(r.roles@[k], c, table[k]));
    }
}

/// All tokens that the series report under a category's type.
pub open spec fn all_of(c: Category) -> spec_fn(CounterWindowDelta) -> int {
    |d: CounterWindowDelta|
        if provider_laws::label(d.labels@, "$.type"@) == Some(provider_laws::counter_type(c)) {
            d.delta as int
        } else {
            0int
        }
}

/// All tokens that the series report in a category.
pub open spec fn all_tokens(deltas: Seq<CounterWindowDelta>) -> int {
    sums::sum_by(deltas, all_of(Category::Input)) + sums::sum_by(deltas, all_of(Category::Output)) + sums::sum_by(
        deltas,
        all_of(Category::CacheRead),
    ) + sums::sum_by(deltas, all_of(Category::CacheWrite)) + sums::sum_by(deltas, all_of(Category::Reasoning))
}

/// The credits hold all tokens that the series report.
proof fn lemma_all_tokens(deltas: Seq<CounterWindowDelta>, presence: Seq<Presence>)
    ensures
        roles::all_tokens(roles::credits(deltas, presence)) == all_tokens(deltas),
    decreases presence.len(), deltas.len(),
{
    let c = roles::credits(deltas, presence);
    if presence.len() > 0 {
        let prior = presence.drop_last();
        lemma_all_tokens(deltas, prior);
        assert(c.drop_last() =~= roles::credits(deltas, prior));
        assert(roles::tokens_of(c).drop_last() =~= roles::tokens_of(c.drop_last()));
        assert(c.last() == roles::presence_credit(presence.last()));
        assert(roles::tokens_of(c).last() == RoleTokenUsage::zero());
    } else if deltas.len() > 0 {
        let prior = deltas.drop_last();
        let d = deltas.last();
        lemma_all_tokens(prior, presence);
        assert(c.drop_last() =~= roles::credits(prior, presence));
        assert(roles::tokens_of(c).drop_last() =~= roles::tokens_of(c.drop_last()));
        assert(c.last() == roles::usage_credit(d));
        assert(roles::tokens_of(c).last() == roles::usage_credit(d).tokens);
        provider_laws::lemma_labels(d.labels@);
        match counter::label_at(d.labels@, 2) {
            Some(kind) => {
                provider_laws::types_name_one_category(kind, Category::Input);
                provider_laws::types_name_one_category(kind, Category::Output);
                provider_laws::types_name_one_category(kind, Category::CacheRead);
                provider_laws::types_name_one_category(kind, Category::CacheWrite);
                provider_laws::types_name_one_category(kind, Category::Reasoning);
            },
            None => {},
        }
    } else {
        assert(roles::tokens_of(c) =~= Seq::<RoleTokenUsage>::empty());
    }
}

/// The share of a role is that of its tokens among all tokens in a category that the series report; the
/// unknown share is that of the role `unknown`, where that role is listed.
pub proof fn shares_are_of_all_tokens(
    r: AgentRolesResponse,
    deltas: Seq<CounterWindowDelta>,
    presence: Seq<Presence>,
    k: int,
)
    requires
        is_breakdown(r, deltas, presence),
        0 <= k < r.roles@.len(),
    ensures
        r.roles@[k].share is Some <==> all_tokens(deltas) > 0,
        r.roles@[k].share matches Some(s) ==> s.denominator == all_tokens(deltas) && s.numerator
            == r.roles@[k].tokens.input + r.roles@[k].tokens.output + r.roles@[k].tokens.cache_read
            + r.roles@[k].tokens.cache_write + r.roles@[k].tokens.reasoning,
        r.roles@[k].role@ == "unknown"@ ==> r.unknown_share == r.roles@[k].share,
{
    let c = roles::credits(deltas, presence);
    let role = r.roles@[k].role@;
    let ids = roles::roles_of(c);
    let amounts = roles::tokens_of(c);
    assert(roles::breaks_down(r.roles@[k], c, roles::role_table(c)[k]));
    lemma_all_tokens(deltas, presence);
    roles::lemma_role_line(c, role);
    sums::lemma_gather_bound(ids, amounts, role, tokens::sum_of());
    tally::lemma_total_is_exact(group::gather(ids, amounts, role));
}

/// At most five models are listed under a role, those with more tokens first, each with what the series
/// with the labels of the role and of the model report.
pub proof fn models_have_the_tokens_of_their_series(
    r: AgentRolesResponse,
    deltas: Seq<CounterWindowDelta>,
    presence: Seq<Presence>,
    k: int,
    m: int,
)
    requires
        is_breakdown(r, deltas, presence),
        0 <= k < r.roles@.len(),
        0 <= m < r.roles@[k].top_models@.len(),
    ensures
        r.roles@[k].top_models@.len() <= 5,
        forall|c: Category|
            (#[trigger] r.roles@[k].top_models@[m].tokens.count(c)) == sums::sum_by(
                deltas,
                model_tokens(r.roles@[k].role@, r.roles@[k].top_models@[m].name@, c),
            ),
        forall|l: int|
            0 <= l < m ==> (#[trigger] r.roles@[k].top_models@[l]).tokens.sum()
                >= r.roles@[k].top_models@[m].tokens.sum(),
{
    let credits = roles::credits(deltas, presence);
    let role = r.roles@[k].role@;
    let listed = r.roles@[k].top_models@;
    let model = listed[m].name@;
    assert(roles::breaks_down(r.roles@[k], credits, roles::role_table(credits)[k]));
    let own = roles::own(credits, role);
    let ids = roles::models_of(own);
    let amounts = roles::model_tokens_of(own);
    let t = tally::tally(ids, amounts);
    let all = tally::ranked(t);
    let seen = group::first_seen(ids);
    lemma_model_sum(credits, role, model, Category::Input);
    roles::lemma_own_bound(credits, role);
    group::lemma_first_seen(ids);
    assert forall|i: int| 0 <= i < t.len() implies 0 <= (#[trigger] t[i]).1.sum() <= u64::MAX by {
        sums::lemma_gather_bound(ids, amounts, seen[i], tokens::sum_of());
        tally::lemma_total_is_exact(group::gather(ids, amounts, seen[i]));
    }
    tally::ranking_rearranges(t);
    let views = tally::views(listed);
    assert(views.len() == listed.len());
    assert forall|l: int| 0 <= l < listed.len() implies all[l] == (listed[l].name@, #[trigger] listed[l].tokens) by {
        assert(views[l] == all[l]);
    }
    assert(all.contains(all[m]));
    assert(t.contains(all[m]));
    let i = t.index_of(all[m]);
    sums::lemma_gather_bound(ids, amounts, seen[i], tokens::sum_of());
    tally::lemma_total_is_exact(group::gather(ids, amounts, seen[i]));
    assert forall|c: Category|
        (#[trigger] listed[m].tokens.count(c)) == sums::sum_by(deltas, model_tokens(role, model, c)) by {
        lemma_model_sum(credits, role, model, c);
        lemma_credits(deltas, presence, role, model, c);
    }
    assert forall|l: int| 0 <= l < m implies (#[trigger] listed[l]).tokens.sum() >= listed[m].tokens.sum() by {
        assert(all[l] == (listed[l].name@, listed[l].tokens));
        assert(all[l].1.sum() >= all[m].1.sum());
    }
}

/// The sessions that the credits to a role name are those of the presence rows of the role.
proof fn lemma_sessions(deltas: Seq<CounterWindowDelta>, presence: Seq<Presence>, role: Seq<char>, session: Seq<char>)
    ensures
        roles::sessions_of(roles::own(roles::credits(deltas, presence), role)).contains(session) <==> exists|i: int|
            0 <= i < presence.len() && names(text::optional((#[trigger] presence[i]).role), role) && text::optional(
                presence[i].session,
            ) == Some(session),
    decreases presence.len(), deltas.len(),
{
    let c = roles::credits(deltas, presence);
    let own = roles::own(c, role);
    if presence.len() > 0 {
        let prior = presence.drop_last();
        let p = presence.last();
        lemma_sessions(deltas, prior, role, session);
        let before = roles::credits(deltas, prior);
        assert(c.drop_last() =~= before);
        assert(c.last() == roles::presence_credit(p));
        assert(roles::roles_of(c).drop_last() =~= roles::roles_of(before));
        let had = roles::sessions_of(roles::own(before, role));
        let has = roles::sessions_of(own);
        assert(presence[presence.len() - 1] == p);
        if names(text::optional(p.role), role) {
            assert(own.drop_last() =~= roles::own(before, role));
            if let Some(s) = text::optional(p.session) {
                assert(has =~= had.push(s));
                if s == session {
                    assert(has[had.len() as int] == session);
                }
            } else {
                assert(has =~= had);
            }
        } else {
            assert(own =~= roles::own(before, role));
        }
        if had.contains(session) {
            let j = had.index_of(session);
            assert(has[j] == session);
        }
        if has.contains(session) && !had.contains(session) {
            let j = has.index_of(session);
            if j < had.len() {
                assert(had[j] == session);
            }
        }
        if exists|i: int|
            0 <= i < prior.len() && names(text::optional((#[trigger] prior[i]).role), role) && text::optional(
                prior[i].session,
            ) == Some(session) {
            let i = choose|i: int|
                0 <= i < prior.len() && names(text::optional((#[trigger] prior[i]).role), role) && text::optional(
                    prior[i].session,
                ) == Some(session);
            assert(presence[i] == prior[i]);
        }
        if exists|i: int|
            0 <= i < presence.len() && names(text::optional((#[trigger] presence[i]).role), role)
                && text::optional(presence[i].session) == Some(session) {
            let i = choose|i: int|
                0 <= i < presence.len() && names(text::optional((#[trigger] presence[i]).role), role)
                    && text::optional(presence[i].session) == Some(session);
            if i < prior.len() {
                assert(prior[i] == presence[i]);
            }
        }
    } else if deltas.len() > 0 {
        let prior = deltas.drop_last();
        lemma_sessions(prior, presence, role, session);
        let before = roles::credits(prior, presence);
        assert(c.drop_last() =~= before);
        assert(c.last() == roles::usage_credit(deltas.last()));
        assert(roles::roles_of(c).drop_last() =~= roles::roles_of(before));
        if c.last().role == role {
            assert(own.drop_last() =~= roles::own(before, role));
        } else {
            assert(own =~= roles::own(before, role));
        }
        assert(roles::sessions_of(own) =~= roles::sessions_of(roles::own(before, role)));
    } else {
        assert(roles::sessions_of(own) =~= Seq::<Seq<char>>::empty());
    }
}

/// The sessions of a role are the distinct sessions of its presence rows.
pub proof fn sessions_are_those_of_the_presence_rows(
    r: AgentRolesResponse,
    deltas: Seq<CounterWindowDelta>,
    presence: Seq<Presence>,
    k: int,
)
    requires
        is_breakdown(r, deltas, presence),
        0 <= k < r.roles@.len(),
    ensures
        exists|sessions: Seq<Seq<char>>|
            r.roles@[k].sessions == sessions.len() && sessions.no_duplicates() && forall|s: Seq<char>| #[trigger]
                sessions.contains(s) <==> exists|i: int|
                    0 <= i < presence.len() && names(text::optional((#[trigger] presence[i]).role), r.roles@[k].role@)
                        && text::optional(presence[i].session) == Some(s),
{
    let c = roles::credits(deltas, presence);
    let role = r.roles@[k].role@;
    assert(roles::breaks_down(r.roles@[k], c, roles::role_table(c)[k]));
    let all = roles::sessions_of(roles::own(c, role));
    let sessions = group::first_seen(all);
    group::lemma_first_seen(all);
    assert forall|s: Seq<char>| #[trigger] sessions.contains(s) <==> exists|i: int|
        0 <= i < presence.len() && names(text::optional((#[trigger] presence[i]).role), role) && text::optional(
            presence[i].session,
        ) == Some(s) by {
        lemma_sessions(deltas, presence, role, s);
    }
}

} // verus!

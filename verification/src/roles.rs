//! Attribution of token usage to sub-agent roles.
//!
//! Tokens come from the windowed usage of a cumulative counter; which sessions and models a role took
//! part in comes from rows that only show presence.
use crate::counter;
use crate::counter::CounterWindowDelta;
use crate::group;
use crate::ratio;
use crate::ratio::Ratio;
use crate::sums;
use crate::tally;
use crate::tally::{Named, NamedTokens};
use crate::text;
use crate::tokens;
use crate::tokens::RoleTokenUsage;
use vstd::prelude::*;

verus! {

/// A row that shows a role at work, with the model and the session where they are known.
pub struct Presence {
    pub role: Option<String>,
    pub model: Option<String>,
    pub session: Option<String>,
}

/// What one row says of a role.
struct RoleCredit {
    role: String,
    model: Option<String>,
    session: Option<String>,
    tokens: RoleTokenUsage,
}

/// What one row says of a role.
pub ghost struct RoleCreditView {
    pub role: Seq<char>,
    pub model: Option<Seq<char>>,
    pub session: Option<Seq<char>>,
    pub tokens: RoleTokenUsage,
}

impl View for RoleCredit {
    type V = RoleCreditView;

    closed spec fn view(&self) -> RoleCreditView {
        RoleCreditView {
            role: self.role@,
            model: text::optional(self.model),
            session: text::optional(self.session),
            tokens: self.tokens,
        }
    }
}

/// The name of a role or a model that may be missing.
pub open spec fn name_or_unknown(name: Option<Seq<char>>) -> Seq<char> {
    match name {
        Some(n) => n,
        None => "unknown"@,
    }
}

fn or_unknown(name: Option<String>) -> (n: String)
    ensures
        n@ == name_or_unknown(text::optional(name)),
{
    match name {
        Some(n) => n,
        None => "unknown".to_owned(),
    }
}

/// What the usage of one series says: its labels are the role, the model, the token type and the
/// session.
pub open spec fn usage_credit(d: CounterWindowDelta) -> RoleCreditView {
    RoleCreditView {
        role: name_or_unknown(counter::label_at(d.labels@, 0)),
        model: Some(name_or_unknown(counter::label_at(d.labels@, 1))),
        session: None,
        tokens: tokens::of_category(tokens::opencode_category(counter::label_at(d.labels@, 2)), d.delta),
    }
}

/// What a presence row says: no tokens.
pub open spec fn presence_credit(p: Presence) -> RoleCreditView {
    RoleCreditView {
        role: name_or_unknown(text::optional(p.role)),
        model: text::optional(p.model),
        session: text::optional(p.session),
        tokens: RoleTokenUsage::zero(),
    }
}

/// What all rows say.
pub open spec fn credits(deltas: Seq<CounterWindowDelta>, presence: Seq<Presence>) -> Seq<RoleCreditView> {
    Seq::new(deltas.len(), |i: int| usage_credit(deltas[i])) + Seq::new(
        presence.len(),
        |i: int| presence_credit(presence[i]),
    )
}

/// The role of each credit.
pub open spec fn roles_of(credits: Seq<RoleCreditView>) -> Seq<Seq<char>> {
    Seq::new(credits.len(), |i: int| credits[i].role)
}

/// The tokens of each credit.
pub open spec fn tokens_of(credits: Seq<RoleCreditView>) -> Seq<RoleTokenUsage> {
    Seq::new(credits.len(), |i: int| credits[i].tokens)
}

/// The models that the credits name.
pub open spec fn models_of(credits: Seq<RoleCreditView>) -> Seq<Seq<char>>
    decreases credits.len(),
{
    if credits.len() == 0 {
        Seq::empty()
    } else {
        match credits.last().model {
            Some(m) => models_of(credits.drop_last()).push(m),
            None => models_of(credits.drop_last()),
        }
    }
}

/// The tokens of the credits that name a model.
pub open spec fn model_tokens_of(credits: Seq<RoleCreditView>) -> Seq<RoleTokenUsage>
    decreases credits.len(),
{
    if credits.len() == 0 {
        Seq::empty()
    } else if credits.last().model is Some {
        model_tokens_of(credits.drop_last()).push(credits.last().tokens)
    } else {
        model_tokens_of(credits.drop_last())
    }
}

/// The sessions that the credits name.
pub open spec fn sessions_of(credits: Seq<RoleCreditView>) -> Seq<Seq<char>>
    decreases credits.len(),
{
    if credits.len() == 0 {
        Seq::empty()
    } else {
        match credits.last().session {
            Some(s) => sessions_of(credits.drop_last()).push(s),
            None => sessions_of(credits.drop_last()),
        }
    }
}

/// The credits of one role.
pub open spec fn own(credits: Seq<RoleCreditView>, role: Seq<char>) -> Seq<RoleCreditView> {
    group::gather(roles_of(credits), credits, role)
}

/// The roles and their tokens, the most tokens first.
pub open spec fn role_table(credits: Seq<RoleCreditView>) -> Seq<Named> {
    tally::ranked(tally::tally(roles_of(credits), tokens_of(credits)))
}

/// The five models that a role used most, or all of them where there are fewer.
pub open spec fn top_models(credits: Seq<RoleCreditView>, role: Seq<char>) -> Seq<Named> {
    let all = tally::ranked(
        tally::tally(models_of(own(credits, role)), model_tokens_of(own(credits, role))),
    );
    if all.len() <= 5 {
        all
    } else {
        all.take(5)
    }
}

/// The number of tokens that all credits hold.
pub open spec fn all_tokens(credits: Seq<RoleCreditView>) -> int {
    sums::sum_by(tokens_of(credits), tokens::sum_of())
}

/// Token usage of one role.
pub struct AgentRoleBreakdown {
    pub role: String,
    pub tokens: RoleTokenUsage,
    /// The number of distinct sessions.
    pub sessions: u64,
    /// The role's share of all tokens.
    pub share: Option<Ratio>,
    pub top_models: Vec<NamedTokens>,
}

/// Token usage by role.
pub struct AgentRolesResponse {
    pub roles: Vec<AgentRoleBreakdown>,
    /// The share of the tokens that no role is known for.
    pub unknown_share: Option<Ratio>,
    /// The agents whose telemetry names roles.
    pub agents_covered: Vec<String>,
}

/// The breakdown is that of one line of the role table.
pub open spec fn breaks_down(b: AgentRoleBreakdown, credits: Seq<RoleCreditView>, line: Named) -> bool {
    &&& b.role@ == line.0
    &&& b.tokens == line.1
    &&& b.sessions == group::first_seen(sessions_of(own(credits, line.0))).len()
    &&& b.share == ratio::ratio(line.1.sum(), all_tokens(credits))
    &&& tally::views(b.top_models@) == top_models(credits, line.0)
}

/// The share of the tokens under the role `unknown`, where that role occurs.
pub open spec fn unknown_share(credits: Seq<RoleCreditView>) -> Option<Ratio> {
    if roles_of(credits).contains("unknown"@) {
        ratio::ratio(
            tally::total_of(group::gather(roles_of(credits), tokens_of(credits), "unknown"@)).sum(),
            all_tokens(credits),
        )
    } else {
        None
    }
}

/// What some credits say.
spec fn views(credits: Seq<RoleCredit>) -> Seq<RoleCreditView> {
    Seq::new(credits.len(), |i: int| credits[i]@)
}

/// Reads all rows.
fn read_credits(deltas: &Vec<CounterWindowDelta>, presence: &Vec<Presence>) -> (out: Vec<RoleCredit>)
    ensures
        views(out@) == credits(deltas@, presence@),
{
    let mut out: Vec<RoleCredit> = Vec::new();
    let mut i: usize = 0;
    while i < deltas.len()
        invariant
            i <= deltas@.len(),
            out@.len() == i,
            forall|j: int| 0 <= j < i ==> (#[trigger] out@[j])@ == usage_credit(deltas@[j]),
        decreases deltas@.len() - i,
    {
        let d = &deltas[i];
        let kind = counter::copy_label(&d.labels, 2);
        let category = tokens::find_opencode_category(&kind);
        out.push(
            RoleCredit {
                role: or_unknown(counter::copy_label(&d.labels, 0)),
                model: Some(or_unknown(counter::copy_label(&d.labels, 1))),
                session: None,
                tokens: tokens::tokens_in_category(category, d.delta),
            },
        );
        i = i + 1;
    }
    let n: usize = deltas.len();
    i = 0;
    while i < presence.len()
        invariant
            i <= presence@.len(),
            n == deltas@.len(),
            out@.len() == n + i,
            forall|j: int| 0 <= j < n ==> (#[trigger] out@[j])@ == usage_credit(deltas@[j]),
            forall|j: int| n <= j < n + i ==> (#[trigger] out@[j])@ == presence_credit(presence@[j - n]),
        decreases presence@.len() - i,
    {
        let p = &presence[i];
        out.push(
            RoleCredit {
                role: or_unknown(text::copy_optional(&p.role)),
                model: text::copy_optional(&p.model),
                session: text::copy_optional(&p.session),
                tokens: RoleTokenUsage::default(),
            },
        );
        i = i + 1;
    }
    assert(views(out@) =~= credits(deltas@, presence@));
    out
}

/// The models, the tokens beside them, and the sessions of one role.
struct RoleParts {
    models: Vec<String>,
    tokens: Vec<RoleTokenUsage>,
    sessions: Vec<String>,
}

fn role_parts(credits: &Vec<RoleCredit>, role: &String) -> (parts: RoleParts)
    ensures
        group::ids(parts.models@) == models_of(own(views(credits@), role@)),
        parts.tokens@ == model_tokens_of(own(views(credits@), role@)),
        group::ids(parts.sessions@) == sessions_of(own(views(credits@), role@)),
{
    let ghost c = views(credits@);
    let ghost ids = roles_of(c);
    let mut models: Vec<String> = Vec::new();
    let mut toks: Vec<RoleTokenUsage> = Vec::new();
    let mut sessions: Vec<String> = Vec::new();
    let mut i: usize = 0;
    proof {
        assert(group::gather(ids.take(0), c.take(0), role@) =~= Seq::<RoleCreditView>::empty());
        assert(group::ids(models@) =~= Seq::<Seq<char>>::empty());
        assert(group::ids(sessions@) =~= Seq::<Seq<char>>::empty());
        assert(toks@ =~= Seq::<RoleTokenUsage>::empty());
    }
    while i < credits.len()
        invariant
            i <= credits@.len(),
            c == views(credits@),
            ids == roles_of(c),
            group::ids(models@) == models_of(group::gather(ids.take(i as int), c.take(i as int), role@)),
            toks@ == model_tokens_of(group::gather(ids.take(i as int), c.take(i as int), role@)),
            group::ids(sessions@) == sessions_of(
                group::gather(ids.take(i as int), c.take(i as int), role@),
            ),
        decreases credits@.len() - i,
    {
        let credit = &credits[i];
        let ghost had = group::gather(ids.take(i as int), c.take(i as int), role@);
        let ghost has = group::gather(ids.take(i + 1), c.take(i + 1), role@);
        proof {
            assert(ids.take(i + 1).drop_last() =~= ids.take(i as int));
            assert(c.take(i + 1).drop_last() =~= c.take(i as int));
            assert(has == if ids[i as int] == role@ { had.push(c[i as int]) } else { had });
            assert(had.push(c[i as int]).drop_last() =~= had);
        }
        if text::same_text(credit.role.as_str(), role.as_str()) {
            let ghost m = models@;
            let ghost s = sessions@;
            if let Some(model) = &credit.model {
                models.push(model.clone());
                toks.push(credit.tokens);
                assert(group::ids(models@) =~= group::ids(m).push(model@));
            }
            if let Some(session) = &credit.session {
                sessions.push(session.clone());
                assert(group::ids(sessions@) =~= group::ids(s).push(session@));
            }
        }
        i = i + 1;
    }
    assert(ids.take(i as int) =~= ids);
    assert(c.take(i as int) =~= c);
    RoleParts { models, tokens: toks, sessions }
}

/// The first five lines.
fn first_five(all: Vec<NamedTokens>) -> (top: Vec<NamedTokens>)
    ensures
        tally::views(top@) == if all@.len() <= 5 {
            tally::views(all@)
        } else {
            tally::views(all@).take(5)
        },
{
    let ghost a = all@;
    let mut top = all;
    if top.len() > 5 {
        top.truncate(5);
        assert(tally::views(top@) =~= tally::views(a).take(5));
    }
    top
}

/// A role's own tokens are no more than all tokens, also counted by model.
pub proof fn lemma_own_bound(c: Seq<RoleCreditView>, role: Seq<char>)
    ensures
        0 <= sums::sum_by(model_tokens_of(own(c, role)), tokens::sum_of()) <= all_tokens(c),
        models_of(own(c, role)).len() == model_tokens_of(own(c, role)).len(),
    decreases c.len(),
{
    if c.len() > 0 {
        let prior = c.drop_last();
        lemma_own_bound(prior, role);
        assert(roles_of(c).drop_last() =~= roles_of(prior));
        assert(tokens_of(c).drop_last() =~= tokens_of(prior));
        let had = own(prior, role);
        if c.last().role == role {
            assert(own(c, role) == had.push(c.last()));
            assert(had.push(c.last()).drop_last() =~= had);
            if c.last().model is Some {
                sums::lemma_sum_by_push(model_tokens_of(had), c.last().tokens, tokens::sum_of());
            }
        }
    } else {
        assert(own(c, role) =~= Seq::<RoleCreditView>::empty());
        assert(tokens_of(c) =~= Seq::<RoleTokenUsage>::empty());
    }
}

/// Attributes token usage to roles.
pub fn agent_roles(deltas: &Vec<CounterWindowDelta>, presence: &Vec<Presence>) -> (r: AgentRolesResponse)
    requires
        all_tokens(credits(deltas@, presence@)) <= u64::MAX,
    ensures
        ({
            let c = credits(deltas@, presence@);
            &&& r.roles@.len() == role_table(c).len()
            &&& forall|k: int|
                0 <= k < r.roles@.len() ==> breaks_down(#[trigger] r.roles@[k], c, role_table(c)[k])
            &&& r.unknown_share == unknown_share(c)
            &&& r.agents_covered@.len() == 1
            &&& r.agents_covered@[0]@ == "opencode"@
        }),
{
    let all = read_credits(deltas, presence);
    let ghost c = credits(deltas@, presence@);
    let mut names: Vec<String> = Vec::new();
    let mut amounts: Vec<RoleTokenUsage> = Vec::new();
    let mut i: usize = 0;
    while i < all.len()
        invariant
            i <= all@.len(),
            c == views(all@),
            names@.len() == i,
            amounts@.len() == i,
            forall|j: int| 0 <= j < i ==> (#[trigger] names@[j])@ == roles_of(c)[j],
            forall|j: int| 0 <= j < i ==> #[trigger] amounts@[j] == tokens_of(c)[j],
        decreases all@.len() - i,
    {
        names.push(all[i].role.clone());
        amounts.push(all[i].tokens);
        i = i + 1;
    }
    assert(group::ids(names@) =~= roles_of(c));
    assert(amounts@ =~= tokens_of(c));
    let total: u64 = tokens::sum_tokens(&amounts).total();
    let table = tally::rank_tokens(&tally::tally_tokens(&names, &amounts));
    let mut roles: Vec<AgentRoleBreakdown> = Vec::new();
    let mut unknown: Option<Ratio> = None;
    let mut found = false;
    let mut k: usize = 0;
    while k < table.len()
        invariant
            k <= table@.len(),
            c == views(all@),
            all_tokens(c) <= u64::MAX,
            total == all_tokens(c),
            tally::views(table@) == role_table(c),
            forall|j: int| 0 <= j < table@.len() ==> (#[trigger] table@[j]).tokens.sum() <= u64::MAX,
            roles@.len() == k,
            forall|j: int| 0 <= j < k ==> breaks_down(#[trigger] roles@[j], c, role_table(c)[j]),
            !found ==> unknown is None && forall|j: int| 0 <= j < k ==> (#[trigger] role_table(c)[j]).0 != "unknown"@,
            found ==> exists|j: int|
                0 <= j < k && (#[trigger] role_table(c)[j]).0 == "unknown"@ && unknown == ratio::ratio(
                    role_table(c)[j].1.sum(),
                    all_tokens(c),
                ),
        decreases table@.len() - k,
    {
        let line = &table[k];
        assert(role_table(c)[k as int] == (line.name@, line.tokens));
        proof {
            lemma_own_bound(c, line.name@);
        }
        let parts = role_parts(&all, &line.name);
        let models = tally::rank_tokens(&tally::tally_tokens(&parts.models, &parts.tokens));
        let ghost ranked_models = models@;
        let top = first_five(models);
        let share = ratio::make_ratio(line.tokens.total(), total);
        if !found && text::same_text(line.name.as_str(), "unknown") {
            found = true;
            unknown = share;
        }
        let sessions: usize = tally::count_distinct(&parts.sessions);
        roles.push(
            AgentRoleBreakdown {
                role: line.name.clone(),
                tokens: line.tokens,
                sessions: sessions as u64,
                share,
                top_models: top,
            },
        );
        k = k + 1;
    }
    proof {
        lemma_unknown_line(c, unknown, found, all@.len() as int);
    }
    let mut covered: Vec<String> = Vec::new();
    covered.push("opencode".to_owned());
    AgentRolesResponse { roles, unknown_share: unknown, agents_covered: covered }
}

/// The role table lists a role where, and only where, a credit names it, with its own tokens.
pub proof fn lemma_role_line(c: Seq<RoleCreditView>, role: Seq<char>)
    requires
        all_tokens(c) <= u64::MAX,
        c.len() <= usize::MAX,
    ensures
        roles_of(c).contains(role) <==> exists|k: int| 0 <= k < role_table(c).len() && (#[trigger] role_table(c)[k]).0 == role,
        forall|k: int|
            0 <= k < role_table(c).len() ==> (#[trigger] role_table(c)[k]).1 == tally::total_of(
                group::gather(roles_of(c), tokens_of(c), role_table(c)[k].0),
            ),
{
    let names = roles_of(c);
    let amounts = tokens_of(c);
    let t = tally::tally(names, amounts);
    let seen = group::first_seen(names);
    group::lemma_first_seen(names);
    assert forall|i: int| 0 <= i < t.len() implies 0 <= (#[trigger] t[i]).1.sum() <= u64::MAX by {
        sums::lemma_gather_bound(names, amounts, seen[i], tokens::sum_of());
        tally::lemma_total_is_exact(group::gather(names, amounts, seen[i]));
    }
    tally::ranking_rearranges(t);
    let r = role_table(c);
    if names.contains(role) {
        assert(seen.contains(role));
        let i = seen.index_of(role);
        assert(t[i].0 == role);
        assert(t.contains(t[i]));
        assert(r.contains(t[i]));
        let k = r.index_of(t[i]);
        assert(r[k].0 == role);
    }
    assert forall|k: int| 0 <= k < r.len() implies (#[trigger] r[k]).1 == tally::total_of(
        group::gather(names, amounts, r[k].0),
    ) && names.contains(r[k].0) by {
        assert(r.contains(r[k]));
        assert(t.contains(r[k]));
        let i = t.index_of(r[k]);
        assert(seen.contains(seen[i]));
    }
}

/// The share found in the role table is the share under the role `unknown`.
proof fn lemma_unknown_line(c: Seq<RoleCreditView>, unknown: Option<Ratio>, found: bool, n: int)
    requires
        c.len() == n <= usize::MAX,
        all_tokens(c) <= u64::MAX,
        !found ==> unknown is None && forall|j: int|
            0 <= j < role_table(c).len() ==> (#[trigger] role_table(c)[j]).0 != "unknown"@,
        found ==> exists|j: int|
            0 <= j < role_table(c).len() && (#[trigger] role_table(c)[j]).0 == "unknown"@ && unknown
                == ratio::ratio(role_table(c)[j].1.sum(), all_tokens(c)),
    ensures
        unknown == unknown_share(c),
{
    lemma_role_line(c, "unknown"@);
}

/// The shares have one denominator, and their numerators add up to it.
pub proof fn shares_add_up(c: Seq<RoleCreditView>)
    requires
        all_tokens(c) <= u64::MAX,
        c.len() <= usize::MAX,
    ensures
        tally::grand_total(role_table(c)) == all_tokens(c),
{
    let names = roles_of(c);
    let amounts = tokens_of(c);
    let t = tally::tally(names, amounts);
    group::lemma_first_seen(names);
    assert forall|i: int| 0 <= i < t.len() implies 0 <= (#[trigger] t[i]).1.sum() <= u64::MAX by {
        sums::lemma_gather_bound(names, amounts, group::first_seen(names)[i], tokens::sum_of());
        tally::lemma_total_is_exact(group::gather(names, amounts, group::first_seen(names)[i]));
    }
    tally::ranking_rearranges(t);
    tally::tally_keeps_the_total(names, amounts);
}

} // verus!

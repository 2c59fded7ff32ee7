//! Token counts by name.
use crate::group;
use crate::group::Key;
use crate::order;
use crate::order::LargestFirst;
use crate::sums;
use crate::tokens;
use crate::tokens::{Category, RoleTokenUsage};
use vstd::prelude::*;

verus! {

/// A name and the tokens under it.
pub struct NamedTokens {
    pub name: String,
    pub tokens: RoleTokenUsage,
}

/// What a name and its tokens say.
pub type Named = (Seq<char>, RoleTokenUsage);

/// What some names and their tokens say.
pub open spec fn views(named: Seq<NamedTokens>) -> Seq<Named> {
    Seq::new(named.len(), |i: int| (named[i].name@, named[i].tokens))
}

/// The token counts of all parts, category by category.
pub open spec fn total_of(parts: Seq<RoleTokenUsage>) -> RoleTokenUsage {
    RoleTokenUsage {
        input: sums::sum_by(parts, tokens::count_of(Category::Input)) as u64,
        output: sums::sum_by(parts, tokens::count_of(Category::Output)) as u64,
        cache_read: sums::sum_by(parts, tokens::count_of(Category::CacheRead)) as u64,
        cache_write: sums::sum_by(parts, tokens::count_of(Category::CacheWrite)) as u64,
        reasoning: sums::sum_by(parts, tokens::count_of(Category::Reasoning)) as u64,
    }
}

/// The tokens under each distinct name, in the order in which the names first occur.
pub open spec fn tally(names: Seq<Seq<char>>, amounts: Seq<RoleTokenUsage>) -> Seq<Named> {
    Seq::new(
        group::first_seen(names).len(),
        |g: int|
            (
                group::first_seen(names)[g],
                total_of(group::gather(names, amounts, group::first_seen(names)[g])),
            ),
    )
}

/// How names rank: the most tokens first.
pub open spec fn ranks(named: Seq<Named>) -> Seq<LargestFirst> {
    Seq::new(named.len(), |i: int| LargestFirst(named[i].1.sum() as u128))
}

/// The names with the most tokens first; names with equally many keep their order.
pub open spec fn ranked(named: Seq<Named>) -> Seq<Named> {
    Seq::new(named.len(), |k: int| named[order::sorting(ranks(named))[k] as int])
}

/// The number of tokens under all names.
pub open spec fn grand_total(named: Seq<Named>) -> int {
    sums::sum(Seq::new(named.len(), |i: int| named[i].1.sum()))
}

/// The number of tokens under a name, as a function.
pub open spec fn named_sum() -> spec_fn(Named) -> int {
    |n: Named| n.1.sum()
}

/// The number of tokens under all names is the sum over the names.
pub proof fn lemma_grand_total(named: Seq<Named>)
    ensures
        grand_total(named) == sums::sum_by(named, named_sum()),
{
    sums::lemma_same_sums(named, named_sum(), Seq::new(named.len(), |i: int| named[i].1.sum()));
}

/// Adds up the tokens under all names.
pub fn sum_named(named: &Vec<NamedTokens>) -> (total: u64)
    requires
        grand_total(views(named@)) <= u64::MAX,
    ensures
        total == grand_total(views(named@)),
{
    let ghost v = views(named@);
    let mut total: u64 = 0;
    let mut i: usize = 0;
    proof {
        lemma_grand_total(v);
    }
    while i < named.len()
        invariant
            i <= named@.len(),
            v == views(named@),
            sums::sum_by(v, named_sum()) <= u64::MAX,
            total == sums::sum_by(v.take(i as int), named_sum()),
        decreases named@.len() - i,
    {
        proof {
            sums::lemma_sum_by_prefix(v, i as int, named_sum());
            sums::lemma_sum_by_prefix(v, i + 1, named_sum());
            sums::lemma_sum_by_take(v, i as int, named_sum());
        }
        total = total + named[i].tokens.total();
        i = i + 1;
    }
    assert(v.take(i as int) =~= v);
    total
}

/// Token counts that add up are the total.
pub proof fn lemma_total_of(t: RoleTokenUsage, parts: Seq<RoleTokenUsage>)
    requires
        tokens::adds_up(t, parts),
    ensures
        t == total_of(parts),
{
    assert(t.count(Category::Input) == t.input);
    assert(t.count(Category::Output) == t.output);
    assert(t.count(Category::CacheRead) == t.cache_read);
    assert(t.count(Category::CacheWrite) == t.cache_write);
    assert(t.count(Category::Reasoning) == t.reasoning);
}

/// The sums of the categories add up to the sum over all categories.
pub proof fn lemma_sum_of_categories(parts: Seq<RoleTokenUsage>)
    ensures
        sums::sum_by(parts, tokens::sum_of()) == sums::sum_by(parts, tokens::count_of(Category::Input))
            + sums::sum_by(parts, tokens::count_of(Category::Output)) + sums::sum_by(
            parts,
            tokens::count_of(Category::CacheRead),
        ) + sums::sum_by(parts, tokens::count_of(Category::CacheWrite)) + sums::sum_by(
            parts,
            tokens::count_of(Category::Reasoning),
        ),
        forall|c: Category| sums::sum_by(parts, #[trigger] tokens::count_of(c)) >= 0,
    decreases parts.len(),
{
    if parts.len() > 0 {
        lemma_sum_of_categories(parts.drop_last());
        assert forall|c: Category| sums::sum_by(parts, #[trigger] tokens::count_of(c)) >= 0 by {
            assert(sums::sum_by(parts.drop_last(), tokens::count_of(c)) >= 0);
        }
    }
}

/// Where the number of tokens fits, each category of the total is the exact sum.
pub proof fn lemma_total_is_exact(parts: Seq<RoleTokenUsage>)
    requires
        sums::sum_by(parts, tokens::sum_of()) <= u64::MAX,
    ensures
        tokens::adds_up(total_of(parts), parts),
        total_of(parts).sum() == sums::sum_by(parts, tokens::sum_of()),
{
    lemma_sum_of_categories(parts);
    assert(sums::sum_by(parts, tokens::count_of(Category::Input)) >= 0);
    assert(sums::sum_by(parts, tokens::count_of(Category::Output)) >= 0);
    assert(sums::sum_by(parts, tokens::count_of(Category::CacheRead)) >= 0);
    assert(sums::sum_by(parts, tokens::count_of(Category::CacheWrite)) >= 0);
    assert(sums::sum_by(parts, tokens::count_of(Category::Reasoning)) >= 0);
}

/// Adds up the tokens under each name.
pub fn tally_tokens(names: &Vec<String>, amounts: &Vec<RoleTokenUsage>) -> (out: Vec<NamedTokens>)
    requires
        names@.len() == amounts@.len(),
        sums::sum_by(amounts@, tokens::sum_of()) <= u64::MAX,
    ensures
        views(out@) == tally(group::ids(names@), amounts@),
        forall|i: int| 0 <= i < out@.len() ==> (#[trigger] out@[i]).tokens.sum() <= u64::MAX,
{
    let ghost ids = group::ids(names@);
    let groups = group::group_values(names, amounts);
    proof {
        assert forall|g: int| 0 <= g < groups@.len() implies sums::sum_by(
            (#[trigger] groups@[g]).members@,
            tokens::sum_of(),
        ) <= u64::MAX by {
            sums::lemma_gather_bound(ids, amounts@, groups@[g].key.id(), tokens::sum_of());
        }
    }
    let totals = tokens::group_totals(&groups);
    let mut out: Vec<NamedTokens> = Vec::new();
    let mut g: usize = 0;
    while g < groups.len()
        invariant
            g <= groups@.len(),
            ids == group::ids(names@),
            group::is_grouping(groups@, ids, amounts@),
            totals@.len() == groups@.len(),
            forall|h: int|
                0 <= h < groups@.len() ==> {
                    &&& tokens::adds_up(#[trigger] totals@[h], groups@[h].members@)
                    &&& totals@[h].sum() == sums::sum_by(groups@[h].members@, tokens::sum_of())
                },
            forall|h: int|
                0 <= h < groups@.len() ==> sums::sum_by((#[trigger] groups@[h]).members@, tokens::sum_of())
                    <= u64::MAX,
            out@.len() == g,
            forall|h: int|
                0 <= h < g ==> {
                    &&& ((#[trigger] out@[h]).name@, out@[h].tokens) == tally(ids, amounts@)[h]
                    &&& out@[h].tokens.sum() <= u64::MAX
                },
        decreases groups@.len() - g,
    {
        proof {
            lemma_total_of(totals@[g as int], groups@[g as int].members@);
            assert(groups@[g as int].key.id() == group::first_seen(ids)[g as int]);
        }
        out.push(NamedTokens { name: groups[g].key.clone(), tokens: totals[g] });
        g = g + 1;
    }
    assert(views(out@) =~= tally(ids, amounts@));
    out
}

/// Lists the names with the most tokens first.
pub fn rank_tokens(named: &Vec<NamedTokens>) -> (out: Vec<NamedTokens>)
    requires
        forall|i: int| 0 <= i < named@.len() ==> (#[trigger] named@[i]).tokens.sum() <= u64::MAX,
    ensures
        views(out@) == ranked(views(named@)),
        forall|i: int| 0 <= i < out@.len() ==> (#[trigger] out@[i]).tokens.sum() <= u64::MAX,
{
    let ghost v = views(named@);
    let mut keys: Vec<LargestFirst> = Vec::new();
    let mut i: usize = 0;
    while i < named.len()
        invariant
            i <= named@.len(),
            v == views(named@),
            forall|j: int| 0 <= j < named@.len() ==> (#[trigger] named@[j]).tokens.sum() <= u64::MAX,
            keys@.len() == i,
            forall|j: int| 0 <= j < i ==> #[trigger] keys@[j] == ranks(v)[j],
        decreases named@.len() - i,
    {
        keys.push(LargestFirst(named[i].tokens.total() as u128));
        i = i + 1;
    }
    assert(keys@ =~= ranks(v));
    let order = order::order_of(&keys);
    let mut out: Vec<NamedTokens> = Vec::new();
    let mut k: usize = 0;
    while k < order.len()
        invariant
            k <= order@.len(),
            v == views(named@),
            order@ == order::sorting(ranks(v)),
            order::sorts(ranks(v), order@),
            forall|j: int| 0 <= j < named@.len() ==> (#[trigger] named@[j]).tokens.sum() <= u64::MAX,
            out@.len() == k,
            forall|j: int|
                0 <= j < k ==> {
                    &&& ((#[trigger] out@[j]).name@, out@[j].tokens) == ranked(v)[j]
                    &&& out@[j].tokens.sum() <= u64::MAX
                },
        decreases order@.len() - k,
    {
        let at: usize = order[k];
        assert(v[at as int] == (named@[at as int].name@, named@[at as int].tokens));
        out.push(NamedTokens { name: named[at].name.clone(), tokens: named[at].tokens });
        k = k + 1;
    }
    assert(views(out@) =~= ranked(v));
    out
}

/// Ranking only rearranges: no name is lost or listed twice, tokens fall from one to the next, and the
/// number of tokens stays.
pub proof fn ranking_rearranges(named: Seq<Named>)
    requires
        named.len() <= usize::MAX,
        forall|i: int| 0 <= i < named.len() ==> 0 <= (#[trigger] named[i]).1.sum() <= u64::MAX,
    ensures
        ranked(named).len() == named.len(),
        forall|j: int, k: int|
            0 <= j < k < named.len() ==> (#[trigger] ranked(named)[j]).1.sum() >= (#[trigger] ranked(
                named,
            )[k]).1.sum(),
        forall|n: Named| #[trigger] ranked(named).contains(n) <==> named.contains(n),
        grand_total(ranked(named)) == grand_total(named),
{
    let keys = ranks(named);
    let order = order::sorting(keys);
    order::lemma_sorting(keys);
    order::sorting_is_a_rearrangement(keys, order);
    let r = ranked(named);
    assert forall|j: int, k: int| 0 <= j < k < named.len() implies (#[trigger] r[j]).1.sum() >= (#[trigger] r[k]).1.sum() by {
        assert(order::precedes(keys, order[j] as int, order[k] as int));
    }
    assert forall|n: Named| #[trigger] r.contains(n) <==> named.contains(n) by {
        if named.contains(n) {
            let i = named.index_of(n);
            assert(order.contains(i as usize));
            let p = order.index_of(i as usize);
            assert(r[p] == n);
        }
        if r.contains(n) {
            let p = r.index_of(n);
            assert(named[order[p] as int] == n);
        }
    }
    let amounts = Seq::new(named.len(), |i: int| named[i].1.sum());
    let positions = Seq::new(order.len(), |k: int| order[k] as int);
    sums::lemma_sum_rearranged(amounts, positions);
    assert(sums::picked(amounts, positions) =~= Seq::new(r.len(), |i: int| r[i].1.sum()));
}

/// A tally holds all tokens: the names add up to what was tallied.
pub proof fn tally_keeps_the_total(names: Seq<Seq<char>>, amounts: Seq<RoleTokenUsage>)
    requires
        names.len() == amounts.len(),
        sums::sum_by(amounts, tokens::sum_of()) <= u64::MAX,
    ensures
        grand_total(tally(names, amounts)) == sums::sum_by(amounts, tokens::sum_of()),
{
    sums::groups_keep_the_total(names, amounts, tokens::sum_of());
    let t = tally(names, amounts);
    assert(Seq::new(t.len(), |i: int| t[i].1.sum()) =~= sums::group_sums(names, amounts, tokens::sum_of())) by {
        assert forall|i: int| 0 <= i < t.len() implies (#[trigger] t[i]).1.sum() == sums::group_sums(
            names,
            amounts,
            tokens::sum_of(),
        )[i] by {
            let own = group::gather(names, amounts, group::first_seen(names)[i]);
            sums::lemma_gather_bound(names, amounts, group::first_seen(names)[i], tokens::sum_of());
            lemma_total_is_exact(own);
        }
    }
}

/// The distinct texts, in the order in which they first occur.
pub fn distinct(texts: &Vec<String>) -> (out: Vec<String>)
    ensures
        group::ids(out@) == group::first_seen(group::ids(texts@)),
{
    let ghost ids = group::ids(texts@);
    let mut marks: Vec<bool> = Vec::new();
    let mut i: usize = 0;
    while i < texts.len()
        invariant
            i <= texts@.len(),
            marks@.len() == i,
        decreases texts@.len() - i,
    {
        marks.push(true);
        i = i + 1;
    }
    let groups = group::group_values(texts, &marks);
    let mut out: Vec<String> = Vec::new();
    let mut g: usize = 0;
    while g < groups.len()
        invariant
            g <= groups@.len(),
            group::is_grouping(groups@, ids, marks@),
            out@.len() == g,
            forall|h: int| 0 <= h < g ==> (#[trigger] out@[h])@ == group::first_seen(ids)[h],
        decreases groups@.len() - g,
    {
        assert(groups@[g as int].key.id() == group::first_seen(ids)[g as int]);
        out.push(groups[g].key.clone());
        g = g + 1;
    }
    assert(group::ids(out@) =~= group::first_seen(ids));
    out
}

/// The number of distinct texts.
pub fn count_distinct(texts: &Vec<String>) -> (n: usize)
    ensures
        n == group::first_seen(group::ids(texts@)).len(),
{
    distinct(texts).len()
}

} // verus!

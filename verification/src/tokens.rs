//! Token counts by category, and their exact apportionment to weighted owners.
use crate::group::Group;
use crate::order;
use crate::order::LargestFirst;
use crate::sums;
use crate::text;
use vstd::prelude::*;

verus! {

/// Token counts of one agent role, model or provider.
#[derive(Clone, Copy, Debug, PartialEq, Eq, Structural)]
pub struct RoleTokenUsage {
    pub input: u64,
    pub output: u64,
    pub cache_read: u64,
    pub cache_write: u64,
    pub reasoning: u64,
}

/// A category of tokens.
#[derive(Clone, Copy, Debug, PartialEq, Eq, Structural)]
pub enum Category {
    Input,
    Output,
    CacheRead,
    CacheWrite,
    Reasoning,
}

impl RoleTokenUsage {
    /// The count in one category.
    pub open spec fn count(self, c: Category) -> int {
        match c {
            Category::Input => self.input as int,
            Category::Output => self.output as int,
            Category::CacheRead => self.cache_read as int,
            Category::CacheWrite => self.cache_write as int,
            Category::Reasoning => self.reasoning as int,
        }
    }

    /// The sum of all categories.
    pub open spec fn sum(self) -> int {
        self.input + self.output + self.cache_read + self.cache_write + self.reasoning
    }

    /// No tokens at all.
    pub open spec fn zero() -> RoleTokenUsage {
        RoleTokenUsage { input: 0, output: 0, cache_read: 0, cache_write: 0, reasoning: 0 }
    }

    /// The number of tokens over all categories.
    pub fn total(&self) -> (n: u64)
        requires
            self.sum() <= u64::MAX,
        ensures
            n == self.sum(),
    {
        self.input + self.output + self.cache_read + self.cache_write + self.reasoning
    }
}

impl Default for RoleTokenUsage {
    fn default() -> (t: Self)
        ensures
            t == RoleTokenUsage::zero(),
    {
        RoleTokenUsage { input: 0, output: 0, cache_read: 0, cache_write: 0, reasoning: 0 }
    }
}

/// The count in one category, as a function.
pub open spec fn count_of(c: Category) -> spec_fn(RoleTokenUsage) -> int {
    |t: RoleTokenUsage| t.count(c)
}

/// The number of tokens over all categories, as a function.
pub open spec fn sum_of() -> spec_fn(RoleTokenUsage) -> int {
    |t: RoleTokenUsage| t.sum()
}

/// Every category of `t` holds the sum of that category over `parts`.
pub open spec fn adds_up(t: RoleTokenUsage, parts: Seq<RoleTokenUsage>) -> bool {
    forall|c: Category| #[trigger] t.count(c) == sums::sum_by(parts, count_of(c))
}

/// Adds up token counts category by category.
pub fn sum_tokens(parts: &Vec<RoleTokenUsage>) -> (t: RoleTokenUsage)
    requires
        sums::sum_by(parts@, sum_of()) <= u64::MAX,
    ensures
        adds_up(t, parts@),
        t.sum() == sums::sum_by(parts@, sum_of()),
{
    let mut t = RoleTokenUsage::default();
    let mut i: usize = 0;
    while i < parts.len()
        invariant
            i <= parts@.len(),
            sums::sum_by(parts@, sum_of()) <= u64::MAX,
            adds_up(t, parts@.take(i as int)),
            t.sum() == sums::sum_by(parts@.take(i as int), sum_of()),
        decreases parts@.len() - i,
    {
        let p: RoleTokenUsage = parts[i];
        proof {
            sums::lemma_sum_by_prefix(parts@, i + 1, sum_of());
            sums::lemma_sum_by_take(parts@, i as int, sum_of());
        }
        let ghost before = t;
        t = RoleTokenUsage {
            input: t.input + p.input,
            output: t.output + p.output,
            cache_read: t.cache_read + p.cache_read,
            cache_write: t.cache_write + p.cache_write,
            reasoning: t.reasoning + p.reasoning,
        };
        proof {
            assert forall|c: Category| #[trigger] t.count(c) == sums::sum_by(
                parts@.take(i + 1),
                count_of(c),
            ) by {
                sums::lemma_sum_by_take(parts@, i as int, count_of(c));
                assert(before.count(c) == sums::sum_by(parts@.take(i as int), count_of(c)));
            }
        }
        i = i + 1;
    }
    assert(parts@.take(i as int) =~= parts@);
    t
}

/// The token counts of each group, added up.
pub fn group_totals<K>(groups: &Vec<Group<K, RoleTokenUsage>>) -> (totals: Vec<RoleTokenUsage>)
    requires
        forall|g: int|
            0 <= g < groups@.len() ==> sums::sum_by((#[trigger] groups@[g]).members@, sum_of())
                <= u64::MAX,
    ensures
        totals@.len() == groups@.len(),
        forall|g: int|
            0 <= g < groups@.len() ==> {
                &&& adds_up(#[trigger] totals@[g], groups@[g].members@)
                &&& totals@[g].sum() == sums::sum_by(groups@[g].members@, sum_of())
            },
{
    let mut totals: Vec<RoleTokenUsage> = Vec::new();
    let mut g: usize = 0;
    while g < groups.len()
        invariant
            g <= groups@.len(),
            totals@.len() == g,
            forall|h: int|
                0 <= h < groups@.len() ==> sums::sum_by((#[trigger] groups@[h]).members@, sum_of())
                    <= u64::MAX,
            forall|h: int|
                0 <= h < g ==> {
                    &&& adds_up(#[trigger] totals@[h], groups@[h].members@)
                    &&& totals@[h].sum() == sums::sum_by(groups@[h].members@, sum_of())
                },
        decreases groups@.len() - g,
    {
        totals.push(sum_tokens(&groups[g].members));
        g = g + 1;
    }
    totals
}

/// The weights of the owners.
pub open spec fn weights_of(owners: Seq<(String, u64)>) -> Seq<int> {
    Seq::new(owners.len(), |i: int| owners[i].1 as int)
}

/// The whole units that each owner's exact share holds.
pub open spec fn floors(total: int, weights: Seq<int>) -> Seq<int> {
    Seq::new(weights.len(), |i: int| (total * weights[i]) / sums::sum(weights))
}

/// How the owners rank for the units left over: by the fractional part of the exact share, largest
/// first.
pub open spec fn claims(total: int, weights: Seq<int>) -> Seq<LargestFirst> {
    Seq::new(
        weights.len(),
        |i: int| LargestFirst(((total * weights[i]) % sums::sum(weights)) as u128),
    )
}

/// The units that the whole shares leave over.
pub open spec fn leftover(total: int, weights: Seq<int>) -> int {
    total - sums::sum(floors(total, weights))
}

/// The largest-remainder apportionment of `total`: each owner gets the whole units of its exact share,
/// and the units left over go, one each, to the owners with the largest fractional parts, in the order
/// of the owners where these are equal. Where all weights are zero nobody gets anything.
pub open spec fn apportioned(total: int, weights: Seq<int>) -> Seq<int> {
    if sums::sum(weights) == 0 {
        Seq::new(weights.len(), |i: int| 0)
    } else {
        Seq::new(
            weights.len(),
            |i: int|
                floors(total, weights)[i] + if order::sorting(claims(total, weights)).index_of(i as usize)
                    < leftover(total, weights) {
                    1int
                } else {
                    0int
                },
        )
    }
}

/// The amount that each part holds.
pub open spec fn amounts(parts: Seq<(String, u64)>) -> Seq<int> {
    Seq::new(parts.len(), |i: int| parts[i].1 as int)
}

/// The owners of the parts are those of the weights, in their order.
pub open spec fn same_owners(owners: Seq<(String, u64)>, parts: Seq<(String, u64)>) -> bool {
    &&& parts.len() == owners.len()
    &&& forall|i: int| 0 <= i < parts.len() ==> (#[trigger] parts[i]).0@ == owners[i].0@
}

/// No weight is negative.
pub open spec fn are_weights(weights: Seq<int>) -> bool {
    forall|i: int| 0 <= i < weights.len() ==> #[trigger] weights[i] >= 0
}

/// Over the first `k` owners the whole shares fall short of the exact ones by less than one unit
/// each.
proof fn lemma_floors_prefix(total: int, weights: Seq<int>, k: int)
    requires
        0 <= total,
        0 <= k <= weights.len(),
        sums::sum(weights) > 0,
        are_weights(weights),
    ensures
        sums::sum(weights) * sums::sum(floors(total, weights).take(k)) <= total * sums::sum(
            weights.take(k),
        ),
        sums::sum(weights) * sums::sum(floors(total, weights).take(k)) >= total * sums::sum(
            weights.take(k),
        ) - k * (sums::sum(weights) - 1),
        sums::sum(floors(total, weights).take(k)) >= 0,
    decreases k,
{
    let w = sums::sum(weights);
    let f = floors(total, weights);
    if k == 0 {
        assert(f.take(0) =~= Seq::<int>::empty());
        assert(weights.take(0) =~= Seq::<int>::empty());
        assert(w * 0 == 0 && total * 0 == 0) by (nonlinear_arith);
    } else {
        lemma_floors_prefix(total, weights, k - 1);
        sums::lemma_sum_take(f, k - 1);
        sums::lemma_sum_take(weights, k - 1);
        let own = weights[k - 1];
        let had = sums::sum(f.take(k - 1));
        let had_weight = sums::sum(weights.take(k - 1));
        let exact = total * own;
        assert(exact >= 0) by (nonlinear_arith)
            requires
                exact == total * own,
                total >= 0,
                own >= 0,
        ;
        vstd::arithmetic::div_mod::lemma_fundamental_div_mod(exact, w);
        vstd::arithmetic::div_mod::lemma_mod_bound(exact, w);
        let q = exact / w;
        assert(q >= 0) by {
            vstd::arithmetic::div_mod::lemma_div_pos_is_pos(exact, w);
        }
        assert(w * (had + q) == w * had + w * q) by (nonlinear_arith);
        assert(total * (had_weight + own) == total * had_weight + exact) by (nonlinear_arith)
            requires
                exact == total * own,
        ;
        assert((k - 1) * (w - 1) + (w - 1) == k * (w - 1)) by (nonlinear_arith);
    }
}

/// Fewer units are left over than there are owners, and never a negative number.
proof fn lemma_leftover(total: int, weights: Seq<int>)
    requires
        0 <= total,
        sums::sum(weights) > 0,
        are_weights(weights),
    ensures
        0 <= leftover(total, weights) < weights.len(),
{
    let w = sums::sum(weights);
    let n = weights.len() as int;
    let f = floors(total, weights);
    lemma_floors_prefix(total, weights, n);
    assert(f.take(n) =~= f);
    assert(weights.take(n) =~= weights);
    let held = sums::sum(f);
    assert(held <= total) by (nonlinear_arith)
        requires
            w * held <= total * w,
            w > 0,
    ;
    assert(n > 0);
    assert(total - held < n) by (nonlinear_arith)
        requires
            w * held >= total * w - n * (w - 1),
            w > 0,
            n > 0,
    ;
}

/// A whole share lies between zero and the total.
proof fn lemma_floor_bounds(total: int, weights: Seq<int>)
    requires
        0 <= total,
        sums::sum(weights) > 0,
        are_weights(weights),
    ensures
        forall|j: int| 0 <= j < weights.len() ==> 0 <= #[trigger] floors(total, weights)[j] <= total,
{
    let w = sums::sum(weights);
    assert forall|j: int| 0 <= j < weights.len() implies 0 <= #[trigger] floors(total, weights)[j]
        <= total by {
        let own = weights[j];
        sums::lemma_sum_member(weights, j);
        let exact = total * own;
        assert(0 <= exact <= total * w) by (nonlinear_arith)
            requires
                exact == total * own,
                0 <= total,
                0 <= own <= w,
        ;
        vstd::arithmetic::div_mod::lemma_div_pos_is_pos(exact, w);
        vstd::arithmetic::div_mod::lemma_div_is_ordered(exact, total * w, w);
        vstd::arithmetic::div_mod::lemma_div_multiples_vanish(total, w);
        vstd::arithmetic::mul::lemma_mul_is_commutative(total, w);
    }
}

/// The floors with one more unit at each of the first `n` listed positions.
spec fn raised(floors: Seq<int>, order: Seq<usize>, n: int) -> Seq<int> {
    Seq::new(
        floors.len(),
        |i: int|
            floors[i] + if order.index_of(i as usize) < n {
                1int
            } else {
                0int
            },
    )
}

/// Raising one more listed position adds one unit there.
proof fn lemma_raise(floors: Seq<int>, order: Seq<usize>, n: int)
    requires
        0 <= n < order.len(),
        order.len() == floors.len() <= usize::MAX,
        order.no_duplicates(),
        order[n] < floors.len(),
        forall|i: usize| #![trigger order.contains(i)] i < floors.len() ==> order.contains(i),
    ensures
        raised(floors, order, n)[order[n] as int] == floors[order[n] as int],
        raised(floors, order, n + 1) == raised(floors, order, n).update(
            order[n] as int,
            floors[order[n] as int] + 1,
        ),
{
    let at = order[n] as int;
    assert(order.contains(order[n]));
    assert(order.index_of(order[n]) == n);
    assert forall|i: int| 0 <= i < floors.len() implies #[trigger] raised(floors, order, n + 1)[i]
        == raised(floors, order, n).update(at, floors[at] + 1)[i] by {
        assert(order.contains(i as usize));
        let p = order.index_of(i as usize);
        assert(order[p] == i);
        if i != at {
            assert(p != n);
        }
    }
    assert(raised(floors, order, n + 1) =~= raised(floors, order, n).update(at, floors[at] + 1));
}

/// Raising `n` positions adds `n` units.
proof fn lemma_raised_sum(floors: Seq<int>, order: Seq<usize>, n: int)
    requires
        0 <= n <= order.len(),
        order.len() == floors.len() <= usize::MAX,
        order.no_duplicates(),
        forall|i: int| 0 <= i < order.len() ==> (#[trigger] order[i]) < floors.len(),
        forall|i: usize| #![trigger order.contains(i)] i < floors.len() ==> order.contains(i),
    ensures
        sums::sum(raised(floors, order, n)) == sums::sum(floors) + n,
    decreases n,
{
    if n == 0 {
        assert(raised(floors, order, 0) =~= floors) by {
            assert forall|i: int| 0 <= i < floors.len() implies #[trigger] raised(floors, order, 0)[i]
                == floors[i] by {
                assert(order.contains(i as usize));
            }
        }
    } else {
        lemma_raised_sum(floors, order, n - 1);
        lemma_raise(floors, order, n - 1);
        sums::lemma_sum_update(raised(floors, order, n - 1), order[n - 1] as int, floors[order[n - 1] as int] + 1);
    }
}

/// The parts of an apportionment sum to exactly the total, unless nobody weighs anything.
pub proof fn apportionment_is_exact(total: int, weights: Seq<int>)
    requires
        0 <= total,
        are_weights(weights),
        weights.len() <= usize::MAX,
    ensures
        sums::sum(apportioned(total, weights)) == if sums::sum(weights) > 0 {
            total
        } else {
            0
        },
        apportioned(total, weights).len() == weights.len(),
        forall|i: int| 0 <= i < weights.len() ==> 0 <= #[trigger] apportioned(total, weights)[i] <= total,
{
    sums::lemma_sum_prefix(weights, weights.len() as int);
    assert(weights.take(weights.len() as int) =~= weights);
    let parts = apportioned(total, weights);
    if sums::sum(weights) > 0 {
        let ranks = claims(total, weights);
        let order = order::sorting(ranks);
        order::lemma_sorting(ranks);
        order::sorting_is_a_rearrangement(ranks, order);
        lemma_leftover(total, weights);
        lemma_floor_bounds(total, weights);
        lemma_raised_sum(floors(total, weights), order, leftover(total, weights));
        assert(parts =~= raised(floors(total, weights), order, leftover(total, weights)));
    } else {
        lemma_sum_of_zeros(parts);
    }
    assert forall|i: int| 0 <= i < weights.len() implies 0 <= #[trigger] parts[i] <= total by {
        if sums::sum(weights) > 0 {
            assert forall|j: int| 0 <= j < parts.len() implies #[trigger] parts[j] >= 0 by {
                assert(floors(total, weights)[j] >= 0);
            }
            sums::lemma_sum_member(parts, i);
        }
    }
}

proof fn lemma_sum_of_zeros(s: Seq<int>)
    requires
        forall|i: int| 0 <= i < s.len() ==> #[trigger] s[i] == 0,
    ensures
        sums::sum(s) == 0,
    decreases s.len(),
{
    if s.len() > 0 {
        lemma_sum_of_zeros(s.drop_last());
    }
}

/// A part differs from the whole units of its exact share by one unit at most, upward.
pub proof fn apportionment_is_within_one(total: int, weights: Seq<int>, i: int)
    requires
        sums::sum(weights) > 0,
        0 <= i < weights.len(),
    ensures
        floors(total, weights)[i] <= apportioned(total, weights)[i] <= floors(total, weights)[i] + 1,
{
}

/// One owner gets everything.
pub proof fn single_owner_keeps_all(total: int, weight: int)
    requires
        0 <= total,
        0 < weight,
    ensures
        apportioned(total, seq![weight]) == seq![total],
{
    let weights = seq![weight];
    apportionment_is_exact(total, weights);
    assert(weights.drop_last() =~= Seq::<int>::empty());
    assert(sums::sum(weights) == weight) by {
        reveal_with_fuel(sums::sum, 2);
    }
    let parts = apportioned(total, weights);
    assert(parts.drop_last() =~= Seq::<int>::empty());
    assert(sums::sum(parts) == parts[0]) by {
        reveal_with_fuel(sums::sum, 2);
    }
    assert(parts =~= seq![total]);
}

/// Splits `total` across weighted owners by largest-remainder apportionment, so that the parts sum
/// to exactly `total`. The owners keep their order; a zero total weight gives everyone zero.
pub fn largest_remainder_split(total: u64, weights: &[(String, u64)]) -> (parts: Vec<(String, u64)>)
    requires
        sums::sum(weights_of(weights@)) <= u64::MAX,
    ensures
        same_owners(weights@, parts@),
        amounts(parts@) == apportioned(total as int, weights_of(weights@)),
        sums::sum(weights_of(weights@)) > 0 ==> sums::sum(amounts(parts@)) == total,
{
    let ghost ws = weights_of(weights@);
    let mut w: u64 = 0;
    let mut i: usize = 0;
    while i < weights.len()
        invariant
            i <= weights@.len(),
            ws == weights_of(weights@),
            sums::sum(ws) <= u64::MAX,
            w == sums::sum(ws.take(i as int)),
        decreases weights@.len() - i,
    {
        proof {
            sums::lemma_sum_prefix(ws, i + 1);
            sums::lemma_sum_take(ws, i as int);
        }
        w = w + weights[i].1;
        i = i + 1;
    }
    assert(ws.take(i as int) =~= ws);
    proof {
        apportionment_is_exact(total as int, ws);
    }
    let mut parts: Vec<(String, u64)> = Vec::new();
    let mut ranks: Vec<LargestFirst> = Vec::new();
    let mut held: u64 = 0;
    i = 0;
    if w == 0 {
        while i < weights.len()
            invariant
                i <= weights@.len(),
                parts@.len() == i,
                forall|j: int| 0 <= j < i ==> (#[trigger] parts@[j]).0@ == weights@[j].0@ && parts@[j].1 == 0,
            decreases weights@.len() - i,
        {
            parts.push((weights[i].0.clone(), 0));
            i = i + 1;
        }
        assert(amounts(parts@) =~= apportioned(total as int, ws));
        return parts;
    }
    let ghost f = floors(total as int, ws);
    proof {
        lemma_leftover(total as int, ws);
        lemma_floor_bounds(total as int, ws);
    }
    while i < weights.len()
        invariant
            i <= weights@.len(),
            ws == weights_of(weights@),
            w == sums::sum(ws),
            w > 0,
            are_weights(ws),
            f == floors(total as int, ws),
            0 <= leftover(total as int, ws),
            forall|j: int| 0 <= j < ws.len() ==> 0 <= #[trigger] f[j] <= total,
            parts@.len() == i,
            ranks@.len() == i,
            held == sums::sum(f.take(i as int)),
            forall|j: int| 0 <= j < i ==> (#[trigger] parts@[j]).0@ == weights@[j].0@ && parts@[j].1 == f[j],
            forall|j: int| 0 <= j < i ==> #[trigger] ranks@[j] == claims(total as int, ws)[j],
        decreases weights@.len() - i,
    {
        let own: u64 = weights[i].1;
        proof {
            assert(0 <= total * own <= 0xffff_ffff_ffff_ffff * 0xffff_ffff_ffff_ffff) by (nonlinear_arith);
            assert(f[i as int] == (total * own) / (w as int));
            sums::lemma_sum_prefix(f, i + 1);
            sums::lemma_sum_take(f, i as int);
        }
        let exact: u128 = (total as u128) * (own as u128);
        let whole: u64 = (exact / (w as u128)) as u64;
        parts.push((weights[i].0.clone(), whole));
        ranks.push(LargestFirst(exact % (w as u128)));
        held = held + whole;
        i = i + 1;
    }
    assert(f.take(i as int) =~= f);
    assert(ranks@ =~= claims(total as int, ws));
    let order = order::order_of(&ranks);
    proof {
        order::sorting_is_a_rearrangement(ranks@, order@);
        lemma_raised_sum(f, order@, 0);
        assert(raised(f, order@, 0) =~= f) by {
            assert forall|j: int| 0 <= j < f.len() implies #[trigger] raised(f, order@, 0)[j] == f[j] by {
                assert(order@.contains(j as usize));
            }
        }
        assert(amounts(parts@) =~= f);
    }
    let left: u64 = total - held;
    let mut given: u64 = 0;
    while given < left
        invariant
            given <= left,
            left == leftover(total as int, ws),
            left < order@.len(),
            ws == weights_of(weights@),
            f == floors(total as int, ws),
            parts@.len() == weights@.len(),
            f.len() == weights@.len() <= usize::MAX,
            order::sorts(claims(total as int, ws), order@),
            order@.no_duplicates(),
            forall|j: usize| #![trigger order@.contains(j)] j < f.len() ==> order@.contains(j),
            forall|j: int| 0 <= j < f.len() ==> #[trigger] f[j] >= 0,
            forall|j: int| 0 <= j < parts@.len() ==> (#[trigger] parts@[j]).0@ == weights@[j].0@,
            amounts(parts@) == raised(f, order@, given as int),
            sums::sum(f) == total - left,
        decreases left - given,
    {
        let at: usize = order[given as usize];
        let ghost before = parts@;
        proof {
            lemma_raise(f, order@, given as int);
            lemma_raised_sum(f, order@, given as int);
            assert forall|j: int| 0 <= j < amounts(before).len() implies #[trigger] amounts(before)[j]
                >= 0 by {}
            sums::lemma_sum_member(amounts(before), at as int);
            assert(amounts(before)[at as int] == parts@[at as int].1);
        }
        let more: u64 = parts[at].1 + 1;
        let label = parts[at].0.clone();
        parts.set(at, (label, more));
        assert(amounts(parts@) =~= amounts(before).update(at as int, more as int));
        given = given + 1;
    }
    assert(amounts(parts@) =~= apportioned(total as int, ws));
    parts
}

/// What one provider gets of a model's tokens.
pub struct ProviderTokens {
    pub provider: String,
    pub tokens: RoleTokenUsage,
}

/// What owner `i` gets of some tokens, category by category.
pub open spec fn split(tokens: RoleTokenUsage, weights: Seq<int>, i: int) -> RoleTokenUsage {
    RoleTokenUsage {
        input: apportioned(tokens.input as int, weights)[i] as u64,
        output: apportioned(tokens.output as int, weights)[i] as u64,
        cache_read: apportioned(tokens.cache_read as int, weights)[i] as u64,
        cache_write: apportioned(tokens.cache_write as int, weights)[i] as u64,
        reasoning: apportioned(tokens.reasoning as int, weights)[i] as u64,
    }
}

/// What all owners get of some tokens.
pub open spec fn splits(tokens: RoleTokenUsage, weights: Seq<int>) -> Seq<RoleTokenUsage> {
    Seq::new(weights.len(), |i: int| split(tokens, weights, i))
}

/// Nothing is lost in a split: category by category the shares add up to the tokens, unless nobody
/// weighs anything.
pub proof fn split_keeps_every_category(tokens: RoleTokenUsage, weights: Seq<int>, c: Category)
    requires
        are_weights(weights),
        weights.len() <= usize::MAX,
    ensures
        sums::sum_by(splits(tokens, weights), count_of(c)) == if sums::sum(weights) > 0 {
            tokens.count(c)
        } else {
            0
        },
{
    apportionment_is_exact(tokens.count(c), weights);
    let parts = apportioned(tokens.count(c), weights);
    assert forall|i: int| 0 <= i < weights.len() implies count_of(c)(
        #[trigger] splits(tokens, weights)[i],
    ) == parts[i] by {
        assert(0 <= parts[i] <= tokens.count(c));
    }
    sums::lemma_same_sums(splits(tokens, weights), count_of(c), parts);
}

/// Attributes one model's tokens to its providers by weight, the number of telemetry rows that name
/// the provider. A single provider keeps everything; several share proportionally.
pub fn attribute_model_to_providers(
    tokens: RoleTokenUsage,
    providers: &[(String, u64)],
) -> (shares: Vec<ProviderTokens>)
    requires
        sums::sum(weights_of(providers@)) <= u64::MAX,
    ensures
        shares@.len() == providers@.len(),
        forall|i: int|
            0 <= i < shares@.len() ==> {
                &&& (#[trigger] shares@[i]).provider@ == providers@[i].0@
                &&& shares@[i].tokens == split(tokens, weights_of(providers@), i)
            },
{
    let inputs = largest_remainder_split(tokens.input, providers);
    let outputs = largest_remainder_split(tokens.output, providers);
    let cache_reads = largest_remainder_split(tokens.cache_read, providers);
    let cache_writes = largest_remainder_split(tokens.cache_write, providers);
    let reasonings = largest_remainder_split(tokens.reasoning, providers);
    let ghost ws = weights_of(providers@);
    let mut shares: Vec<ProviderTokens> = Vec::new();
    let mut i: usize = 0;
    while i < providers.len()
        invariant
            i <= providers@.len(),
            shares@.len() == i,
            ws == weights_of(providers@),
            inputs@.len() == providers@.len(),
            outputs@.len() == providers@.len(),
            cache_reads@.len() == providers@.len(),
            cache_writes@.len() == providers@.len(),
            reasonings@.len() == providers@.len(),
            amounts(inputs@) == apportioned(tokens.input as int, ws),
            amounts(outputs@) == apportioned(tokens.output as int, ws),
            amounts(cache_reads@) == apportioned(tokens.cache_read as int, ws),
            amounts(cache_writes@) == apportioned(tokens.cache_write as int, ws),
            amounts(reasonings@) == apportioned(tokens.reasoning as int, ws),
            forall|j: int|
                0 <= j < i ==> {
                    &&& (#[trigger] shares@[j]).provider@ == providers@[j].0@
                    &&& shares@[j].tokens == split(tokens, ws, j)
                },
        decreases providers@.len() - i,
    {
        proof {
            assert(amounts(inputs@)[i as int] == inputs@[i as int].1);
            assert(amounts(outputs@)[i as int] == outputs@[i as int].1);
            assert(amounts(cache_reads@)[i as int] == cache_reads@[i as int].1);
            assert(amounts(cache_writes@)[i as int] == cache_writes@[i as int].1);
            assert(amounts(reasonings@)[i as int] == reasonings@[i as int].1);
        }
        shares.push(
            ProviderTokens {
                provider: providers[i].0.clone(),
                tokens: RoleTokenUsage {
                    input: inputs[i].1,
                    output: outputs[i].1,
                    cache_read: cache_reads[i].1,
                    cache_write: cache_writes[i].1,
                    reasoning: reasonings[i].1,
                },
            },
        );
        i = i + 1;
    }
    shares
}

/// The category that an `opencode.token.usage` type label names.
pub open spec fn opencode_category(kind: Option<Seq<char>>) -> Option<Category> {
    match kind {
        Some(k) => if k == "input"@ {
            Some(Category::Input)
        } else if k == "output"@ {
            Some(Category::Output)
        } else if k == "cacheRead"@ {
            Some(Category::CacheRead)
        } else if k == "cacheCreation"@ {
            Some(Category::CacheWrite)
        } else if k == "reasoning"@ {
            Some(Category::Reasoning)
        } else {
            None
        },
        None => None,
    }
}

/// The category that a `codex.turn.token_usage` token type names. The type `total` is the sum of the
/// others and names none.
pub open spec fn codex_category(kind: Option<Seq<char>>) -> Option<Category> {
    match kind {
        Some(k) => if k == "input"@ {
            Some(Category::Input)
        } else if k == "output"@ {
            Some(Category::Output)
        } else if k == "reasoning_output"@ {
            Some(Category::Reasoning)
        } else if k == "cached_input"@ {
            Some(Category::CacheRead)
        } else if k == "cache_write_input"@ {
            Some(Category::CacheWrite)
        } else {
            None
        },
        None => None,
    }
}

/// Finds the category that an `opencode.token.usage` type label names.
pub fn find_opencode_category(kind: &Option<String>) -> (c: Option<Category>)
    ensures
        c == opencode_category(text::optional(*kind)),
{
    match kind {
        Some(k) => if text::same_text(k.as_str(), "input") {
            Some(Category::Input)
        } else if text::same_text(k.as_str(), "output") {
            Some(Category::Output)
        } else if text::same_text(k.as_str(), "cacheRead") {
            Some(Category::CacheRead)
        } else if text::same_text(k.as_str(), "cacheCreation") {
            Some(Category::CacheWrite)
        } else if text::same_text(k.as_str(), "reasoning") {
            Some(Category::Reasoning)
        } else {
            None
        },
        None => None,
    }
}

/// Finds the category that a `codex.turn.token_usage` token type names.
pub fn find_codex_category(kind: &Option<String>) -> (c: Option<Category>)
    ensures
        c == codex_category(text::optional(*kind)),
{
    match kind {
        Some(k) => if text::same_text(k.as_str(), "input") {
            Some(Category::Input)
        } else if text::same_text(k.as_str(), "output") {
            Some(Category::Output)
        } else if text::same_text(k.as_str(), "reasoning_output") {
            Some(Category::Reasoning)
        } else if text::same_text(k.as_str(), "cached_input") {
            Some(Category::CacheRead)
        } else if text::same_text(k.as_str(), "cache_write_input") {
            Some(Category::CacheWrite)
        } else {
            None
        },
        None => None,
    }
}

/// `v` tokens of one category, or none at all where the category is unknown.
pub open spec fn of_category(c: Option<Category>, v: u64) -> RoleTokenUsage {
    let zero = RoleTokenUsage::zero();
    match c {
        Some(Category::Input) => RoleTokenUsage { input: v, ..zero },
        Some(Category::Output) => RoleTokenUsage { output: v, ..zero },
        Some(Category::CacheRead) => RoleTokenUsage { cache_read: v, ..zero },
        Some(Category::CacheWrite) => RoleTokenUsage { cache_write: v, ..zero },
        Some(Category::Reasoning) => RoleTokenUsage { reasoning: v, ..zero },
        None => zero,
    }
}

/// Makes a count of `v` tokens in one category.
pub fn tokens_in_category(c: Option<Category>, v: u64) -> (t: RoleTokenUsage)
    ensures
        t == of_category(c, v),
{
    let mut t = RoleTokenUsage::default();
    match c {
        Some(Category::Input) => {
            t.input = v;
        },
        Some(Category::Output) => {
            t.output = v;
        },
        Some(Category::CacheRead) => {
            t.cache_read = v;
        },
        Some(Category::CacheWrite) => {
            t.cache_write = v;
        },
        Some(Category::Reasoning) => {
            t.reasoning = v;
        },
        None => {},
    }
    t
}

/// Adds `v` tokens of the category that an `opencode.token.usage` type label names. An unknown
/// category changes nothing.
pub fn add_opencode_tokens(t: &mut RoleTokenUsage, kind: &Option<String>, v: u64)
    requires
        opencode_category(text::optional(*kind)) matches Some(c) ==> old(t).count(c) + v <= u64::MAX,
    ensures
        forall|c: Category| #[trigger]
            final(t).count(c) == old(t).count(c) + of_category(
                opencode_category(text::optional(*kind)),
                v,
            ).count(c),
{
    match find_opencode_category(kind) {
        Some(Category::Input) => {
            t.input = t.input + v;
        },
        Some(Category::Output) => {
            t.output = t.output + v;
        },
        Some(Category::CacheRead) => {
            t.cache_read = t.cache_read + v;
        },
        Some(Category::CacheWrite) => {
            t.cache_write = t.cache_write + v;
        },
        Some(Category::Reasoning) => {
            t.reasoning = t.reasoning + v;
        },
        None => {},
    }
}

} // verus!

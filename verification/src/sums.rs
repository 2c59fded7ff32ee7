//! Sums over sequences and over groups of rows.
use crate::group;
use vstd::prelude::*;

verus! {

/// The sum of the numbers.
pub open spec fn sum(s: Seq<int>) -> int
    decreases s.len(),
{
    if s.len() == 0 {
        0
    } else {
        sum(s.drop_last()) + s.last()
    }
}

/// The sum of `f` over the items.
pub open spec fn sum_by<T>(s: Seq<T>, f: spec_fn(T) -> int) -> int
    decreases s.len(),
{
    if s.len() == 0 {
        0
    } else {
        sum_by(s.drop_last(), f) + f(s.last())
    }
}

/// The sum of `f` in each group, in the order of the groups.
pub open spec fn group_sums<I, T>(ids: Seq<I>, values: Seq<T>, f: spec_fn(T) -> int) -> Seq<int> {
    Seq::new(
        group::first_seen(ids).len(),
        |g: int| sum_by(group::gather(ids, values, group::first_seen(ids)[g]), f),
    )
}

/// One more item adds what `f` says of it.
pub proof fn lemma_sum_by_push<T>(s: Seq<T>, v: T, f: spec_fn(T) -> int)
    ensures
        sum_by(s.push(v), f) == sum_by(s, f) + f(v),
{
    assert(s.push(v).drop_last() =~= s);
}

/// The sum of a prefix grows by the next item.
pub proof fn lemma_sum_by_take<T>(s: Seq<T>, n: int, f: spec_fn(T) -> int)
    requires
        0 <= n < s.len(),
    ensures
        sum_by(s.take(n + 1), f) == sum_by(s.take(n), f) + f(s[n]),
{
    assert(s.take(n + 1) =~= s.take(n).push(s[n]));
    lemma_sum_by_push(s.take(n), s[n], f);
}

/// Where no item counts negative, a prefix sums to no more than the whole.
pub proof fn lemma_sum_by_prefix<T>(s: Seq<T>, n: int, f: spec_fn(T) -> int)
    requires
        0 <= n <= s.len(),
        forall|v: T| #[trigger] f(v) >= 0,
    ensures
        0 <= sum_by(s.take(n), f) <= sum_by(s, f),
    decreases s.len(),
{
    if s.len() == 0 {
        assert(s.take(n) =~= s);
    } else if n == s.len() {
        assert(s.take(n) =~= s);
        lemma_sum_by_prefix(s.drop_last(), n - 1, f);
        assert(s.drop_last().take(n - 1) =~= s.drop_last());
    } else {
        assert(s.drop_last().take(n) =~= s.take(n));
        lemma_sum_by_prefix(s.drop_last(), n, f);
    }
}

/// Two lists that agree item by item have one sum.
pub proof fn lemma_same_sums<T>(items: Seq<T>, f: spec_fn(T) -> int, numbers: Seq<int>)
    requires
        items.len() == numbers.len(),
        forall|i: int| 0 <= i < items.len() ==> f(#[trigger] items[i]) == numbers[i],
    ensures
        sum_by(items, f) == sum(numbers),
    decreases items.len(),
{
    if items.len() > 0 {
        lemma_same_sums(items.drop_last(), f, numbers.drop_last());
    }
}

/// An unsigned number, as a function.
pub open spec fn as_int() -> spec_fn(u64) -> int {
    |n: u64| n as int
}

/// Adds up unsigned numbers.
pub fn sum_u64(values: &Vec<u64>) -> (total: u64)
    requires
        sum_by(values@, as_int()) <= u64::MAX,
    ensures
        total == sum_by(values@, as_int()),
{
    let mut total: u64 = 0;
    let mut i: usize = 0;
    while i < values.len()
        invariant
            i <= values@.len(),
            sum_by(values@, as_int()) <= u64::MAX,
            total == sum_by(values@.take(i as int), as_int()),
        decreases values@.len() - i,
    {
        proof {
            lemma_sum_by_prefix(values@, i + 1, as_int());
            lemma_sum_by_take(values@, i as int, as_int());
        }
        total = total + values[i];
        i = i + 1;
    }
    assert(values@.take(i as int) =~= values@);
    total
}

/// The sum over two lists put together is the sum of their sums.
pub proof fn lemma_sum_by_concat<T>(a: Seq<T>, b: Seq<T>, f: spec_fn(T) -> int)
    ensures
        sum_by(a + b, f) == sum_by(a, f) + sum_by(b, f),
    decreases b.len(),
{
    if b.len() == 0 {
        assert(a + b =~= a);
    } else {
        assert((a + b).drop_last() =~= a + b.drop_last());
        lemma_sum_by_concat(a, b.drop_last(), f);
    }
}

/// Where no item counts negative, one of them counts no more than all.
pub proof fn lemma_sum_by_member<T>(s: Seq<T>, i: int, f: spec_fn(T) -> int)
    requires
        0 <= i < s.len(),
        forall|v: T| #[trigger] f(v) >= 0,
    ensures
        f(s[i]) <= sum_by(s, f),
{
    lemma_sum_by_prefix(s, i, f);
    lemma_sum_by_prefix(s, i + 1, f);
    lemma_sum_by_take(s, i, f);
}

/// One more number adds itself.
pub proof fn lemma_sum_push(s: Seq<int>, v: int)
    ensures
        sum(s.push(v)) == sum(s) + v,
{
    assert(s.push(v).drop_last() =~= s);
}

/// The sum of a prefix grows by the next number.
pub proof fn lemma_sum_take(s: Seq<int>, n: int)
    requires
        0 <= n < s.len(),
    ensures
        sum(s.take(n + 1)) == sum(s.take(n)) + s[n],
{
    assert(s.take(n + 1) =~= s.take(n).push(s[n]));
    lemma_sum_push(s.take(n), s[n]);
}

/// Where no number is negative, a prefix sums to no more than the whole.
pub proof fn lemma_sum_prefix(s: Seq<int>, n: int)
    requires
        0 <= n <= s.len(),
        forall|i: int| 0 <= i < s.len() ==> #[trigger] s[i] >= 0,
    ensures
        0 <= sum(s.take(n)) <= sum(s),
    decreases s.len(),
{
    if s.len() == 0 {
        assert(s.take(n) =~= s);
    } else if n == s.len() {
        assert(s.take(n) =~= s);
        lemma_sum_prefix(s.drop_last(), n - 1);
        assert(s.drop_last().take(n - 1) =~= s.drop_last());
    } else {
        assert(s.drop_last().take(n) =~= s.take(n));
        lemma_sum_prefix(s.drop_last(), n);
    }
}

/// Where no number is negative, one of them is no more than the sum.
pub proof fn lemma_sum_member(s: Seq<int>, i: int)
    requires
        0 <= i < s.len(),
        forall|j: int| 0 <= j < s.len() ==> #[trigger] s[j] >= 0,
    ensures
        s[i] <= sum(s),
{
    lemma_sum_prefix(s, i);
    lemma_sum_prefix(s, i + 1);
    lemma_sum_take(s, i);
}

/// Replacing one number moves the sum by the difference.
pub proof fn lemma_sum_update(s: Seq<int>, i: int, v: int)
    requires
        0 <= i < s.len(),
    ensures
        sum(s.update(i, v)) == sum(s) - s[i] + v,
    decreases s.len(),
{
    if i == s.len() - 1 {
        assert(s.update(i, v).drop_last() =~= s.drop_last());
    } else {
        assert(s.update(i, v).drop_last() =~= s.drop_last().update(i, v));
        lemma_sum_update(s.drop_last(), i, v);
    }
}

/// Grouping keeps the total: the sums of the groups add up to the sum over all rows.
pub proof fn groups_keep_the_total<I, T>(ids: Seq<I>, values: Seq<T>, f: spec_fn(T) -> int)
    requires
        ids.len() == values.len(),
    ensures
        sum(group_sums(ids, values, f)) == sum_by(values, f),
    decreases ids.len(),
{
    if ids.len() == 0 {
        assert(group_sums(ids, values, f).len() == 0);
    } else {
        let prior = ids.drop_last();
        let had = values.drop_last();
        let id = ids.last();
        let v = values.last();
        let before = group_sums(prior, had, f);
        let after = group_sums(ids, values, f);
        groups_keep_the_total(prior, had, f);
        group::lemma_first_seen(prior);
        group::lemma_gather_absent(prior, had, id);
        let seen = group::first_seen(prior);
        lemma_sum_by_push(group::gather(prior, had, id), v, f);
        if seen.contains(id) {
            let at = seen.index_of(id);
            assert(after =~= before.update(at, before[at] + f(v))) by {
                assert forall|g: int| 0 <= g < after.len() implies #[trigger] after[g]
                    == before.update(at, before[at] + f(v))[g] by {
                    if g != at {
                        assert(seen[g] != seen[at]);
                    }
                }
            }
            lemma_sum_update(before, at, before[at] + f(v));
        } else {
            assert(!prior.contains(id));
            assert(group::gather(prior, had, id) =~= Seq::<T>::empty());
            assert(group::gather(ids, values, id) =~= seq![v]);
            assert(sum_by(group::gather(prior, had, id), f) == 0);
            assert(after =~= before.push(f(v))) by {
                assert forall|g: int| 0 <= g < after.len() implies #[trigger] after[g]
                    == before.push(f(v))[g] by {
                    if g < before.len() {
                        assert(seen[g] == group::first_seen(ids)[g]);
                        assert(seen.contains(seen[g]));
                        assert(seen[g] != id);
                    }
                }
            }
            lemma_sum_push(before, f(v));
        }
    }
}

/// Where no item counts negative, one id's items sum to no more than all of them.
pub proof fn lemma_gather_bound<I, T>(ids: Seq<I>, values: Seq<T>, id: I, f: spec_fn(T) -> int)
    requires
        ids.len() == values.len(),
        forall|v: T| #[trigger] f(v) >= 0,
    ensures
        0 <= sum_by(group::gather(ids, values, id), f) <= sum_by(values, f),
    decreases ids.len(),
{
    if ids.len() > 0 {
        let prior = ids.drop_last();
        let had = values.drop_last();
        lemma_gather_bound(prior, had, id, f);
        lemma_sum_by_push(group::gather(prior, had, id), values.last(), f);
        assert(f(values.last()) >= 0);
    }
}

/// Taking one number out lowers the sum by it.
proof fn lemma_sum_remove(s: Seq<int>, i: int)
    requires
        0 <= i < s.len(),
    ensures
        sum(s.remove(i)) == sum(s) - s[i],
    decreases s.len(),
{
    if i == s.len() - 1 {
        assert(s.remove(i) =~= s.drop_last());
    } else {
        assert(s.remove(i).drop_last() =~= s.drop_last().remove(i));
        lemma_sum_remove(s.drop_last(), i);
    }
}

/// The numbers at some positions, in the order of the positions.
pub open spec fn picked(s: Seq<int>, positions: Seq<int>) -> Seq<int> {
    Seq::new(positions.len(), |k: int| s[positions[k]])
}

/// Rearranging numbers keeps their sum.
pub proof fn lemma_sum_rearranged(s: Seq<int>, positions: Seq<int>)
    requires
        positions.len() == s.len(),
        positions.no_duplicates(),
        forall|k: int| 0 <= k < positions.len() ==> 0 <= #[trigger] positions[k] < s.len(),
    ensures
        sum(picked(s, positions)) == sum(s),
    decreases s.len(),
{
    if s.len() == 0 {
        assert(picked(s, positions) =~= s);
    } else {
        let last = s.len() - 1;
        lemma_covers(positions, s.len() as int);
        let at = positions.index_of(last);
        let rest = positions.remove(at);
        assert(rest.no_duplicates()) by {
            assert forall|i: int, j: int| 0 <= i < rest.len() && 0 <= j < rest.len() && i != j implies rest[i]
                != rest[j] by {
                let a = if i < at { i } else { i + 1 };
                let b = if j < at { j } else { j + 1 };
                assert(rest[i] == positions[a] && rest[j] == positions[b]);
            }
        }
        assert forall|k: int| 0 <= k < rest.len() implies 0 <= #[trigger] rest[k] < last by {
            let a = if k < at { k } else { k + 1 };
            assert(rest[k] == positions[a]);
            assert(positions[a] != positions[at]);
        }
        lemma_sum_rearranged(s.drop_last(), rest);
        assert(picked(s, positions).remove(at) =~= picked(s.drop_last(), rest));
        lemma_sum_remove(picked(s, positions), at);
    }
}

/// As many distinct positions as there are leave none out.
proof fn lemma_covers(positions: Seq<int>, n: int)
    requires
        0 < n == positions.len(),
        positions.no_duplicates(),
        forall|k: int| 0 <= k < positions.len() ==> 0 <= #[trigger] positions[k] < n,
    ensures
        positions.contains(n - 1),
{
    let all = Seq::new(n as nat, |i: int| i);
    assert(all.no_duplicates());
    all.unique_seq_to_set();
    positions.unique_seq_to_set();
    assert(positions.to_set().subset_of(all.to_set())) by {
        assert forall|i: int| positions.to_set().contains(i) implies all.to_set().contains(i) by {
            let k = positions.index_of(i);
            assert(positions[k] == i);
            assert(all[i] == i);
        }
    }
    vstd::set_lib::lemma_subset_equality(positions.to_set(), all.to_set());
    assert(all[n - 1] == n - 1);
    assert(positions.to_set().contains(n - 1));
}

/// The sum of `f` beside each of some ids.
pub open spec fn sums_beside<I, T>(ids: Seq<I>, values: Seq<T>, f: spec_fn(T) -> int, picks: Seq<I>) -> Seq<int> {
    Seq::new(picks.len(), |k: int| sum_by(group::gather(ids, values, picks[k]), f))
}

/// Whatever the order in which the distinct ids are listed, the sums beside them add up to the sum
/// over all rows.
pub proof fn listed_groups_keep_the_total<I, T>(
    ids: Seq<I>,
    values: Seq<T>,
    f: spec_fn(T) -> int,
    picks: Seq<I>,
)
    requires
        ids.len() == values.len(),
        picks.no_duplicates(),
        picks.len() == group::first_seen(ids).len(),
        forall|k: int| 0 <= k < picks.len() ==> ids.contains(#[trigger] picks[k]),
    ensures
        sum(sums_beside(ids, values, f, picks)) == sum_by(values, f),
{
    let seen = group::first_seen(ids);
    group::lemma_first_seen(ids);
    groups_keep_the_total(ids, values, f);
    let positions = Seq::new(picks.len(), |k: int| seen.index_of(picks[k]));
    assert forall|k: int| 0 <= k < picks.len() implies 0 <= #[trigger] positions[k] < seen.len()
        && seen[positions[k]] == picks[k] by {
        assert(seen.contains(picks[k]));
    }
    assert forall|i: int, j: int| 0 <= i < positions.len() && 0 <= j < positions.len() && i != j implies positions[i]
        != positions[j] by {
        assert(seen[positions[i]] == picks[i]);
        assert(seen[positions[j]] == picks[j]);
    }
    assert(picked(group_sums(ids, values, f), positions) =~= sums_beside(ids, values, f, picks));
    lemma_sum_rearranged(group_sums(ids, values, f), positions);
}

/// One for the item `v`, and zero for any other.
pub open spec fn one_for<T>(v: T) -> spec_fn(T) -> int {
    |x: T|
        if x == v {
            1int
        } else {
            0int
        }
}

/// How often an item occurs is a sum of ones.
pub proof fn lemma_count<T>(s: Seq<T>, v: T)
    ensures
        s.to_multiset().count(v) == sum_by(s, one_for(v)),
    decreases s.len(),
{
    broadcast use vstd::seq_lib::group_to_multiset_ensures;

    if s.len() == 0 {
        assert(!s.contains(v));
    } else {
        lemma_count(s.drop_last(), v);
        assert(s =~= s.drop_last().push(s.last()));
    }
}

/// Two lists in which every item occurs as often hold the same items.
pub proof fn lemma_same_items<T>(a: Seq<T>, b: Seq<T>)
    requires
        forall|v: T| sum_by(a, #[trigger] one_for(v)) == sum_by(b, one_for(v)),
    ensures
        a.to_multiset() == b.to_multiset(),
{
    assert forall|v: T| a.to_multiset().count(v) == b.to_multiset().count(v) by {
        lemma_count(a, v);
        lemma_count(b, v);
    }
    assert(a.to_multiset() =~= b.to_multiset());
}

/// Taking one item out lowers the sum by what `f` says of it.
proof fn lemma_sum_by_remove<T>(s: Seq<T>, i: int, f: spec_fn(T) -> int)
    requires
        0 <= i < s.len(),
    ensures
        sum_by(s.remove(i), f) == sum_by(s, f) - f(s[i]),
    decreases s.len(),
{
    if i == s.len() - 1 {
        assert(s.remove(i) =~= s.drop_last());
    } else {
        assert(s.remove(i).drop_last() =~= s.drop_last().remove(i));
        lemma_sum_by_remove(s.drop_last(), i, f);
    }
}

/// Two lists that hold the same items have one sum.
pub proof fn lemma_sum_by_same_items<T>(a: Seq<T>, b: Seq<T>, f: spec_fn(T) -> int)
    requires
        a.to_multiset() == b.to_multiset(),
    ensures
        sum_by(a, f) == sum_by(b, f),
    decreases a.len(),
{
    broadcast use vstd::seq_lib::group_to_multiset_ensures;

    assert(a.len() == a.to_multiset().len() && b.len() == b.to_multiset().len());
    if a.len() > 0 {
        let v = a.last();
        assert(a.contains(v));
        assert(b.to_multiset().count(v) > 0);
        let j = b.index_of(v);
        assert(a.remove(a.len() - 1) =~= a.drop_last());
        assert(a.drop_last().to_multiset() =~= b.remove(j).to_multiset());
        lemma_sum_by_same_items(a.drop_last(), b.remove(j), f);
        lemma_sum_by_remove(b, j, f);
    }
}

/// The sum beside one id is the sum of what stands beside it, and of zero for the rest.
pub proof fn lemma_gathered_sum<T, I, U>(
    items: Seq<T>,
    id_of: spec_fn(T) -> I,
    value_of: spec_fn(T) -> U,
    id: I,
    f: spec_fn(U) -> int,
)
    ensures
        sum_by(group::gather(items.map_values(id_of), items.map_values(value_of), id), f) == sum_by(
            items,
            |x: T|
                if id_of(x) == id {
                    f(value_of(x))
                } else {
                    0int
                },
        ),
    decreases items.len(),
{
    if items.len() > 0 {
        let prior = items.drop_last();
        lemma_gathered_sum(prior, id_of, value_of, id, f);
        assert(items.map_values(id_of).drop_last() =~= prior.map_values(id_of));
        assert(items.map_values(value_of).drop_last() =~= prior.map_values(value_of));
        lemma_sum_by_push(
            group::gather(prior.map_values(id_of), prior.map_values(value_of), id),
            value_of(items.last()),
            f,
        );
    }
}

/// Two functions that agree on the items have one sum.
pub proof fn lemma_agreeing_sums<T>(s: Seq<T>, f: spec_fn(T) -> int, g: spec_fn(T) -> int)
    requires
        forall|i: int| 0 <= i < s.len() ==> f(#[trigger] s[i]) == g(s[i]),
    ensures
        sum_by(s, f) == sum_by(s, g),
    decreases s.len(),
{
    if s.len() > 0 {
        lemma_agreeing_sums(s.drop_last(), f, g);
    }
}

/// One where `p` holds of an item, and zero where it does not.
pub open spec fn one_where<T>(p: spec_fn(T) -> bool) -> spec_fn(T) -> int {
    |x: T|
        if p(x) {
            1int
        } else {
            0int
        }
}

/// The number of items of which `p` holds.
pub open spec fn how_many<T>(s: Seq<T>, p: spec_fn(T) -> bool) -> int {
    sum_by(s, one_where(p))
}

/// Where `p` holds of the first `n` items it holds of at least `n`; where it holds of none after them
/// it holds of at most `n`.
pub proof fn lemma_how_many<T>(s: Seq<T>, p: spec_fn(T) -> bool, n: int)
    requires
        0 <= n <= s.len(),
    ensures
        (forall|j: int| 0 <= j < n ==> p(#[trigger] s[j])) ==> how_many(s, p) >= n,
        (forall|j: int| n <= j < s.len() ==> !p(#[trigger] s[j])) ==> how_many(s, p) <= n,
        0 <= how_many(s, p) <= s.len(),
    decreases s.len(),
{
    if s.len() > 0 {
        let prior = s.drop_last();
        let last = s.len() - 1;
        if n == s.len() {
            lemma_how_many(prior, p, n - 1);
            if forall|j: int| 0 <= j < n ==> p(#[trigger] s[j]) {
                assert(p(s[last]));
                assert forall|j: int| 0 <= j < n - 1 implies p(#[trigger] prior[j]) by {
                    assert(p(s[j]));
                }
            }
        } else {
            lemma_how_many(prior, p, n);
            if forall|j: int| 0 <= j < n ==> p(#[trigger] s[j]) {
                assert forall|j: int| 0 <= j < n implies p(#[trigger] prior[j]) by {
                    assert(p(s[j]));
                }
            }
            if forall|j: int| n <= j < s.len() ==> !p(#[trigger] s[j]) {
                assert(!p(s[last]));
                assert forall|j: int| n <= j < prior.len() implies !p(#[trigger] prior[j]) by {
                    assert(!p(s[j]));
                }
            }
        }
    }
}

/// All items are as many as there are.
pub proof fn lemma_all<T>(s: Seq<T>)
    ensures
        how_many(s, |x: T| true) == s.len(),
    decreases s.len(),
{
    if s.len() > 0 {
        lemma_all(s.drop_last());
    }
}

/// Predicates that agree hold of as many items.
pub proof fn lemma_as_many<T>(s: Seq<T>, p: spec_fn(T) -> bool, q: spec_fn(T) -> bool)
    requires
        forall|i: int| 0 <= i < s.len() ==> p(#[trigger] s[i]) == q(s[i]),
    ensures
        how_many(s, p) == how_many(s, q),
{
    lemma_agreeing_sums(s, one_where(p), one_where(q));
}

} // verus!

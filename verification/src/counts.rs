//! Names and how often they were counted.
use crate::group;
use crate::group::Key;
use crate::order;
use crate::order::LargestFirst;
use crate::sums;
use vstd::prelude::*;

verus! {

/// A name and how often it was counted.
pub struct Counted {
    pub name: String,
    pub count: usize,
}

/// What the entries hold.
pub open spec fn entry_views(entries: Seq<Counted>) -> Seq<(Seq<char>, usize)> {
    Seq::new(entries.len(), |i: int| (entries[i].name@, entries[i].count))
}

/// The names among counted names.
pub open spec fn names_of(counted: Seq<(Seq<char>, usize)>) -> Seq<Seq<char>> {
    Seq::new(counted.len(), |i: int| counted[i].0)
}

/// The counts among counted names.
pub open spec fn counts_of(counted: Seq<(Seq<char>, usize)>) -> Seq<usize> {
    Seq::new(counted.len(), |i: int| counted[i].1)
}

/// A count, as a function.
pub open spec fn as_count() -> spec_fn(usize) -> int {
    |n: usize| n as int
}

/// How often each name was counted, in the order in which the names first occur.
pub open spec fn tallied(counted: Seq<(Seq<char>, usize)>) -> Seq<(Seq<char>, usize)> {
    Seq::new(
        group::first_seen(names_of(counted)).len(),
        |g: int|
            (
                group::first_seen(names_of(counted))[g],
                sums::group_sums(names_of(counted), counts_of(counted), as_count())[g] as usize,
            ),
    )
}

/// How counted names rank: the largest count first.
pub open spec fn count_ranks(counted: Seq<(Seq<char>, usize)>) -> Seq<LargestFirst> {
    Seq::new(counted.len(), |i: int| LargestFirst(counted[i].1 as u128))
}

/// The counted names with the largest counts first; equal counts keep their order.
pub open spec fn ranked(counted: Seq<(Seq<char>, usize)>) -> Seq<(Seq<char>, usize)> {
    Seq::new(counted.len(), |k: int| counted[order::sorting(count_ranks(counted))[k] as int])
}

fn add_counts(counts: &Vec<usize>) -> (total: usize)
    requires
        sums::sum_by(counts@, as_count()) <= usize::MAX,
    ensures
        total == sums::sum_by(counts@, as_count()),
{
    let mut total: usize = 0;
    let mut i: usize = 0;
    while i < counts.len()
        invariant
            i <= counts@.len(),
            sums::sum_by(counts@, as_count()) <= usize::MAX,
            total == sums::sum_by(counts@.take(i as int), as_count()),
        decreases counts@.len() - i,
    {
        proof {
            sums::lemma_sum_by_take(counts@, i as int, as_count());
            sums::lemma_sum_by_prefix(counts@, i + 1, as_count());
        }
        total = total + counts[i];
        i = i + 1;
    }
    assert(counts@.take(i as int) =~= counts@);
    total
}

/// Adds up the counts under each name, the largest first.
pub(crate) fn tally_counts(names: &Vec<String>, counts: &Vec<usize>, Ghost(counted): Ghost<Seq<(Seq<char>, usize)>>) -> (entries:
    Vec<Counted>)
    requires
        group::ids(names@) == names_of(counted),
        counts@ == counts_of(counted),
        sums::sum_by(counts@, as_count()) <= usize::MAX,
    ensures
        entry_views(entries@) == ranked(tallied(counted)),
{
    let ghost ids = names_of(counted);
    assert(names@.len() == group::ids(names@).len());
    let groups = group::group_values(names, counts);
    let mut unsorted: Vec<Counted> = Vec::new();
    let mut ranks: Vec<LargestFirst> = Vec::new();
    let mut g: usize = 0;
    while g < groups.len()
        invariant
            g <= groups@.len(),
            ids == names_of(counted),
            ids.len() == counts@.len(),
            counts@ == counts_of(counted),
            sums::sum_by(counts@, as_count()) <= usize::MAX,
            group::is_grouping(groups@, ids, counts@),
            unsorted@.len() == g,
            ranks@.len() == g,
            forall|k: int|
                0 <= k < g ==> (#[trigger] unsorted@[k]).name@ == tallied(counted)[k].0
                    && unsorted@[k].count == tallied(counted)[k].1,
            forall|k: int|
                0 <= k < g ==> #[trigger] ranks@[k] == count_ranks(tallied(counted))[k],
        decreases groups@.len() - g,
    {
        proof {
            assert(groups@[g as int].key.id() == group::first_seen(ids)[g as int]);
            sums::lemma_gather_bound(ids, counts@, group::first_seen(ids)[g as int], as_count());
        }
        let count: usize = add_counts(&groups[g].members);
        unsorted.push(Counted { name: groups[g].key.clone(), count });
        ranks.push(LargestFirst(count as u128));
        g = g + 1;
    }
    assert(ranks@ =~= count_ranks(tallied(counted)));
    let sorted = order::order_of(&ranks);
    let mut entries: Vec<Counted> = Vec::new();
    let mut k: usize = 0;
    while k < sorted.len()
        invariant
            k <= sorted@.len(),
            sorted@ == order::sorting(count_ranks(tallied(counted))),
            order::sorts(count_ranks(tallied(counted)), sorted@),
            unsorted@.len() == tallied(counted).len(),
            forall|i: int|
                0 <= i < unsorted@.len() ==> (#[trigger] unsorted@[i]).name@ == tallied(counted)[i].0
                    && unsorted@[i].count == tallied(counted)[i].1,
            entries@.len() == k,
            forall|i: int|
                0 <= i < k ==> ((#[trigger] entries@[i]).name@, entries@[i].count) == ranked(
                    tallied(counted),
                )[i],
        decreases sorted@.len() - k,
    {
        let e = &unsorted[sorted[k]];
        entries.push(Counted { name: e.name.clone(), count: e.count });
        k = k + 1;
    }
    assert(entry_views(entries@) =~= ranked(tallied(counted)));
    entries
}

} // verus!

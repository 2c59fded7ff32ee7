//! Grouping of rows by key, in the order in which the keys first occur.
use vstd::prelude::*;

verus! {

/// A value that rows are grouped by. Two keys with one `id` are the same key.
pub trait Key: Sized {
    type Id;

    spec fn id(&self) -> Self::Id;

    fn same(&self, other: &Self) -> (r: bool)
        ensures
            r == (self.id() == other.id()),
    ;

    fn duplicate(&self) -> (r: Self)
        ensures
            r.id() == self.id(),
    ;
}

impl Key for String {
    type Id = Seq<char>;

    open spec fn id(&self) -> Seq<char> {
        self@
    }

    fn same(&self, other: &Self) -> (r: bool) {
        *self == *other
    }

    fn duplicate(&self) -> (r: Self) {
        self.clone()
    }
}

impl Key for i64 {
    type Id = i64;

    open spec fn id(&self) -> i64 {
        *self
    }

    fn same(&self, other: &Self) -> (r: bool) {
        *self == *other
    }

    fn duplicate(&self) -> (r: Self) {
        *self
    }
}

impl<K: Key> Key for Option<K> {
    type Id = Option<K::Id>;

    open spec fn id(&self) -> Option<K::Id> {
        match self {
            Some(k) => Some(k.id()),
            None => None,
        }
    }

    fn same(&self, other: &Self) -> (r: bool) {
        match (self, other) {
            (Some(a), Some(b)) => a.same(b),
            (None, None) => true,
            _ => false,
        }
    }

    fn duplicate(&self) -> (r: Self) {
        match self {
            Some(k) => Some(k.duplicate()),
            None => None,
        }
    }
}

impl<A: Key, B: Key> Key for (A, B) {
    type Id = (A::Id, B::Id);

    open spec fn id(&self) -> (A::Id, B::Id) {
        (self.0.id(), self.1.id())
    }

    fn same(&self, other: &Self) -> (r: bool) {
        self.0.same(&other.0) && self.1.same(&other.1)
    }

    fn duplicate(&self) -> (r: Self) {
        (self.0.duplicate(), self.1.duplicate())
    }
}

impl<K: Key> Key for Vec<K> {
    type Id = Seq<K::Id>;

    open spec fn id(&self) -> Seq<K::Id> {
        ids(self@)
    }

    fn same(&self, other: &Self) -> (r: bool) {
        if self.len() != other.len() {
            assert(self.id().len() != other.id().len());
            return false;
        }
        let mut i: usize = 0;
        while i < self.len()
            invariant
                i <= self@.len(),
                self@.len() == other@.len(),
                forall|j: int| 0 <= j < i ==> (#[trigger] self@[j]).id() == other@[j].id(),
            decreases self@.len() - i,
        {
            if !self[i].same(&other[i]) {
                proof {
                    assert(self.id()[i as int] != other.id()[i as int]);
                }
                return false;
            }
            i = i + 1;
        }
        assert(self.id() =~= other.id());
        true
    }

    fn duplicate(&self) -> (r: Self) {
        let mut out: Vec<K> = Vec::new();
        let mut i: usize = 0;
        while i < self.len()
            invariant
                i <= self@.len(),
                out@.len() == i,
                forall|j: int| 0 <= j < i ==> (#[trigger] out@[j]).id() == self@[j].id(),
            decreases self@.len() - i,
        {
            out.push(self[i].duplicate());
            i = i + 1;
        }
        assert(out.id() =~= self.id());
        out
    }
}

/// The ids of the keys.
pub open spec fn ids<K: Key>(keys: Seq<K>) -> Seq<K::Id> {
    Seq::new(keys.len(), |i: int| keys[i].id())
}

/// The distinct ids, in the order of their first occurrence.
pub open spec fn first_seen<I>(ids: Seq<I>) -> Seq<I>
    decreases ids.len(),
{
    if ids.len() == 0 {
        Seq::empty()
    } else {
        let earlier = first_seen(ids.drop_last());
        if earlier.contains(ids.last()) {
            earlier
        } else {
            earlier.push(ids.last())
        }
    }
}

/// The values that stand beside `id`, in their order.
pub open spec fn gather<I, T>(ids: Seq<I>, values: Seq<T>, id: I) -> Seq<T>
    decreases ids.len(),
{
    if ids.len() == 0 {
        Seq::empty()
    } else {
        let earlier = gather(ids.drop_last(), values.drop_last(), id);
        if ids.last() == id {
            earlier.push(values.last())
        } else {
            earlier
        }
    }
}

/// The values that rows with one key hold.
pub struct Group<K, T> {
    pub key: K,
    pub members: Vec<T>,
}

/// `groups` holds one group for each distinct id, in the order of first occurrence, with all the
/// values of that id in their order.
pub open spec fn is_grouping<K: Key, T>(
    groups: Seq<Group<K, T>>,
    ids: Seq<K::Id>,
    values: Seq<T>,
) -> bool {
    &&& groups.len() == first_seen(ids).len()
    &&& forall|g: int|
        0 <= g < groups.len() ==> {
            &&& (#[trigger] groups[g]).key.id() == first_seen(ids)[g]
            &&& groups[g].members@ == gather(ids, values, groups[g].key.id())
        }
}

/// No id occurs twice among the first occurrences, and no id is lost.
pub proof fn lemma_first_seen<I>(ids: Seq<I>)
    ensures
        first_seen(ids).no_duplicates(),
        forall|id: I| #[trigger] first_seen(ids).contains(id) <==> ids.contains(id),
        first_seen(ids).len() <= ids.len(),
    decreases ids.len(),
{
    if ids.len() > 0 {
        let prior = ids.drop_last();
        lemma_first_seen(prior);
        let earlier = first_seen(prior);
        assert(ids =~= prior.push(ids.last()));
        assert forall|id: I| #[trigger] first_seen(ids).contains(id) <==> ids.contains(id) by {
            if ids.contains(id) {
                let i = ids.index_of(id);
                if i < prior.len() {
                    assert(prior[i] == id);
                    assert(prior.contains(id));
                    assert(first_seen(prior).contains(id));
                    let j = earlier.index_of(id);
                    assert(first_seen(ids)[j] == id);
                } else if !earlier.contains(id) {
                    assert(first_seen(ids)[earlier.len() as int] == id);
                }
            }
            if first_seen(ids).contains(id) {
                let j = first_seen(ids).index_of(id);
                if j < earlier.len() {
                    assert(earlier[j] == id);
                    assert(first_seen(prior).contains(id));
                    assert(prior.contains(id));
                    let i = prior.index_of(id);
                    assert(ids[i] == id);
                } else {
                    assert(ids[ids.len() - 1] == id);
                }
            }
        }
    }
}

/// Only ids that occur have values beside them.
pub proof fn lemma_gather_absent<I, T>(ids: Seq<I>, values: Seq<T>, id: I)
    requires
        ids.len() == values.len(),
    ensures
        ids.contains(id) <==> gather(ids, values, id).len() > 0,
        gather(ids, values, id).len() <= values.len(),
    decreases ids.len(),
{
    if ids.len() > 0 {
        let prior = ids.drop_last();
        lemma_gather_absent(prior, values.drop_last(), id);
        if ids.last() == id {
            assert(ids[ids.len() - 1] == id);
        } else {
            if ids.contains(id) {
                let i = ids.index_of(id);
                assert(prior[i] == id);
            }
            if prior.contains(id) {
                let i = prior.index_of(id);
                assert(ids[i] == id);
            }
        }
    }
}

/// Whatever holds of all values holds of those beside one id.
pub proof fn lemma_gather_all<I, T>(ids: Seq<I>, values: Seq<T>, id: I, p: spec_fn(T) -> bool)
    requires
        ids.len() == values.len(),
        forall|i: int| 0 <= i < values.len() ==> p(#[trigger] values[i]),
    ensures
        forall|i: int|
            0 <= i < gather(ids, values, id).len() ==> p(#[trigger] gather(ids, values, id)[i]),
    decreases ids.len(),
{
    if ids.len() > 0 {
        let prior = values.drop_last();
        assert forall|i: int| 0 <= i < prior.len() implies p(#[trigger] prior[i]) by {
            assert(p(values[i]));
        }
        lemma_gather_all(ids.drop_last(), prior, id, p);
        let earlier = gather(ids.drop_last(), prior, id);
        assert forall|i: int| 0 <= i < gather(ids, values, id).len() implies p(
            #[trigger] gather(ids, values, id)[i],
        ) by {
            if i < earlier.len() {
                assert(p(earlier[i]));
            } else {
                assert(p(values[values.len() - 1]));
            }
        }
    }
}

/// The positions of all rows.
pub open spec fn all_positions(n: nat) -> Seq<usize> {
    Seq::new(n, |i: int| i as usize)
}

/// The items at some positions.
pub open spec fn at_positions<T>(values: Seq<T>, positions: Seq<usize>) -> Seq<T> {
    Seq::new(positions.len(), |k: int| values[positions[k] as int])
}

/// The values beside an id stand at the positions beside that id.
pub proof fn lemma_gather_positions<I, T>(ids: Seq<I>, values: Seq<T>, id: I)
    requires
        ids.len() == values.len() <= usize::MAX,
    ensures
        gather(ids, values, id) == at_positions(values, gather(ids, all_positions(ids.len()), id)),
        forall|k: int|
            0 <= k < gather(ids, all_positions(ids.len()), id).len() ==> (#[trigger] gather(
                ids,
                all_positions(ids.len()),
                id,
            )[k]) < values.len(),
    decreases ids.len(),
{
    let positions = gather(ids, all_positions(ids.len()), id);
    if ids.len() > 0 {
        let prior = values.drop_last();
        lemma_gather_positions(ids.drop_last(), prior, id);
        let earlier = gather(ids.drop_last(), all_positions((ids.len() - 1) as nat), id);
        assert(all_positions(ids.len()).drop_last() =~= all_positions((ids.len() - 1) as nat));
        assert(gather(ids, values, id) =~= at_positions(values, positions)) by {
            assert forall|k: int| 0 <= k < earlier.len() implies #[trigger] at_positions(prior, earlier)[k]
                == values[earlier[k] as int] by {}
        }
        assert forall|k: int| 0 <= k < positions.len() implies (#[trigger] positions[k]) < values.len() by {
            if k < earlier.len() {
                assert(positions[k] == earlier[k]);
            }
        }
    } else {
        assert(gather(ids, values, id) =~= at_positions(values, positions));
    }
}

/// Groups the positions of the keys.
pub fn group_positions<K: Key>(keys: &Vec<K>) -> (groups: Vec<Group<K, usize>>)
    ensures
        is_grouping(groups@, ids(keys@), all_positions(keys@.len())),
{
    let mut positions: Vec<usize> = Vec::new();
    let mut i: usize = 0;
    while i < keys.len()
        invariant
            i <= keys@.len(),
            positions@ == all_positions(i as nat),
        decreases keys@.len() - i,
    {
        positions.push(i);
        i = i + 1;
        assert(positions@ =~= all_positions(i as nat));
    }
    group_values(keys, &positions)
}

/// The group of `key` among `groups`, or their number where there is none.
fn find_group<K: Key, T>(groups: &Vec<Group<K, T>>, key: &K) -> (at: usize)
    ensures
        at <= groups@.len(),
        at < groups@.len() ==> groups@[at as int].key.id() == key.id(),
        forall|g: int| 0 <= g < at ==> (#[trigger] groups@[g]).key.id() != key.id(),
{
    let mut g: usize = 0;
    while g < groups.len()
        invariant
            g <= groups@.len(),
            forall|h: int| 0 <= h < g ==> (#[trigger] groups@[h]).key.id() != key.id(),
        decreases groups@.len() - g,
    {
        if groups[g].key.same(key) {
            return g;
        }
        g = g + 1;
    }
    g
}

/// Groups the values by the keys that stand beside them.
pub fn group_values<K: Key, T: Copy>(keys: &Vec<K>, values: &Vec<T>) -> (groups: Vec<Group<K, T>>)
    requires
        keys@.len() == values@.len(),
    ensures
        is_grouping(groups@, ids(keys@), values@),
{
    let mut groups: Vec<Group<K, T>> = Vec::new();
    let mut i: usize = 0;
    assert(ids(keys@.take(0)) =~= ids(keys@).take(0));
    while i < keys.len()
        invariant
            i <= keys@.len(),
            keys@.len() == values@.len(),
            is_grouping(groups@, ids(keys@).take(i as int), values@.take(i as int)),
        decreases keys@.len() - i,
    {
        let ghost seen = ids(keys@).take(i as int);
        let ghost next = ids(keys@).take(i + 1);
        let ghost had = values@.take(i as int);
        let ghost has = values@.take(i + 1);
        let ghost before = groups@;
        let at: usize = find_group(&groups, &keys[i]);
        let value: T = values[i];
        proof {
            assert(next.drop_last() =~= seen);
            assert(has.drop_last() =~= had);
            assert(next.last() == keys@[i as int].id());
            lemma_first_seen(seen);
            lemma_gather_absent(seen, had, keys@[i as int].id());
        }
        if at < groups.len() {
            proof {
                assert(first_seen(seen)[at as int] == keys@[i as int].id());
                assert(first_seen(seen).contains(keys@[i as int].id()));
            }
            groups[at].members.push(value);
            proof {
                assert forall|g: int| 0 <= g < groups@.len() implies {
                    &&& (#[trigger] groups@[g]).key.id() == first_seen(next)[g]
                    &&& groups@[g].members@ == gather(next, has, groups@[g].key.id())
                } by {
                    assert(before[g].key.id() == first_seen(seen)[g]);
                    if g != at {
                        assert(groups@[g] == before[g]);
                    }
                }
            }
        } else {
            proof {
                if first_seen(seen).contains(keys@[i as int].id()) {
                    let j = first_seen(seen).index_of(keys@[i as int].id());
                    assert(before[j].key.id() == keys@[i as int].id());
                }
                assert(!seen.contains(keys@[i as int].id()));
            }
            let mut members: Vec<T> = Vec::new();
            members.push(value);
            groups.push(Group { key: keys[i].duplicate(), members });
            proof {
                let last = groups@[before.len() as int];
                assert(last.members@ =~= gather(seen, had, keys@[i as int].id()).push(value));
                assert forall|g: int| 0 <= g < groups@.len() implies {
                    &&& (#[trigger] groups@[g]).key.id() == first_seen(next)[g]
                    &&& groups@[g].members@ == gather(next, has, groups@[g].key.id())
                } by {
                    if g < before.len() {
                        assert(before[g].key.id() == first_seen(seen)[g]);
                        assert(groups@[g] == before[g]);
                    }
                }
            }
        }
        i = i + 1;
    }
    assert(ids(keys@).take(i as int) =~= ids(keys@));
    assert(values@.take(i as int) =~= values@);
    groups
}

/// What stands beside an id comes from a place of that id.
pub proof fn lemma_gathered_from<I, T>(ids: Seq<I>, values: Seq<T>, id: I, j: int) -> (i: int)
    requires
        ids.len() == values.len(),
        0 <= j < gather(ids, values, id).len(),
    ensures
        0 <= i < ids.len(),
        ids[i] == id,
        values[i] == gather(ids, values, id)[j],
    decreases ids.len(),
{
    let prior = gather(ids.drop_last(), values.drop_last(), id);
    if j < prior.len() {
        lemma_gathered_from(ids.drop_last(), values.drop_last(), id, j)
    } else {
        ids.len() - 1
    }
}

/// What stands at a place of an id stands beside it.
pub proof fn lemma_gathered_into<I, T>(ids: Seq<I>, values: Seq<T>, i: int)
    requires
        ids.len() == values.len(),
        0 <= i < ids.len(),
    ensures
        gather(ids, values, ids[i]).contains(values[i]),
    decreases ids.len(),
{
    let id = ids[i];
    let earlier = gather(ids.drop_last(), values.drop_last(), id);
    if i < ids.len() - 1 {
        lemma_gathered_into(ids.drop_last(), values.drop_last(), i);
        let j = earlier.index_of(values[i]);
        assert(gather(ids, values, id)[j] == values[i]);
    } else {
        assert(gather(ids, values, id)[earlier.len() as int] == values[i]);
    }
}

} // verus!

//! Stable sorting, by the positions of the sorted items or by value.
use crate::group::Key;
use crate::text;
use vstd::prelude::*;

verus! {

/// A value that items are sorted by: `leq` is a total preorder.
pub trait Rank: Sized {
    spec fn leq(&self, other: &Self) -> bool;

    proof fn leq_total(a: &Self, b: &Self)
        ensures
            a.leq(b) || b.leq(a),
    ;

    proof fn leq_transitive(a: &Self, b: &Self, c: &Self)
        requires
            a.leq(b),
            b.leq(c),
        ensures
            a.leq(c),
    ;

    fn at_most(&self, other: &Self) -> (r: bool)
        ensures
            r == self.leq(other),
    ;
}

/// Sorts the largest number first.
#[derive(Clone, Copy, Debug, PartialEq, Eq, Structural)]
pub struct LargestFirst(pub u128);

impl Rank for LargestFirst {
    open spec fn leq(&self, other: &Self) -> bool {
        self.0 >= other.0
    }

    proof fn leq_total(a: &Self, b: &Self) {
    }

    proof fn leq_transitive(a: &Self, b: &Self, c: &Self) {
    }

    fn at_most(&self, other: &Self) -> (r: bool) {
        self.0 >= other.0
    }
}

/// Sorts the smallest number first.
#[derive(Clone, Copy, Debug, PartialEq, Eq, Structural)]
pub struct SmallestFirst(pub i128);

impl Rank for SmallestFirst {
    open spec fn leq(&self, other: &Self) -> bool {
        self.0 <= other.0
    }

    proof fn leq_total(a: &Self, b: &Self) {
    }

    proof fn leq_transitive(a: &Self, b: &Self, c: &Self) {
    }

    fn at_most(&self, other: &Self) -> (r: bool) {
        self.0 <= other.0
    }
}

/// Sorts by a number, smallest first, and then by a label: no label comes first, then the labels in
/// the order of texts.
pub struct LabelRank {
    pub number: i128,
    pub label: Option<String>,
}

/// Labels in order: no label comes first.
pub open spec fn label_leq(a: Option<Seq<char>>, b: Option<Seq<char>>) -> bool {
    match (a, b) {
        (None, _) => true,
        (Some(_), None) => false,
        (Some(x), Some(y)) => text::text_leq(x, y),
    }
}

impl Rank for LabelRank {
    open spec fn leq(&self, other: &Self) -> bool {
        self.number < other.number || (self.number == other.number && label_leq(
            text::optional(self.label),
            text::optional(other.label),
        ))
    }

    proof fn leq_total(a: &Self, b: &Self) {
        match (a.label, b.label) {
            (Some(x), Some(y)) => text::lemma_text_total(x@, y@),
            _ => {},
        }
    }

    proof fn leq_transitive(a: &Self, b: &Self, c: &Self) {
        match (a.label, b.label, c.label) {
            (Some(x), Some(y), Some(z)) => {
                if text::text_leq(x@, y@) && text::text_leq(y@, z@) {
                    text::lemma_text_transitive(x@, y@, z@);
                }
            },
            _ => {},
        }
    }

    fn at_most(&self, other: &Self) -> (r: bool) {
        if self.number < other.number {
            return true;
        }
        if self.number > other.number {
            return false;
        }
        match (&self.label, &other.label) {
            (None, _) => true,
            (Some(_), None) => false,
            (Some(x), Some(y)) => text::text_at_most(x.as_str(), y.as_str()),
        }
    }
}

/// Labels that precede each other are the same, and of two labels one precedes the other.
pub proof fn lemma_label_total(a: Option<Seq<char>>, b: Option<Seq<char>>)
    ensures
        label_leq(a, b) || label_leq(b, a),
        label_leq(a, b) && label_leq(b, a) ==> a == b,
{
    match (a, b) {
        (Some(x), Some(y)) => text::lemma_text_total(x, y),
        _ => {},
    }
}

/// The order of labels is transitive.
pub proof fn lemma_label_transitive(a: Option<Seq<char>>, b: Option<Seq<char>>, c: Option<Seq<char>>)
    requires
        label_leq(a, b),
        label_leq(b, c),
    ensures
        label_leq(a, c),
{
    match (a, b, c) {
        (Some(x), Some(y), Some(z)) => text::lemma_text_transitive(x, y, z),
        _ => {},
    }
}

/// Sorts by a list of labels, the first label first.
pub struct LabelsRank {
    pub labels: Vec<Option<String>>,
}

/// Lists of labels in lexicographic order.
pub open spec fn labels_leq(a: Seq<Option<Seq<char>>>, b: Seq<Option<Seq<char>>>) -> bool
    decreases a.len(),
{
    if a.len() == 0 {
        true
    } else if b.len() == 0 {
        false
    } else if a[0] != b[0] {
        label_leq(a[0], b[0])
    } else {
        labels_leq(a.drop_first(), b.drop_first())
    }
}

/// Lists of labels that precede each other are the same, and of two lists one precedes the other.
pub proof fn lemma_labels_total(a: Seq<Option<Seq<char>>>, b: Seq<Option<Seq<char>>>)
    ensures
        labels_leq(a, b) || labels_leq(b, a),
        labels_leq(a, b) && labels_leq(b, a) ==> a == b,
    decreases a.len(),
{
    if a.len() > 0 && b.len() > 0 {
        lemma_label_total(a[0], b[0]);
        if a[0] == b[0] {
            lemma_labels_total(a.drop_first(), b.drop_first());
            assert(a =~= seq![a[0]] + a.drop_first());
            assert(b =~= seq![b[0]] + b.drop_first());
        }
    } else if a.len() == 0 && b.len() == 0 {
        assert(a =~= b);
    }
}

proof fn lemma_labels_transitive(
    a: Seq<Option<Seq<char>>>,
    b: Seq<Option<Seq<char>>>,
    c: Seq<Option<Seq<char>>>,
)
    requires
        labels_leq(a, b),
        labels_leq(b, c),
    ensures
        labels_leq(a, c),
    decreases a.len(),
{
    if a.len() > 0 && b.len() > 0 && c.len() > 0 {
        if a[0] == b[0] && b[0] == c[0] {
            lemma_labels_transitive(a.drop_first(), b.drop_first(), c.drop_first());
        } else if a[0] != b[0] && b[0] != c[0] {
            lemma_label_transitive(a[0], b[0], c[0]);
            lemma_label_total(a[0], b[0]);
        }
    }
}

impl Rank for LabelsRank {
    open spec fn leq(&self, other: &Self) -> bool {
        labels_leq(self.labels.id(), other.labels.id())
    }

    proof fn leq_total(a: &Self, b: &Self) {
        lemma_labels_total(a.labels.id(), b.labels.id());
    }

    proof fn leq_transitive(a: &Self, b: &Self, c: &Self) {
        lemma_labels_transitive(a.labels.id(), b.labels.id(), c.labels.id());
    }

    fn at_most(&self, other: &Self) -> (r: bool) {
        let a = &self.labels;
        let b = &other.labels;
        let mut i: usize = 0;
        assert(a.id().skip(0) =~= a.id());
        assert(b.id().skip(0) =~= b.id());
        while i < a.len() && i < b.len()
            invariant
                a == self.labels,
                b == other.labels,
                i <= a@.len(),
                i <= b@.len(),
                labels_leq(a.id(), b.id()) == labels_leq(a.id().skip(i as int), b.id().skip(i as int)),
            decreases a@.len() - i,
        {
            assert(a.id().skip(i as int)[0] == a@[i as int].id());
            assert(b.id().skip(i as int)[0] == b@[i as int].id());
            if !a[i].same(&b[i]) {
                return match (&a[i], &b[i]) {
                    (None, _) => true,
                    (Some(_), None) => false,
                    (Some(x), Some(y)) => text::text_at_most(x.as_str(), y.as_str()),
                };
            }
            assert(a.id().skip(i as int).drop_first() =~= a.id().skip(i + 1));
            assert(b.id().skip(i as int).drop_first() =~= b.id().skip(i + 1));
            i = i + 1;
        }
        a.len() <= b.len()
    }
}

/// Position `a` comes before position `b` in a stable sort by rank.
pub open spec fn precedes<R: Rank>(ranks: Seq<R>, a: int, b: int) -> bool {
    ranks[a].leq(&ranks[b]) && (ranks[b].leq(&ranks[a]) ==> a < b)
}

/// The positions in `order` follow each other as in a stable sort by rank.
pub open spec fn in_order<R: Rank>(ranks: Seq<R>, order: Seq<usize>) -> bool {
    forall|i: int, j: int|
        0 <= i < j < order.len() ==> precedes(ranks, #[trigger] order[i] as int, #[trigger] order[j] as int)
}

/// `order` lists every position of `ranks` once, as in a stable sort by rank.
pub open spec fn sorts<R: Rank>(ranks: Seq<R>, order: Seq<usize>) -> bool {
    &&& order.len() == ranks.len()
    &&& forall|i: int| 0 <= i < order.len() ==> (#[trigger] order[i]) < ranks.len()
    &&& in_order(ranks, order)
}

/// The stable sort by rank.
pub open spec fn sorting<R: Rank>(ranks: Seq<R>) -> Seq<usize> {
    choose|order: Seq<usize>| sorts(ranks, order)
}

/// A stable sort leaves no position out and lists none twice.
pub proof fn sorting_is_a_rearrangement<R: Rank>(ranks: Seq<R>, order: Seq<usize>)
    requires
        sorts(ranks, order),
        ranks.len() <= usize::MAX,
    ensures
        order.no_duplicates(),
        forall|i: usize| #![trigger order.contains(i)] i < ranks.len() ==> order.contains(i),
{
    assert forall|i: int, j: int| 0 <= i < j < order.len() implies order[i] != order[j] by {
        assert(precedes(ranks, order[i] as int, order[j] as int));
        R::leq_total(&ranks[order[i] as int], &ranks[order[i] as int]);
    }
    let positions = Seq::new(ranks.len(), |i: int| i as usize);
    assert(positions.no_duplicates());
    order.unique_seq_to_set();
    positions.unique_seq_to_set();
    assert(order.to_set().subset_of(positions.to_set())) by {
        assert forall|i: usize| order.to_set().contains(i) implies positions.to_set().contains(i) by {
            let p = order.index_of(i);
            assert(order[p] == i);
            assert(positions[i as int] == i);
        }
    }
    vstd::set_lib::lemma_subset_equality(order.to_set(), positions.to_set());
    assert forall|i: usize| #![trigger order.contains(i)] i < ranks.len() implies order.contains(i) by {
        assert(positions[i as int] == i);
        assert(positions.to_set().contains(i));
        assert(order.to_set().contains(i));
    }
}

/// There is one stable sort.
pub proof fn sorting_is_unique<R: Rank>(ranks: Seq<R>, a: Seq<usize>, b: Seq<usize>)
    requires
        sorts(ranks, a),
        sorts(ranks, b),
        ranks.len() <= usize::MAX,
    ensures
        a == b,
{
    sorting_is_a_rearrangement(ranks, a);
    sorting_is_a_rearrangement(ranks, b);
    assert forall|p: int| 0 <= p < a.len() implies a[p] == b[p] by {
        lemma_same_up_to(ranks, a, b, p + 1);
    }
    assert(a =~= b);
}

proof fn lemma_same_up_to<R: Rank>(ranks: Seq<R>, a: Seq<usize>, b: Seq<usize>, n: int)
    requires
        sorts(ranks, a),
        sorts(ranks, b),
        a.no_duplicates(),
        b.no_duplicates(),
        forall|i: usize| #![trigger a.contains(i)] i < ranks.len() ==> a.contains(i),
        forall|i: usize| #![trigger b.contains(i)] i < ranks.len() ==> b.contains(i),
        0 <= n <= a.len(),
    ensures
        forall|p: int| 0 <= p < n ==> #[trigger] a[p] == b[p],
    decreases n,
{
    if n > 0 {
        lemma_same_up_to(ranks, a, b, n - 1);
        let p = n - 1;
        if a[p] != b[p] {
            assert(b.contains(a[p]));
            assert(a.contains(b[p]));
            let q = b.index_of(a[p]);
            let r = a.index_of(b[p]);
            assert(q > p) by {
                if q < p {
                    assert(a[q] == b[q]);
                }
            }
            assert(r > p) by {
                if r < p {
                    assert(a[r] == b[r]);
                }
            }
            assert(precedes(ranks, b[p] as int, b[q] as int));
            assert(precedes(ranks, a[p] as int, a[r] as int));
        }
    }
}

/// Where the next position goes among sorted ones: after those that rank no later.
proof fn lemma_place<R: Rank>(ranks: Seq<R>, order: Seq<usize>, next: int) -> (at: int)
    requires
        in_order(ranks, order),
    ensures
        0 <= at <= order.len(),
        forall|i: int| 0 <= i < at ==> ranks[#[trigger] order[i] as int].leq(&ranks[next]),
        forall|i: int| at <= i < order.len() ==> !ranks[#[trigger] order[i] as int].leq(&ranks[next]),
    decreases order.len(),
{
    if order.len() == 0 {
        0
    } else {
        let last = order.last() as int;
        if ranks[last].leq(&ranks[next]) {
            assert forall|i: int| 0 <= i < order.len() implies ranks[#[trigger] order[i] as int].leq(
                &ranks[next],
            ) by {
                if i < order.len() - 1 {
                    assert(precedes(ranks, order[i] as int, order[order.len() - 1] as int));
                    R::leq_transitive(&ranks[order[i] as int], &ranks[last], &ranks[next]);
                }
            }
            order.len() as int
        } else {
            let rest = order.drop_last();
            assert(in_order(ranks, rest));
            let at = lemma_place(ranks, rest, next);
            assert forall|i: int| 0 <= i < at implies ranks[#[trigger] order[i] as int].leq(&ranks[next]) by {
                assert(rest[i] == order[i]);
            }
            assert forall|i: int| at <= i < order.len() implies !ranks[#[trigger] order[i] as int].leq(
                &ranks[next],
            ) by {
                if i < rest.len() {
                    assert(rest[i] == order[i]);
                }
            }
            at
        }
    }
}

/// The first `n` positions can be sorted.
proof fn lemma_sort_prefix<R: Rank>(ranks: Seq<R>, n: int) -> (order: Seq<usize>)
    requires
        0 <= n <= ranks.len() <= usize::MAX,
    ensures
        order.len() == n,
        forall|i: int| 0 <= i < n ==> (#[trigger] order[i]) < n,
        in_order(ranks, order),
    decreases n,
{
    if n == 0 {
        Seq::empty()
    } else {
        let prior = lemma_sort_prefix(ranks, n - 1);
        let next = n - 1;
        let at = lemma_place(ranks, prior, next);
        let order = prior.insert(at, next as usize);
        assert forall|i: int, j: int| 0 <= i < j < order.len() implies precedes(
            ranks,
            #[trigger] order[i] as int,
            #[trigger] order[j] as int,
        ) by {
            let a = if i < at { i } else { i - 1 };
            let b = if j < at { j } else { j - 1 };
            if i != at && j != at {
                assert(prior[a] == order[i] && prior[b] == order[j]);
                assert(precedes(ranks, prior[a] as int, prior[b] as int));
            } else if j == at {
                assert(prior[i] == order[i]);
            } else {
                assert(prior[b] == order[j]);
                R::leq_total(&ranks[next], &ranks[prior[b] as int]);
            }
        }
        order
    }
}

/// There is a stable sort.
pub proof fn lemma_sorting<R: Rank>(ranks: Seq<R>)
    requires
        ranks.len() <= usize::MAX,
    ensures
        sorts(ranks, sorting(ranks)),
{
    let order = lemma_sort_prefix(ranks, ranks.len() as int);
    assert(sorts(ranks, order));
}

/// All positions in `order` lie in `lo..hi`.
spec fn within(order: Seq<usize>, lo: int, hi: int) -> bool {
    forall|i: int| 0 <= i < order.len() ==> lo <= #[trigger] order[i] < hi
}

/// Merges two sorted runs of positions, the first of which lies wholly below the second.
fn merge_runs<R: Rank>(
    ranks: &Vec<R>,
    left: &Vec<usize>,
    right: &Vec<usize>,
    Ghost(lo): Ghost<int>,
    Ghost(mid): Ghost<int>,
    Ghost(hi): Ghost<int>,
) -> (out: Vec<usize>)
    requires
        0 <= lo <= mid <= hi <= ranks@.len(),
        left@.len() == mid - lo,
        right@.len() == hi - mid,
        within(left@, lo, mid),
        within(right@, mid, hi),
        in_order(ranks@, left@),
        in_order(ranks@, right@),
    ensures
        out@.len() == hi - lo,
        within(out@, lo, hi),
        in_order(ranks@, out@),
{
    let mut out: Vec<usize> = Vec::new();
    let mut i: usize = 0;
    let mut j: usize = 0;
    while i < left.len() || j < right.len()
        invariant
            0 <= lo <= mid <= hi <= ranks@.len(),
            left@.len() == mid - lo,
            right@.len() == hi - mid,
            within(left@, lo, mid),
            within(right@, mid, hi),
            in_order(ranks@, left@),
            in_order(ranks@, right@),
            i <= left@.len(),
            j <= right@.len(),
            out@.len() == i + j,
            within(out@, lo, hi),
            in_order(ranks@, out@),
            forall|k: int, l: int|
                0 <= k < out@.len() && i <= l < left@.len() ==> precedes(
                    ranks@,
                    #[trigger] out@[k] as int,
                    #[trigger] left@[l] as int,
                ),
            forall|k: int, l: int|
                0 <= k < out@.len() && j <= l < right@.len() ==> precedes(
                    ranks@,
                    #[trigger] out@[k] as int,
                    #[trigger] right@[l] as int,
                ),
        decreases left@.len() + right@.len() - i - j,
    {
        let take_left: bool = if i < left.len() {
            if j < right.len() {
                ranks[left[i]].at_most(&ranks[right[j]])
            } else {
                true
            }
        } else {
            false
        };
        if take_left {
            let next: usize = left[i];
            proof {
                assert forall|l: int| j <= l < right@.len() implies precedes(
                    ranks@,
                    next as int,
                    #[trigger] right@[l] as int,
                ) by {
                    let head = right@[j as int] as int;
                    if l > j {
                        assert(precedes(ranks@, head, right@[l] as int));
                        R::leq_transitive(&ranks@[next as int], &ranks@[head], &ranks@[right@[l] as int]);
                    }
                }
            }
            out.push(next);
            i = i + 1;
        } else {
            let next: usize = right[j];
            proof {
                assert forall|l: int| i <= l < left@.len() implies precedes(
                    ranks@,
                    next as int,
                    #[trigger] left@[l] as int,
                ) by {
                    let head = left@[i as int] as int;
                    R::leq_total(&ranks@[head], &ranks@[next as int]);
                    if l > i {
                        assert(precedes(ranks@, head, left@[l] as int));
                        R::leq_transitive(&ranks@[next as int], &ranks@[head], &ranks@[left@[l] as int]);
                        if ranks@[left@[l] as int].leq(&ranks@[next as int]) {
                            R::leq_transitive(&ranks@[head], &ranks@[left@[l] as int], &ranks@[next as int]);
                        }
                    }
                }
            }
            out.push(next);
            j = j + 1;
        }
    }
    out
}

/// The positions `lo..hi` in a stable sort by rank.
fn order_range<R: Rank>(ranks: &Vec<R>, lo: usize, hi: usize) -> (out: Vec<usize>)
    requires
        lo <= hi <= ranks@.len(),
    ensures
        out@.len() == hi - lo,
        within(out@, lo as int, hi as int),
        in_order(ranks@, out@),
    decreases hi - lo,
{
    let mut out: Vec<usize> = Vec::new();
    if hi - lo == 0 {
        return out;
    }
    if hi - lo == 1 {
        out.push(lo);
        return out;
    }
    let mid: usize = lo + (hi - lo) / 2;
    let left = order_range(ranks, lo, mid);
    let right = order_range(ranks, mid, hi);
    merge_runs(ranks, &left, &right, Ghost(lo as int), Ghost(mid as int), Ghost(hi as int))
}

/// The positions of `ranks` in a stable sort by rank.
pub fn order_of<R: Rank>(ranks: &Vec<R>) -> (order: Vec<usize>)
    ensures
        sorts(ranks@, order@),
        order@ == sorting(ranks@),
{
    let order = order_range(ranks, 0, ranks.len());
    proof {
        sorting_is_unique(ranks@, order@, sorting(ranks@));
    }
    order
}

/// Puts items in the order that a rearrangement of their positions lists.
pub fn arrange<T>(items: Vec<T>, order: &Vec<usize>) -> (out: Vec<T>)
    requires
        order@.len() == items@.len(),
        order@.no_duplicates(),
        forall|k: int| 0 <= k < order@.len() ==> (#[trigger] order@[k]) < items@.len(),
    ensures
        out@.len() == items@.len(),
        forall|k: int| 0 <= k < out@.len() ==> #[trigger] out@[k] == items@[order@[k] as int],
{
    let ghost all = items@;
    let n: usize = items.len();
    let mut rest = items;
    let mut slots: Vec<Option<T>> = Vec::new();
    while rest.len() > 0
        invariant
            rest@.len() + slots@.len() == n,
            n == all.len(),
            rest@ == all.take(rest@.len() as int),
            forall|j: int| 0 <= j < slots@.len() ==> #[trigger] slots@[j] == Some(all[n - 1 - j]),
        decreases rest@.len(),
    {
        let item = rest.pop();
        assert(rest@ =~= all.take(rest@.len() as int));
        slots.push(item);
    }
    let mut out: Vec<T> = Vec::new();
    let mut k: usize = 0;
    while k < n
        invariant
            k <= n,
            n == all.len(),
            slots@.len() == n,
            order@.len() == n,
            order@.no_duplicates(),
            forall|j: int| 0 <= j < order@.len() ==> (#[trigger] order@[j]) < n,
            out@.len() == k,
            forall|j: int| 0 <= j < k ==> #[trigger] out@[j] == all[order@[j] as int],
            forall|j: int| k <= j < n ==> slots@[n - 1 - #[trigger] order@[j]] == Some(all[order@[j] as int]),
        decreases n - k,
    {
        let at: usize = n - 1 - order[k];
        let ghost before = slots@;
        let taken: Option<T> = slots[at].take();
        assert forall|j: int| k < j < n implies slots@[n - 1 - #[trigger] order@[j]] == Some(
            all[order@[j] as int],
        ) by {
            assert(order@[j] != order@[k as int]);
            assert(before[n - 1 - order@[j]] == Some(all[order@[j] as int]));
        }
        out.push(taken.unwrap());
        k = k + 1;
    }
    out
}

/// The order of the integers, as a relation.
pub open spec fn at_most_i64() -> spec_fn(i64, i64) -> bool {
    |a: i64, b: i64| a <= b
}

/// The values in ascending order.
pub open spec fn ascending(values: Seq<i64>) -> Seq<i64> {
    values.sort_by(at_most_i64())
}

/// `values` has no descent.
pub open spec fn is_ascending(values: Seq<i64>) -> bool {
    forall|i: int, j: int| 0 <= i < j < values.len() ==> #[trigger] values[i] <= #[trigger] values[j]
}

/// An ascending rearrangement of `values` is the ascending order of `values`.
pub proof fn lemma_ascending_unique(values: Seq<i64>, sorted: Seq<i64>)
    requires
        is_ascending(sorted),
        sorted.to_multiset() == values.to_multiset(),
    ensures
        sorted == ascending(values),
{
    values.lemma_sort_by_ensures(at_most_i64());
    vstd::seq_lib::lemma_sorted_unique(sorted, ascending(values), at_most_i64());
}

/// The ascending order holds the same values, in order.
pub proof fn lemma_ascending(values: Seq<i64>)
    ensures
        is_ascending(ascending(values)),
        ascending(values).to_multiset() == values.to_multiset(),
        ascending(values).len() == values.len(),
        forall|v: i64| #[trigger] ascending(values).contains(v) <==> values.contains(v),
{
    broadcast use vstd::seq_lib::group_to_multiset_ensures;

    values.lemma_sort_by_ensures(at_most_i64());
    let s = ascending(values);
    assert(s.to_multiset().len() == values.to_multiset().len());
    assert forall|i: int, j: int| 0 <= i < j < s.len() implies #[trigger] s[i] <= #[trigger] s[j] by {
        assert(at_most_i64()(s[i], s[j]));
    }
    assert forall|v: i64| #[trigger] s.contains(v) <==> values.contains(v) by {
        assert(s.to_multiset().count(v) == values.to_multiset().count(v));
    }
}

/// Pushing one value to a whole and to one of its two parts keeps their contents equal.
proof fn lemma_push_left(whole: Seq<i64>, left: Seq<i64>, right: Seq<i64>, v: i64)
    requires
        whole.to_multiset() == left.to_multiset().add(right.to_multiset()),
    ensures
        whole.push(v).to_multiset() == left.push(v).to_multiset().add(right.to_multiset()),
        whole.push(v).to_multiset() == right.to_multiset().add(left.push(v).to_multiset()),
{
    vstd::seq_lib::to_multiset_build(whole, v);
    vstd::seq_lib::to_multiset_build(left, v);
    assert(whole.push(v).to_multiset() =~= left.push(v).to_multiset().add(right.to_multiset()));
    assert(whole.push(v).to_multiset() =~= right.to_multiset().add(left.push(v).to_multiset()));
}

/// Merges two ascending lists.
fn merge_values(left: &Vec<i64>, right: &Vec<i64>) -> (out: Vec<i64>)
    requires
        is_ascending(left@),
        is_ascending(right@),
    ensures
        is_ascending(out@),
        out@.to_multiset() == left@.to_multiset().add(right@.to_multiset()),
{
    broadcast use vstd::seq_lib::group_to_multiset_ensures;

    let mut out: Vec<i64> = Vec::new();
    let mut i: usize = 0;
    let mut j: usize = 0;
    while i < left.len() || j < right.len()
        invariant
            is_ascending(left@),
            is_ascending(right@),
            i <= left@.len(),
            j <= right@.len(),
            is_ascending(out@),
            out@.to_multiset() == left@.take(i as int).to_multiset().add(
                right@.take(j as int).to_multiset(),
            ),
            forall|k: int, l: int|
                0 <= k < out@.len() && i <= l < left@.len() ==> #[trigger] out@[k] <= #[trigger] left@[l],
            forall|k: int, l: int|
                0 <= k < out@.len() && j <= l < right@.len() ==> #[trigger] out@[k] <= #[trigger] right@[l],
        decreases left@.len() + right@.len() - i - j,
    {
        let take_left: bool = if i < left.len() {
            if j < right.len() {
                left[i] <= right[j]
            } else {
                true
            }
        } else {
            false
        };
        if take_left {
            proof {
                lemma_push_left(out@, left@.take(i as int), right@.take(j as int), left@[i as int]);
            }
            assert(left@.take(i + 1) =~= left@.take(i as int).push(left@[i as int]));
            out.push(left[i]);
            i = i + 1;
        } else {
            proof {
                let taken = left@.take(i as int);
                let other = right@.take(j as int);
                assert(out@.to_multiset() =~= other.to_multiset().add(taken.to_multiset()));
                lemma_push_left(out@, other, taken, right@[j as int]);
            }
            assert(right@.take(j + 1) =~= right@.take(j as int).push(right@[j as int]));
            out.push(right[j]);
            j = j + 1;
        }
    }
    assert(left@.take(i as int) =~= left@);
    assert(right@.take(j as int) =~= right@);
    out
}

/// The values `lo..hi` in ascending order.
fn sort_range(values: &Vec<i64>, lo: usize, hi: usize) -> (out: Vec<i64>)
    requires
        lo <= hi <= values@.len(),
    ensures
        is_ascending(out@),
        out@.to_multiset() == values@.subrange(lo as int, hi as int).to_multiset(),
    decreases hi - lo,
{
    let mut out: Vec<i64> = Vec::new();
    if hi - lo == 0 {
        assert(values@.subrange(lo as int, hi as int) =~= out@);
        return out;
    }
    if hi - lo == 1 {
        out.push(values[lo]);
        assert(values@.subrange(lo as int, hi as int) =~= out@);
        return out;
    }
    let mid: usize = lo + (hi - lo) / 2;
    let left = sort_range(values, lo, mid);
    let right = sort_range(values, mid, hi);
    proof {
        let l = values@.subrange(lo as int, mid as int);
        let r = values@.subrange(mid as int, hi as int);
        assert(values@.subrange(lo as int, hi as int) =~= l + r);
        vstd::seq_lib::lemma_multiset_commutative(l, r);
    }
    merge_values(&left, &right)
}

/// Sorts the values in ascending order.
pub fn sorted_values(values: &Vec<i64>) -> (out: Vec<i64>)
    ensures
        out@ == ascending(values@),
{
    let out = sort_range(values, 0, values.len());
    proof {
        assert(values@.subrange(0, values@.len() as int) =~= values@);
        lemma_ascending_unique(values@, out@);
    }
    out
}

} // verus!

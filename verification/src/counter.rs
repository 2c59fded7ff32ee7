//! Windowed usage of cumulative counters.
//!
//! Agent telemetry reports cumulative counters, one series for each set of labels, so summing the
//! rows of a window would count the same usage many times. The usage of a series within a window is
//! its last value in the window less its last value before the window.
use crate::group;
use crate::group::Key;
use crate::text;
use vstd::prelude::*;

verus! {

/// One row of a cumulative counter: its labels, when it was recorded, and its value.
pub struct CounterRow {
    pub labels: Vec<Option<String>>,
    pub timestamp: i64,
    pub value: Option<i64>,
}

/// A value at a time.
#[derive(Clone, Copy, Debug, PartialEq, Eq, Structural)]
pub struct Sample {
    pub timestamp: i64,
    pub value: i64,
}

/// The last value of one series in the window.
pub struct SeriesLast {
    pub labels: Vec<Option<String>>,
    pub last: Sample,
}

/// One cumulative series and its usage within a window.
pub struct CounterWindowDelta {
    /// The label values, in the order of the label paths.
    pub labels: Vec<Option<String>>,
    /// The usage within the window, which is positive.
    pub delta: u64,
}

/// The identity of a series: its label values.
pub type SeriesId = Seq<Option<Seq<char>>>;

/// The label at a position, where there is one.
pub open spec fn label_at(labels: Seq<Option<String>>, i: int) -> Option<Seq<char>> {
    if i < labels.len() {
        text::optional(labels[i])
    } else {
        None
    }
}

/// Copies the label at a position, where there is one.
pub fn copy_label(labels: &Vec<Option<String>>, i: usize) -> (label: Option<String>)
    ensures
        text::optional(label) == label_at(labels@, i as int),
{
    if i < labels.len() {
        text::copy_optional(&labels[i])
    } else {
        None
    }
}

/// The series of each row.
pub open spec fn series_ids(rows: Seq<CounterRow>) -> Seq<SeriesId> {
    Seq::new(rows.len(), |i: int| rows[i].labels.id())
}

/// A missing value counts as zero.
pub open spec fn value_or_zero(value: Option<i64>) -> i64 {
    match value {
        Some(v) => v,
        None => 0,
    }
}

/// The sample that each row holds.
pub open spec fn samples(rows: Seq<CounterRow>) -> Seq<Sample> {
    Seq::new(
        rows.len(),
        |i: int| Sample { timestamp: rows[i].timestamp, value: value_or_zero(rows[i].value) },
    )
}

/// `s` is no later than `t`, nor larger at the same time.
pub open spec fn superseded(s: Sample, t: Sample) -> bool {
    s.timestamp < t.timestamp || (s.timestamp == t.timestamp && s.value <= t.value)
}

/// `last` is the latest of the samples, and the largest of those recorded at that time.
pub open spec fn is_latest(samples: Seq<Sample>, last: Sample) -> bool {
    &&& samples.contains(last)
    &&& forall|i: int| 0 <= i < samples.len() ==> superseded(#[trigger] samples[i], last)
}

/// `series` holds the latest sample of each series, in the order in which the series first occur.
pub open spec fn holds_last_values(series: Seq<SeriesLast>, rows: Seq<CounterRow>) -> bool {
    let ids = series_ids(rows);
    &&& series.len() == group::first_seen(ids).len()
    &&& forall|g: int|
        0 <= g < series.len() ==> {
            &&& (#[trigger] series[g]).labels.id() == group::first_seen(ids)[g]
            &&& is_latest(group::gather(ids, samples(rows), series[g].labels.id()), series[g].last)
        }
}

/// The latest of some samples.
fn latest(samples: &Vec<Sample>) -> (last: Sample)
    requires
        samples@.len() > 0,
    ensures
        is_latest(samples@, last),
{
    let mut last: Sample = samples[0];
    let mut i: usize = 1;
    while i < samples.len()
        invariant
            1 <= i <= samples@.len(),
            samples@.contains(last),
            forall|j: int| 0 <= j < i ==> superseded(#[trigger] samples@[j], last),
        decreases samples@.len() - i,
    {
        let s: Sample = samples[i];
        if s.timestamp > last.timestamp || (s.timestamp == last.timestamp && s.value > last.value) {
            assert(samples@[i as int] == s);
            last = s;
        }
        i = i + 1;
    }
    last
}

/// The last value of each series: rows that share the latest timestamp resolve to the largest value.
pub fn last_values(rows: &Vec<CounterRow>) -> (series: Vec<SeriesLast>)
    ensures
        holds_last_values(series@, rows@),
{
    let mut keys: Vec<Vec<Option<String>>> = Vec::new();
    let mut values: Vec<Sample> = Vec::new();
    let mut i: usize = 0;
    while i < rows.len()
        invariant
            i <= rows@.len(),
            keys@.len() == i,
            values@.len() == i,
            forall|j: int| 0 <= j < i ==> (#[trigger] keys@[j]).id() == rows@[j].labels.id(),
            forall|j: int| 0 <= j < i ==> #[trigger] values@[j] == samples(rows@)[j],
        decreases rows@.len() - i,
    {
        let value: i64 = match rows[i].value {
            Some(v) => v,
            None => 0,
        };
        keys.push(rows[i].labels.duplicate());
        values.push(Sample { timestamp: rows[i].timestamp, value });
        i = i + 1;
    }
    assert(group::ids(keys@) =~= series_ids(rows@));
    assert(values@ =~= samples(rows@));
    let groups = group::group_values(&keys, &values);
    let ghost ids = series_ids(rows@);
    let mut series: Vec<SeriesLast> = Vec::new();
    let mut g: usize = 0;
    while g < groups.len()
        invariant
            g <= groups@.len(),
            series@.len() == g,
            ids == series_ids(rows@),
            group::is_grouping(groups@, ids, samples(rows@)),
            forall|h: int|
                0 <= h < g ==> {
                    &&& (#[trigger] series@[h]).labels.id() == group::first_seen(ids)[h]
                    &&& is_latest(
                        group::gather(ids, samples(rows@), series@[h].labels.id()),
                        series@[h].last,
                    )
                },
        decreases groups@.len() - g,
    {
        proof {
            assert(groups@[g as int].key.id() == group::first_seen(ids)[g as int]);
            group::lemma_first_seen(ids);
            assert(group::first_seen(ids).contains(groups@[g as int].key.id()));
            group::lemma_gather_absent(ids, samples(rows@), groups@[g as int].key.id());
        }
        let last = latest(&groups[g].members);
        series.push(SeriesLast { labels: groups[g].key.duplicate(), last });
        g = g + 1;
    }
    series
}

/// The usage between a baseline and a last value. A last value below the baseline means that the
/// counter restarted from zero; a series without a baseline started in the window.
pub open spec fn usage(last: i64, baseline: Option<i64>) -> int {
    if last < value_or_zero(baseline) {
        last as int
    } else {
        last - value_or_zero(baseline)
    }
}

/// The series with usage in the window, each with its usage, in order.
pub open spec fn usages(series: Seq<SeriesLast>, baselines: Seq<Option<i64>>) -> Seq<(SeriesId, int)>
    decreases series.len(),
{
    if series.len() == 0 {
        Seq::empty()
    } else {
        let earlier = usages(series.drop_last(), baselines.drop_last());
        let used = usage(series.last().last.value, baselines.last());
        if used > 0 {
            earlier.push((series.last().labels.id(), used))
        } else {
            earlier
        }
    }
}

/// The series and the usage of each delta.
pub open spec fn delta_pairs(deltas: Seq<CounterWindowDelta>) -> Seq<(SeriesId, int)> {
    Seq::new(deltas.len(), |i: int| (deltas[i].labels.id(), deltas[i].delta as int))
}

/// The usage of each series within the window, given its last value in the window and the last value
/// before it. Series without usage are left out.
pub fn counter_window_deltas(
    series: &Vec<SeriesLast>,
    baselines: &Vec<Option<i64>>,
) -> (deltas: Vec<CounterWindowDelta>)
    requires
        series@.len() == baselines@.len(),
    ensures
        delta_pairs(deltas@) == usages(series@, baselines@),
        forall|i: int| 0 <= i < deltas@.len() ==> (#[trigger] deltas@[i]).delta > 0,
{
    let mut deltas: Vec<CounterWindowDelta> = Vec::new();
    let mut i: usize = 0;
    while i < series.len()
        invariant
            i <= series@.len(),
            series@.len() == baselines@.len(),
            delta_pairs(deltas@) == usages(series@.take(i as int), baselines@.take(i as int)),
            forall|j: int| 0 <= j < deltas@.len() ==> (#[trigger] deltas@[j]).delta > 0,
        decreases series@.len() - i,
    {
        let baseline: i64 = match baselines[i] {
            Some(v) => v,
            None => 0,
        };
        let last: i64 = series[i].last.value;
        let used: i128 = if last < baseline {
            last as i128
        } else {
            last as i128 - baseline as i128
        };
        let ghost before = deltas@;
        proof {
            assert(series@.take(i + 1).drop_last() =~= series@.take(i as int));
            assert(baselines@.take(i + 1).drop_last() =~= baselines@.take(i as int));
        }
        if used > 0 {
            deltas.push(CounterWindowDelta { labels: series[i].labels.duplicate(), delta: used as u64 });
            assert(delta_pairs(deltas@) =~= delta_pairs(before).push(
                (series@[i as int].labels.id(), used as int),
            ));
        }
        i = i + 1;
    }
    assert(series@.take(i as int) =~= series@);
    assert(baselines@.take(i as int) =~= baselines@);
    deltas
}

/// The usage of a counter that is never negative exceeds neither its last value nor falls below zero.
pub proof fn usage_is_bounded(last: i64, baseline: Option<i64>)
    requires
        0 <= last,
        0 <= value_or_zero(baseline),
    ensures
        0 <= usage(last, baseline) <= last,
        baseline is None ==> usage(last, baseline) == last,
        baseline == Some(last) ==> usage(last, baseline) == 0,
{
}

/// While a counter only grows, the usages of two adjacent windows add up to the usage of both.
pub proof fn usage_is_additive(before: Option<i64>, middle: i64, last: i64)
    requires
        value_or_zero(before) <= middle <= last,
    ensures
        usage(last, before) == usage(middle, before) + usage(last, Some(middle)),
{
}

/// A series has one latest sample.
pub proof fn latest_is_unique(samples: Seq<Sample>, a: Sample, b: Sample)
    requires
        is_latest(samples, a),
        is_latest(samples, b),
    ensures
        a == b,
{
    let i = samples.index_of(a);
    let j = samples.index_of(b);
    assert(superseded(samples[i], b));
    assert(superseded(samples[j], a));
}

} // verus!

//! The distribution command: what it asks for, and the lines it shows.
use crate::error::Error;
use crate::group;
use crate::layout;
use crate::text;
use vstd::prelude::*;

verus! {

/// The arguments of the distribution command.
pub struct HistogramCommand {
    /// What is distributed: the cost of sessions, the duration of tools or of model calls, the time to
    /// first token, or the output.
    pub metric: String,
    /// The time range, such as "24h".
    pub since: String,
    pub buckets: usize,
    /// "linear" or "log".
    pub scale: String,
}

/// Where a distribution comes from.
#[derive(Clone, Copy, Debug, PartialEq, Eq, Structural)]
pub enum DistributionSource {
    /// The costs of sessions, which are binned afterwards.
    SessionCosts,
    /// The store bins the values itself.
    Store,
}

impl HistogramCommand {
    /// Decides where the distribution comes from.
    pub fn source(&self) -> (s: DistributionSource)
        ensures
            s == if self.metric@ == "session_cost"@ {
                DistributionSource::SessionCosts
            } else {
                DistributionSource::Store
            },
    {
        if text::same_text(self.metric.as_str(), "session_cost") {
            DistributionSource::SessionCosts
        } else {
            DistributionSource::Store
        }
    }
}

/// The failure to get a distribution, with its cause.
pub fn distribution_failure(source: DistributionSource, cause: &str) -> (e: Error)
    ensures
        e matches Error::ApiError(m) && m@ == match source {
            DistributionSource::SessionCosts => "Failed to query session costs: "@ + cause@,
            DistributionSource::Store => "Failed to query distribution: "@ + cause@,
        },
{
    let mut m = match source {
        DistributionSource::SessionCosts => "Failed to query session costs: ".to_owned(),
        DistributionSource::Store => "Failed to query distribution: ".to_owned(),
    };
    m.append(cause);
    Error::ApiError(m)
}

/// A bin: its bounds as they are shown, and how many values fall into it.
pub struct DistributionBucket {
    pub min: String,
    pub max: String,
    pub count: u64,
}

/// The largest of some counts, and at least 1.
pub open spec fn scale_count(buckets: Seq<DistributionBucket>) -> u64
    decreases buckets.len(),
{
    if buckets.len() == 0 {
        1
    } else {
        let rest = scale_count(buckets.drop_last());
        if buckets.last().count > rest {
            buckets.last().count
        } else {
            rest
        }
    }
}

/// The length of a bar, of at most forty: the count's share of the largest, rounded to the nearest,
/// and up from halfway.
pub open spec fn bar_length(count: int, largest: int) -> int {
    (count * 80 + largest) / (largest * 2)
}

/// A bar is no longer than forty, and the largest count has one of forty.
pub proof fn bars_fit(count: int, largest: int)
    requires
        0 <= count <= largest,
        largest > 0,
    ensures
        0 <= bar_length(count, largest) <= 40,
        bar_length(largest, largest) == 40,
{
    assert((count * 80 + largest) / (largest * 2) <= 40) by (nonlinear_arith)
        requires
            0 <= count <= largest,
            largest > 0,
    ;
    assert((count * 80 + largest) / (largest * 2) >= 0) by (nonlinear_arith)
        requires
            0 <= count,
            largest > 0,
    ;
    assert((largest * 80 + largest) / (largest * 2) == 40) by (nonlinear_arith)
        requires
            largest > 0,
    ;
}

/// A bar.
pub open spec fn bar(n: int) -> Seq<char> {
    Seq::new(n as nat, |i: int| '#')
}

/// The line of a bin.
pub open spec fn bucket_line(b: DistributionBucket, largest: u64) -> Seq<char> {
    text::flat(
        seq![
            "  "@,
            layout::right(b.min@, 14),
            " – "@,
            layout::left(b.max@, 14),
            " "@,
            layout::right(text::decimal(b.count as nat), 6),
            "  "@,
            bar(bar_length(b.count as int, largest as int)),
        ],
    )
}

/// The heading of a distribution.
pub open spec fn heading(metric: Seq<char>, buckets: nat, scale: Seq<char>) -> Seq<char> {
    text::flat(seq![metric, " distribution ("@, text::decimal(buckets), " buckets, "@, scale, " scale):"@])
}

/// What is known of all values, with the values as they are shown.
pub struct DistributionStats {
    pub count: u64,
    pub min: String,
    pub p50: String,
    pub p95: String,
    pub p99: String,
    pub max: String,
    pub mean: String,
}

/// The line on all values.
pub open spec fn stats_line(s: DistributionStats) -> Seq<char> {
    text::flat(
        seq![
            "  n="@,
            text::decimal(s.count as nat),
            "  min="@,
            s.min@,
            "  p50="@,
            s.p50@,
            "  p95="@,
            s.p95@,
            "  p99="@,
            s.p99@,
            "  max="@,
            s.max@,
            "  mean="@,
            s.mean@,
        ],
    )
}

/// The lines of a distribution: its heading, then a line for each bin and what is known of all values,
/// or that there are no bins.
pub open spec fn distribution_lines(
    metric: Seq<char>,
    scale: Seq<char>,
    buckets: Seq<DistributionBucket>,
    stats: Option<DistributionStats>,
) -> Seq<Seq<char>> {
    let top = seq![heading(metric, buckets.len(), scale)];
    if buckets.len() == 0 {
        top.push("  no data in range"@)
    } else {
        let bins = top + Seq::new(buckets.len(), |i: int| bucket_line(buckets[i], scale_count(buckets)));
        match stats {
            Some(s) => bins.push(""@).push(stats_line(s)),
            None => bins,
        }
    }
}

fn render_stats(s: &DistributionStats) -> (line: String)
    ensures
        line@ == stats_line(*s),
{
    let count = text::render_u64(s.count);
    let parts: Vec<&str> = vec![
        "  n=",
        count.as_str(),
        "  min=",
        s.min.as_str(),
        "  p50=",
        s.p50.as_str(),
        "  p95=",
        s.p95.as_str(),
        "  p99=",
        s.p99.as_str(),
        "  max=",
        s.max.as_str(),
        "  mean=",
        s.mean.as_str(),
    ];
    proof {
        assert(text::views(parts@) =~= seq![
            "  n="@,
            text::decimal(s.count as nat),
            "  min="@,
            s.min@,
            "  p50="@,
            s.p50@,
            "  p95="@,
            s.p95@,
            "  p99="@,
            s.p99@,
            "  max="@,
            s.max@,
            "  mean="@,
            s.mean@,
        ]);
    }
    text::concat(&parts)
}

fn render_bar(n: u64) -> (s: String)
    ensures
        s@ == bar(n as int),
{
    proof {
        reveal_strlit("#");
    }
    let mut s = String::new();
    let mut i: u64 = 0;
    assert(s@ =~= bar(0));
    while i < n
        invariant
            i <= n,
            s@ == bar(i as int),
            "#"@ =~= seq!['#'],
        decreases n - i,
    {
        s.append("#");
        i = i + 1;
        assert(s@ =~= bar(i as int));
    }
    s
}

fn find_scale(buckets: &Vec<DistributionBucket>) -> (m: u64)
    ensures
        m == scale_count(buckets@),
        m >= 1,
        forall|i: int| 0 <= i < buckets@.len() ==> (#[trigger] buckets@[i]).count <= m,
{
    let mut m: u64 = 1;
    let mut i: usize = 0;
    while i < buckets.len()
        invariant
            i <= buckets@.len(),
            m == scale_count(buckets@.take(i as int)),
            m >= 1,
            forall|j: int| 0 <= j < i ==> (#[trigger] buckets@[j]).count <= m,
        decreases buckets@.len() - i,
    {
        assert(buckets@.take(i + 1).drop_last() =~= buckets@.take(i as int));
        if buckets[i].count > m {
            m = buckets[i].count;
        }
        i = i + 1;
    }
    assert(buckets@.take(i as int) =~= buckets@);
    m
}

fn render_bucket(b: &DistributionBucket, largest: u64) -> (line: String)
    requires
        b.count <= largest,
        largest >= 1,
    ensures
        line@ == bucket_line(*b, largest),
{
    proof {
        bars_fit(b.count as int, largest as int);
    }
    let length: u64 = ((b.count as u128 * 80 + largest as u128) / (largest as u128 * 2)) as u64;
    let min = layout::align_right(b.min.as_str(), 14);
    let max = layout::align_left(b.max.as_str(), 14);
    let count = layout::align_right(text::render_u64(b.count).as_str(), 6);
    let bars = render_bar(length);
    let parts: Vec<&str> = vec!["  ", min.as_str(), " – ", max.as_str(), " ", count.as_str(), "  ", bars.as_str()];
    proof {
        assert(text::views(parts@) =~= seq![
            "  "@,
            layout::right(b.min@, 14),
            " – "@,
            layout::left(b.max@, 14),
            " "@,
            layout::right(text::decimal(b.count as nat), 6),
            "  "@,
            bar(bar_length(b.count as int, largest as int)),
        ]);
    }
    text::concat(&parts)
}

/// Writes a distribution.
pub fn display_distribution(
    metric: &str,
    scale: &str,
    buckets: &Vec<DistributionBucket>,
    stats: &Option<DistributionStats>,
) -> (lines: Vec<String>)
    ensures
        group::ids(lines@) == distribution_lines(metric@, scale@, buckets@, *stats),
{
    let total = text::render_u64(buckets.len() as u64);
    let parts: Vec<&str> = vec![metric, " distribution (", total.as_str(), " buckets, ", scale, " scale):"];
    proof {
        assert(text::views(parts@) =~= seq![
            metric@,
            " distribution ("@,
            text::decimal(buckets@.len()),
            " buckets, "@,
            scale@,
            " scale):"@,
        ]);
    }
    let mut lines: Vec<String> = Vec::new();
    lines.push(text::concat(&parts));
    if buckets.len() == 0 {
        lines.push("  no data in range".to_owned());
        assert(group::ids(lines@) =~= distribution_lines(metric@, scale@, buckets@, *stats));
        return lines;
    }
    let largest: u64 = find_scale(buckets);
    let mut i: usize = 0;
    while i < buckets.len()
        invariant
            i <= buckets@.len(),
            largest == scale_count(buckets@),
            largest >= 1,
            forall|j: int| 0 <= j < buckets@.len() ==> (#[trigger] buckets@[j]).count <= largest,
            lines@.len() == i + 1,
            lines@[0]@ == heading(metric@, buckets@.len(), scale@),
            forall|j: int| 0 <= j < i ==> (#[trigger] lines@[j + 1])@ == bucket_line(buckets@[j], largest),
        decreases buckets@.len() - i,
    {
        lines.push(render_bucket(&buckets[i], largest));
        i = i + 1;
    }
    let ghost bins = seq![heading(metric@, buckets@.len(), scale@)] + Seq::new(
        buckets@.len(),
        |j: int| bucket_line(buckets@[j], largest),
    );
    assert forall|k: int| 0 <= k < lines@.len() implies #[trigger] group::ids(lines@)[k] == bins[k] by {
        if k > 0 {
            assert(lines@[(k - 1) + 1]@ == bucket_line(buckets@[k - 1], largest));
        }
    }
    assert(group::ids(lines@) =~= bins);
    if let Some(s) = stats {
        lines.push("".to_owned());
        lines.push(render_stats(s));
        assert(group::ids(lines@) =~= bins.push(""@).push(stats_line(*s)));
    }
    lines
}

} // verus!

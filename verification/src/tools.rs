//! The use of tools: the statements that read it, and the approvals, hours and retries counted from
//! it.
use crate::analytics;
use crate::analytics::Window;
use crate::counts;
use crate::counts::Counted;
use crate::group;
use crate::latency;
use crate::ratio;
use crate::ratio::{Quotient, Ratio};
use crate::sql::{Query, Statement};
use crate::sums;
use crate::text;
use vstd::prelude::*;

verus! {

/// The calls of each tool. A tool is named by an attribute, or else by its span.
pub const TOOL_SPANS: &'static str =
    "SELECT COALESCE(COALESCE(json_extract(attributes, '$.\"gen_ai.tool.name\"'), json_extract(attributes, '$.\"tool.name\"'), json_extract(attributes, '$.\"tool_name\"')), CASE WHEN name LIKE 'claude_code.tool.%' AND name != 'claude_code.tool.' THEN name ELSE NULL END) AS tool_name, COUNT(*) AS cnt, SUM(CASE WHEN status_code = 2 THEN 1 ELSE 0 END) AS errors, SUM(CASE WHEN status_code = 1 OR status_code = 0 THEN 1 ELSE 0 END) AS ok_cnt, COALESCE(SUM(end_time - start_time), 0) AS total_duration_ns";

/// The span names a tool.
pub const TOOL_SPAN_GUARD: &'static str =
    "json_valid(attributes) AND (COALESCE(json_extract(attributes, '$.\"gen_ai.tool.name\"'), json_extract(attributes, '$.\"tool.name\"'), json_extract(attributes, '$.\"tool_name\"')) IS NOT NULL OR (name LIKE 'claude_code.tool.%' AND name != 'claude_code.tool.'))";

/// Reads the calls of the most used tools.
pub open spec fn tool_usage_query(window: Window, limit: usize) -> Query {
    analytics::limited(
        analytics::on_spans(TOOL_SPANS@, TOOL_SPAN_GUARD@, window).plus(
            " GROUP BY tool_name HAVING tool_name IS NOT NULL ORDER BY cnt DESC"@,
        ),
        limit,
    )
}

/// The statement that reads the calls of the most used tools.
pub fn query_tool_usage(window: Window, limit: usize) -> (s: Statement)
    ensures
        s@ == tool_usage_query(window, limit),
{
    let mut s = analytics::begin_on_spans(TOOL_SPANS, TOOL_SPAN_GUARD, window);
    s.add_text(" GROUP BY tool_name HAVING tool_name IS NOT NULL ORDER BY cnt DESC");
    analytics::add_limit(&mut s, limit);
    s
}

/// The error messages of tools, cut at a length that lets like ones fall together.
pub const TOOL_ERRORS: &'static str =
    "SELECT COALESCE(json_extract(attributes, '$.tool_name'), '(unknown)') AS tool_name, SUBSTR(json_extract(attributes, '$.error'), 1, 120) AS error_msg, COUNT(*) AS cnt";

/// The span is a tool execution that failed with a message.
pub const FAILED_TOOL_GUARD: &'static str =
    "name = 'claude_code.tool.execution' AND json_valid(attributes) AND json_extract(attributes, '$.success') = 'false' AND json_extract(attributes, '$.error') IS NOT NULL";

/// Reads the most frequent error messages of tools.
pub open spec fn tool_errors_query(window: Window, limit: usize) -> Query {
    analytics::limited(
        analytics::on_spans(TOOL_ERRORS@, FAILED_TOOL_GUARD@, window).plus(
            " GROUP BY tool_name, error_msg ORDER BY cnt DESC"@,
        ),
        limit,
    )
}

/// The statement that reads the most frequent error messages of tools.
pub fn query_tool_errors(window: Window, limit: usize) -> (s: Statement)
    ensures
        s@ == tool_errors_query(window, limit),
{
    let mut s = analytics::begin_on_spans(TOOL_ERRORS, FAILED_TOOL_GUARD, window);
    s.add_text(" GROUP BY tool_name, error_msg ORDER BY cnt DESC");
    analytics::add_limit(&mut s, limit);
    s
}

/// The decisions on tool calls.
pub const TOOL_DECISIONS: &'static str =
    "SELECT json_extract(attributes, '$.decision') AS decision, json_extract(attributes, '$.source') AS source, json_extract(attributes, '$.tool_name') AS tool_name, COUNT(*) AS cnt";

/// Reads the decisions on tool calls.
pub open spec fn tool_approvals_query(window: Window) -> Query {
    analytics::on_spans(TOOL_DECISIONS@, "name = 'claude_code.tool.blocked_on_user'"@, window).plus(
        " GROUP BY decision, source, tool_name ORDER BY cnt DESC"@,
    )
}

/// The statement that reads the decisions on tool calls.
pub fn query_tool_approvals(window: Window) -> (s: Statement)
    ensures
        s@ == tool_approvals_query(window),
{
    let mut s = analytics::begin_on_spans(
        TOOL_DECISIONS,
        "name = 'claude_code.tool.blocked_on_user'",
        window,
    );
    s.add_text(" GROUP BY decision, source, tool_name ORDER BY cnt DESC");
    s
}

/// The hour of the day, in UTC, at which spans start.
pub const SPAN_HOURS: &'static str =
    "SELECT CAST(strftime('%H', start_time/1000000000, 'unixepoch') AS INTEGER) AS h, COUNT(*) AS cnt";

/// Reads how many spans of a name start in each hour of the day.
pub open spec fn hours_query(name: Seq<char>, window: Window) -> Query {
    analytics::on_spans(SPAN_HOURS@, "name = '"@ + name + "'"@, window).plus(" GROUP BY h"@)
}

/// The statements on the hours of the day.
pub struct HourStatements {
    pub llm: Statement,
    pub tool: Statement,
}

fn hours_statement(name: &str, window: Window) -> (s: Statement)
    ensures
        s@ == hours_query(name@, window),
{
    let mut guard = "name = '".to_owned();
    guard.append(name);
    guard.append("'");
    let mut s = analytics::begin_on_spans(SPAN_HOURS, guard.as_str(), window);
    s.add_text(" GROUP BY h");
    s
}

/// The statements that read how many model calls and tool calls start in each hour of the day.
pub fn query_hour_of_day(window: Window) -> (r: HourStatements)
    ensures
        r.llm@ == hours_query("claude_code.llm_request"@, window),
        r.tool@ == hours_query("claude_code.tool.execution"@, window),
{
    HourStatements {
        llm: hours_statement("claude_code.llm_request", window),
        tool: hours_statement("claude_code.tool.execution", window),
    }
}

/// The use of one tool.
pub struct ToolUsage {
    pub tool_name: String,
    pub count: usize,
    pub success_count: usize,
    pub error_count: usize,
    /// The average duration in nanoseconds; none where there are no calls.
    pub average: Option<Quotient>,
    pub total_duration_ms: i64,
}

/// Makes the use of a tool of a row of counts and of a duration in nanoseconds.
pub fn tool_usage(tool_name: String, count: i64, errors: i64, successes: i64, total_ns: i64) -> (u: ToolUsage)
    ensures
        u.tool_name@ == tool_name@,
        u.count == count as usize,
        u.error_count == errors as usize,
        u.success_count == successes as usize,
        u.average == if count > 0 {
            Some(Quotient { numerator: total_ns, denominator: count })
        } else {
            None
        },
        u.total_duration_ms == latency::whole_millis(total_ns as int),
{
    let average = if count > 0 {
        Some(Quotient { numerator: total_ns, denominator: count })
    } else {
        None
    };
    ToolUsage {
        tool_name,
        count: #[verifier::truncate] (count as usize),
        success_count: #[verifier::truncate] (successes as usize),
        error_count: #[verifier::truncate] (errors as usize),
        average,
        total_duration_ms: latency::to_millis(total_ns),
    }
}

/// A number of like decisions on the calls of a tool.
pub struct ApprovalRow {
    pub decision: Option<String>,
    pub source: Option<String>,
    pub tool_name: Option<String>,
    pub count: usize,
}

/// What became of a tool call.
#[derive(Clone, Copy, PartialEq, Eq, Structural)]
pub enum Outcome {
    AutoAccepted,
    UserAccepted,
    Rejected,
    Unknown,
}

/// What a decision from a source means. Only configuration accepts without being asked.
pub open spec fn outcome(decision: Option<Seq<char>>, source: Option<Seq<char>>) -> Outcome {
    match decision {
        Some(d) => if d == "accept"@ {
            if source == Some("config"@) {
                Outcome::AutoAccepted
            } else {
                Outcome::UserAccepted
            }
        } else if d == "reject"@ {
            Outcome::Rejected
        } else {
            Outcome::Unknown
        },
        None => Outcome::Unknown,
    }
}

/// The outcome of a row.
pub open spec fn row_outcome(row: ApprovalRow) -> Outcome {
    outcome(text::optional(row.decision), text::optional(row.source))
}

/// The number of calls of a row, as a function.
pub open spec fn row_count() -> spec_fn(ApprovalRow) -> int {
    |r: ApprovalRow| r.count as int
}

/// The number of calls of a row with an outcome, as a function.
pub open spec fn count_with(o: Outcome) -> spec_fn(ApprovalRow) -> int {
    |r: ApprovalRow|
        if row_outcome(r) == o {
            r.count as int
        } else {
            0
        }
}

fn find_outcome(row: &ApprovalRow) -> (o: Outcome)
    ensures
        o == row_outcome(*row),
{
    match &row.decision {
        Some(d) => if text::same_text(d.as_str(), "accept") {
            let configured: bool = match &row.source {
                Some(s) => text::same_text(s.as_str(), "config"),
                None => false,
            };
            if configured {
                Outcome::AutoAccepted
            } else {
                Outcome::UserAccepted
            }
        } else if text::same_text(d.as_str(), "reject") {
            Outcome::Rejected
        } else {
            Outcome::Unknown
        },
        None => Outcome::Unknown,
    }
}

/// The decisions on tool calls, counted.
pub struct ToolApprovalStats {
    pub auto_accepted: usize,
    pub user_accepted: usize,
    pub rejected: usize,
    pub unknown: usize,
    pub total: usize,
    /// The most rejected tools.
    pub top_rejected: Vec<Counted>,
}

/// The tools of the rejected rows that name one, and how many calls each row counts.
pub open spec fn rejections(rows: Seq<ApprovalRow>) -> Seq<(Seq<char>, usize)>
    decreases rows.len(),
{
    if rows.len() == 0 {
        Seq::empty()
    } else {
        let earlier = rejections(rows.drop_last());
        match (row_outcome(rows.last()), text::optional(rows.last().tool_name)) {
            (Outcome::Rejected, Some(tool)) => earlier.push((tool, rows.last().count)),
            _ => earlier,
        }
    }
}

/// The ten most rejected tools.
pub open spec fn most_rejected(rows: Seq<ApprovalRow>) -> Seq<(Seq<char>, usize)> {
    let all = counts::ranked(counts::tallied(rejections(rows)));
    if all.len() <= 10 {
        all
    } else {
        all.take(10)
    }
}

/// The rejected calls are among all calls.
proof fn lemma_rejections(rows: Seq<ApprovalRow>)
    ensures
        sums::sum_by(counts::counts_of(rejections(rows)), counts::as_count()) <= sums::sum_by(rows, row_count()),
    decreases rows.len(),
{
    if rows.len() > 0 {
        lemma_rejections(rows.drop_last());
        let earlier = rejections(rows.drop_last());
        if rejections(rows).len() > earlier.len() {
            assert(counts::counts_of(rejections(rows)) =~= counts::counts_of(earlier).push(rows.last().count));
            sums::lemma_sum_by_push(counts::counts_of(earlier), rows.last().count, counts::as_count());
        }
    }
}

/// The rejected calls by tool, the most rejected first.
fn reject_tools(rows: &Vec<ApprovalRow>) -> (entries: Vec<Counted>)
    requires
        sums::sum_by(rows@, row_count()) <= usize::MAX,
    ensures
        counts::entry_views(entries@) == counts::ranked(counts::tallied(rejections(rows@))),
{
    let mut names: Vec<String> = Vec::new();
    let mut amounts: Vec<usize> = Vec::new();
    let mut i: usize = 0;
    assert(rejections(rows@.take(0)) =~= Seq::<(Seq<char>, usize)>::empty());
    assert(group::ids(names@) =~= counts::names_of(rejections(rows@.take(0))));
    assert(amounts@ =~= counts::counts_of(rejections(rows@.take(0))));
    while i < rows.len()
        invariant
            i <= rows@.len(),
            group::ids(names@) == counts::names_of(rejections(rows@.take(i as int))),
            amounts@ == counts::counts_of(rejections(rows@.take(i as int))),
        decreases rows@.len() - i,
    {
        let ghost earlier = rejections(rows@.take(i as int));
        let ghost later = rejections(rows@.take(i + 1));
        let row = &rows[i];
        assert(rows@.take(i + 1).drop_last() =~= rows@.take(i as int));
        if let Outcome::Rejected = find_outcome(row) {
            if let Some(tool) = &row.tool_name {
                let ghost had = names@;
                names.push(tool.clone());
                amounts.push(row.count);
                assert(group::ids(names@) =~= group::ids(had).push(tool@));
                assert(later =~= earlier.push((tool@, row.count)));
                assert(counts::names_of(later) =~= counts::names_of(earlier).push(tool@));
                assert(counts::counts_of(later) =~= counts::counts_of(earlier).push(row.count));
            }
        }
        i = i + 1;
    }
    assert(rows@.take(i as int) =~= rows@);
    proof {
        lemma_rejections(rows@);
    }
    counts::tally_counts(&names, &amounts, Ghost(rejections(rows@)))
}

/// The stats count the rows.
pub open spec fn counts_rows(stats: ToolApprovalStats, rows: Seq<ApprovalRow>) -> bool {
    &&& stats.auto_accepted == sums::sum_by(rows, count_with(Outcome::AutoAccepted))
    &&& stats.user_accepted == sums::sum_by(rows, count_with(Outcome::UserAccepted))
    &&& stats.rejected == sums::sum_by(rows, count_with(Outcome::Rejected))
    &&& stats.unknown == sums::sum_by(rows, count_with(Outcome::Unknown))
    &&& stats.total == sums::sum_by(rows, row_count())
}

/// Each call has one outcome, so that the outcomes together make up the total.
pub proof fn outcomes_make_up_the_total(rows: Seq<ApprovalRow>)
    ensures
        sums::sum_by(rows, row_count()) == sums::sum_by(rows, count_with(Outcome::AutoAccepted))
            + sums::sum_by(rows, count_with(Outcome::UserAccepted)) + sums::sum_by(
            rows,
            count_with(Outcome::Rejected),
        ) + sums::sum_by(rows, count_with(Outcome::Unknown)),
        sums::sum_by(rows, count_with(Outcome::AutoAccepted)) >= 0,
        sums::sum_by(rows, count_with(Outcome::UserAccepted)) >= 0,
        sums::sum_by(rows, count_with(Outcome::Rejected)) >= 0,
        sums::sum_by(rows, count_with(Outcome::Unknown)) >= 0,
    decreases rows.len(),
{
    if rows.len() > 0 {
        outcomes_make_up_the_total(rows.drop_last());
    }
}

/// Counts the decisions on tool calls.
pub fn tool_approvals(rows: &Vec<ApprovalRow>) -> (stats: ToolApprovalStats)
    requires
        sums::sum_by(rows@, row_count()) <= usize::MAX,
    ensures
        counts_rows(stats, rows@),
        counts::entry_views(stats.top_rejected@) == most_rejected(rows@),
{
    let mut stats = ToolApprovalStats {
        auto_accepted: 0,
        user_accepted: 0,
        rejected: 0,
        unknown: 0,
        total: 0,
        top_rejected: Vec::new(),
    };
    let mut i: usize = 0;
    while i < rows.len()
        invariant
            i <= rows@.len(),
            sums::sum_by(rows@, row_count()) <= usize::MAX,
            counts_rows(stats, rows@.take(i as int)),
        decreases rows@.len() - i,
    {
        proof {
            sums::lemma_sum_by_take(rows@, i as int, row_count());
            sums::lemma_sum_by_prefix(rows@, i + 1, row_count());
            sums::lemma_sum_by_take(rows@, i as int, count_with(Outcome::AutoAccepted));
            sums::lemma_sum_by_take(rows@, i as int, count_with(Outcome::UserAccepted));
            sums::lemma_sum_by_take(rows@, i as int, count_with(Outcome::Rejected));
            sums::lemma_sum_by_take(rows@, i as int, count_with(Outcome::Unknown));
            outcomes_make_up_the_total(rows@.take(i as int));
        }
        let count: usize = rows[i].count;
        match find_outcome(&rows[i]) {
            Outcome::AutoAccepted => {
                stats.auto_accepted = stats.auto_accepted + count;
            },
            Outcome::UserAccepted => {
                stats.user_accepted = stats.user_accepted + count;
            },
            Outcome::Rejected => {
                stats.rejected = stats.rejected + count;
            },
            Outcome::Unknown => {
                stats.unknown = stats.unknown + count;
            },
        }
        stats.total = stats.total + count;
        i = i + 1;
    }
    assert(rows@.take(i as int) =~= rows@);
    let mut top = reject_tools(rows);
    let ghost all = counts::entry_views(top@);
    if top.len() > 10 {
        top.truncate(10);
        assert(counts::entry_views(top@) =~= all.take(10));
    }
    stats.top_rejected = top;
    stats
}

/// The activity in one hour of the day.
#[derive(Clone, Copy)]
pub struct HourOfDayBucket {
    pub hour: u8,
    pub llm_calls: usize,
    pub tool_calls: usize,
}

/// The number of calls that the rows give for an hour: the last row for it, or none.
pub open spec fn calls_in_hour(rows: Seq<(i64, i64)>, hour: int) -> usize
    decreases rows.len(),
{
    if rows.len() == 0 {
        0
    } else if rows.last().0 == hour {
        rows.last().1 as usize
    } else {
        calls_in_hour(rows.drop_last(), hour)
    }
}

fn count_hour(rows: &Vec<(i64, i64)>, hour: u8) -> (n: usize)
    ensures
        n == calls_in_hour(rows@, hour as int),
{
    let mut n: usize = 0;
    let mut i: usize = 0;
    while i < rows.len()
        invariant
            i <= rows@.len(),
            n == calls_in_hour(rows@.take(i as int), hour as int),
        decreases rows@.len() - i,
    {
        assert(rows@.take(i + 1).drop_last() =~= rows@.take(i as int));
        if rows[i].0 == hour as i64 {
            n = #[verifier::truncate] (rows[i].1 as usize);
        }
        i = i + 1;
    }
    assert(rows@.take(i as int) =~= rows@);
    n
}

/// Merges the model calls and the tool calls into the twenty-four hours of the day. Rows for anything
/// else are left out.
pub fn hour_of_day(llm: &Vec<(i64, i64)>, tool: &Vec<(i64, i64)>) -> (buckets: Vec<HourOfDayBucket>)
    ensures
        buckets@.len() == 24,
        forall|h: int|
            0 <= h < 24 ==> (#[trigger] buckets@[h]).hour == h && buckets@[h].llm_calls == calls_in_hour(
                llm@,
                h,
            ) && buckets@[h].tool_calls == calls_in_hour(tool@, h),
{
    let mut buckets: Vec<HourOfDayBucket> = Vec::new();
    let mut hour: u8 = 0;
    while hour < 24
        invariant
            hour <= 24,
            buckets@.len() == hour,
            forall|h: int|
                0 <= h < hour ==> (#[trigger] buckets@[h]).hour == h && buckets@[h].llm_calls
                    == calls_in_hour(llm@, h) && buckets@[h].tool_calls == calls_in_hour(tool@, h),
        decreases 24 - hour,
    {
        buckets.push(
            HourOfDayBucket {
                hour,
                llm_calls: count_hour(llm, hour),
                tool_calls: count_hour(tool, hour),
            },
        );
        hour = hour + 1;
    }
    buckets
}

/// How often calls were tried again.
pub struct RetryStats {
    pub total_llm_calls: usize,
    pub retried_calls: usize,
    pub extra_attempts: usize,
    /// The share of calls that were tried again; none where there are no calls.
    pub retry_rate: Option<Ratio>,
}

/// The attempts of a call beyond its first.
pub open spec fn extra() -> spec_fn(i64) -> int {
    |attempt: i64|
        if attempt > 1 {
            attempt - 1
        } else {
            0
        }
}

/// A call that was tried again counts once.
pub open spec fn retried() -> spec_fn(i64) -> int {
    |attempt: i64|
        if attempt > 1 {
            1int
        } else {
            0int
        }
}

/// Counts the calls that were tried again, from the number of attempts of each call.
pub fn retry_stats(attempts: &Vec<i64>) -> (stats: RetryStats)
    requires
        sums::sum_by(attempts@, extra()) <= i64::MAX,
    ensures
        stats.total_llm_calls == attempts@.len(),
        stats.retried_calls == sums::sum_by(attempts@, retried()),
        stats.extra_attempts == sums::sum_by(attempts@, extra()) as i64 as usize,
        stats.retry_rate == ratio::ratio(
            sums::sum_by(attempts@, retried()),
            attempts@.len() as int,
        ),
{
    let mut retried_calls: usize = 0;
    let mut extra_attempts: i64 = 0;
    let mut i: usize = 0;
    while i < attempts.len()
        invariant
            i <= attempts@.len(),
            sums::sum_by(attempts@, extra()) <= i64::MAX,
            retried_calls == sums::sum_by(attempts@.take(i as int), retried()),
            retried_calls <= i,
            extra_attempts == sums::sum_by(attempts@.take(i as int), extra()),
        decreases attempts@.len() - i,
    {
        proof {
            sums::lemma_sum_by_take(attempts@, i as int, retried());
            sums::lemma_sum_by_take(attempts@, i as int, extra());
            sums::lemma_sum_by_prefix(attempts@, i as int, extra());
            sums::lemma_sum_by_prefix(attempts@, i + 1, extra());
        }
        if attempts[i] > 1 {
            retried_calls = retried_calls + 1;
            extra_attempts = extra_attempts + (attempts[i] - 1);
        }
        i = i + 1;
    }
    assert(attempts@.take(i as int) =~= attempts@);
    RetryStats {
        total_llm_calls: attempts.len(),
        retried_calls,
        extra_attempts: #[verifier::truncate] (extra_attempts as usize),
        retry_rate: ratio::make_ratio(retried_calls as u64, attempts.len() as u64),
    }
}

/// No more calls were tried again than there are calls, and each of them took at least one attempt
/// more.
pub proof fn retries_are_bounded(attempts: Seq<i64>)
    ensures
        0 <= sums::sum_by(attempts, retried()) <= attempts.len(),
        sums::sum_by(attempts, retried()) <= sums::sum_by(attempts, extra()),
    decreases attempts.len(),
{
    if attempts.len() > 0 {
        retries_are_bounded(attempts.drop_last());
    }
}

} // verus!

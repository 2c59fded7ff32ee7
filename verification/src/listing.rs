//! Statements that list stored records: logs, spans, metrics, the newest traces, and what the store
//! holds.
use crate::error::StorageError;
use crate::filter;
use crate::filter::QueryPredicate;
use crate::group;
use crate::layout;
use crate::sql;
use crate::sql::{Bind, Query, SqlValue, Statement};
use crate::text;
use vstd::prelude::*;

verus! {

/// What to list. Every part narrows the list; an absent part does not.
pub struct QueryParams {
    pub start_time: Option<i64>,
    pub end_time: Option<i64>,
    pub trace_id: Option<String>,
    pub span_id: Option<String>,
    /// The least severity, by its number.
    pub min_severity: Option<i32>,
    pub search_text: Option<String>,
    pub predicates: Vec<QueryPredicate>,
    pub limit: Option<usize>,
}

impl Default for QueryParams {
    fn default() -> (p: QueryParams)
        ensures
            p.start_time is None,
            p.end_time is None,
            p.trace_id is None,
            p.span_id is None,
            p.min_severity is None,
            p.search_text is None,
            p.predicates@ == Seq::<QueryPredicate>::empty(),
            p.limit is None,
    {
        QueryParams {
            start_time: None,
            end_time: None,
            trace_id: None,
            span_id: None,
            min_severity: None,
            search_text: None,
            predicates: Vec::new(),
            limit: None,
        }
    }
}

/// A statement that begins with `text`.
pub open spec fn begin(text: Seq<char>) -> Query {
    Query { text, binds: Seq::empty() }
}

/// A severity as a number to compare with.
pub open spec fn severity_number(severity: Option<i32>) -> Option<i64> {
    match severity {
        Some(n) => Some(n as i64),
        None => None,
    }
}

/// A limit as a number to bind.
pub open spec fn limit_number(limit: Option<usize>) -> Option<i64> {
    match limit {
        Some(n) => Some(n as i64),
        None => None,
    }
}

fn bind_limit(limit: Option<usize>) -> (n: Option<i64>)
    ensures
        n == limit_number(limit),
{
    match limit {
        Some(n) => Some(#[verifier::truncate] (n as i64)),
        None => None,
    }
}

/// The statement narrowed by predicates, then ordered and limited.
pub open spec fn ordered(
    query: Query,
    signal: Seq<char>,
    predicates: Seq<QueryPredicate>,
    order: Seq<char>,
    limit: Option<usize>,
) -> Result<Query, Seq<char>> {
    match filter::narrowed(query, signal, predicates) {
        Ok(q) => Ok(q.plus(order).when_integer(limit_number(limit), " LIMIT ?"@)),
        Err(e) => Err(e),
    }
}

/// `r` is the statement `expected`, or the refusal that stands in its place.
pub open spec fn gives(r: Result<Statement, StorageError>, expected: Result<Query, Seq<char>>) -> bool {
    match r {
        Ok(s) => expected == Ok::<Query, Seq<char>>(s@),
        Err(StorageError::QueryError(m)) => expected == Err::<Query, Seq<char>>(m@),
        Err(_) => false,
    }
}

fn finish(statement: Statement, signal: &str, params: &QueryParams, order: &str) -> (r: Result<
    Statement,
    StorageError,
>)
    ensures
        gives(r, ordered(statement@, signal@, params.predicates@, order@, params.limit)),
{
    let mut statement = statement;
    match filter::append_predicates(signal, &params.predicates, &mut statement) {
        Ok(()) => {
            statement.add_text(order);
            statement.add_integer(bind_limit(params.limit), " LIMIT ?");
            Ok(statement)
        },
        Err(e) => Err(e),
    }
}

/// The logs that match, the newest first.
pub open spec fn logs_query(params: QueryParams) -> Result<Query, Seq<char>> {
    let q = begin("SELECT * FROM logs WHERE 1=1"@).when_integer(
        params.start_time,
        " AND timestamp >= ?"@,
    ).when_integer(params.end_time, " AND timestamp <= ?"@).when_text(
        text::optional(params.trace_id),
        " AND trace_id = ?"@,
    ).when_text(text::optional(params.span_id), " AND span_id = ?"@).when_integer(
        severity_number(params.min_severity),
        " AND severity_number >= ?"@,
    ).when_text(
        text::optional(params.search_text),
        " AND id IN (SELECT rowid FROM logs_fts WHERE body MATCH ?)"@,
    );
    ordered(q, "logs"@, params.predicates@, " ORDER BY timestamp DESC"@, params.limit)
}

/// The statement that lists logs.
pub fn query_logs(params: &QueryParams) -> (r: Result<Statement, StorageError>)
    ensures
        gives(r, logs_query(*params)),
{
    let mut s = Statement::new("SELECT * FROM logs WHERE 1=1");
    s.add_integer(params.start_time, " AND timestamp >= ?");
    s.add_integer(params.end_time, " AND timestamp <= ?");
    s.add_optional(&params.trace_id, " AND trace_id = ?");
    s.add_optional(&params.span_id, " AND span_id = ?");
    let severity: Option<i64> = match params.min_severity {
        Some(n) => Some(n as i64),
        None => None,
    };
    s.add_integer(severity, " AND severity_number >= ?");
    s.add_optional(&params.search_text, " AND id IN (SELECT rowid FROM logs_fts WHERE body MATCH ?)");
    finish(s, "logs", params, " ORDER BY timestamp DESC")
}

/// A statement on spans narrowed to a time window.
pub open spec fn in_span_window(query: Query, start: Option<i64>, end: Option<i64>) -> Query {
    query.when_integer(start, " AND start_time >= ?"@).when_integer(end, " AND end_time <= ?"@)
}

/// Narrows a statement on spans to a time window.
pub fn add_span_window(s: &mut Statement, start: Option<i64>, end: Option<i64>)
    ensures
        final(s)@ == in_span_window(old(s)@, start, end),
{
    s.add_integer(start, " AND start_time >= ?");
    s.add_integer(end, " AND end_time <= ?");
}

/// A statement on logs or metrics narrowed to a time window.
pub open spec fn in_window(query: Query, start: Option<i64>, end: Option<i64>) -> Query {
    query.when_integer(start, " AND timestamp >= ?"@).when_integer(end, " AND timestamp <= ?"@)
}

/// Narrows a statement on logs or metrics to a time window.
pub fn add_window(s: &mut Statement, start: Option<i64>, end: Option<i64>)
    ensures
        final(s)@ == in_window(old(s)@, start, end),
{
    s.add_integer(start, " AND timestamp >= ?");
    s.add_integer(end, " AND timestamp <= ?");
}

/// The spans that match, the newest first.
pub open spec fn spans_query(params: QueryParams) -> Result<Query, Seq<char>> {
    let q = in_span_window(
        begin("SELECT * FROM spans WHERE 1=1"@),
        params.start_time,
        params.end_time,
    ).when_text(text::optional(params.trace_id), " AND trace_id = ?"@);
    ordered(q, "spans"@, params.predicates@, " ORDER BY start_time DESC"@, params.limit)
}

/// The statement that lists spans.
pub fn query_spans(params: &QueryParams) -> (r: Result<Statement, StorageError>)
    ensures
        gives(r, spans_query(*params)),
{
    let mut s = Statement::new("SELECT * FROM spans WHERE 1=1");
    add_span_window(&mut s, params.start_time, params.end_time);
    s.add_optional(&params.trace_id, " AND trace_id = ?");
    finish(s, "spans", params, " ORDER BY start_time DESC")
}

/// The metrics that match, the newest first.
pub open spec fn metrics_query(params: QueryParams) -> Result<Query, Seq<char>> {
    let q = in_window(begin("SELECT * FROM metrics WHERE 1=1"@), params.start_time, params.end_time);
    ordered(q, "metrics"@, params.predicates@, " ORDER BY timestamp DESC"@, params.limit)
}

/// The statement that lists metrics.
pub fn query_metrics(params: &QueryParams) -> (r: Result<Statement, StorageError>)
    ensures
        gives(r, metrics_query(*params)),
{
    let mut s = Statement::new("SELECT * FROM metrics WHERE 1=1");
    add_window(&mut s, params.start_time, params.end_time);
    finish(s, "metrics", params, " ORDER BY timestamp DESC")
}

/// Metrics beside the time of the newest point under their name.
pub const LATEST_METRICS: &'static str =
    "SELECT m.* FROM metrics m JOIN (SELECT name AS g_name, MAX(timestamp) AS g_ts FROM metrics GROUP BY name) g ON g.g_name = m.name AND g.g_ts = m.timestamp WHERE 1=1";

/// The newest points of each metric, of which those that match are kept, by name.
pub open spec fn latest_metrics_query(params: QueryParams) -> Result<Query, Seq<char>> {
    let q = in_window(begin(LATEST_METRICS@), params.start_time, params.end_time);
    ordered(q, "metrics"@, params.predicates@, " ORDER BY name ASC"@, params.limit)
}

/// The statement that lists the newest points of each metric.
pub fn query_latest_metrics(params: &QueryParams) -> (r: Result<Statement, StorageError>)
    ensures
        gives(r, latest_metrics_query(*params)),
{
    let mut s = Statement::new(LATEST_METRICS);
    add_window(&mut s, params.start_time, params.end_time);
    finish(s, "metrics", params, " ORDER BY name ASC")
}

/// The names of all metrics, each once, in order.
pub const DISTINCT_METRIC_NAMES: &'static str = "SELECT DISTINCT name FROM metrics ORDER BY name";

/// How the newest traces are found.
pub enum TraceSearch {
    /// One trace is asked for: it counts if the statement finds a row.
    Check(Statement),
    /// No trace is asked for.
    Nothing,
    /// The rows of the statement name the trace of each span, the newest span first.
    Scan(Statement),
}

/// The statement narrowed by predicates on spans, then followed by more text.
pub open spec fn matching_spans(query: Query, predicates: Seq<QueryPredicate>, rest: Seq<char>) -> Result<
    Query,
    Seq<char>,
> {
    match filter::narrowed(query, "spans"@, predicates) {
        Ok(q) => Ok(q.plus(rest)),
        Err(e) => Err(e),
    }
}

/// Narrows a statement by predicates on spans, and adds more text to it.
fn match_spans(statement: Statement, predicates: &Vec<QueryPredicate>, rest: &str) -> (r: Result<
    Statement,
    StorageError,
>)
    ensures
        gives(r, matching_spans(statement@, predicates@, rest@)),
{
    let mut statement = statement;
    match filter::append_predicates("spans", predicates, &mut statement) {
        Ok(()) => {
            statement.add_text(rest);
            Ok(statement)
        },
        Err(e) => Err(e),
    }
}

/// The check that a trace has a span that matches.
pub open spec fn trace_check(
    trace_id: Seq<char>,
    start: Option<i64>,
    end: Option<i64>,
    predicates: Seq<QueryPredicate>,
) -> Result<Query, Seq<char>> {
    matching_spans(
        in_span_window(
            begin("SELECT 1 FROM spans WHERE trace_id = ?"@).with(Bind::Text(trace_id)),
            start,
            end,
        ),
        predicates,
        " LIMIT 1"@,
    )
}

/// The traces of the spans that match, the newest span first.
pub open spec fn trace_scan(start: Option<i64>, end: Option<i64>, predicates: Seq<QueryPredicate>) -> Result<
    Query,
    Seq<char>,
> {
    matching_spans(
        in_span_window(begin("SELECT trace_id FROM spans WHERE 1=1"@), start, end),
        predicates,
        " ORDER BY start_time DESC"@,
    )
}

/// Decides how to find the newest `trace_limit` traces that have a span that matches.
pub fn trace_search(params: &QueryParams, trace_limit: usize) -> (r: Result<TraceSearch, StorageError>)
    ensures
        match params.trace_id {
            Some(t) => {
                let check = trace_check(t@, params.start_time, params.end_time, params.predicates@);
                match r {
                    Ok(TraceSearch::Check(s)) => check == Ok::<Query, Seq<char>>(s@),
                    Ok(_) => false,
                    Err(e) => gives(Err(e), check),
                }
            },
            None => {
                let scan = trace_scan(params.start_time, params.end_time, params.predicates@);
                match r {
                    Ok(TraceSearch::Check(_)) => false,
                    Ok(TraceSearch::Nothing) => trace_limit == 0,
                    Ok(TraceSearch::Scan(s)) => trace_limit > 0 && scan == Ok::<Query, Seq<char>>(s@),
                    Err(e) => trace_limit > 0 && gives(Err(e), scan),
                }
            },
        },
{
    if let Some(trace_id) = &params.trace_id {
        let mut s = Statement::new("SELECT 1 FROM spans WHERE trace_id = ?");
        s.add_value(SqlValue::Text(trace_id.clone()));
        add_span_window(&mut s, params.start_time, params.end_time);
        return match match_spans(s, &params.predicates, " LIMIT 1") {
            Ok(check) => Ok(TraceSearch::Check(check)),
            Err(e) => Err(e),
        };
    }
    if trace_limit == 0 {
        return Ok(TraceSearch::Nothing);
    }
    let mut s = Statement::new("SELECT trace_id FROM spans WHERE 1=1");
    add_span_window(&mut s, params.start_time, params.end_time);
    match match_spans(s, &params.predicates, " ORDER BY start_time DESC") {
        Ok(scan) => Ok(TraceSearch::Scan(scan)),
        Err(e) => Err(e),
    }
}

/// The traces that a scan has come across.
pub struct TraceScan {
    pub limit: usize,
    pub seen: Vec<String>,
}

/// The first `limit` of the distinct traces that a scan comes across.
pub open spec fn newest(ids: Seq<Seq<char>>, limit: nat) -> Seq<Seq<char>> {
    let distinct = group::first_seen(ids);
    if distinct.len() <= limit {
        distinct
    } else {
        distinct.take(limit as int)
    }
}

impl TraceScan {
    /// The scan has come across these traces.
    pub open spec fn has_scanned(self, ids: Seq<Seq<char>>) -> bool {
        group::ids(self.seen@) == newest(ids, self.limit as nat)
    }

    /// A scan that has come across nothing.
    pub fn new(limit: usize) -> (scan: TraceScan)
        ensures
            scan.limit == limit,
            scan.has_scanned(Seq::empty()),
    {
        let scan = TraceScan { limit, seen: Vec::new() };
        assert(group::ids(scan.seen@) =~= Seq::<Seq<char>>::empty());
        scan
    }

    /// Comes across one more trace, and says whether the scan can stop.
    pub fn offer(&mut self, id: String) -> (done: bool)
        ensures
            final(self).limit == old(self).limit,
            forall|ids: Seq<Seq<char>>| #[trigger]
                old(self).has_scanned(ids) ==> final(self).has_scanned(ids.push(id@)),
            done == (final(self).seen@.len() >= final(self).limit),
    {
        let ghost before = group::ids(self.seen@);
        let mut known: bool = false;
        let mut i: usize = 0;
        while i < self.seen.len()
            invariant
                i <= self.seen@.len(),
                known == exists|j: int| 0 <= j < i && (#[trigger] self.seen@[j])@ == id@,
            decreases self.seen@.len() - i,
        {
            if text::same_text(self.seen[i].as_str(), id.as_str()) {
                known = true;
            }
            i = i + 1;
        }
        assert(known == before.contains(id@)) by {
            if before.contains(id@) {
                let j = before.index_of(id@);
                assert(self.seen@[j]@ == id@);
            }
            if known {
                let j = choose|j: int| 0 <= j < self.seen@.len() && (#[trigger] self.seen@[j])@ == id@;
                assert(before[j] == id@);
            }
        }
        let ghost new_id = id@;
        if !known && self.seen.len() < self.limit {
            self.seen.push(id);
            assert(group::ids(self.seen@) =~= before.push(new_id));
        }
        assert forall|ids: Seq<Seq<char>>| #[trigger] old(self).has_scanned(ids) implies self.has_scanned(
            ids.push(new_id),
        ) by {
            lemma_newest_step(ids, new_id, self.limit as nat);
        }
        self.seen.len() >= self.limit
    }
}

/// One more trace is kept where it is new and the limit is not reached.
proof fn lemma_newest_step(ids: Seq<Seq<char>>, id: Seq<char>, limit: nat)
    ensures
        newest(ids.push(id), limit) == if newest(ids, limit).contains(id) || newest(ids, limit).len()
            >= limit {
            newest(ids, limit)
        } else {
            newest(ids, limit).push(id)
        },
{
    assert(ids.push(id).drop_last() =~= ids);
    let before = group::first_seen(ids);
    let after = group::first_seen(ids.push(id));
    let kept = newest(ids, limit);
    if before.len() > limit {
        assert(kept.len() == limit);
        assert(after.take(limit as int) =~= before.take(limit as int));
    } else {
        assert(kept == before);
        if after.len() > limit {
            assert(after.take(limit as int) =~= before);
        }
    }
}

/// A scan that has enough traces comes across no more of them.
proof fn lemma_newest_full(ids: Seq<Seq<char>>, more: Seq<Seq<char>>, limit: nat)
    requires
        newest(ids, limit).len() >= limit,
    ensures
        newest(ids + more, limit) == newest(ids, limit),
    decreases more.len(),
{
    if more.len() == 0 {
        assert(ids + more =~= ids);
    } else {
        lemma_newest_full(ids, more.drop_last(), limit);
        assert(ids + more =~= (ids + more.drop_last()).push(more.last()));
        lemma_newest_step(ids + more.drop_last(), more.last(), limit);
    }
}

/// The first `limit` distinct traces among the traces of spans.
pub fn newest_traces(ids: &Vec<String>, limit: usize) -> (traces: Vec<String>)
    ensures
        group::ids(traces@) == newest(group::ids(ids@), limit as nat),
{
    let ghost all = group::ids(ids@);
    let mut scan = TraceScan::new(limit);
    if limit == 0 {
        proof {
            assert(newest(Seq::<Seq<char>>::empty(), 0) =~= Seq::<Seq<char>>::empty());
            lemma_newest_full(Seq::empty(), all, 0);
            assert(Seq::<Seq<char>>::empty() + all =~= all);
        }
        return scan.seen;
    }
    let mut i: usize = 0;
    assert(all.take(0) =~= Seq::<Seq<char>>::empty());
    while i < ids.len()
        invariant
            i <= ids@.len(),
            all == group::ids(ids@),
            scan.limit == limit,
            scan.has_scanned(all.take(i as int)),
        decreases ids@.len() - i,
    {
        assert(all.take(i + 1) =~= all.take(i as int).push(ids@[i as int]@));
        let done: bool = scan.offer(ids[i].clone());
        assert(scan.has_scanned(all.take(i + 1)));
        if done {
            proof {
                assert(group::ids(scan.seen@).len() == scan.seen@.len());
                lemma_newest_full(all.take(i + 1), all.skip(i + 1), limit as nat);
                assert(all.take(i + 1) + all.skip(i + 1) =~= all);
            }
            return scan.seen;
        }
        i = i + 1;
    }
    assert(all.take(i as int) =~= all);
    scan.seen
}

/// A trace that a scan comes across first has a span before every span of a later one.
proof fn lemma_first_seen_order(ids: Seq<Seq<char>>, g: int, h: int)
    requires
        0 <= g < h < group::first_seen(ids).len(),
    ensures
        exists|i: int|
            0 <= i < ids.len() && ids[i] == group::first_seen(ids)[g] && forall|j: int|
                0 <= j < ids.len() && #[trigger] ids[j] == group::first_seen(ids)[h] ==> i < j,
    decreases ids.len(),
{
    let prior = ids.drop_last();
    let earlier = group::first_seen(prior);
    let all = group::first_seen(ids);
    group::lemma_first_seen(prior);
    if h < earlier.len() {
        lemma_first_seen_order(prior, g, h);
        let i = choose|i: int|
            0 <= i < prior.len() && prior[i] == earlier[g] && forall|j: int|
                0 <= j < prior.len() && #[trigger] prior[j] == earlier[h] ==> i < j;
        assert(ids[i] == all[g]);
        assert forall|j: int| 0 <= j < ids.len() && #[trigger] ids[j] == all[h] implies i < j by {
            if j < prior.len() {
                assert(prior[j] == ids[j]);
            }
        }
    } else {
        assert(earlier.contains(earlier[g]));
        let i = prior.index_of(earlier[g]);
        assert(ids[i] == all[g]);
        assert forall|j: int| 0 <= j < ids.len() && #[trigger] ids[j] == all[h] implies i < j by {
            if j < prior.len() {
                assert(prior[j] == ids[j]);
                assert(prior.contains(all[h]));
                assert(group::first_seen(prior).contains(all[h]));
            }
        }
    }
}

/// Of spans scanned from the newest on, the traces that are kept are the newest ones: each has a span
/// that started no earlier than any span of a trace that is not kept.
pub proof fn newest_traces_are_kept(
    ids: Seq<Seq<char>>,
    starts: Seq<i64>,
    limit: nat,
    kept: Seq<char>,
    dropped: Seq<char>,
)
    requires
        ids.len() == starts.len(),
        forall|i: int, j: int| 0 <= i < j < starts.len() ==> #[trigger] starts[i] >= #[trigger] starts[j],
        newest(ids, limit).contains(kept),
        !newest(ids, limit).contains(dropped),
    ensures
        exists|i: int|
            0 <= i < ids.len() && ids[i] == kept && forall|j: int|
                0 <= j < ids.len() && #[trigger] ids[j] == dropped ==> starts[i] >= starts[j],
{
    let all = group::first_seen(ids);
    group::lemma_first_seen(ids);
    let g = newest(ids, limit).index_of(kept);
    assert(all[g] == kept);
    if all.contains(dropped) {
        let h = all.index_of(dropped);
        if h < newest(ids, limit).len() {
            assert(newest(ids, limit)[h] == dropped);
        }
        lemma_first_seen_order(ids, g, h);
    } else {
        assert(group::first_seen(ids).contains(kept));
        let i = ids.index_of(kept);
        assert forall|j: int| 0 <= j < ids.len() && #[trigger] ids[j] == dropped implies starts[i]
            >= starts[j] by {
            assert(ids.contains(dropped));
            assert(group::first_seen(ids).contains(dropped));
        }
        assert(ids[i] == kept);
    }
}

/// `n` placeholders.
pub open spec fn placeholders(n: nat) -> Seq<Seq<char>> {
    Seq::new(n, |i: int| "?"@)
}

/// Texts bound to a statement.
pub open spec fn text_binds(texts: Seq<Seq<char>>) -> Seq<Bind> {
    Seq::new(texts.len(), |i: int| Bind::Text(texts[i]))
}

/// All spans of some traces, the newest first.
pub open spec fn trace_fetch(traces: Seq<Seq<char>>) -> Query {
    Query {
        text: "SELECT * FROM spans WHERE trace_id IN ("@ + layout::joined(placeholders(traces.len()), ", "@)
            + ") ORDER BY start_time DESC"@,
        binds: text_binds(traces),
    }
}

/// The statement that lists all spans of some traces.
pub fn fetch_traces(traces: &Vec<String>) -> (s: Statement)
    ensures
        s@ == trace_fetch(group::ids(traces@)),
{
    let mut all: Vec<String> = Vec::new();
    let mut values: Vec<SqlValue> = Vec::new();
    let mut i: usize = 0;
    while i < traces.len()
        invariant
            i <= traces@.len(),
            all@.len() == i,
            values@.len() == i,
            forall|j: int| 0 <= j < i ==> (#[trigger] all@[j])@ == "?"@,
            forall|j: int| 0 <= j < i ==> (#[trigger] values@[j]).bind() == Bind::Text(traces@[j]@),
        decreases traces@.len() - i,
    {
        all.push("?".to_owned());
        values.push(SqlValue::Text(traces[i].clone()));
        i = i + 1;
    }
    let ghost ids = group::ids(traces@);
    assert(group::ids(all@) =~= placeholders(ids.len()));
    assert(sql::binds(values@) =~= text_binds(ids));
    let mut sql = "SELECT * FROM spans WHERE trace_id IN (".to_owned();
    sql.append(layout::join(&all, ", ").as_str());
    sql.append(") ORDER BY start_time DESC");
    Statement { sql, values }
}

} // verus!

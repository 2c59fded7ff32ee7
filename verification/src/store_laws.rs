//! What the statements of the store select, and when the store deletes.
use crate::filter;
use crate::filter::{Operator, QueryPredicate, QueryValue};
use crate::histogram;
use crate::histogram::DistributionBucket;
use crate::layout;
use crate::listing;
use crate::listing::QueryParams;
use crate::records;
use crate::retention;
use crate::retention::{PurgeAction, PurgeEvent};
use crate::sql::{Bind, Query, Statement};
use crate::text;
use vstd::prelude::*;

verus! {

/// The retention reaches back whole days of twenty-four hours, where that can be expressed in
/// nanoseconds.
pub proof fn retention_reaches_back_whole_days(now: i64, days: u32)
    ensures
        now - days * 86_400_000_000_000 >= i64::MIN ==> retention::days_before(now, days) + days * (24 * 60 * 60
            * 1_000_000_000) == now,
        now - days * 86_400_000_000_000 < i64::MIN ==> retention::days_before(now, days) == 0,
{
    assert(days * 86_400_000_000_000 >= 0) by (nonlinear_arith)
        requires
            days >= 0,
    ;
}

/// Records are deleted exactly where the scheduler woke and took the lock, and the log of writes is
/// folded in exactly after a purge that succeeded.
pub proof fn purges_need_the_lock(event: PurgeEvent)
    ensures
        retention::action_after(event) == PurgeAction::Purge <==> (event matches PurgeEvent::Woke { locked } && locked),
        retention::action_after(event) == PurgeAction::Checkpoint <==> (event matches PurgeEvent::Purged { succeeded }
            && succeeded),
{
}

/// The size of the store is the number of its pages times their size, which is four KiB where it is
/// unknown.
pub proof fn sizes_are_of_whole_pages(pages: i64, size: i64)
    ensures
        records::size_of(Some(pages), Some(size)) == pages * size,
        records::size_of(Some(pages), None) == pages * 4096,
        records::size_of(None, Some(size)) == 0,
        records::size_of(None, None) == 0,
{
    assert(0 * size == 0) by (nonlinear_arith);
}

/// The scale of a distribution is its largest count, and one where there is none.
pub proof fn the_largest_count_sets_the_scale(buckets: Seq<DistributionBucket>)
    ensures
        histogram::scale_count(buckets) >= 1,
        forall|i: int| 0 <= i < buckets.len() ==> (#[trigger] buckets[i]).count <= histogram::scale_count(buckets),
        histogram::scale_count(buckets) == 1 || exists|i: int|
            0 <= i < buckets.len() && (#[trigger] buckets[i]).count == histogram::scale_count(buckets),
    decreases buckets.len(),
{
    if buckets.len() > 0 {
        let prior = buckets.drop_last();
        the_largest_count_sets_the_scale(prior);
        assert(buckets[buckets.len() - 1] == buckets.last());
        assert forall|i: int| 0 <= i < buckets.len() implies (#[trigger] buckets[i]).count <= histogram::scale_count(
            buckets,
        ) by {
            if i < prior.len() {
                assert(prior[i] == buckets[i]);
            }
        }
        if buckets.last().count <= histogram::scale_count(prior) && histogram::scale_count(prior) != 1 {
            let i = choose|i: int|
                0 <= i < prior.len() && (#[trigger] prior[i]).count == histogram::scale_count(prior);
            assert(buckets[i] == prior[i]);
        }
    }
}

/// A bar stands for the count to the nearest fortieth of the largest count.
pub proof fn bars_are_to_the_nearest_fortieth(count: int, largest: int)
    requires
        0 <= count <= largest,
        largest > 0,
    ensures
        2 * (histogram::bar_length(count, largest) * largest - 40 * count) <= largest,
        2 * (40 * count - histogram::bar_length(count, largest) * largest) < largest,
{
    let n = histogram::bar_length(count, largest);
    let total = count * 80 + largest;
    assert(n * (largest * 2) <= total < (n + 1) * (largest * 2)) by (nonlinear_arith)
        requires
            n == total / (largest * 2),
            largest > 0,
    ;
    assert(n * (largest * 2) == 2 * (n * largest)) by (nonlinear_arith);
    assert((n + 1) * (largest * 2) == 2 * (n * largest) + 2 * largest) by (nonlinear_arith);
}

/// A part of a statement that is there under a condition.
pub open spec fn piece(there: bool, clause: Seq<char>) -> Seq<char> {
    if there {
        clause
    } else {
        Seq::empty()
    }
}

/// A number that is bound where there is one.
pub open spec fn number(value: Option<i64>) -> Seq<Bind> {
    match value {
        Some(n) => seq![Bind::Integer(n)],
        None => Seq::empty(),
    }
}

/// A text that is bound where there is one.
pub open spec fn words(value: Option<String>) -> Seq<Bind> {
    match value {
        Some(t) => seq![Bind::Text(t@)],
        None => Seq::empty(),
    }
}

/// A clause on a number adds its text and its number, or nothing.
pub proof fn lemma_number(q: Query, value: Option<i64>, clause: Seq<char>)
    ensures
        q.when_integer(value, clause).text == q.text + piece(value is Some, clause),
        q.when_integer(value, clause).binds == q.binds + number(value),
{
    assert(q.text + Seq::<char>::empty() =~= q.text);
    assert(q.binds + Seq::<Bind>::empty() =~= q.binds);
    if let Some(n) = value {
        assert(q.binds.push(Bind::Integer(n)) =~= q.binds + seq![Bind::Integer(n)]);
    }
}

/// A clause on a text adds its text and the bound text, or nothing.
proof fn lemma_words(q: Query, value: Option<String>, clause: Seq<char>)
    ensures
        q.when_text(text::optional(value), clause).text == q.text + piece(value is Some, clause),
        q.when_text(text::optional(value), clause).binds == q.binds + words(value),
{
    assert(q.text + Seq::<char>::empty() =~= q.text);
    assert(q.binds + Seq::<Bind>::empty() =~= q.binds);
    if let Some(t) = value {
        assert(q.binds.push(Bind::Text(t@)) =~= q.binds + seq![Bind::Text(t@)]);
    }
}

/// A limit as it is bound.
pub open spec fn limit_bind(limit: Option<usize>) -> Option<i64> {
    match limit {
        Some(n) => Some(n as i64),
        None => None,
    }
}

/// A severity as it is bound.
pub open spec fn severity_bind(severity: Option<i32>) -> Option<i64> {
    match severity {
        Some(n) => Some(n as i64),
        None => None,
    }
}

/// Logs are listed from the start through the end of their window, of one trace and one span, of the
/// least severity on, and by their text, the newest first; what is not asked for does not narrow them.
pub proof fn logs_are_listed_as_asked(params: QueryParams, s: Statement)
    requires
        listing::gives(Ok(s), listing::logs_query(params)),
        params.predicates@.len() == 0,
    ensures
        s@.text == "SELECT * FROM logs WHERE 1=1"@ + piece(params.start_time is Some, " AND timestamp >= ?"@) + piece(
            params.end_time is Some,
            " AND timestamp <= ?"@,
        ) + piece(params.trace_id is Some, " AND trace_id = ?"@) + piece(
            params.span_id is Some,
            " AND span_id = ?"@,
        ) + piece(params.min_severity is Some, " AND severity_number >= ?"@) + piece(
            params.search_text is Some,
            " AND id IN (SELECT rowid FROM logs_fts WHERE body MATCH ?)"@,
        ) + " ORDER BY timestamp DESC"@ + piece(params.limit is Some, " LIMIT ?"@),
        s@.binds == number(params.start_time) + number(params.end_time) + words(params.trace_id) + words(
            params.span_id,
        ) + number(severity_bind(params.min_severity)) + words(params.search_text) + number(limit_bind(params.limit)),
{
    let q = listing::begin("SELECT * FROM logs WHERE 1=1"@);
    lemma_number(q, params.start_time, " AND timestamp >= ?"@);
    let q = q.when_integer(params.start_time, " AND timestamp >= ?"@);
    lemma_number(q, params.end_time, " AND timestamp <= ?"@);
    let q = q.when_integer(params.end_time, " AND timestamp <= ?"@);
    lemma_words(q, params.trace_id, " AND trace_id = ?"@);
    let q = q.when_text(text::optional(params.trace_id), " AND trace_id = ?"@);
    lemma_words(q, params.span_id, " AND span_id = ?"@);
    let q = q.when_text(text::optional(params.span_id), " AND span_id = ?"@);
    lemma_number(q, severity_bind(params.min_severity), " AND severity_number >= ?"@);
    let q = q.when_integer(severity_bind(params.min_severity), " AND severity_number >= ?"@);
    lemma_words(q, params.search_text, " AND id IN (SELECT rowid FROM logs_fts WHERE body MATCH ?)"@);
    let q = q.when_text(
        text::optional(params.search_text),
        " AND id IN (SELECT rowid FROM logs_fts WHERE body MATCH ?)"@,
    );
    let q = q.plus(" ORDER BY timestamp DESC"@);
    lemma_number(q, limit_bind(params.limit), " LIMIT ?"@);
    assert(Seq::<Bind>::empty() + number(params.start_time) =~= number(params.start_time));
}

/// A span is listed where it starts and ends within the window, and with its trace where one is asked
/// for, the newest first.
pub proof fn spans_are_listed_as_asked(params: QueryParams, s: Statement)
    requires
        listing::gives(Ok(s), listing::spans_query(params)),
        params.predicates@.len() == 0,
    ensures
        s@.text == "SELECT * FROM spans WHERE 1=1"@ + piece(params.start_time is Some, " AND start_time >= ?"@)
            + piece(params.end_time is Some, " AND end_time <= ?"@) + piece(
            params.trace_id is Some,
            " AND trace_id = ?"@,
        ) + " ORDER BY start_time DESC"@ + piece(params.limit is Some, " LIMIT ?"@),
        s@.binds == number(params.start_time) + number(params.end_time) + words(params.trace_id) + number(
            limit_bind(params.limit),
        ),
{
    let q = listing::begin("SELECT * FROM spans WHERE 1=1"@);
    lemma_number(q, params.start_time, " AND start_time >= ?"@);
    let q = q.when_integer(params.start_time, " AND start_time >= ?"@);
    lemma_number(q, params.end_time, " AND end_time <= ?"@);
    let q = q.when_integer(params.end_time, " AND end_time <= ?"@);
    lemma_words(q, params.trace_id, " AND trace_id = ?"@);
    let q = q.when_text(text::optional(params.trace_id), " AND trace_id = ?"@);
    let q = q.plus(" ORDER BY start_time DESC"@);
    lemma_number(q, limit_bind(params.limit), " LIMIT ?"@);
    assert(Seq::<Bind>::empty() + number(params.start_time) =~= number(params.start_time));
}

/// Metrics are listed within their window, the newest first; the newest points of each are listed by
/// name.
pub proof fn metrics_are_listed_as_asked(params: QueryParams, s: Statement, newest: bool)
    requires
        if newest {
            listing::gives(Ok(s), listing::latest_metrics_query(params))
        } else {
            listing::gives(Ok(s), listing::metrics_query(params))
        },
        params.predicates@.len() == 0,
    ensures
        s@.text == if newest {
            "SELECT m.* FROM metrics m JOIN (SELECT name AS g_name, MAX(timestamp) AS g_ts FROM metrics GROUP BY name) g ON g.g_name = m.name AND g.g_ts = m.timestamp WHERE 1=1"@
        } else {
            "SELECT * FROM metrics WHERE 1=1"@
        } + piece(params.start_time is Some, " AND timestamp >= ?"@) + piece(
            params.end_time is Some,
            " AND timestamp <= ?"@,
        ) + if newest {
            " ORDER BY name ASC"@
        } else {
            " ORDER BY timestamp DESC"@
        } + piece(params.limit is Some, " LIMIT ?"@),
        s@.binds == number(params.start_time) + number(params.end_time) + number(limit_bind(params.limit)),
{
    let head = if newest {
        "SELECT m.* FROM metrics m JOIN (SELECT name AS g_name, MAX(timestamp) AS g_ts FROM metrics GROUP BY name) g ON g.g_name = m.name AND g.g_ts = m.timestamp WHERE 1=1"@
    } else {
        "SELECT * FROM metrics WHERE 1=1"@
    };
    let q = listing::begin(head);
    lemma_number(q, params.start_time, " AND timestamp >= ?"@);
    let q = q.when_integer(params.start_time, " AND timestamp >= ?"@);
    lemma_number(q, params.end_time, " AND timestamp <= ?"@);
    let q = q.when_integer(params.end_time, " AND timestamp <= ?"@);
    let q = q.plus(
        if newest {
            " ORDER BY name ASC"@
        } else {
            " ORDER BY timestamp DESC"@
        },
    );
    lemma_number(q, limit_bind(params.limit), " LIMIT ?"@);
    assert(Seq::<Bind>::empty() + number(params.start_time) =~= number(params.start_time));
}

/// A trace is looked for among the spans within the window, and the newest spans are scanned first.
pub proof fn traces_are_found_within_the_window(
    trace: Seq<char>,
    start: Option<i64>,
    end: Option<i64>,
    check: Query,
    scan: Query,
)
    requires
        listing::trace_check(trace, start, end, Seq::empty()) == Ok::<Query, Seq<char>>(check),
        listing::trace_scan(start, end, Seq::empty()) == Ok::<Query, Seq<char>>(scan),
    ensures
        check.text == "SELECT 1 FROM spans WHERE trace_id = ?"@ + piece(start is Some, " AND start_time >= ?"@)
            + piece(end is Some, " AND end_time <= ?"@) + " LIMIT 1"@,
        check.binds == seq![Bind::Text(trace)] + number(start) + number(end),
        scan.text == "SELECT trace_id FROM spans WHERE 1=1"@ + piece(start is Some, " AND start_time >= ?"@) + piece(
            end is Some,
            " AND end_time <= ?"@,
        ) + " ORDER BY start_time DESC"@,
        scan.binds == number(start) + number(end),
{
    let q = listing::begin("SELECT 1 FROM spans WHERE trace_id = ?"@).with(Bind::Text(trace));
    assert(q.binds =~= seq![Bind::Text(trace)]);
    lemma_number(q, start, " AND start_time >= ?"@);
    lemma_number(q.when_integer(start, " AND start_time >= ?"@), end, " AND end_time <= ?"@);
    let r = listing::begin("SELECT trace_id FROM spans WHERE 1=1"@);
    lemma_number(r, start, " AND start_time >= ?"@);
    lemma_number(r.when_integer(start, " AND start_time >= ?"@), end, " AND end_time <= ?"@);
    assert(Seq::<Bind>::empty() + number(start) =~= number(start));
}

/// The spans of some traces are asked for with one placeholder for each trace, which binds that trace.
pub proof fn each_trace_is_bound_once(traces: Seq<Seq<char>>, i: int)
    requires
        0 <= i < traces.len(),
    ensures
        listing::trace_fetch(traces).text == "SELECT * FROM spans WHERE trace_id IN ("@ + layout::joined(
            Seq::new(traces.len(), |i: int| "?"@),
            ", "@,
        ) + ") ORDER BY start_time DESC"@,
        listing::trace_fetch(traces).binds.len() == traces.len(),
        listing::trace_fetch(traces).binds[i] == Bind::Text(traces[i]),
{
    assert(Seq::new(traces.len(), |i: int| "?"@) =~= listing::placeholders(traces.len()));
}

/// A further predicate narrows the statement by one more clause behind the others, or is the first that
/// is refused.
pub proof fn predicates_narrow_one_after_the_other(
    query: Query,
    signal: Seq<char>,
    predicates: Seq<QueryPredicate>,
    p: QueryPredicate,
)
    ensures
        match filter::narrowed(query, signal, predicates) {
            Ok(before) => filter::narrowed(query, signal, predicates.push(p)) == filter::narrowed(
                before,
                signal,
                seq![p],
            ),
            Err(e) => filter::narrowed(query, signal, predicates.push(p)) == Err::<Query, Seq<char>>(e),
        },
    decreases predicates.len(),
{
    let more = predicates.push(p);
    if predicates.len() == 0 {
        assert(more =~= seq![p]);
    } else {
        assert(more[0] == predicates[0]);
        assert(more.skip(1) =~= predicates.skip(1).push(p));
        if let Some(value) = filter::predicate_bind(signal, predicates[0]) {
            predicates_narrow_one_after_the_other(
                query.plus(" AND "@ + filter::clause_text(signal, predicates[0])).with(value),
                signal,
                predicates.skip(1),
                p,
            );
        }
    }
}

/// How a comparison reads in SQL.
pub open spec fn reads_as(operator: Operator, sign: Seq<char>) -> bool {
    match operator {
        Operator::Equal => sign == "="@,
        Operator::NotEqual => sign == "!="@,
        Operator::GreaterThan => sign == ">"@,
        Operator::LessThan => sign == "<"@,
        Operator::GreaterThanOrEqual => sign == ">="@,
        Operator::LessThanOrEqual => sign == "<="@,
        Operator::Contains => sign == "LIKE"@,
    }
}

/// The duration of a span, from its start to its end, is compared with a duration in nanoseconds, and
/// with nothing else.
pub proof fn durations_are_compared_with_durations(query: Query, p: QueryPredicate, sign: Seq<char>)
    requires
        p.field@ == "duration"@,
        reads_as(p.operator, sign),
    ensures
        match (filter::narrowed(query, "spans"@, seq![p]), p.value) {
            (Ok(q), QueryValue::Duration(nanos)) => q.text == query.text + (" AND ((end_time - start_time) "@ + sign
                + " ?)"@) && q.binds == query.binds.push(Bind::Integer(nanos as i64)),
            (Err(_), QueryValue::Duration(_)) => false,
            (Ok(_), _) => false,
            (Err(_), _) => true,
        },
{
    lemma_not_the_session();
    reveal_with_fuel(filter::narrowed, 2);
    assert(seq![p].skip(1) =~= Seq::<QueryPredicate>::empty());
    assert(seq![p][0] == p);
    assert(" AND "@ + ("((end_time - start_time) "@ + sign + " ?)"@) =~= " AND ((end_time - start_time) "@ + sign
        + " ?)"@) by {
        reveal_strlit(" AND ");
        reveal_strlit("((end_time - start_time) ");
        reveal_strlit(" AND ((end_time - start_time) ");
    }
}

/// A duration is no session.
proof fn lemma_not_the_session()
    ensures
        !filter::is_session_field("duration"@),
{
    reveal_strlit("duration");
    reveal_strlit("session.id");
    reveal_strlit("attributes.");
    assert("duration"@.len() == 8 && "session.id"@.len() == 10 && "attributes."@.len() == 11);
}

/// A text that a field is to contain may stand anywhere in it; nothing but a text can be contained.
pub proof fn contained_texts_stand_anywhere(query: Query, signal: Seq<char>, p: QueryPredicate)
    requires
        p.operator is Contains,
        !(signal == "spans"@ && p.field@ == "duration"@),
    ensures
        match (filter::narrowed(query, signal, seq![p]), p.value) {
            (Ok(q), QueryValue::String(part)) => q.binds == query.binds.push(Bind::Text("%"@ + part@ + "%"@)),
            (Err(_), QueryValue::String(_)) => false,
            (Ok(_), _) => false,
            (Err(_), _) => true,
        },
{
    reveal_with_fuel(filter::narrowed, 2);
    assert(seq![p].skip(1) =~= Seq::<QueryPredicate>::empty());
    assert(seq![p][0] == p);
}

/// Any other comparison is with the value as it was given.
pub proof fn values_are_compared_as_given(query: Query, signal: Seq<char>, p: QueryPredicate)
    requires
        !(p.operator is Contains),
        !(signal == "spans"@ && p.field@ == "duration"@),
    ensures
        filter::narrowed(query, signal, seq![p]) matches Ok(q) && q.binds == query.binds.push(
            match p.value {
                QueryValue::String(t) => Bind::Text(t@),
                QueryValue::Number(bits) => Bind::Number(bits),
                QueryValue::Duration(nanos) => Bind::Integer(nanos as i64),
            },
        ),
{
    reveal_with_fuel(filter::narrowed, 2);
    assert(seq![p].skip(1) =~= Seq::<QueryPredicate>::empty());
    assert(seq![p][0] == p);
}

/// A text behind a prefix is found there.
proof fn lemma_behind(prefix: Seq<char>, key: Seq<char>)
    ensures
        filter::behind(prefix + key, prefix) == Some(key),
{
    assert((prefix + key).skip(prefix.len() as int) =~= key);
    assert(prefix.is_prefix_of(prefix + key));
}

/// No column begins as the prefixes do.
proof fn lemma_no_column(signal: Seq<char>, field: Seq<char>)
    requires
        field.len() > 0,
        field[0] == 'a' || field[0] == 'r',
    ensures
        filter::column_of(signal, field) is None,
        field != "session.id"@,
{
    reveal_strlit("timestamp");
    reveal_strlit("trace_id");
    reveal_strlit("span_id");
    reveal_strlit("severity_number");
    reveal_strlit("severity");
    reveal_strlit("body");
    reveal_strlit("parent_span_id");
    reveal_strlit("name");
    reveal_strlit("kind");
    reveal_strlit("start_time");
    reveal_strlit("end_time");
    reveal_strlit("description");
    reveal_strlit("unit");
    reveal_strlit("session.id");
    assert("timestamp"@[0] == 't' && "trace_id"@[0] == 't' && "span_id"@[0] == 's' && "severity_number"@[0] == 's'
        && "severity"@[0] == 's' && "body"@[0] == 'b' && "parent_span_id"@[0] == 'p' && "name"@[0] == 'n'
        && "kind"@[0] == 'k' && "start_time"@[0] == 's' && "end_time"@[0] == 'e' && "description"@[0] == 'd'
        && "unit"@[0] == 'u' && "session.id"@[0] == 's');
}

/// A field behind `attributes.` is read from the attributes under its key, and one behind `resource.` from
/// the attributes of the resource; the session has an expression of its own, with or without the prefix.
pub proof fn prefixed_fields_are_read_from_their_place(signal: Seq<char>, key: Seq<char>)
    ensures
        key != "session.id"@ ==> filter::field_text(signal, "attributes."@ + key)
            == "json_extract(attributes, '"@ + ("$.\""@ + key + "\""@) + "')"@,
        filter::field_text(signal, "resource."@ + key) == "json_extract(resource, '$.attributes"@ + (".\""@ + key
            + "\""@) + "')"@,
        filter::field_text(signal, "attributes."@ + "session.id"@)
            == "CASE WHEN json_valid(attributes) THEN json_extract(attributes, '$.\"session.id\"') END"@,
        filter::field_text(signal, "session.id"@) == filter::field_text(signal, "attributes."@ + "session.id"@),
{
    reveal_strlit("attributes.");
    reveal_strlit("resource.");
    assert("attributes."@[0] == 'a' && "resource."@[0] == 'r');
    assert("attributes."@.len() == 11 && "resource."@.len() == 9);
    let a = "attributes."@ + key;
    let b = "resource."@ + key;
    let c = "attributes."@ + "session.id"@;
    lemma_behind("attributes."@, key);
    lemma_behind("resource."@, key);
    lemma_behind("attributes."@, "session.id"@);
    assert(a[0] == 'a' && b[0] == 'r' && c[0] == 'a');
    lemma_no_column(signal, a);
    lemma_no_column(signal, b);
    lemma_no_column(signal, c);
    assert(!"attributes."@.is_prefix_of(b)) by {
        if "attributes."@.is_prefix_of(b) {
            assert(b.subrange(0, 11)[0] == b[0]);
        }
    }
    lemma_session_is_no_column(signal);
}

/// The session is no column.
proof fn lemma_session_is_no_column(signal: Seq<char>)
    ensures
        filter::column_of(signal, "session.id"@) is None,
{
    reveal_strlit("timestamp");
    reveal_strlit("trace_id");
    reveal_strlit("span_id");
    reveal_strlit("severity_number");
    reveal_strlit("severity");
    reveal_strlit("body");
    reveal_strlit("parent_span_id");
    reveal_strlit("name");
    reveal_strlit("kind");
    reveal_strlit("start_time");
    reveal_strlit("end_time");
    reveal_strlit("description");
    reveal_strlit("unit");
    reveal_strlit("session.id");
    let f = "session.id"@;
    assert(f.len() == 10 && f[1] == 'e');
    assert("start_time"@.len() == 10 && "start_time"@[1] == 't');
    assert("timestamp"@.len() == 9 && "trace_id"@.len() == 8 && "span_id"@.len() == 7 && "severity_number"@.len() == 15
        && "severity"@.len() == 8 && "body"@.len() == 4 && "parent_span_id"@.len() == 14 && "name"@.len() == 4
        && "kind"@.len() == 4 && "end_time"@.len() == 8 && "description"@.len() == 11 && "unit"@.len() == 4);
}

/// A field that is a column of its table is compared there: the field, the operator and a placeholder.
pub proof fn columns_are_compared_as_they_are(query: Query, signal: Seq<char>, p: QueryPredicate, sign: Seq<char>, r: Query)
    requires
        reads_as(p.operator, sign),
        signal == "logs"@ && (p.field@ == "timestamp"@ || p.field@ == "trace_id"@ || p.field@ == "span_id"@ || p.field@
            == "severity_number"@ || p.field@ == "body"@) || signal == "spans"@ && (p.field@ == "trace_id"@ || p.field@
            == "span_id"@ || p.field@ == "parent_span_id"@ || p.field@ == "name"@ || p.field@ == "kind"@ || p.field@
            == "start_time"@ || p.field@ == "end_time"@) || signal == "metrics"@ && (p.field@ == "name"@ || p.field@
            == "description"@ || p.field@ == "unit"@ || p.field@ == "timestamp"@),
        filter::narrowed(query, signal, seq![p]) == Ok::<Query, Seq<char>>(r),
    ensures
        r.text == query.text + (" AND "@ + (p.field@ + " "@ + sign + " ?"@)),
{
    reveal_strlit("logs");
    reveal_strlit("spans");
    reveal_strlit("metrics");
    reveal_strlit("timestamp");
    reveal_strlit("trace_id");
    reveal_strlit("span_id");
    reveal_strlit("severity_number");
    reveal_strlit("body");
    reveal_strlit("parent_span_id");
    reveal_strlit("name");
    reveal_strlit("kind");
    reveal_strlit("start_time");
    reveal_strlit("end_time");
    reveal_strlit("description");
    reveal_strlit("unit");
    reveal_strlit("session.id");
    reveal_strlit("attributes.");
    reveal_strlit("duration");
    assert("logs"@.len() == 4 && "spans"@.len() == 5 && "metrics"@.len() == 7);
    assert("attributes."@[0] == 'a' && "session.id"@.len() == 10 && "session.id"@[1] == 'e');
    assert("timestamp"@[0] == 't' && "trace_id"@[0] == 't' && "span_id"@[0] == 's' && "severity_number"@[0] == 's'
        && "body"@[0] == 'b' && "parent_span_id"@[0] == 'p' && "name"@[0] == 'n' && "kind"@[0] == 'k'
        && "start_time"@[0] == 's' && "end_time"@[0] == 'e' && "description"@[0] == 'd' && "unit"@[0] == 'u');
    assert("start_time"@[1] == 't');
    assert("duration"@.len() == 8 && "duration"@[0] == 'd');
    assert("description"@.len() == 11 && "span_id"@.len() == 7 && "severity_number"@.len() == 15);
    reveal_with_fuel(filter::narrowed, 2);
    assert(seq![p].skip(1) =~= Seq::<QueryPredicate>::empty());
    assert(seq![p][0] == p);
    assert(!"attributes."@.is_prefix_of(p.field@)) by {
        if "attributes."@.is_prefix_of(p.field@) {
            assert(p.field@.subrange(0, "attributes."@.len() as int)[0] == p.field@[0]);
        }
    }
}

/// A predicate on the session compares the session of the record, and repeats the condition under which the
/// index of sessions holds it.
pub proof fn sessions_are_compared_through_their_index(
    query: Query,
    signal: Seq<char>,
    p: QueryPredicate,
    sign: Seq<char>,
    r: Query,
)
    requires
        reads_as(p.operator, sign),
        p.field@ == "session.id"@ || p.field@ == "attributes."@ + "session.id"@,
        filter::narrowed(query, signal, seq![p]) == Ok::<Query, Seq<char>>(r),
    ensures
        r.text == query.text + (" AND "@ + (
        "CASE WHEN json_valid(attributes) THEN json_extract(attributes, '$.\"session.id\"') END"@ + " "@ + sign + " ?"@
            + " AND "@ + "json_valid(attributes) AND json_extract(attributes, '$.\"session.id\"') IS NOT NULL"@)),
{
    prefixed_fields_are_read_from_their_place(signal, Seq::empty());
    lemma_behind("attributes."@, "session.id"@);
    reveal_strlit("duration");
    reveal_strlit("session.id");
    reveal_strlit("attributes.");
    assert("duration"@.len() == 8 && "session.id"@.len() == 10 && "attributes."@.len() == 11);
    reveal_with_fuel(filter::narrowed, 2);
    assert(seq![p].skip(1) =~= Seq::<QueryPredicate>::empty());
    assert(seq![p][0] == p);
}

} // verus!

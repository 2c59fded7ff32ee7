//! Statements have as many placeholders as values.
use crate::filter;
use crate::filter::{Operator, QueryPredicate};
use crate::layout;
use crate::listing;
use crate::listing::QueryParams;
use crate::sql;
use crate::sql::{Bind, Query};
use crate::text;
use vstd::prelude::*;

verus! {

/// The lower bound of a window binds one value.
proof fn lemma_from_time()
    ensures
        sql::marks(" AND timestamp >= ?"@) == 1,
{
    reveal_strlit(" AND timestamp >= ?");
    reveal_with_fuel(sql::marks, 20);
}

/// The upper bound of a window binds one value.
proof fn lemma_to_time()
    ensures
        sql::marks(" AND timestamp <= ?"@) == 1,
{
    reveal_strlit(" AND timestamp <= ?");
    reveal_with_fuel(sql::marks, 20);
}

/// The lower bound of a span window binds one value.
proof fn lemma_from_start()
    ensures
        sql::marks(" AND start_time >= ?"@) == 1,
{
    reveal_strlit(" AND start_time >= ?");
    reveal_with_fuel(sql::marks, 21);
}

/// The upper bound of a span window binds one value.
proof fn lemma_to_end()
    ensures
        sql::marks(" AND end_time <= ?"@) == 1,
{
    reveal_strlit(" AND end_time <= ?");
    reveal_with_fuel(sql::marks, 19);
}

/// The clause on a trace binds one value.
proof fn lemma_trace_clause()
    ensures
        sql::marks(" AND trace_id = ?"@) == 1,
{
    reveal_strlit(" AND trace_id = ?");
    reveal_with_fuel(sql::marks, 18);
}

/// The clause on a span binds one value.
proof fn lemma_span_clause()
    ensures
        sql::marks(" AND span_id = ?"@) == 1,
{
    reveal_strlit(" AND span_id = ?");
    reveal_with_fuel(sql::marks, 17);
}

/// The clause on a severity binds one value.
proof fn lemma_severity_clause()
    ensures
        sql::marks(" AND severity_number >= ?"@) == 1,
{
    reveal_strlit(" AND severity_number >= ?");
    reveal_with_fuel(sql::marks, 26);
}

/// The clause on a searched text binds one value.
proof fn lemma_search_clause()
    ensures
        sql::marks(" AND id IN (SELECT rowid FROM logs_fts WHERE body MATCH ?)"@) == 1,
{
    reveal_strlit(" AND id IN (SELECT rowid FROM logs_fts WHERE body MATCH ?)");
    reveal_strlit(" AND id IN (SELECT rowid F");
    reveal_strlit("ROM logs_fts WHERE body MA");
    reveal_strlit("TCH ?)");
    assert(" AND id IN (SELECT rowid FROM logs_fts WHERE body MATCH ?)"@ =~= " AND id IN (SELECT rowid F"@ + "ROM logs_fts WHERE body MA"@ + "TCH ?)"@);
    sql::lemma_marks_concat(" AND id IN (SELECT rowid F"@, "ROM logs_fts WHERE body MA"@);
    sql::lemma_marks_concat(" AND id IN (SELECT rowid F"@ + "ROM logs_fts WHERE body MA"@, "TCH ?)"@);
    reveal_with_fuel(sql::marks, 27);
    assert(sql::marks(" AND id IN (SELECT rowid F"@) == 0);
    assert(sql::marks("ROM logs_fts WHERE body MA"@) == 0);
    assert(sql::marks("TCH ?)"@) == 1);
}

/// A limit binds one value.
proof fn lemma_limit_clause()
    ensures
        sql::marks(" LIMIT ?"@) == 1,
{
    reveal_strlit(" LIMIT ?");
    reveal_with_fuel(sql::marks, 9);
}

/// The listing of logs begins without a placeholder.
proof fn lemma_logs_start()
    ensures
        sql::marks("SELECT * FROM logs WHERE 1=1"@) == 0,
{
    reveal_strlit("SELECT * FROM logs WHERE 1=1");
    reveal_strlit("SELECT * FROM logs WHERE 1");
    reveal_strlit("=1");
    assert("SELECT * FROM logs WHERE 1=1"@ =~= "SELECT * FROM logs WHERE 1"@ + "=1"@);
    sql::lemma_marks_concat("SELECT * FROM logs WHERE 1"@, "=1"@);
    reveal_with_fuel(sql::marks, 27);
    assert(sql::marks("SELECT * FROM logs WHERE 1"@) == 0);
    assert(sql::marks("=1"@) == 0);
}

/// The listing of spans begins without a placeholder.
proof fn lemma_spans_start()
    ensures
        sql::marks("SELECT * FROM spans WHERE 1=1"@) == 0,
{
    reveal_strlit("SELECT * FROM spans WHERE 1=1");
    reveal_strlit("SELECT * FROM spans WHERE ");
    reveal_strlit("1=1");
    assert("SELECT * FROM spans WHERE 1=1"@ =~= "SELECT * FROM spans WHERE "@ + "1=1"@);
    sql::lemma_marks_concat("SELECT * FROM spans WHERE "@, "1=1"@);
    reveal_with_fuel(sql::marks, 27);
    assert(sql::marks("SELECT * FROM spans WHERE "@) == 0);
    assert(sql::marks("1=1"@) == 0);
}

/// The listing of metrics begins without a placeholder.
proof fn lemma_metrics_start()
    ensures
        sql::marks("SELECT * FROM metrics WHERE 1=1"@) == 0,
{
    reveal_strlit("SELECT * FROM metrics WHERE 1=1");
    reveal_strlit("SELECT * FROM metrics WHER");
    reveal_strlit("E 1=1");
    assert("SELECT * FROM metrics WHERE 1=1"@ =~= "SELECT * FROM metrics WHER"@ + "E 1=1"@);
    sql::lemma_marks_concat("SELECT * FROM metrics WHER"@, "E 1=1"@);
    reveal_with_fuel(sql::marks, 27);
    assert(sql::marks("SELECT * FROM metrics WHER"@) == 0);
    assert(sql::marks("E 1=1"@) == 0);
}

/// An order has no placeholder.
proof fn lemma_by_time()
    ensures
        sql::marks(" ORDER BY timestamp DESC"@) == 0,
{
    reveal_strlit(" ORDER BY timestamp DESC");
    reveal_with_fuel(sql::marks, 25);
}

/// An order has no placeholder.
proof fn lemma_by_start()
    ensures
        sql::marks(" ORDER BY start_time DESC"@) == 0,
{
    reveal_strlit(" ORDER BY start_time DESC");
    reveal_with_fuel(sql::marks, 26);
}

/// An order has no placeholder.
proof fn lemma_by_name()
    ensures
        sql::marks(" ORDER BY name ASC"@) == 0,
{
    reveal_strlit(" ORDER BY name ASC");
    reveal_with_fuel(sql::marks, 19);
}

/// The check of a trace begins with one placeholder.
proof fn lemma_check_start()
    ensures
        sql::marks("SELECT 1 FROM spans WHERE trace_id = ?"@) == 1,
{
    reveal_strlit("SELECT 1 FROM spans WHERE trace_id = ?");
    reveal_strlit("SELECT 1 FROM spans WHERE ");
    reveal_strlit("trace_id = ?");
    assert("SELECT 1 FROM spans WHERE trace_id = ?"@ =~= "SELECT 1 FROM spans WHERE "@ + "trace_id = ?"@);
    sql::lemma_marks_concat("SELECT 1 FROM spans WHERE "@, "trace_id = ?"@);
    reveal_with_fuel(sql::marks, 27);
    assert(sql::marks("SELECT 1 FROM spans WHERE "@) == 0);
    assert(sql::marks("trace_id = ?"@) == 1);
}

/// The check of a trace ends without a placeholder.
proof fn lemma_check_end()
    ensures
        sql::marks(" LIMIT 1"@) == 0,
{
    reveal_strlit(" LIMIT 1");
    reveal_with_fuel(sql::marks, 9);
}

/// The scan of traces begins without a placeholder.
proof fn lemma_scan_start()
    ensures
        sql::marks("SELECT trace_id FROM spans WHERE 1=1"@) == 0,
{
    reveal_strlit("SELECT trace_id FROM spans WHERE 1=1");
    reveal_strlit("SELECT trace_id FROM spans");
    reveal_strlit(" WHERE 1=1");
    assert("SELECT trace_id FROM spans WHERE 1=1"@ =~= "SELECT trace_id FROM spans"@ + " WHERE 1=1"@);
    sql::lemma_marks_concat("SELECT trace_id FROM spans"@, " WHERE 1=1"@);
    reveal_with_fuel(sql::marks, 27);
    assert(sql::marks("SELECT trace_id FROM spans"@) == 0);
    assert(sql::marks(" WHERE 1=1"@) == 0);
}

/// A conjunction has no placeholder.
proof fn lemma_and()
    ensures
        sql::marks(" AND "@) == 0,
{
    reveal_strlit(" AND ");
    reveal_with_fuel(sql::marks, 6);
}

/// A blank is no placeholder.
proof fn lemma_blank()
    ensures
        sql::marks(" "@) == 0,
{
    reveal_strlit(" ");
    reveal_with_fuel(sql::marks, 2);
}

/// A value has one placeholder.
proof fn lemma_value()
    ensures
        sql::marks(" ?"@) == 1,
{
    reveal_strlit(" ?");
    reveal_with_fuel(sql::marks, 3);
}

/// A value has one placeholder.
proof fn lemma_closed_value()
    ensures
        sql::marks(" ?)"@) == 1,
{
    reveal_strlit(" ?)");
    reveal_with_fuel(sql::marks, 4);
}

/// The duration of a span has no placeholder.
proof fn lemma_span_duration()
    ensures
        sql::marks("((end_time - start_time) "@) == 0,
{
    reveal_strlit("((end_time - start_time) ");
    reveal_with_fuel(sql::marks, 26);
}

/// A path into the attributes has no placeholder.
proof fn lemma_attribute_path()
    ensures
        sql::marks("json_extract(attributes, '"@) == 0,
{
    reveal_strlit("json_extract(attributes, '");
    reveal_with_fuel(sql::marks, 27);
}

/// A path into the resource has no placeholder.
proof fn lemma_resource_path()
    ensures
        sql::marks("json_extract(resource, '$.attributes"@) == 0,
{
    reveal_strlit("json_extract(resource, '$.attributes");
    reveal_strlit("json_extract(resource, '$.");
    reveal_strlit("attributes");
    assert("json_extract(resource, '$.attributes"@ =~= "json_extract(resource, '$."@ + "attributes"@);
    sql::lemma_marks_concat("json_extract(resource, '$."@, "attributes"@);
    reveal_with_fuel(sql::marks, 27);
    assert(sql::marks("json_extract(resource, '$."@) == 0);
    assert(sql::marks("attributes"@) == 0);
}

/// The end of a path is no placeholder.
proof fn lemma_path_end()
    ensures
        sql::marks("')"@) == 0,
{
    reveal_strlit("')");
    reveal_with_fuel(sql::marks, 3);
}

/// The start of a key is no placeholder.
proof fn lemma_key_start()
    ensures
        sql::marks("$.\""@) == 0,
{
    reveal_strlit("$.\"");
    reveal_with_fuel(sql::marks, 4);
}

/// The start of a key is no placeholder.
proof fn lemma_step_start()
    ensures
        sql::marks(".\""@) == 0,
{
    reveal_strlit(".\"");
    reveal_with_fuel(sql::marks, 3);
}

/// The end of a key is no placeholder.
proof fn lemma_key_end()
    ensures
        sql::marks("\""@) == 0,
{
    reveal_strlit("\"");
    reveal_with_fuel(sql::marks, 2);
}

/// A column is no placeholder.
proof fn lemma_severity_column()
    ensures
        sql::marks("severity_number"@) == 0,
{
    reveal_strlit("severity_number");
    reveal_with_fuel(sql::marks, 16);
}

/// The listing of traces begins without a placeholder.
proof fn lemma_fetch_start()
    ensures
        sql::marks("SELECT * FROM spans WHERE trace_id IN ("@) == 0,
{
    reveal_strlit("SELECT * FROM spans WHERE trace_id IN (");
    reveal_strlit("SELECT * FROM spans WHERE ");
    reveal_strlit("trace_id IN (");
    assert("SELECT * FROM spans WHERE trace_id IN ("@ =~= "SELECT * FROM spans WHERE "@ + "trace_id IN ("@);
    sql::lemma_marks_concat("SELECT * FROM spans WHERE "@, "trace_id IN ("@);
    reveal_with_fuel(sql::marks, 27);
    assert(sql::marks("SELECT * FROM spans WHERE "@) == 0);
    assert(sql::marks("trace_id IN ("@) == 0);
}

/// The listing of traces ends without a placeholder.
proof fn lemma_fetch_end()
    ensures
        sql::marks(") ORDER BY start_time DESC"@) == 0,
{
    reveal_strlit(") ORDER BY start_time DESC");
    reveal_with_fuel(sql::marks, 27);
}

/// A placeholder counts once.
proof fn lemma_mark()
    ensures
        sql::marks("?"@) == 1,
{
    reveal_strlit("?");
    reveal_with_fuel(sql::marks, 2);
}

/// A comma is no placeholder.
proof fn lemma_comma()
    ensures
        sql::marks(", "@) == 0,
{
    reveal_strlit(", ");
    reveal_with_fuel(sql::marks, 3);
}

/// The session of a record has no placeholder.
proof fn lemma_session_expr()
    ensures
        sql::marks(filter::SESSION_EXPR@) == 0,
{
    reveal_strlit("CASE WHEN json_valid(attributes) THEN json_extract(attributes, '$.\"session.id\"') END");
    reveal_strlit("CASE WHEN json_valid(attri");
    reveal_strlit("butes) THEN json_extract(a");
    reveal_strlit("ttributes, '$.\"session.id\"");
    reveal_strlit("') END");
    assert("CASE WHEN json_valid(attributes) THEN json_extract(attributes, '$.\"session.id\"') END"@ =~= "CASE WHEN json_valid(attri"@ + "butes) THEN json_extract(a"@ + "ttributes, '$.\"session.id\""@ + "') END"@);
    sql::lemma_marks_concat("CASE WHEN json_valid(attri"@, "butes) THEN json_extract(a"@);
    sql::lemma_marks_concat("CASE WHEN json_valid(attri"@ + "butes) THEN json_extract(a"@, "ttributes, '$.\"session.id\""@);
    sql::lemma_marks_concat("CASE WHEN json_valid(attri"@ + "butes) THEN json_extract(a"@ + "ttributes, '$.\"session.id\""@, "') END"@);
    reveal_with_fuel(sql::marks, 27);
    assert(sql::marks("CASE WHEN json_valid(attri"@) == 0);
    assert(sql::marks("butes) THEN json_extract(a"@) == 0);
    assert(sql::marks("ttributes, '$.\"session.id\""@) == 0);
    assert(sql::marks("') END"@) == 0);
}

/// The condition of the session index has no placeholder.
proof fn lemma_session_index()
    ensures
        sql::marks(filter::SESSION_INDEX_PREDICATE@) == 0,
{
    reveal_strlit("json_valid(attributes) AND json_extract(attributes, '$.\"session.id\"') IS NOT NULL");
    reveal_strlit("json_valid(attributes) AND");
    reveal_strlit(" json_extract(attributes, ");
    reveal_strlit("'$.\"session.id\"') IS NOT N");
    reveal_strlit("ULL");
    assert("json_valid(attributes) AND json_extract(attributes, '$.\"session.id\"') IS NOT NULL"@ =~= "json_valid(attributes) AND"@ + " json_extract(attributes, "@ + "'$.\"session.id\"') IS NOT N"@ + "ULL"@);
    sql::lemma_marks_concat("json_valid(attributes) AND"@, " json_extract(attributes, "@);
    sql::lemma_marks_concat("json_valid(attributes) AND"@ + " json_extract(attributes, "@, "'$.\"session.id\"') IS NOT N"@);
    sql::lemma_marks_concat("json_valid(attributes) AND"@ + " json_extract(attributes, "@ + "'$.\"session.id\"') IS NOT N"@, "ULL"@);
    reveal_with_fuel(sql::marks, 27);
    assert(sql::marks("json_valid(attributes) AND"@) == 0);
    assert(sql::marks(" json_extract(attributes, "@) == 0);
    assert(sql::marks("'$.\"session.id\"') IS NOT N"@) == 0);
    assert(sql::marks("ULL"@) == 0);
}

/// The listing of the newest points begins without a placeholder.
proof fn lemma_latest_start()
    ensures
        sql::marks(listing::LATEST_METRICS@) == 0,
{
    reveal_strlit("SELECT m.* FROM metrics m JOIN (SELECT name AS g_name, MAX(timestamp) AS g_ts FROM metrics GROUP BY name) g ON g.g_name = m.name AND g.g_ts = m.timestamp WHERE 1=1");
    reveal_strlit("SELECT m.* FROM metrics m ");
    reveal_strlit("JOIN (SELECT name AS g_nam");
    reveal_strlit("e, MAX(timestamp) AS g_ts ");
    reveal_strlit("FROM metrics GROUP BY name");
    reveal_strlit(") g ON g.g_name = m.name A");
    reveal_strlit("ND g.g_ts = m.timestamp WH");
    reveal_strlit("ERE 1=1");
    assert("SELECT m.* FROM metrics m JOIN (SELECT name AS g_name, MAX(timestamp) AS g_ts FROM metrics GROUP BY name) g ON g.g_name = m.name AND g.g_ts = m.timestamp WHERE 1=1"@ =~= "SELECT m.* FROM metrics m "@ + "JOIN (SELECT name AS g_nam"@ + "e, MAX(timestamp) AS g_ts "@ + "FROM metrics GROUP BY name"@ + ") g ON g.g_name = m.name A"@ + "ND g.g_ts = m.timestamp WH"@ + "ERE 1=1"@);
    sql::lemma_marks_concat("SELECT m.* FROM metrics m "@, "JOIN (SELECT name AS g_nam"@);
    sql::lemma_marks_concat("SELECT m.* FROM metrics m "@ + "JOIN (SELECT name AS g_nam"@, "e, MAX(timestamp) AS g_ts "@);
    sql::lemma_marks_concat("SELECT m.* FROM metrics m "@ + "JOIN (SELECT name AS g_nam"@ + "e, MAX(timestamp) AS g_ts "@, "FROM metrics GROUP BY name"@);
    sql::lemma_marks_concat("SELECT m.* FROM metrics m "@ + "JOIN (SELECT name AS g_nam"@ + "e, MAX(timestamp) AS g_ts "@ + "FROM metrics GROUP BY name"@, ") g ON g.g_name = m.name A"@);
    sql::lemma_marks_concat("SELECT m.* FROM metrics m "@ + "JOIN (SELECT name AS g_nam"@ + "e, MAX(timestamp) AS g_ts "@ + "FROM metrics GROUP BY name"@ + ") g ON g.g_name = m.name A"@, "ND g.g_ts = m.timestamp WH"@);
    sql::lemma_marks_concat("SELECT m.* FROM metrics m "@ + "JOIN (SELECT name AS g_nam"@ + "e, MAX(timestamp) AS g_ts "@ + "FROM metrics GROUP BY name"@ + ") g ON g.g_name = m.name A"@ + "ND g.g_ts = m.timestamp WH"@, "ERE 1=1"@);
    reveal_with_fuel(sql::marks, 27);
    assert(sql::marks("SELECT m.* FROM metrics m "@) == 0);
    assert(sql::marks("JOIN (SELECT name AS g_nam"@) == 0);
    assert(sql::marks("e, MAX(timestamp) AS g_ts "@) == 0);
    assert(sql::marks("FROM metrics GROUP BY name"@) == 0);
    assert(sql::marks(") g ON g.g_name = m.name A"@) == 0);
    assert(sql::marks("ND g.g_ts = m.timestamp WH"@) == 0);
    assert(sql::marks("ERE 1=1"@) == 0);
}

/// No operator is a placeholder.
proof fn lemma_operator(operator: Operator)
    ensures
        sql::marks(filter::operator_text(operator)) == 0,
{
    reveal_strlit("=");
    reveal_strlit("!=");
    reveal_strlit(">");
    reveal_strlit("<");
    reveal_strlit(">=");
    reveal_strlit("<=");
    reveal_strlit("LIKE");
    reveal_with_fuel(sql::marks, 5);
}

/// A key without a question mark gives a path without a placeholder.
proof fn lemma_keys(key: Seq<char>)
    requires
        !key.contains('?'),
    ensures
        sql::marks("json_extract(attributes, '"@ + filter::path_text(key) + "')"@) == 0,
        sql::marks("json_extract(resource, '$.attributes"@ + filter::accessor_text(key) + "')"@) == 0,
{
    sql::lemma_no_marks(key);
    lemma_attribute_path();
    lemma_resource_path();
    lemma_path_end();
    lemma_key_start();
    lemma_step_start();
    lemma_key_end();
    sql::lemma_marks_concat("$.\""@, key);
    sql::lemma_marks_concat("$.\""@ + key, "\""@);
    sql::lemma_marks_concat(".\""@, key);
    sql::lemma_marks_concat(".\""@ + key, "\""@);
    sql::lemma_marks_concat("json_extract(attributes, '"@, filter::path_text(key));
    sql::lemma_marks_concat("json_extract(attributes, '"@ + filter::path_text(key), "')"@);
    sql::lemma_marks_concat("json_extract(resource, '$.attributes"@, filter::accessor_text(key));
    sql::lemma_marks_concat("json_extract(resource, '$.attributes"@ + filter::accessor_text(key), "')"@);
}

/// A field without a question mark gives an expression without a placeholder.
proof fn lemma_field(signal: Seq<char>, field: Seq<char>)
    requires
        !field.contains('?'),
    ensures
        sql::marks(filter::field_text(signal, field)) == 0,
{
    sql::lemma_no_marks(field);
    lemma_severity_column();
    lemma_session_expr();
    lemma_keys(field);
    if "attributes."@.is_prefix_of(field) {
        let key = field.skip("attributes."@.len() as int);
        lemma_suffix(field, "attributes."@.len() as int);
        lemma_keys(key);
    }
    if "resource."@.is_prefix_of(field) {
        let key = field.skip("resource."@.len() as int);
        lemma_suffix(field, "resource."@.len() as int);
        lemma_keys(key);
    }
}

/// A suffix of a text without a question mark has none.
proof fn lemma_suffix(s: Seq<char>, n: int)
    requires
        !s.contains('?'),
        0 <= n <= s.len(),
    ensures
        !s.skip(n).contains('?'),
{
    assert forall|i: int| 0 <= i < s.skip(n).len() implies s.skip(n)[i] != '?' by {
        assert(s.contains(s[n + i]));
    }
}

/// The clause of a predicate holds one placeholder.
pub proof fn clauses_bind_once(signal: Seq<char>, p: QueryPredicate)
    requires
        !p.field@.contains('?'),
    ensures
        sql::marks(filter::clause_text(signal, p)) == 1,
{
    let operator = filter::operator_text(p.operator);
    let field = filter::field_text(signal, p.field@);
    lemma_operator(p.operator);
    lemma_field(signal, p.field@);
    lemma_span_duration();
    lemma_closed_value();
    lemma_blank();
    lemma_value();
    lemma_and();
    lemma_session_index();
    sql::lemma_marks_concat("((end_time - start_time) "@, operator);
    sql::lemma_marks_concat("((end_time - start_time) "@ + operator, " ?)"@);
    sql::lemma_marks_concat(field, " "@);
    sql::lemma_marks_concat(field + " "@, operator);
    sql::lemma_marks_concat(field + " "@ + operator, " ?"@);
    let condition = filter::condition(signal, p);
    sql::lemma_marks_concat(condition, " AND "@);
    sql::lemma_marks_concat(condition + " AND "@, filter::SESSION_INDEX_PREDICATE@);
}

/// No field of the predicates holds a question mark.
pub open spec fn plain_fields(predicates: Seq<QueryPredicate>) -> bool {
    forall|i: int| 0 <= i < predicates.len() ==> !(#[trigger] predicates[i]).field@.contains('?')
}

/// Predicates keep a statement balanced.
proof fn lemma_narrowed(query: Query, signal: Seq<char>, predicates: Seq<QueryPredicate>)
    requires
        sql::balanced(query),
        plain_fields(predicates),
    ensures
        filter::narrowed(query, signal, predicates) matches Ok(q) ==> sql::balanced(q),
    decreases predicates.len(),
{
    if predicates.len() > 0 {
        let p = predicates[0];
        if let Some(value) = filter::predicate_bind(signal, p) {
            let clause = " AND "@ + filter::clause_text(signal, p);
            clauses_bind_once(signal, p);
            lemma_and();
            sql::lemma_marks_concat(" AND "@, filter::clause_text(signal, p));
            sql::lemma_clause(query, clause, value);
            assert(plain_fields(predicates.skip(1))) by {
                assert forall|i: int| 0 <= i < predicates.skip(1).len() implies !(#[trigger] predicates.skip(
                    1,
                )[i]).field@.contains('?') by {
                    assert(predicates.skip(1)[i] == predicates[i + 1]);
                }
            }
            lemma_narrowed(query.plus(clause).with(value), signal, predicates.skip(1));
        }
    }
}

/// A clause on a number that may be absent keeps a statement balanced.
proof fn lemma_when_integer(query: Query, value: Option<i64>, clause: Seq<char>)
    requires
        sql::balanced(query),
        sql::marks(clause) == 1,
    ensures
        sql::balanced(query.when_integer(value, clause)),
{
    if let Some(n) = value {
        sql::lemma_clause(query, clause, Bind::Integer(n));
    }
}

/// A clause on a text that may be absent keeps a statement balanced.
proof fn lemma_when_text(query: Query, value: Option<Seq<char>>, clause: Seq<char>)
    requires
        sql::balanced(query),
        sql::marks(clause) == 1,
    ensures
        sql::balanced(query.when_text(value, clause)),
{
    if let Some(t) = value {
        sql::lemma_clause(query, clause, Bind::Text(t));
    }
}

/// Order and limit keep a statement balanced.
proof fn lemma_ordered(
    query: Query,
    signal: Seq<char>,
    predicates: Seq<QueryPredicate>,
    order: Seq<char>,
    limit: Option<usize>,
)
    requires
        sql::balanced(query),
        plain_fields(predicates),
        sql::marks(order) == 0,
    ensures
        listing::ordered(query, signal, predicates, order, limit) matches Ok(q) ==> sql::balanced(q),
{
    lemma_narrowed(query, signal, predicates);
    lemma_limit_clause();
    if let Ok(q) = filter::narrowed(query, signal, predicates) {
        sql::lemma_plain_text(q, order);
        lemma_when_integer(q.plus(order), listing::limit_number(limit), " LIMIT ?"@);
    }
}

/// A window keeps a statement balanced.
proof fn lemma_window(query: Query, start: Option<i64>, end: Option<i64>)
    requires
        sql::balanced(query),
    ensures
        sql::balanced(listing::in_window(query, start, end)),
{
    lemma_from_time();
    lemma_to_time();
    lemma_when_integer(query, start, " AND timestamp >= ?"@);
    lemma_when_integer(query.when_integer(start, " AND timestamp >= ?"@), end, " AND timestamp <= ?"@);
}

/// A window on spans keeps a statement balanced.
pub proof fn span_windows_bind(query: Query, start: Option<i64>, end: Option<i64>)
    requires
        sql::balanced(query),
    ensures
        sql::balanced(listing::in_span_window(query, start, end)),
{
    lemma_from_start();
    lemma_to_end();
    lemma_when_integer(query, start, " AND start_time >= ?"@);
    lemma_when_integer(query.when_integer(start, " AND start_time >= ?"@), end, " AND end_time <= ?"@);
}

/// The listing of logs has as many placeholders as values, unless a field holds a question mark.
pub proof fn logs_are_balanced(params: QueryParams)
    requires
        plain_fields(params.predicates@),
    ensures
        listing::logs_query(params) matches Ok(q) ==> sql::balanced(q),
{
    lemma_logs_start();
    lemma_trace_clause();
    lemma_span_clause();
    lemma_severity_clause();
    lemma_search_clause();
    lemma_by_time();
    let q0 = listing::begin("SELECT * FROM logs WHERE 1=1"@);
    lemma_window(q0, params.start_time, params.end_time);
    let q1 = listing::in_window(q0, params.start_time, params.end_time);
    lemma_when_text(q1, text::optional(params.trace_id), " AND trace_id = ?"@);
    let q2 = q1.when_text(text::optional(params.trace_id), " AND trace_id = ?"@);
    lemma_when_text(q2, text::optional(params.span_id), " AND span_id = ?"@);
    let q3 = q2.when_text(text::optional(params.span_id), " AND span_id = ?"@);
    let severity = listing::severity_number(params.min_severity);
    lemma_when_integer(q3, severity, " AND severity_number >= ?"@);
    let q4 = q3.when_integer(severity, " AND severity_number >= ?"@);
    let search = " AND id IN (SELECT rowid FROM logs_fts WHERE body MATCH ?)"@;
    lemma_when_text(q4, text::optional(params.search_text), search);
    lemma_ordered(
        q4.when_text(text::optional(params.search_text), search),
        "logs"@,
        params.predicates@,
        " ORDER BY timestamp DESC"@,
        params.limit,
    );
}

/// The listing of spans has as many placeholders as values, unless a field holds a question mark.
pub proof fn spans_are_balanced(params: QueryParams)
    requires
        plain_fields(params.predicates@),
    ensures
        listing::spans_query(params) matches Ok(q) ==> sql::balanced(q),
{
    lemma_spans_start();
    lemma_trace_clause();
    lemma_by_start();
    let q0 = listing::begin("SELECT * FROM spans WHERE 1=1"@);
    span_windows_bind(q0, params.start_time, params.end_time);
    let q1 = listing::in_span_window(q0, params.start_time, params.end_time);
    lemma_when_text(q1, text::optional(params.trace_id), " AND trace_id = ?"@);
    lemma_ordered(
        q1.when_text(text::optional(params.trace_id), " AND trace_id = ?"@),
        "spans"@,
        params.predicates@,
        " ORDER BY start_time DESC"@,
        params.limit,
    );
}

/// The listings of metrics have as many placeholders as values, unless a field holds a question mark.
pub proof fn metrics_are_balanced(params: QueryParams)
    requires
        plain_fields(params.predicates@),
    ensures
        listing::metrics_query(params) matches Ok(q) ==> sql::balanced(q),
        listing::latest_metrics_query(params) matches Ok(q) ==> sql::balanced(q),
{
    lemma_metrics_start();
    lemma_latest_start();
    lemma_by_time();
    lemma_by_name();
    let q0 = listing::begin("SELECT * FROM metrics WHERE 1=1"@);
    lemma_window(q0, params.start_time, params.end_time);
    lemma_ordered(
        listing::in_window(q0, params.start_time, params.end_time),
        "metrics"@,
        params.predicates@,
        " ORDER BY timestamp DESC"@,
        params.limit,
    );
    let l0 = listing::begin(listing::LATEST_METRICS@);
    lemma_window(l0, params.start_time, params.end_time);
    lemma_ordered(
        listing::in_window(l0, params.start_time, params.end_time),
        "metrics"@,
        params.predicates@,
        " ORDER BY name ASC"@,
        params.limit,
    );
}

/// Joined placeholders count one each.
proof fn lemma_placeholders(n: nat)
    ensures
        sql::marks(layout::joined(listing::placeholders(n), ", "@)) == n,
    decreases n,
{
    lemma_mark();
    lemma_comma();
    if n == 0 {
        assert(listing::placeholders(0).len() == 0);
    } else if n > 1 {
        let rest = listing::placeholders((n - 1) as nat);
        assert(listing::placeholders(n).drop_last() =~= rest);
        lemma_placeholders((n - 1) as nat);
        sql::lemma_marks_concat(layout::joined(rest, ", "@), ", "@);
        sql::lemma_marks_concat(layout::joined(rest, ", "@) + ", "@, "?"@);
    }
}

/// The statements that find traces have as many placeholders as values, unless a field holds a question
/// mark.
pub proof fn trace_searches_are_balanced(
    trace_id: Seq<char>,
    traces: Seq<Seq<char>>,
    start: Option<i64>,
    end: Option<i64>,
    predicates: Seq<QueryPredicate>,
)
    requires
        plain_fields(predicates),
    ensures
        listing::trace_check(trace_id, start, end, predicates) matches Ok(q) ==> sql::balanced(q),
        listing::trace_scan(start, end, predicates) matches Ok(q) ==> sql::balanced(q),
        sql::balanced(listing::trace_fetch(traces)),
{
    lemma_check_start();
    lemma_check_end();
    lemma_scan_start();
    lemma_by_start();
    let check = listing::begin("SELECT 1 FROM spans WHERE trace_id = ?"@).with(Bind::Text(trace_id));
    span_windows_bind(check, start, end);
    lemma_narrowed(listing::in_span_window(check, start, end), "spans"@, predicates);
    if let Ok(q) = filter::narrowed(listing::in_span_window(check, start, end), "spans"@, predicates) {
        sql::lemma_plain_text(q, " LIMIT 1"@);
    }
    let scan = listing::begin("SELECT trace_id FROM spans WHERE 1=1"@);
    span_windows_bind(scan, start, end);
    lemma_narrowed(listing::in_span_window(scan, start, end), "spans"@, predicates);
    if let Ok(q) = filter::narrowed(listing::in_span_window(scan, start, end), "spans"@, predicates) {
        sql::lemma_plain_text(q, " ORDER BY start_time DESC"@);
    }
    lemma_fetch_start();
    lemma_fetch_end();
    lemma_placeholders(traces.len());
    let open = "SELECT * FROM spans WHERE trace_id IN ("@;
    let inside = layout::joined(listing::placeholders(traces.len()), ", "@);
    sql::lemma_marks_concat(open, inside);
    sql::lemma_marks_concat(open + inside, ") ORDER BY start_time DESC"@);
}

} // verus!

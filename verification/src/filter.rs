//! Structured predicates and the SQL they stand for.
use crate::error::StorageError;
use crate::sql;
use crate::sql::{Bind, Query, SqlValue, Statement};
use crate::text;
use vstd::prelude::*;

verus! {

/// How a predicate compares.
#[derive(Clone, Copy)]
pub enum Operator {
    Equal,
    NotEqual,
    GreaterThan,
    LessThan,
    GreaterThanOrEqual,
    LessThanOrEqual,
    Contains,
}

/// What a predicate compares with.
pub enum QueryValue {
    String(String),
    /// A floating-point number, by its bits.
    Number(u64),
    /// A duration in nanoseconds.
    Duration(u64),
}

/// A condition on a field.
pub struct QueryPredicate {
    pub field: String,
    pub operator: Operator,
    pub value: QueryValue,
}

/// The SQL operator of a comparison.
pub open spec fn operator_text(operator: Operator) -> Seq<char> {
    match operator {
        Operator::Equal => "="@,
        Operator::NotEqual => "!="@,
        Operator::GreaterThan => ">"@,
        Operator::LessThan => "<"@,
        Operator::GreaterThanOrEqual => ">="@,
        Operator::LessThanOrEqual => "<="@,
        Operator::Contains => "LIKE"@,
    }
}

/// Names the SQL operator of a comparison.
pub fn sql_operator(operator: &Operator) -> (s: &'static str)
    ensures
        s@ == operator_text(*operator),
{
    match operator {
        Operator::Equal => "=",
        Operator::NotEqual => "!=",
        Operator::GreaterThan => ">",
        Operator::LessThan => "<",
        Operator::GreaterThanOrEqual => ">=",
        Operator::LessThanOrEqual => "<=",
        Operator::Contains => "LIKE",
    }
}

/// The JSON path of a key.
pub open spec fn path_text(field: Seq<char>) -> Seq<char> {
    "$.\""@ + field + "\""@
}

/// The JSON path of a key, which may hold dots.
pub fn json_path_for_key(field: &str) -> (s: String)
    ensures
        s@ == path_text(field@),
{
    let mut s = "$.\"".to_owned();
    s.append(field);
    s.append("\"");
    s
}

/// The JSON path step to a key.
pub open spec fn accessor_text(field: Seq<char>) -> Seq<char> {
    ".\""@ + field + "\""@
}

/// The JSON path step to a key, which may hold dots.
pub fn json_key_accessor(field: &str) -> (s: String)
    ensures
        s@ == accessor_text(field@),
{
    let mut s = ".\"".to_owned();
    s.append(field);
    s.append("\"");
    s
}

/// The field is a column of the signal's table under its own name.
pub open spec fn is_column(signal: Seq<char>, field: Seq<char>) -> bool {
    if signal == "logs"@ {
        field == "timestamp"@ || field == "trace_id"@ || field == "span_id"@ || field == "severity_number"@
            || field == "body"@
    } else if signal == "spans"@ {
        field == "trace_id"@ || field == "span_id"@ || field == "parent_span_id"@ || field == "name"@
            || field == "kind"@ || field == "start_time"@ || field == "end_time"@
    } else {
        signal == "metrics"@ && (field == "name"@ || field == "description"@ || field == "unit"@ || field
            == "timestamp"@)
    }
}

/// The column of a field that has one. The severity of a log is its number.
pub open spec fn column_of(signal: Seq<char>, field: Seq<char>) -> Option<Seq<char>> {
    if is_column(signal, field) {
        Some(field)
    } else if signal == "logs"@ && field == "severity"@ {
        Some("severity_number"@)
    } else {
        None
    }
}

/// The session that a record belongs to; none where its attributes cannot be read.
pub const SESSION_EXPR: &'static str =
    "CASE WHEN json_valid(attributes) THEN json_extract(attributes, '$.\"session.id\"') END";

/// The condition under which the session index holds a record.
pub const SESSION_INDEX_PREDICATE: &'static str =
    "json_valid(attributes) AND json_extract(attributes, '$.\"session.id\"') IS NOT NULL";

/// The text behind a prefix.
pub open spec fn behind(s: Seq<char>, prefix: Seq<char>) -> Option<Seq<char>> {
    if prefix.is_prefix_of(s) {
        Some(s.skip(prefix.len() as int))
    } else {
        None
    }
}

fn strip<'a>(s: &'a str, prefix: &str) -> (rest: Option<&'a str>)
    ensures
        match rest {
            Some(r) => behind(s@, prefix@) == Some(r@),
            None => behind(s@, prefix@) is None,
        },
{
    if text::has_prefix(s, prefix) {
        let rest = s.substring_char(prefix.unicode_len(), s.unicode_len());
        proof {
            assert(rest@ =~= s@.skip(prefix@.len() as int));
        }
        Some(rest)
    } else {
        None
    }
}

/// The field names the session, with or without the prefix of attributes.
pub open spec fn is_session_field(field: Seq<char>) -> bool {
    field == "session.id"@ || behind(field, "attributes."@) == Some("session.id"@)
}

/// The SQL expression of a field: its column, the session, or a path into the resource or into the
/// attributes.
pub open spec fn field_text(signal: Seq<char>, field: Seq<char>) -> Seq<char> {
    match column_of(signal, field) {
        Some(column) => column,
        None => if is_session_field(field) {
            SESSION_EXPR@
        } else {
            match (behind(field, "attributes."@), behind(field, "resource."@)) {
                (Some(key), _) => "json_extract(attributes, '"@ + path_text(key) + "')"@,
                (None, Some(key)) => "json_extract(resource, '$.attributes"@ + accessor_text(key) + "')"@,
                (None, None) => "json_extract(attributes, '"@ + path_text(field) + "')"@,
            }
        },
    }
}

fn has_column(signal: &str, field: &str) -> (r: bool)
    ensures
        r == is_column(signal@, field@),
{
    if text::same_text(signal, "logs") {
        text::same_text(field, "timestamp") || text::same_text(field, "trace_id") || text::same_text(
            field,
            "span_id",
        ) || text::same_text(field, "severity_number") || text::same_text(field, "body")
    } else if text::same_text(signal, "spans") {
        text::same_text(field, "trace_id") || text::same_text(field, "span_id") || text::same_text(
            field,
            "parent_span_id",
        ) || text::same_text(field, "name") || text::same_text(field, "kind") || text::same_text(
            field,
            "start_time",
        ) || text::same_text(field, "end_time")
    } else {
        text::same_text(signal, "metrics") && (text::same_text(field, "name") || text::same_text(
            field,
            "description",
        ) || text::same_text(field, "unit") || text::same_text(field, "timestamp"))
    }
}

fn attribute_path(key: &str) -> (s: String)
    ensures
        s@ == "json_extract(attributes, '"@ + path_text(key@) + "')"@,
{
    let mut s = "json_extract(attributes, '".to_owned();
    s.append(json_path_for_key(key).as_str());
    s.append("')");
    s
}

/// The session's key and prefixed key begin with neither prefix of another.
proof fn lemma_session_field()
    ensures
        behind("session.id"@, "attributes."@) is None,
        behind("session.id"@, "resource."@) is None,
{
    reveal_strlit("session.id");
    reveal_strlit("attributes.");
    reveal_strlit("resource.");
    assert("session.id"@[0] == 's');
    assert("attributes."@[0] == 'a');
    assert("resource."@[0] == 'r');
}

/// Translates a field of a signal into an SQL expression. Every field has one.
pub fn field_to_sql(signal_type: &str, field: &str) -> (r: Result<String, StorageError>)
    ensures
        r matches Ok(s) && s@ == field_text(signal_type@, field@),
{
    proof {
        lemma_session_field();
    }
    if has_column(signal_type, field) {
        return Ok(field.to_owned());
    }
    if text::same_text(signal_type, "logs") && text::same_text(field, "severity") {
        return Ok("severity_number".to_owned());
    }
    if let Some(key) = strip(field, "attributes.") {
        if text::same_text(key, "session.id") {
            return Ok(SESSION_EXPR.to_owned());
        }
        return Ok(attribute_path(key));
    }
    if let Some(key) = strip(field, "resource.") {
        let mut s = "json_extract(resource, '$.attributes".to_owned();
        s.append(json_key_accessor(key).as_str());
        s.append("')");
        return Ok(s);
    }
    if text::same_text(field, "session.id") {
        return Ok(SESSION_EXPR.to_owned());
    }
    Ok(attribute_path(field))
}

/// The predicate is on the duration of a span.
pub open spec fn on_duration(signal: Seq<char>, p: QueryPredicate) -> bool {
    signal == "spans"@ && p.field@ == "duration"@
}

/// The value that a predicate binds, where the predicate is acceptable: the duration of a span is
/// compared with a duration, and only a text can be contained.
pub open spec fn predicate_bind(signal: Seq<char>, p: QueryPredicate) -> Option<Bind> {
    if on_duration(signal, p) {
        match p.value {
            QueryValue::Duration(nanos) => Some(Bind::Integer(nanos as i64)),
            _ => None,
        }
    } else if p.operator is Contains {
        match p.value {
            QueryValue::String(part) => Some(Bind::Text("%"@ + part@ + "%"@)),
            _ => None,
        }
    } else {
        match p.value {
            QueryValue::String(t) => Some(Bind::Text(t@)),
            QueryValue::Number(bits) => Some(Bind::Number(bits)),
            QueryValue::Duration(nanos) => Some(Bind::Integer(nanos as i64)),
        }
    }
}

/// The condition of a predicate, with one placeholder.
pub open spec fn condition(signal: Seq<char>, p: QueryPredicate) -> Seq<char> {
    if on_duration(signal, p) {
        "((end_time - start_time) "@ + operator_text(p.operator) + " ?)"@
    } else {
        field_text(signal, p.field@) + " "@ + operator_text(p.operator) + " ?"@
    }
}

/// The clause of a predicate. One on the session repeats the condition of the session index, which
/// makes that index usable.
pub open spec fn clause_text(signal: Seq<char>, p: QueryPredicate) -> Seq<char> {
    if is_session_field(p.field@) {
        condition(signal, p) + " AND "@ + SESSION_INDEX_PREDICATE@
    } else {
        condition(signal, p)
    }
}

/// Why a predicate is refused.
pub open spec fn predicate_refusal(signal: Seq<char>, p: QueryPredicate) -> Seq<char> {
    if on_duration(signal, p) {
        "Structured query field 'duration' for spans requires a duration value like 500ms"@
    } else {
        "Structured query operator 'contains' for field '"@ + p.field@ + "' requires a quoted string value"@
    }
}

fn value_to_bind(value: &QueryValue) -> (v: SqlValue)
    ensures
        v.bind() == match *value {
            QueryValue::String(t) => Bind::Text(t@),
            QueryValue::Number(bits) => Bind::Number(bits),
            QueryValue::Duration(nanos) => Bind::Integer(nanos as i64),
        },
{
    match value {
        QueryValue::String(t) => SqlValue::Text(t.clone()),
        QueryValue::Number(bits) => SqlValue::Number(*bits),
        QueryValue::Duration(nanos) => SqlValue::Integer(#[verifier::truncate] (*nanos as i64)),
    }
}

fn is_contains(operator: &Operator) -> (r: bool)
    ensures
        r == (*operator is Contains),
{
    match operator {
        Operator::Contains => true,
        _ => false,
    }
}

/// The value that a predicate binds, or why the predicate is refused.
fn predicate_value(signal_type: &str, p: &QueryPredicate) -> (r: Result<SqlValue, StorageError>)
    ensures
        match r {
            Ok(v) => predicate_bind(signal_type@, *p) == Some(v.bind()),
            Err(StorageError::QueryError(m)) => predicate_bind(signal_type@, *p) is None && m@
                == predicate_refusal(signal_type@, *p),
            Err(_) => false,
        },
{
    if text::same_text(signal_type, "spans") && text::same_text(p.field.as_str(), "duration") {
        match &p.value {
            QueryValue::Duration(_) => Ok(value_to_bind(&p.value)),
            _ => Err(
                StorageError::QueryError(
                    "Structured query field 'duration' for spans requires a duration value like 500ms".to_owned(),
                ),
            ),
        }
    } else if is_contains(&p.operator) {
        match &p.value {
            QueryValue::String(part) => {
                let mut pattern = "%".to_owned();
                pattern.append(part.as_str());
                pattern.append("%");
                Ok(SqlValue::Text(pattern))
            },
            _ => {
                let mut m = "Structured query operator 'contains' for field '".to_owned();
                m.append(p.field.as_str());
                m.append("' requires a quoted string value");
                Err(StorageError::QueryError(m))
            },
        }
    } else {
        Ok(value_to_bind(&p.value))
    }
}

/// Translates a predicate on a signal into a clause, and binds its value. A predicate that is not
/// acceptable is refused, and then nothing is bound.
pub fn predicate_to_sql(signal_type: &str, predicate: &QueryPredicate, values: &mut Vec<SqlValue>) -> (r:
    Result<String, StorageError>)
    ensures
        match r {
            Ok(s) => {
                &&& s@ == clause_text(signal_type@, *predicate)
                &&& predicate_bind(signal_type@, *predicate) is Some
                &&& sql::binds(final(values)@) == sql::binds(old(values)@).push(
                    predicate_bind(signal_type@, *predicate)->Some_0,
                )
            },
            Err(StorageError::QueryError(m)) => {
                &&& predicate_bind(signal_type@, *predicate) is None
                &&& m@ == predicate_refusal(signal_type@, *predicate)
                &&& *final(values) == *old(values)
            },
            Err(_) => false,
        },
{
    let value = match predicate_value(signal_type, predicate) {
        Ok(v) => v,
        Err(e) => {
            return Err(e);
        },
    };
    let ghost bound = value.bind();
    values.push(value);
    assert(sql::binds(values@) =~= sql::binds(old(values)@).push(bound));
    let operator = sql_operator(&predicate.operator);
    let field = predicate.field.as_str();
    let mut s = if text::same_text(signal_type, "spans") && text::same_text(field, "duration") {
        let mut s = "((end_time - start_time) ".to_owned();
        s.append(operator);
        s.append(" ?)");
        s
    } else {
        let mut s = match field_to_sql(signal_type, field) {
            Ok(s) => s,
            Err(e) => {
                return Err(e);
            },
        };
        s.append(" ");
        s.append(operator);
        s.append(" ?");
        s
    };
    let on_session: bool = text::same_text(field, "session.id") || match strip(field, "attributes.") {
        Some(key) => text::same_text(key, "session.id"),
        None => false,
    };
    if on_session {
        s.append(" AND ");
        s.append(SESSION_INDEX_PREDICATE);
    }
    Ok(s)
}

/// The statement narrowed by the predicates, or why one of them is refused; the first refusal counts.
pub open spec fn narrowed(query: Query, signal: Seq<char>, predicates: Seq<QueryPredicate>) -> Result<
    Query,
    Seq<char>,
>
    decreases predicates.len(),
{
    if predicates.len() == 0 {
        Ok(query)
    } else {
        let p = predicates[0];
        match predicate_bind(signal, p) {
            Some(value) => narrowed(
                query.plus(" AND "@ + clause_text(signal, p)).with(value),
                signal,
                predicates.skip(1),
            ),
            None => Err(predicate_refusal(signal, p)),
        }
    }
}

/// Narrows a statement by predicates.
pub fn append_predicates(signal_type: &str, predicates: &Vec<QueryPredicate>, statement: &mut Statement) -> (r:
    Result<(), StorageError>)
    ensures
        match r {
            Ok(()) => narrowed(old(statement)@, signal_type@, predicates@) == Ok::<Query, Seq<char>>(
                final(statement)@,
            ),
            Err(StorageError::QueryError(m)) => narrowed(old(statement)@, signal_type@, predicates@) == Err::<
                Query,
                Seq<char>,
            >(m@),
            Err(_) => false,
        },
{
    let ghost start = statement@;
    let mut i: usize = 0;
    assert(predicates@.skip(0) =~= predicates@);
    while i < predicates.len()
        invariant
            i <= predicates@.len(),
            start == old(statement)@,
            narrowed(start, signal_type@, predicates@) == narrowed(
                statement@,
                signal_type@,
                predicates@.skip(i as int),
            ),
        decreases predicates@.len() - i,
    {
        let ghost before = statement@;
        proof {
            assert(predicates@.skip(i as int)[0] == predicates@[i as int]);
            assert(predicates@.skip(i as int).skip(1) =~= predicates@.skip(i + 1));
        }
        match predicate_to_sql(signal_type, &predicates[i], &mut statement.values) {
            Ok(clause) => {
                statement.sql.append(" AND ");
                statement.sql.append(clause.as_str());
                assert(statement@.text =~= before.text + (" AND "@ + clause@));
            },
            Err(e) => {
                return Err(e);
            },
        }
        i = i + 1;
    }
    Ok(())
}

} // verus!

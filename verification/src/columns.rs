//! The columns that statements read, in the order in which their rows hold them.
use crate::analytics;
use crate::analytics::{ModelLabel, TokenExprs, Window};
use crate::calls;
use crate::filter;
use crate::layout;
use crate::listing;
use crate::series;
use crate::sources;
use crate::sql::Bind;
use crate::text;
use vstd::prelude::*;

verus! {

/// The beginning of a statement that reads these columns.
pub open spec fn select(columns: Seq<Seq<char>>) -> Seq<char> {
    "SELECT "@ + layout::joined(columns, ", "@)
}

/// The sum of an expression, zero where there is nothing to add up.
pub open spec fn sum_of(expression: Seq<char>) -> Seq<char> {
    "COALESCE(SUM("@ + expression + "), 0)"@
}

/// An expression, zero where it has no value.
pub open spec fn or_zero(expression: Seq<char>) -> Seq<char> {
    "COALESCE("@ + expression + ", 0)"@
}

/// The sum of an expression that has a value.
pub open spec fn total_of(expression: Seq<char>) -> Seq<char> {
    "SUM("@ + expression + ")"@
}

/// A column under a name.
pub open spec fn named(expression: Seq<char>, name: Seq<char>) -> Seq<char> {
    expression + " AS "@ + name
}

/// The cost series reads, for each bucket and model: the bucket, the model, the sums of the input, of the
/// output, of the tokens written to the cache and of those read from it, and the number of requests.
pub proof fn cost_series_columns(x: TokenExprs)
    ensures
        series::cost_columns_text(x) == select(
            seq![
                named("(start_time / ?) * ?"@, "bucket"@),
                named(x.model@, "model"@),
                sum_of(x.input@),
                sum_of(x.output@),
                sum_of(x.cache_creation@),
                sum_of(x.cache_read@),
                named("COUNT(*)"@, "requests"@),
            ],
        ) + " FROM spans WHERE "@ + x.llm_span_guard@,
{
    reveal_with_fuel(text::flat, 13);
    reveal_with_fuel(layout::joined, 8);
    reveal_strlit("SELECT (start_time / ?) * ? AS bucket, ");
    reveal_strlit("SELECT ");
    reveal_strlit("(start_time / ?) * ?");
    reveal_strlit(" AS ");
    reveal_strlit("bucket");
    reveal_strlit(", ");
    reveal_strlit(" AS model, COALESCE(SUM(");
    reveal_strlit("model");
    reveal_strlit("COALESCE(SUM(");
    reveal_strlit("), 0), COALESCE(SUM(");
    reveal_strlit("), 0)");
    reveal_strlit("), 0), COUNT(*) AS requests FROM spans WHERE ");
    reveal_strlit("COUNT(*)");
    reveal_strlit("requests");
    reveal_strlit(" FROM spans WHERE ");
    assert("SELECT (start_time / ?) * ? AS bucket, "@ =~= "SELECT "@ + "(start_time / ?) * ?"@ + " AS "@ + "bucket"@ + ", "@);
    assert(" AS model, COALESCE(SUM("@ =~= " AS "@ + "model"@ + ", "@ + "COALESCE(SUM("@);
    assert("), 0), COALESCE(SUM("@ =~= "), 0)"@ + ", "@ + "COALESCE(SUM("@);
    assert("), 0), COUNT(*) AS requests FROM spans WHERE "@ =~= "), 0)"@ + ", "@ + "COUNT(*)"@ + " AS "@ + "requests"@ + " FROM spans WHERE "@);
}

/// The summary of the tokens reads the sums of the input and of the output, the number of requests, and the
/// sums of the tokens written to the cache and of those read from it.
pub proof fn token_summary_columns(x: TokenExprs)
    ensures
        analytics::token_summary_columns_text(x) == select(
            seq![
                named(sum_of(x.input@), "total_input"@),
                named(sum_of(x.output@), "total_output"@),
                named("COUNT(*)"@, "total_requests"@),
                named(sum_of(x.cache_creation@), "cache_creation"@),
                named(sum_of(x.cache_read@), "cache_read"@),
            ],
        ),
{
    reveal_with_fuel(text::flat, 10);
    reveal_with_fuel(layout::joined, 6);
    reveal_strlit("SELECT COALESCE(SUM(");
    reveal_strlit("SELECT ");
    reveal_strlit("COALESCE(SUM(");
    reveal_strlit("), 0) AS total_input, COALESCE(SUM(");
    reveal_strlit("), 0)");
    reveal_strlit(" AS ");
    reveal_strlit("total_input");
    reveal_strlit(", ");
    reveal_strlit("), 0) AS total_output, COUNT(*) AS total_requests, COALESCE(SUM(");
    reveal_strlit("total_output");
    reveal_strlit("COUNT(*)");
    reveal_strlit("total_requests");
    reveal_strlit("), 0) AS cache_creation, COALESCE(SUM(");
    reveal_strlit("cache_creation");
    reveal_strlit("), 0) AS cache_read");
    reveal_strlit("cache_read");
    assert("SELECT COALESCE(SUM("@ =~= "SELECT "@ + "COALESCE(SUM("@);
    assert("), 0) AS total_input, COALESCE(SUM("@ =~= "), 0)"@ + " AS "@ + "total_input"@ + ", "@ + "COALESCE(SUM("@);
    assert("), 0) AS total_output, COUNT(*) AS total_requests, COALESCE(SUM("@ =~= "), 0)"@ + " AS "@ + "total_output"@ + ", "@ + "COUNT(*)"@ + " AS "@ + "total_requests"@ + ", "@ + "COALESCE(SUM("@);
    assert("), 0) AS cache_creation, COALESCE(SUM("@ =~= "), 0)"@ + " AS "@ + "cache_creation"@ + ", "@ + "COALESCE(SUM("@);
    assert("), 0) AS cache_read"@ =~= "), 0)"@ + " AS "@ + "cache_read"@);
}

/// The usage of each model reads the model, the one that was asked for, the one that answered, the sums of the
/// input and of the output, and the number of requests.
#[verifier::spinoff_prover]
#[verifier::rlimit(100)]
pub proof fn model_usage_columns(x: TokenExprs, by: ModelLabel)
    ensures
        analytics::model_usage_columns_text(x, by) == select(
            seq![
                named(analytics::model_label(x, by), "model"@),
                named(x.request_model@, "request_model"@),
                named(x.response_model@, "response_model"@),
                named(sum_of(x.input@), "input_tokens"@),
                named(sum_of(x.output@), "output_tokens"@),
                named("COUNT(*)"@, "requests"@),
            ],
        ),
{
    reveal_with_fuel(text::flat, 12);
    reveal_with_fuel(layout::joined, 7);
    reveal_strlit(" AS model, ");
    reveal_strlit(" AS ");
    reveal_strlit("model");
    reveal_strlit(", ");
    reveal_strlit(" AS request_model, ");
    reveal_strlit("request_model");
    reveal_strlit(" AS response_model, COALESCE(SUM(");
    reveal_strlit("response_model");
    reveal_strlit("COALESCE(SUM(");
    reveal_strlit("), 0) AS input_tokens, COALESCE(SUM(");
    reveal_strlit("), 0)");
    reveal_strlit("input_tokens");
    reveal_strlit("), 0) AS output_tokens, COUNT(*) AS requests");
    reveal_strlit("output_tokens");
    reveal_strlit("COUNT(*)");
    reveal_strlit("requests");
    reveal_strlit("SELECT ");
    assert(" AS model, "@ =~= " AS "@ + "model"@ + ", "@);
    assert(" AS request_model, "@ =~= " AS "@ + "request_model"@ + ", "@);
    assert(" AS response_model, COALESCE(SUM("@ =~= " AS "@ + "response_model"@ + ", "@ + "COALESCE(SUM("@);
    assert("), 0) AS input_tokens, COALESCE(SUM("@ =~= "), 0)"@ + " AS "@ + "input_tokens"@ + ", "@ + "COALESCE(SUM("@);
    assert("), 0) AS output_tokens, COUNT(*) AS requests"@ =~= "), 0)"@ + " AS "@ + "output_tokens"@ + ", "@ + "COUNT(*)"@ + " AS "@ + "requests"@);
}

/// The usage of each system reads the system, the sums of the input and of the output, and the number of
/// requests.
pub proof fn system_usage_columns(x: TokenExprs)
    ensures
        analytics::system_usage_columns_text(x) == select(
            seq![
                named(x.system@, "system"@),
                named(sum_of(x.input@), "input_tokens"@),
                named(sum_of(x.output@), "output_tokens"@),
                named("COUNT(*)"@, "requests"@),
            ],
        ),
{
    reveal_with_fuel(text::flat, 8);
    reveal_with_fuel(layout::joined, 5);
    reveal_strlit(" AS system, COALESCE(SUM(");
    reveal_strlit(" AS ");
    reveal_strlit("system");
    reveal_strlit(", ");
    reveal_strlit("COALESCE(SUM(");
    reveal_strlit("), 0) AS input_tokens, COALESCE(SUM(");
    reveal_strlit("), 0)");
    reveal_strlit("input_tokens");
    reveal_strlit("), 0) AS output_tokens, COUNT(*) AS requests");
    reveal_strlit("output_tokens");
    reveal_strlit("COUNT(*)");
    reveal_strlit("requests");
    reveal_strlit("SELECT ");
    assert(" AS system, COALESCE(SUM("@ =~= " AS "@ + "system"@ + ", "@ + "COALESCE(SUM("@);
    assert("), 0) AS input_tokens, COALESCE(SUM("@ =~= "), 0)"@ + " AS "@ + "input_tokens"@ + ", "@ + "COALESCE(SUM("@);
    assert("), 0) AS output_tokens, COUNT(*) AS requests"@ =~= "), 0)"@ + " AS "@ + "output_tokens"@ + ", "@ + "COUNT(*)"@ + " AS "@ + "requests"@);
}

/// The largest sessions are read with the number of requests, the input, the output, and the sum of all
/// four kinds of tokens.
#[verifier::spinoff_prover]
#[verifier::rlimit(100)]
pub proof fn top_sessions_columns(x: TokenExprs)
    ensures
        analytics::top_sessions_columns_text(x) == select(
            seq![
                named("json_extract(attributes, '$.\"session.id\"')"@, "session_id"@),
                named("COUNT(*)"@, "request_count"@),
                named(total_of(or_zero(x.input@)), "input_tokens"@),
                named(total_of(or_zero(x.output@)), "output_tokens"@),
                named(total_of(or_zero(x.input@) + " + "@ + or_zero(x.output@) + " + "@ + or_zero(x.cache_creation@) + " + "@ + or_zero(x.cache_read@)), "total_tokens"@),
            ],
        ),
{
    reveal_with_fuel(text::flat, 14);
    reveal_with_fuel(layout::joined, 6);
    reveal_strlit("SELECT json_extract(attributes, '$.\"session.id\"') AS session_id, COUNT(*) AS request_count, SUM(COALESCE(");
    reveal_strlit("SELECT ");
    reveal_strlit("json_extract(attributes, '$.\"session.id\"')");
    reveal_strlit(" AS ");
    reveal_strlit("session_id");
    reveal_strlit(", ");
    reveal_strlit("COUNT(*)");
    reveal_strlit("request_count");
    reveal_strlit("SUM(");
    reveal_strlit("COALESCE(");
    reveal_strlit(", 0)) AS input_tokens, SUM(COALESCE(");
    reveal_strlit(", 0)");
    reveal_strlit(")");
    reveal_strlit("input_tokens");
    reveal_strlit(", 0)) AS output_tokens, SUM(COALESCE(");
    reveal_strlit("output_tokens");
    reveal_strlit(", 0) + COALESCE(");
    reveal_strlit(" + ");
    reveal_strlit(", 0)) AS total_tokens");
    reveal_strlit("total_tokens");
    assert("SELECT json_extract(attributes, '$.\"session.id\"') AS session_id, COUNT(*) AS request_count, SUM(COALESCE("@ =~= "SELECT "@ + "json_extract(attributes, '$.\"session.id\"')"@ + " AS "@ + "session_id"@ + ", "@ + "COUNT(*)"@ + " AS "@ + "request_count"@ + ", "@ + "SUM("@ + "COALESCE("@);
    assert(", 0)) AS input_tokens, SUM(COALESCE("@ =~= ", 0)"@ + ")"@ + " AS "@ + "input_tokens"@ + ", "@ + "SUM("@ + "COALESCE("@);
    assert(", 0)) AS output_tokens, SUM(COALESCE("@ =~= ", 0)"@ + ")"@ + " AS "@ + "output_tokens"@ + ", "@ + "SUM("@ + "COALESCE("@);
    assert(", 0) + COALESCE("@ =~= ", 0)"@ + " + "@ + "COALESCE("@);
    assert(", 0)) AS total_tokens"@ =~= ", 0)"@ + ")"@ + " AS "@ + "total_tokens"@);
}

/// The largest conversations are read with the number of requests, the input, the output, and the sum of
/// all four kinds of tokens.
#[verifier::spinoff_prover]
#[verifier::rlimit(100)]
pub proof fn top_conversations_columns(x: TokenExprs)
    ensures
        analytics::top_conversations_columns_text(x) == select(
            seq![
                named(analytics::CONVERSATION@, "conversation_id"@),
                named("COUNT(*)"@, "request_count"@),
                named(total_of(or_zero(x.input@)), "input_tokens"@),
                named(total_of(or_zero(x.output@)), "output_tokens"@),
                named(total_of(or_zero(x.input@) + " + "@ + or_zero(x.output@) + " + "@ + or_zero(x.cache_creation@) + " + "@ + or_zero(x.cache_read@)), "total_tokens"@),
            ],
        ),
{
    reveal_with_fuel(text::flat, 16);
    reveal_with_fuel(layout::joined, 6);
    reveal_strlit(" AS conversation_id, COUNT(*) AS request_count, SUM(COALESCE(");
    reveal_strlit(" AS ");
    reveal_strlit("conversation_id");
    reveal_strlit(", ");
    reveal_strlit("COUNT(*)");
    reveal_strlit("request_count");
    reveal_strlit("SUM(");
    reveal_strlit("COALESCE(");
    reveal_strlit(", 0)) AS input_tokens, SUM(COALESCE(");
    reveal_strlit(", 0)");
    reveal_strlit(")");
    reveal_strlit("input_tokens");
    reveal_strlit(", 0)) AS output_tokens, SUM(COALESCE(");
    reveal_strlit("output_tokens");
    reveal_strlit(", 0) + COALESCE(");
    reveal_strlit(" + ");
    reveal_strlit(", 0)) AS total_tokens");
    reveal_strlit("total_tokens");
    reveal_strlit("SELECT ");
    assert(" AS conversation_id, COUNT(*) AS request_count, SUM(COALESCE("@ =~= " AS "@ + "conversation_id"@ + ", "@ + "COUNT(*)"@ + " AS "@ + "request_count"@ + ", "@ + "SUM("@ + "COALESCE("@);
    assert(", 0)) AS input_tokens, SUM(COALESCE("@ =~= ", 0)"@ + ")"@ + " AS "@ + "input_tokens"@ + ", "@ + "SUM("@ + "COALESCE("@);
    assert(", 0)) AS output_tokens, SUM(COALESCE("@ =~= ", 0)"@ + ")"@ + " AS "@ + "output_tokens"@ + ", "@ + "SUM("@ + "COALESCE("@);
    assert(", 0) + COALESCE("@ =~= ", 0)"@ + " + "@ + "COALESCE("@);
    assert(", 0)) AS total_tokens"@ =~= ", 0)"@ + ")"@ + " AS "@ + "total_tokens"@);
}

/// The statistics of latency read the identity of the model, the nanoseconds, the three times to first token,
/// the output, the input, and the tokens written to the cache and read from it.
#[verifier::spinoff_prover]
#[verifier::rlimit(100)]
pub proof fn latency_stats_columns(x: TokenExprs)
    ensures
        analytics::latency_stats_columns_text(x) == select(
            seq![
                named(analytics::identity_text(x.model@, x.system@), "model"@),
                named("(end_time - start_time)"@, "duration_ns"@),
                analytics::TTFT_COLUMNS@,
                named(x.output@, "output_tokens"@),
                named(x.input@, "input_tokens"@),
                named(x.cache_creation@, "cache_creation_tokens"@),
                named(x.cache_read@, "cache_read_tokens"@),
            ],
        ),
{
    reveal_with_fuel(text::flat, 14);
    reveal_with_fuel(layout::joined, 8);
    reveal_strlit(" AS model, (end_time - start_time) AS duration_ns, ");
    reveal_strlit(" AS ");
    reveal_strlit("model");
    reveal_strlit(", ");
    reveal_strlit("(end_time - start_time)");
    reveal_strlit("duration_ns");
    reveal_strlit(" AS output_tokens, ");
    reveal_strlit("output_tokens");
    reveal_strlit(" AS input_tokens, ");
    reveal_strlit("input_tokens");
    reveal_strlit(" AS cache_creation_tokens, ");
    reveal_strlit("cache_creation_tokens");
    reveal_strlit(" AS cache_read_tokens");
    reveal_strlit("cache_read_tokens");
    reveal_strlit("SELECT ");
    assert(" AS model, (end_time - start_time) AS duration_ns, "@ =~= " AS "@ + "model"@ + ", "@ + "(end_time - start_time)"@ + " AS "@ + "duration_ns"@ + ", "@);
    assert(" AS output_tokens, "@ =~= " AS "@ + "output_tokens"@ + ", "@);
    assert(" AS input_tokens, "@ =~= " AS "@ + "input_tokens"@ + ", "@);
    assert(" AS cache_creation_tokens, "@ =~= " AS "@ + "cache_creation_tokens"@ + ", "@);
    assert(" AS cache_read_tokens"@ =~= " AS "@ + "cache_read_tokens"@);
}

/// The rate of errors reads the model, the number of calls whose status is an error, and that of all calls.
pub proof fn error_rate_columns(x: TokenExprs)
    ensures
        analytics::error_rate_columns_text(x) == select(
            seq![
                named(x.model@, "model"@),
                named("SUM(CASE WHEN status_code = 2 THEN 1 ELSE 0 END)"@, "errors"@),
                named("COUNT(*)"@, "total"@),
            ],
        ),
{
    reveal_with_fuel(text::flat, 4);
    reveal_with_fuel(layout::joined, 4);
    reveal_strlit(" AS model, SUM(CASE WHEN status_code = 2 THEN 1 ELSE 0 END) AS errors, COUNT(*) AS total");
    reveal_strlit(" AS ");
    reveal_strlit("model");
    reveal_strlit(", ");
    reveal_strlit("SUM(CASE WHEN status_code = 2 THEN 1 ELSE 0 END)");
    reveal_strlit("errors");
    reveal_strlit("COUNT(*)");
    reveal_strlit("total");
    reveal_strlit("SELECT ");
    assert(" AS model, SUM(CASE WHEN status_code = 2 THEN 1 ELSE 0 END) AS errors, COUNT(*) AS total"@ =~= " AS "@ + "model"@ + ", "@ + "SUM(CASE WHEN status_code = 2 THEN 1 ELSE 0 END)"@ + " AS "@ + "errors"@ + ", "@ + "COUNT(*)"@ + " AS "@ + "total"@);
}

/// The rate of truncation reads the model, the number of all calls, and that of the calls that stopped at
/// the most tokens.
pub proof fn truncation_rate_columns(x: TokenExprs)
    ensures
        analytics::truncation_rate_columns_text(x) == select(
            seq![
                named(x.model@, "model"@),
                named("COUNT(*)"@, "total"@),
                named("SUM(CASE WHEN "@ + analytics::FINISH_REASON@ + " IN ('max_tokens', 'length') THEN 1 ELSE 0 END)"@, "truncated"@),
            ],
        ),
{
    reveal_with_fuel(text::flat, 6);
    reveal_with_fuel(layout::joined, 4);
    reveal_strlit(" AS model, COUNT(*) AS total, SUM(CASE WHEN ");
    reveal_strlit(" AS ");
    reveal_strlit("model");
    reveal_strlit(", ");
    reveal_strlit("COUNT(*)");
    reveal_strlit("total");
    reveal_strlit("SUM(CASE WHEN ");
    reveal_strlit(" IN ('max_tokens', 'length') THEN 1 ELSE 0 END) AS truncated");
    reveal_strlit(" IN ('max_tokens', 'length') THEN 1 ELSE 0 END)");
    reveal_strlit("truncated");
    reveal_strlit("SELECT ");
    assert(" AS model, COUNT(*) AS total, SUM(CASE WHEN "@ =~= " AS "@ + "model"@ + ", "@ + "COUNT(*)"@ + " AS "@ + "total"@ + ", "@ + "SUM(CASE WHEN "@);
    assert(" IN ('max_tokens', 'length') THEN 1 ELSE 0 END) AS truncated"@ =~= " IN ('max_tokens', 'length') THEN 1 ELSE 0 END)"@ + " AS "@ + "truncated"@);
}

/// The rate of cache hits reads the model, the input, the tokens read from the cache, and those written to
/// it.
pub proof fn cache_hit_rate_columns(x: TokenExprs)
    ensures
        analytics::cache_hit_rate_columns_text(x) == select(
            seq![
                named(x.model@, "model"@),
                named(total_of(or_zero(x.input@)), "input_tokens"@),
                named(total_of(or_zero(x.cache_read@)), "cache_read_tokens"@),
                named(total_of(or_zero(x.cache_creation@)), "cache_creation_tokens"@),
            ],
        ),
{
    reveal_with_fuel(text::flat, 10);
    reveal_with_fuel(layout::joined, 5);
    reveal_strlit(" AS model, SUM(COALESCE(");
    reveal_strlit(" AS ");
    reveal_strlit("model");
    reveal_strlit(", ");
    reveal_strlit("SUM(");
    reveal_strlit("COALESCE(");
    reveal_strlit(", 0)) AS input_tokens, SUM(COALESCE(");
    reveal_strlit(", 0)");
    reveal_strlit(")");
    reveal_strlit("input_tokens");
    reveal_strlit(", 0)) AS cache_read_tokens, SUM(COALESCE(");
    reveal_strlit("cache_read_tokens");
    reveal_strlit(", 0)) AS cache_creation_tokens");
    reveal_strlit("cache_creation_tokens");
    reveal_strlit("SELECT ");
    assert(" AS model, SUM(COALESCE("@ =~= " AS "@ + "model"@ + ", "@ + "SUM("@ + "COALESCE("@);
    assert(", 0)) AS input_tokens, SUM(COALESCE("@ =~= ", 0)"@ + ")"@ + " AS "@ + "input_tokens"@ + ", "@ + "SUM("@ + "COALESCE("@);
    assert(", 0)) AS cache_read_tokens, SUM(COALESCE("@ =~= ", 0)"@ + ")"@ + " AS "@ + "cache_read_tokens"@ + ", "@ + "SUM("@ + "COALESCE("@);
    assert(", 0)) AS cache_creation_tokens"@ =~= ", 0)"@ + ")"@ + " AS "@ + "cache_creation_tokens"@);
}

/// Latency by context reads the model, the input, the milliseconds, and the three times to first token.
pub proof fn latency_by_context_columns(x: TokenExprs)
    ensures
        analytics::latency_by_context_columns_text(x) == select(
            seq![
                named(x.model@, "model"@),
                named(or_zero(x.input@), "input_tokens"@),
                named("(end_time - start_time) / 1000000"@, "duration_ms"@),
                analytics::TTFT_COLUMNS@,
            ],
        ),
{
    reveal_with_fuel(text::flat, 7);
    reveal_with_fuel(layout::joined, 5);
    reveal_strlit(" AS model, COALESCE(");
    reveal_strlit(" AS ");
    reveal_strlit("model");
    reveal_strlit(", ");
    reveal_strlit("COALESCE(");
    reveal_strlit(", 0) AS input_tokens, (end_time - start_time) / 1000000 AS duration_ms, ");
    reveal_strlit(", 0)");
    reveal_strlit("input_tokens");
    reveal_strlit("(end_time - start_time) / 1000000");
    reveal_strlit("duration_ms");
    reveal_strlit("SELECT ");
    assert(" AS model, COALESCE("@ =~= " AS "@ + "model"@ + ", "@ + "COALESCE("@);
    assert(", 0) AS input_tokens, (end_time - start_time) / 1000000 AS duration_ms, "@ =~= ", 0)"@ + " AS "@ + "input_tokens"@ + ", "@ + "(end_time - start_time) / 1000000"@ + " AS "@ + "duration_ms"@ + ", "@);
}

/// Drift between models reads the one that was asked for, the one that answered, and how often.
pub proof fn model_drift_columns(x: TokenExprs)
    ensures
        analytics::model_drift_columns_text(x) == select(
            seq![
                named(x.request_model@, "request_model"@),
                named(x.response_model@, "response_model"@),
                named("COUNT(*)"@, "count"@),
            ],
        ),
{
    reveal_with_fuel(text::flat, 6);
    reveal_with_fuel(layout::joined, 4);
    reveal_strlit(" AS request_model, ");
    reveal_strlit(" AS ");
    reveal_strlit("request_model");
    reveal_strlit(", ");
    reveal_strlit(" AS response_model, COUNT(*) AS count");
    reveal_strlit("response_model");
    reveal_strlit("COUNT(*)");
    reveal_strlit("count");
    reveal_strlit("SELECT ");
    assert(" AS request_model, "@ =~= " AS "@ + "request_model"@ + ", "@);
    assert(" AS response_model, COUNT(*) AS count"@ =~= " AS "@ + "response_model"@ + ", "@ + "COUNT(*)"@ + " AS "@ + "count"@);
}

/// The split by kind of context reads the kind, the number of calls, the sums of the input and of the output,
/// and the average of the milliseconds.
pub proof fn context_split_columns(x: TokenExprs)
    ensures
        analytics::context_type_split_columns_text(x) == select(
            seq![
                named("COALESCE(json_extract(attributes, '$.\"llm_request.context\"'), '(unknown)')"@, "context"@),
                named("COUNT(*)"@, "calls"@),
                named(sum_of(x.input@), "input_tokens"@),
                named(sum_of(x.output@), "output_tokens"@),
                named("AVG((end_time - start_time) / 1000000.0)"@, "avg_ms"@),
            ],
        ),
{
    reveal_with_fuel(text::flat, 6);
    reveal_with_fuel(layout::joined, 6);
    reveal_strlit("SELECT COALESCE(json_extract(attributes, '$.\"llm_request.context\"'), '(unknown)') AS context, COUNT(*) AS calls, COALESCE(SUM(");
    reveal_strlit("SELECT ");
    reveal_strlit("COALESCE(json_extract(attributes, '$.\"llm_request.context\"'), '(unknown)')");
    reveal_strlit(" AS ");
    reveal_strlit("context");
    reveal_strlit(", ");
    reveal_strlit("COUNT(*)");
    reveal_strlit("calls");
    reveal_strlit("COALESCE(SUM(");
    reveal_strlit("), 0) AS input_tokens, COALESCE(SUM(");
    reveal_strlit("), 0)");
    reveal_strlit("input_tokens");
    reveal_strlit("), 0) AS output_tokens, AVG((end_time - start_time) / 1000000.0) AS avg_ms");
    reveal_strlit("output_tokens");
    reveal_strlit("AVG((end_time - start_time) / 1000000.0)");
    reveal_strlit("avg_ms");
    assert("SELECT COALESCE(json_extract(attributes, '$.\"llm_request.context\"'), '(unknown)') AS context, COUNT(*) AS calls, COALESCE(SUM("@ =~= "SELECT "@ + "COALESCE(json_extract(attributes, '$.\"llm_request.context\"'), '(unknown)')"@ + " AS "@ + "context"@ + ", "@ + "COUNT(*)"@ + " AS "@ + "calls"@ + ", "@ + "COALESCE(SUM("@);
    assert("), 0) AS input_tokens, COALESCE(SUM("@ =~= "), 0)"@ + " AS "@ + "input_tokens"@ + ", "@ + "COALESCE(SUM("@);
    assert("), 0) AS output_tokens, AVG((end_time - start_time) / 1000000.0) AS avg_ms"@ =~= "), 0)"@ + " AS "@ + "output_tokens"@ + ", "@ + "AVG((end_time - start_time) / 1000000.0)"@ + " AS "@ + "avg_ms"@);
}

/// The mix of requests reads the model, the system, the session, the sums of the input, of the output, of the
/// tokens written to the cache and of those read from it, and the number of calls.
#[verifier::spinoff_prover]
#[verifier::rlimit(100)]
pub proof fn request_mix_columns(x: TokenExprs)
    ensures
        sources::request_mix_columns_text(x) == select(
            seq![
                named(x.model@, "model"@),
                named(x.system@, "system"@),
                named(filter::SESSION_EXPR@, "session_id"@),
                named(sum_of(x.input@), "input_tokens"@),
                named(sum_of(x.output@), "output_tokens"@),
                named(sum_of(x.cache_creation@), "cache_creation_tokens"@),
                named(sum_of(x.cache_read@), "cache_read_tokens"@),
                named("COUNT(*)"@, "calls"@),
            ],
        ),
{
    reveal_with_fuel(text::flat, 16);
    reveal_with_fuel(layout::joined, 9);
    reveal_strlit(" AS model, ");
    reveal_strlit(" AS ");
    reveal_strlit("model");
    reveal_strlit(", ");
    reveal_strlit(" AS system, ");
    reveal_strlit("system");
    reveal_strlit(" AS session_id, COALESCE(SUM(");
    reveal_strlit("session_id");
    reveal_strlit("COALESCE(SUM(");
    reveal_strlit("), 0) AS input_tokens, COALESCE(SUM(");
    reveal_strlit("), 0)");
    reveal_strlit("input_tokens");
    reveal_strlit("), 0) AS output_tokens, COALESCE(SUM(");
    reveal_strlit("output_tokens");
    reveal_strlit("), 0) AS cache_creation_tokens, COALESCE(SUM(");
    reveal_strlit("cache_creation_tokens");
    reveal_strlit("), 0) AS cache_read_tokens, COUNT(*) AS calls");
    reveal_strlit("cache_read_tokens");
    reveal_strlit("COUNT(*)");
    reveal_strlit("calls");
    reveal_strlit("SELECT ");
    assert(" AS model, "@ =~= " AS "@ + "model"@ + ", "@);
    assert(" AS system, "@ =~= " AS "@ + "system"@ + ", "@);
    assert(" AS session_id, COALESCE(SUM("@ =~= " AS "@ + "session_id"@ + ", "@ + "COALESCE(SUM("@);
    assert("), 0) AS input_tokens, COALESCE(SUM("@ =~= "), 0)"@ + " AS "@ + "input_tokens"@ + ", "@ + "COALESCE(SUM("@);
    assert("), 0) AS output_tokens, COALESCE(SUM("@ =~= "), 0)"@ + " AS "@ + "output_tokens"@ + ", "@ + "COALESCE(SUM("@);
    assert("), 0) AS cache_creation_tokens, COALESCE(SUM("@ =~= "), 0)"@ + " AS "@ + "cache_creation_tokens"@ + ", "@ + "COALESCE(SUM("@);
    assert("), 0) AS cache_read_tokens, COUNT(*) AS calls"@ =~= "), 0)"@ + " AS "@ + "cache_read_tokens"@ + ", "@ + "COUNT(*)"@ + " AS "@ + "calls"@);
}

/// The requests in each bucket are read with the bucket, the model, and the sums of the input, of the tokens
/// written to the cache and of those read from it.
pub proof fn request_bucket_columns(x: TokenExprs)
    ensures
        sources::request_bucket_columns_text(x) == select(
            seq![
                named("(start_time / ?) * ?"@, "bucket"@),
                named(x.model@, "model"@),
                named(sum_of(x.input@), "input_tokens"@),
                named(sum_of(x.cache_creation@), "cache_creation"@),
                named(sum_of(x.cache_read@), "cache_read"@),
            ],
        ) + " FROM spans WHERE "@ + sources::REQUEST_GUARD@,
{
    reveal_with_fuel(text::flat, 11);
    reveal_with_fuel(layout::joined, 6);
    reveal_strlit("SELECT (start_time / ?) * ? AS bucket, ");
    reveal_strlit("SELECT ");
    reveal_strlit("(start_time / ?) * ?");
    reveal_strlit(" AS ");
    reveal_strlit("bucket");
    reveal_strlit(", ");
    reveal_strlit(" AS model, COALESCE(SUM(");
    reveal_strlit("model");
    reveal_strlit("COALESCE(SUM(");
    reveal_strlit("), 0) AS input_tokens, COALESCE(SUM(");
    reveal_strlit("), 0)");
    reveal_strlit("input_tokens");
    reveal_strlit("), 0) AS cache_creation, COALESCE(SUM(");
    reveal_strlit("cache_creation");
    reveal_strlit("), 0) AS cache_read FROM spans WHERE ");
    reveal_strlit("cache_read");
    reveal_strlit(" FROM spans WHERE ");
    assert("SELECT (start_time / ?) * ? AS bucket, "@ =~= "SELECT "@ + "(start_time / ?) * ?"@ + " AS "@ + "bucket"@ + ", "@);
    assert(" AS model, COALESCE(SUM("@ =~= " AS "@ + "model"@ + ", "@ + "COALESCE(SUM("@);
    assert("), 0) AS input_tokens, COALESCE(SUM("@ =~= "), 0)"@ + " AS "@ + "input_tokens"@ + ", "@ + "COALESCE(SUM("@);
    assert("), 0) AS cache_creation, COALESCE(SUM("@ =~= "), 0)"@ + " AS "@ + "cache_creation"@ + ", "@ + "COALESCE(SUM("@);
    assert("), 0) AS cache_read FROM spans WHERE "@ =~= "), 0)"@ + " AS "@ + "cache_read"@ + " FROM spans WHERE "@);
}

/// The statement behind the cost series begins with its columns: of the four sums of tokens, the third
/// column of a row holds the input, the fourth the output, the fifth what was written to the cache and the
/// sixth what was read from it. The width of a bucket is bound twice, before everything else.
pub proof fn cost_series_reads_its_columns(
    x: TokenExprs,
    window: Window,
    bucket_ns: i64,
    model: Option<Seq<char>>,
)
    ensures
        ({
            let columns = seq![
                named("(start_time / ?) * ?"@, "bucket"@),
                named(x.model@, "model"@),
                sum_of(x.input@),
                sum_of(x.output@),
                sum_of(x.cache_creation@),
                sum_of(x.cache_read@),
                named("COUNT(*)"@, "requests"@),
            ];
            let query = series::cost_series_query(x, window, bucket_ns, model);
            &&& (select(columns) + " FROM spans WHERE "@ + x.llm_span_guard@).is_prefix_of(query.text)
            &&& query.binds.len() >= 2
            &&& query.binds[0] == Bind::Integer(bucket_ns)
            &&& query.binds[1] == Bind::Integer(bucket_ns)
        }),
{
    cost_series_columns(x);
    let text = series::cost_columns_text(x);
    let q0 = listing::begin(text).with(Bind::Integer(bucket_ns)).with(Bind::Integer(bucket_ns));
    let q1 = q0.when_integer(window.start, " AND start_time >= ?"@);
    let q2 = q1.when_integer(window.end, " AND end_time <= ?"@);
    let q3 = analytics::for_model(q2, x, model);
    let q4 = q3.plus(" GROUP BY bucket, model ORDER BY bucket ASC"@);
    assert(text.is_prefix_of(q1.text));
    assert(text.is_prefix_of(q2.text));
    assert(text.is_prefix_of(q3.text));
    assert(text.is_prefix_of(q4.text));
}

/// Two more texts follow the others.
proof fn lemma_flat_pair(parts: Seq<Seq<char>>, a: Seq<char>, b: Seq<char>)
    ensures
        text::flat(parts.push(a).push(b)) == text::flat(parts) + (a + b),
{
    reveal_with_fuel(text::flat, 3);
    assert(parts.push(a).push(b).drop_last() =~= parts.push(a));
    assert(parts.push(a).drop_last() =~= parts);
    assert((text::flat(parts) + a) + b =~= text::flat(parts) + (a + b));
}

/// The largest calls read each kind of tokens under its own name, once as a count and once as it was
/// reported, and the total of all four kinds.
#[verifier::spinoff_prover]
#[verifier::rlimit(100)]
pub proof fn call_columns(x: TokenExprs)
    ensures
        calls::top_columns_text(x) == "SELECT trace_id, span_id, start_time, (end_time - start_time) AS duration, "@
            + (x.model@ + " AS model, "@)
            + (x.system@ + " AS system, json_extract(attributes, '$.\"session.id\"') AS session_id, json_extract(attributes, '$.\"prompt.id\"') AS prompt_id, COALESCE("@)
            + (x.input@ + ", 0) AS input_tokens, COALESCE("@)
            + (x.output@ + ", 0) AS output_tokens, COALESCE("@)
            + (x.cache_creation@ + ", 0) AS cache_creation_tokens, COALESCE("@)
            + (x.cache_read@ + ", 0) AS cache_read_tokens, COALESCE("@)
            + (x.input@ + ", 0) + COALESCE("@)
            + (x.output@ + ", 0) + COALESCE("@)
            + (x.cache_creation@ + ", 0) + COALESCE("@)
            + (x.cache_read@ + ", 0) AS total_tokens, "@)
            + ("COALESCE(json_extract(attributes, '$.\"gen_ai.response.finish_reason\"'), CASE WHEN json_type(attributes, '$.\"gen_ai.response.finish_reasons\"') = 'array' THEN json_extract(json_extract(attributes, '$.\"gen_ai.response.finish_reasons\"'), '$[0]') ELSE NULL END)"@ + " AS finish_reason, "@)
            + ("json_extract(attributes, '$.\"gen_ai.conversation.id\"')"@ + " AS conversation_id, "@)
            + (x.input@ + " AS input_tokens_raw, "@)
            + (x.output@ + " AS output_tokens_raw, "@)
            + (x.cache_creation@ + " AS cache_creation_tokens_raw, "@)
            + (x.cache_read@ + " AS cache_read_tokens_raw"@),
{
    let p = seq!["SELECT trace_id, span_id, start_time, (end_time - start_time) AS duration, "@];
    let t = "SELECT trace_id, span_id, start_time, (end_time - start_time) AS duration, "@;
    assert(text::flat(p) =~= t) by {
        reveal_with_fuel(text::flat, 2);
        assert(p.drop_last() =~= Seq::<Seq<char>>::empty());
    }
    lemma_flat_pair(p, x.model@, " AS model, "@);
    let p = p.push(x.model@).push(" AS model, "@);
    let t = t + (x.model@ + " AS model, "@);
    lemma_flat_pair(p, x.system@, " AS system, json_extract(attributes, '$.\"session.id\"') AS session_id, json_extract(attributes, '$.\"prompt.id\"') AS prompt_id, COALESCE("@);
    let p = p.push(x.system@).push(" AS system, json_extract(attributes, '$.\"session.id\"') AS session_id, json_extract(attributes, '$.\"prompt.id\"') AS prompt_id, COALESCE("@);
    let t = t + (x.system@ + " AS system, json_extract(attributes, '$.\"session.id\"') AS session_id, json_extract(attributes, '$.\"prompt.id\"') AS prompt_id, COALESCE("@);
    lemma_flat_pair(p, x.input@, ", 0) AS input_tokens, COALESCE("@);
    let p = p.push(x.input@).push(", 0) AS input_tokens, COALESCE("@);
    let t = t + (x.input@ + ", 0) AS input_tokens, COALESCE("@);
    lemma_flat_pair(p, x.output@, ", 0) AS output_tokens, COALESCE("@);
    let p = p.push(x.output@).push(", 0) AS output_tokens, COALESCE("@);
    let t = t + (x.output@ + ", 0) AS output_tokens, COALESCE("@);
    lemma_flat_pair(p, x.cache_creation@, ", 0) AS cache_creation_tokens, COALESCE("@);
    let p = p.push(x.cache_creation@).push(", 0) AS cache_creation_tokens, COALESCE("@);
    let t = t + (x.cache_creation@ + ", 0) AS cache_creation_tokens, COALESCE("@);
    lemma_flat_pair(p, x.cache_read@, ", 0) AS cache_read_tokens, COALESCE("@);
    let p = p.push(x.cache_read@).push(", 0) AS cache_read_tokens, COALESCE("@);
    let t = t + (x.cache_read@ + ", 0) AS cache_read_tokens, COALESCE("@);
    lemma_flat_pair(p, x.input@, ", 0) + COALESCE("@);
    let p = p.push(x.input@).push(", 0) + COALESCE("@);
    let t = t + (x.input@ + ", 0) + COALESCE("@);
    lemma_flat_pair(p, x.output@, ", 0) + COALESCE("@);
    let p = p.push(x.output@).push(", 0) + COALESCE("@);
    let t = t + (x.output@ + ", 0) + COALESCE("@);
    lemma_flat_pair(p, x.cache_creation@, ", 0) + COALESCE("@);
    let p = p.push(x.cache_creation@).push(", 0) + COALESCE("@);
    let t = t + (x.cache_creation@ + ", 0) + COALESCE("@);
    lemma_flat_pair(p, x.cache_read@, ", 0) AS total_tokens, "@);
    let p = p.push(x.cache_read@).push(", 0) AS total_tokens, "@);
    let t = t + (x.cache_read@ + ", 0) AS total_tokens, "@);
    lemma_flat_pair(p, analytics::FINISH_REASON@, " AS finish_reason, "@);
    let p = p.push(analytics::FINISH_REASON@).push(" AS finish_reason, "@);
    let t = t + (analytics::FINISH_REASON@ + " AS finish_reason, "@);
    lemma_flat_pair(p, analytics::CONVERSATION@, " AS conversation_id, "@);
    let p = p.push(analytics::CONVERSATION@).push(" AS conversation_id, "@);
    let t = t + (analytics::CONVERSATION@ + " AS conversation_id, "@);
    lemma_flat_pair(p, x.input@, " AS input_tokens_raw, "@);
    let p = p.push(x.input@).push(" AS input_tokens_raw, "@);
    let t = t + (x.input@ + " AS input_tokens_raw, "@);
    lemma_flat_pair(p, x.output@, " AS output_tokens_raw, "@);
    let p = p.push(x.output@).push(" AS output_tokens_raw, "@);
    let t = t + (x.output@ + " AS output_tokens_raw, "@);
    lemma_flat_pair(p, x.cache_creation@, " AS cache_creation_tokens_raw, "@);
    let p = p.push(x.cache_creation@).push(" AS cache_creation_tokens_raw, "@);
    let t = t + (x.cache_creation@ + " AS cache_creation_tokens_raw, "@);
    lemma_flat_pair(p, x.cache_read@, " AS cache_read_tokens_raw"@);
    let p = p.push(x.cache_read@).push(" AS cache_read_tokens_raw"@);
    let t = t + (x.cache_read@ + " AS cache_read_tokens_raw"@);
    assert(p =~= seq![
        "SELECT trace_id, span_id, start_time, (end_time - start_time) AS duration, "@,
        x.model@,
        " AS model, "@,
        x.system@,
        " AS system, json_extract(attributes, '$.\"session.id\"') AS session_id, json_extract(attributes, '$.\"prompt.id\"') AS prompt_id, COALESCE("@,
        x.input@,
        ", 0) AS input_tokens, COALESCE("@,
        x.output@,
        ", 0) AS output_tokens, COALESCE("@,
        x.cache_creation@,
        ", 0) AS cache_creation_tokens, COALESCE("@,
        x.cache_read@,
        ", 0) AS cache_read_tokens, COALESCE("@,
        x.input@,
        ", 0) + COALESCE("@,
        x.output@,
        ", 0) + COALESCE("@,
        x.cache_creation@,
        ", 0) + COALESCE("@,
        x.cache_read@,
        ", 0) AS total_tokens, "@,
        analytics::FINISH_REASON@,
        " AS finish_reason, "@,
        analytics::CONVERSATION@,
        " AS conversation_id, "@,
        x.input@,
        " AS input_tokens_raw, "@,
        x.output@,
        " AS output_tokens_raw, "@,
        x.cache_creation@,
        " AS cache_creation_tokens_raw, "@,
        x.cache_read@,
        " AS cache_read_tokens_raw"@,
    ]);
}

} // verus!

//! What the tables show under their heads, and how rates are coloured.
use crate::identity::ModelDriftPair;
use crate::latency;
use crate::layout;
use crate::tables;
use crate::tables::{
    CacheHitRow, CostedRow, DepthRow, ErrorTypeBreakdown, LatencyRow, ParamBucket, SectionView, SessionCostRow,
    TableView, TokenUsageSummary, Tone, ToolRow, TopSpanRow, TruncationRow,
};
use crate::text;
use vstd::prelude::*;

verus! {

/// The cell of a row under a head holds a text.
pub open spec fn shows(t: TableView, row: int, head: Seq<char>, text: Seq<char>) -> bool {
    exists|c: int| 0 <= c < t.heads.len() && (#[trigger] t.heads[c]).0 == head && t.rows[row][c].0 == text
}

/// The cell of a row under a head has a colour.
pub open spec fn is_coloured(t: TableView, row: int, head: Seq<char>, tone: Tone) -> bool {
    exists|c: int| 0 <= c < t.heads.len() && (#[trigger] t.heads[c]).0 == head && t.rows[row][c].1 == tone
}

/// A text, or what stands for a missing one.
pub open spec fn either(text: Option<String>, otherwise: Seq<char>) -> Seq<char> {
    match text {
        Some(s) => s@,
        None => otherwise,
    }
}

/// A count with its digits in groups, or a dash.
pub open spec fn count_or_dash(n: Option<i64>) -> Seq<char> {
    match n {
        Some(v) => layout::grouped(v as u64 as nat),
        None => "—"@,
    }
}

/// A time in milliseconds, or a dash where none was recorded.
pub open spec fn time_or_dash(recorded: usize, ms: Option<i64>) -> Seq<char> {
    if recorded == 0 || ms is None {
        "—"@
    } else {
        text::signed_decimal(ms->0 as int) + "ms"@
    }
}

/// The usage of a model or a system stands under its name, its input under `Input`, its output under
/// `Output`, and so on.
pub proof fn usage_tables_show_the_usage(rows: Seq<CostedRow>, subject: Seq<char>, title: Seq<char>, message: Seq<char>, t: TableView, i: int)
    requires
        tables::usage_section(rows, subject, title, message) == SectionView::Table(t),
        0 <= i < rows.len(),
    ensures
        t.rows.len() == rows.len(),
        ({
            let r = rows[i];
            &&& shows(t, i, subject, r.usage.name@)
            &&& shows(t, i, "Input"@, layout::grouped(r.usage.input_tokens as nat))
            &&& shows(t, i, "Output"@, layout::grouped(r.usage.output_tokens as nat))
            &&& shows(t, i, "Total"@, layout::grouped(r.usage.total_tokens as nat))
            &&& shows(t, i, "Requests"@, text::decimal(r.usage.requests as nat))
            &&& shows(t, i, "Cost"@, r.cost@)
        }),
{
    let r = rows[i];
    assert(t.heads[0].0 == subject && t.rows[i][0].0 == r.usage.name@);
    assert(t.heads[1].0 == "Input"@ && t.rows[i][1].0 == layout::grouped(r.usage.input_tokens as nat));
    assert(t.heads[2].0 == "Output"@ && t.rows[i][2].0 == layout::grouped(r.usage.output_tokens as nat));
    assert(t.heads[3].0 == "Total"@ && t.rows[i][3].0 == layout::grouped(r.usage.total_tokens as nat));
    assert(t.heads[4].0 == "Requests"@ && t.rows[i][4].0 == text::decimal(r.usage.requests as nat));
    assert(t.heads[5].0 == "Cost"@ && t.rows[i][5].0 == r.cost@);
}

/// The usage of a session stands under the heads of its parts.
pub proof fn session_tables_show_the_sessions(rows: Seq<SessionCostRow>, t: TableView, i: int)
    requires
        tables::by_session_section(rows) == SectionView::Table(t),
        0 <= i < rows.len(),
    ensures
        t.rows.len() == rows.len(),
        ({
            let r = rows[i];
            &&& shows(t, i, "Session ID"@, layout::truncated(r.session_id@, 32))
            &&& shows(t, i, "Requests"@, text::decimal(r.requests as nat))
            &&& shows(t, i, "Input"@, layout::grouped(r.input_tokens as nat))
            &&& shows(t, i, "Output"@, layout::grouped(r.output_tokens as nat))
            &&& shows(t, i, "Cost"@, r.cost@)
        }),
{
    let r = rows[i];
    assert(t.heads[0].0 == "Session ID"@ && t.rows[i][0].0 == layout::truncated(r.session_id@, 32));
    assert(t.heads[1].0 == "Requests"@ && t.rows[i][1].0 == text::decimal(r.requests as nat));
    assert(t.heads[2].0 == "Input"@ && t.rows[i][2].0 == layout::grouped(r.input_tokens as nat));
    assert(t.heads[3].0 == "Output"@ && t.rows[i][3].0 == layout::grouped(r.output_tokens as nat));
    assert(t.heads[4].0 == "Cost"@ && t.rows[i][4].0 == r.cost@);
}

/// The latency of a model stands under the heads of its percentiles; what is not known is a dash.
pub proof fn latency_tables_show_the_latency(rows: Seq<LatencyRow>, t: TableView, i: int)
    requires
        tables::latency_stats_section(rows) == SectionView::Table(t),
        0 <= i < rows.len(),
    ensures
        t.rows.len() == rows.len(),
        ({
            let r = rows[i];
            &&& shows(t, i, "Model"@, either(r.model, "(unknown)"@))
            &&& shows(t, i, "Calls"@, text::decimal(r.count as nat))
            &&& shows(t, i, "p50 ms"@, text::signed_decimal(r.p50_ms as int))
            &&& shows(t, i, "p95 ms"@, text::signed_decimal(r.p95_ms as int))
            &&& shows(t, i, "p99 ms"@, text::signed_decimal(r.p99_ms as int))
            &&& shows(t, i, "Tok/s* p50"@, either(r.rate_p50, "—"@))
            &&& shows(t, i, "Tok/s* p95"@, either(r.rate_p95, "—"@))
            &&& shows(t, i, "Context p50"@, count_or_dash(r.input_tokens_p50))
            &&& shows(t, i, "Context p95"@, count_or_dash(r.input_tokens_p95))
            &&& shows(t, i, "Out/In p50"@, either(r.output_input_ratio_p50, "—"@))
            &&& shows(t, i, "TTFT p50"@, time_or_dash(r.ttft_count, r.ttft_p50_ms))
            &&& shows(t, i, "TTFT p95"@, time_or_dash(r.ttft_count, r.ttft_p95_ms))
        }),
{
    let r = rows[i];
    assert(t.heads[0].0 == "Model"@ && t.rows[i][0].0 == either(r.model, "(unknown)"@));
    assert(t.heads[1].0 == "Calls"@ && t.rows[i][1].0 == text::decimal(r.count as nat));
    assert(t.heads[2].0 == "p50 ms"@ && t.rows[i][2].0 == text::signed_decimal(r.p50_ms as int));
    assert(t.heads[3].0 == "p95 ms"@ && t.rows[i][3].0 == text::signed_decimal(r.p95_ms as int));
    assert(t.heads[4].0 == "p99 ms"@ && t.rows[i][4].0 == text::signed_decimal(r.p99_ms as int));
    assert(t.heads[5].0 == "Tok/s* p50"@ && t.rows[i][5].0 == either(r.rate_p50, "—"@));
    assert(t.heads[6].0 == "Tok/s* p95"@ && t.rows[i][6].0 == either(r.rate_p95, "—"@));
    assert(t.heads[7].0 == "Context p50"@ && t.rows[i][7].0 == count_or_dash(r.input_tokens_p50));
    assert(t.heads[8].0 == "Context p95"@ && t.rows[i][8].0 == count_or_dash(r.input_tokens_p95));
    assert(t.heads[9].0 == "Out/In p50"@ && t.rows[i][9].0 == either(r.output_input_ratio_p50, "—"@));
    assert(t.heads[10].0 == "TTFT p50"@ && t.rows[i][10].0 == time_or_dash(r.ttft_count, r.ttft_p50_ms));
    assert(t.heads[11].0 == "TTFT p95"@ && t.rows[i][11].0 == time_or_dash(r.ttft_count, r.ttft_p95_ms));
}

/// The calls of a model that were cut off stand under `Truncated`, and all of them under `Total Calls`.
pub proof fn truncation_tables_show_the_rates(rows: Seq<TruncationRow>, t: TableView, i: int)
    requires
        tables::truncation_rate_section(rows) == SectionView::Table(t),
        0 <= i < rows.len(),
    ensures
        t.rows.len() == rows.len(),
        ({
            let r = rows[i];
            &&& shows(t, i, "Model"@, either(r.rate.model, "(unknown)"@))
            &&& shows(t, i, "Total Calls"@, text::decimal(r.rate.total as nat))
            &&& shows(t, i, "Truncated"@, text::decimal(r.rate.truncated as nat))
            &&& shows(t, i, "Rate"@, r.percent@)
            &&& is_coloured(t, i, "Rate"@, tables::truncation_tone(r.rate.truncated as int, r.rate.total as int))
        }),
{
    let r = rows[i];
    assert(t.heads[0].0 == "Model"@ && t.rows[i][0].0 == either(r.rate.model, "(unknown)"@));
    assert(t.heads[1].0 == "Total Calls"@ && t.rows[i][1].0 == text::decimal(r.rate.total as nat));
    assert(t.heads[2].0 == "Truncated"@ && t.rows[i][2].0 == text::decimal(r.rate.truncated as nat));
    assert(t.heads[3].0 == "Rate"@ && t.rows[i][3].0 == r.percent@);
}

/// What a model read from the cache, and what it put there, stand under their own heads.
pub proof fn cache_tables_show_the_rates(rows: Seq<CacheHitRow>, t: TableView, i: int)
    requires
        tables::cache_hit_rate_section(rows) == SectionView::Table(t),
        0 <= i < rows.len(),
    ensures
        t.rows.len() == rows.len(),
        ({
            let r = rows[i];
            &&& shows(t, i, "Model"@, either(r.rate.model, "(unknown)"@))
            &&& shows(t, i, "Input Tokens"@, layout::grouped(r.rate.total_input_tokens as nat))
            &&& shows(t, i, "Cache Read"@, layout::grouped(r.rate.total_cache_read_tokens as nat))
            &&& shows(t, i, "Cache Created"@, layout::grouped(r.rate.total_cache_creation_tokens as nat))
            &&& shows(t, i, "Hit Rate"@, r.percent@)
            &&& is_coloured(t, i, "Hit Rate"@, tables::hit_tone(r.rate.total_cache_read_tokens as int, r.rate.total_input_tokens as int))
        }),
{
    let r = rows[i];
    assert(t.heads[0].0 == "Model"@ && t.rows[i][0].0 == either(r.rate.model, "(unknown)"@));
    assert(t.heads[1].0 == "Input Tokens"@ && t.rows[i][1].0 == layout::grouped(r.rate.total_input_tokens as nat));
    assert(t.heads[2].0 == "Cache Read"@ && t.rows[i][2].0 == layout::grouped(r.rate.total_cache_read_tokens as nat));
    assert(t.heads[3].0 == "Cache Created"@ && t.rows[i][3].0 == layout::grouped(r.rate.total_cache_creation_tokens as nat));
    assert(t.heads[4].0 == "Hit Rate"@ && t.rows[i][4].0 == r.percent@);
}

/// The calls of a tool and those that failed stand under their own heads.
pub proof fn tool_tables_show_the_tools(rows: Seq<ToolRow>, t: TableView, i: int)
    requires
        tables::tool_usage_section(rows) == SectionView::Table(t),
        0 <= i < rows.len(),
    ensures
        t.rows.len() == rows.len(),
        ({
            let r = rows[i];
            &&& shows(t, i, "Tool"@, r.usage.tool_name@)
            &&& shows(t, i, "Calls"@, text::decimal(r.usage.count as nat))
            &&& shows(t, i, "Success%"@, r.success@)
            &&& shows(t, i, "Errors"@, text::decimal(r.usage.error_count as nat))
            &&& shows(t, i, "Avg ms"@, r.average@)
            &&& is_coloured(t, i, "Success%"@, tables::success_tone(r.usage.success_count as int, r.usage.count as int))
        }),
{
    let r = rows[i];
    assert(t.heads[0].0 == "Tool"@ && t.rows[i][0].0 == r.usage.tool_name@);
    assert(t.heads[1].0 == "Calls"@ && t.rows[i][1].0 == text::decimal(r.usage.count as nat));
    assert(t.heads[2].0 == "Success%"@ && t.rows[i][2].0 == r.success@);
    assert(t.heads[3].0 == "Errors"@ && t.rows[i][3].0 == text::decimal(r.usage.error_count as nat));
    assert(t.heads[4].0 == "Avg ms"@ && t.rows[i][4].0 == r.average@);
}

/// The failures of a model stand under their kind, their label and their number.
pub proof fn error_tables_show_the_failures(rows: Seq<ErrorTypeBreakdown>, t: TableView, i: int)
    requires
        tables::error_types_section(rows) == SectionView::Table(t),
        0 <= i < rows.len(),
    ensures
        t.rows.len() == rows.len(),
        ({
            let r = rows[i];
            &&& shows(t, i, "Bucket"@, r.bucket@)
            &&& shows(t, i, "Error Type"@, r.error_type@)
            &&& shows(t, i, "Model"@, either(r.model, "(unknown)"@))
            &&& shows(t, i, "Count"@, text::decimal(r.count as nat))
        }),
{
    let r = rows[i];
    assert(t.heads[0].0 == "Bucket"@ && t.rows[i][0].0 == r.bucket@);
    assert(t.heads[1].0 == "Error Type"@ && t.rows[i][1].0 == r.error_type@);
    assert(t.heads[2].0 == "Model"@ && t.rows[i][2].0 == either(r.model, "(unknown)"@));
    assert(t.heads[3].0 == "Count"@ && t.rows[i][3].0 == text::decimal(r.count as nat));
}

/// The most expensive calls are numbered from one, with their tokens under their own heads.
pub proof fn call_tables_show_the_calls(rows: Seq<TopSpanRow>, n: usize, t: TableView, i: int)
    requires
        tables::top_spans_section(rows, n) == SectionView::Table(t),
        0 <= i < rows.len(),
    ensures
        t.rows.len() == rows.len(),
        ({
            let r = rows[i];
            &&& shows(t, i, "#"@, text::decimal((i + 1) as nat))
            &&& shows(t, i, "Model"@, either(r.model, "—"@))
            &&& shows(t, i, "Session"@, layout::truncated(either(r.session_id, "—"@), 24))
            &&& shows(t, i, "Input"@, layout::grouped(r.input_tokens as nat))
            &&& shows(t, i, "Output"@, layout::grouped(r.output_tokens as nat))
            &&& shows(t, i, "Cache"@, layout::grouped(r.cache_read_tokens as nat))
            &&& shows(t, i, "Cost"@, r.cost@)
            &&& shows(t, i, "Duration"@, text::signed_decimal(latency::whole_millis(r.duration as int)) + "ms"@)
        }),
{
    let r = rows[i];
    assert(t.heads[0].0 == "#"@ && t.rows[i][0].0 == text::decimal((i + 1) as nat));
    assert(t.heads[1].0 == "Model"@ && t.rows[i][1].0 == either(r.model, "—"@));
    assert(t.heads[2].0 == "Session"@ && t.rows[i][2].0 == layout::truncated(either(r.session_id, "—"@), 24));
    assert(t.heads[3].0 == "Input"@ && t.rows[i][3].0 == layout::grouped(r.input_tokens as nat));
    assert(t.heads[4].0 == "Output"@ && t.rows[i][4].0 == layout::grouped(r.output_tokens as nat));
    assert(t.heads[5].0 == "Cache"@ && t.rows[i][5].0 == layout::grouped(r.cache_read_tokens as nat));
    assert(t.heads[6].0 == "Cost"@ && t.rows[i][6].0 == r.cost@);
    assert(t.heads[7].0 == "Duration"@ && t.rows[i][7].0 == text::signed_decimal(latency::whole_millis(r.duration as int)) + "ms"@);
}

/// A table of labels and values shows a value beside a label.
pub open spec fn lists(t: TableView, label: Seq<char>, value: Seq<char>) -> bool {
    exists|i: int| 0 <= i < t.rows.len() && (#[trigger] t.rows[i])[0].0 == label && t.rows[i][1].0 == value
}

/// The summary lists the input, the output, both together and the calls; the cache only where it was used.
pub proof fn the_summary_lists_the_totals(s: TokenUsageSummary)
    requires
        s.total_input_tokens + s.total_output_tokens <= u64::MAX,
    ensures
        ({
            let t = tables::summary_table(s);
            &&& lists(t, "Total Input Tokens"@, layout::grouped(s.total_input_tokens as nat))
            &&& lists(t, "Total Output Tokens"@, layout::grouped(s.total_output_tokens as nat))
            &&& lists(
                t,
                "Total Tokens"@,
                layout::grouped((s.total_input_tokens + s.total_output_tokens) as nat),
            )
            &&& lists(t, "Total Requests"@, text::decimal(s.total_requests as nat))
            &&& s.total_cache_creation_tokens > 0 ==> lists(
                t,
                "Cache Creation Tokens"@,
                layout::grouped(s.total_cache_creation_tokens as nat),
            )
            &&& s.total_cache_read_tokens > 0 ==> lists(
                t,
                "Cache Read Tokens"@,
                layout::grouped(s.total_cache_read_tokens as nat),
            )
            &&& t.rows.len() == 4 + if s.total_cache_creation_tokens > 0 {
                1int
            } else {
                0int
            } + if s.total_cache_read_tokens > 0 {
                1int
            } else {
                0int
            }
        }),
{
    let t = tables::summary_table(s);
    assert(t.rows[0][0].0 == "Total Input Tokens"@);
    assert(t.rows[1][0].0 == "Total Output Tokens"@);
    assert(t.rows[2][0].0 == "Total Tokens"@);
    assert(t.rows[3][0].0 == "Total Requests"@);
    if s.total_cache_creation_tokens > 0 {
        assert(t.rows[4][0].0 == "Cache Creation Tokens"@);
    }
    if s.total_cache_read_tokens > 0 {
        assert(t.rows.last()[0].0 == "Cache Read Tokens"@);
    }
}

/// The depth of conversations lists their number, their average and their percentiles.
pub proof fn the_depth_lists_the_turns(d: DepthRow, t: TableView)
    requires
        tables::conv_depth_section(d) == SectionView::Table(t),
    ensures
        d.total_conversations > 0,
        lists(t, "Total conversations"@, text::decimal(d.total_conversations as nat)),
        lists(t, "Avg turns"@, d.average@),
        lists(t, "p50 turns"@, text::signed_decimal(d.p50_turns as int)),
        lists(t, "p95 turns"@, text::signed_decimal(d.p95_turns as int)),
        lists(t, "p99 turns"@, text::signed_decimal(d.p99_turns as int)),
{
    assert(t.rows[0][0].0 == "Total conversations"@);
    assert(t.rows[1][0].0 == "Avg turns"@);
    assert(t.rows[2][0].0 == "p50 turns"@);
    assert(t.rows[3][0].0 == "p95 turns"@);
    assert(t.rows[4][0].0 == "p99 turns"@);
}

/// A pair of models is shown exactly where they differ, the one asked for under `Requested Model` and
/// the one that answered under `Served Model`.
pub proof fn drift_tables_show_the_pairs_that_differ(pairs: Seq<ModelDriftPair>, t: TableView, i: int)
    requires
        tables::model_drift_section(pairs) == SectionView::Table(t),
        0 <= i < pairs.len(),
        pairs[i].differs,
    ensures
        exists|k: int|
            0 <= k < t.rows.len() && #[trigger] shows(t, k, "Requested Model"@, either(pairs[i].request_model, "(unknown)"@))
                && shows(t, k, "Served Model"@, either(pairs[i].response_model, "(unknown)"@)) && shows(
                t,
                k,
                "Count"@,
                text::decimal(pairs[i].count as nat),
            ),
{
    let k = lemma_drifted(pairs, i);
    assert(t.heads[0].0 == "Requested Model"@ && t.rows[k][0].0 == either(pairs[i].request_model, "(unknown)"@));
    assert(t.heads[1].0 == "Served Model"@ && t.rows[k][1].0 == either(pairs[i].response_model, "(unknown)"@));
    assert(t.heads[2].0 == "Count"@ && t.rows[k][2].0 == text::decimal(pairs[i].count as nat));
    assert(shows(t, k, "Requested Model"@, either(pairs[i].request_model, "(unknown)"@)));
}

/// A pair that differs has a row.
proof fn lemma_drifted(pairs: Seq<ModelDriftPair>, i: int) -> (k: int)
    requires
        0 <= i < pairs.len(),
        pairs[i].differs,
    ensures
        0 <= k < tables::drifted_rows(pairs).len(),
        tables::drifted_rows(pairs)[k] == tables::drift_cells(pairs[i]),
    decreases pairs.len(),
{
    if i == pairs.len() - 1 {
        tables::drifted_rows(pairs.drop_last()).len() as int
    } else {
        lemma_drifted(pairs.drop_last(), i)
    }
}

/// A rate of truncation is red above five percent and yellow above one; a hit rate is green from twenty
/// percent and yellow from five; a success rate is red below ninety percent and yellow below
/// ninety-nine. Where there were no calls, only successes are in doubt.
pub proof fn rates_have_the_colours_of_their_ranges(part: int, rest: int)
    requires
        part >= 0,
        rest >= 0,
    ensures
        ({
            let all = part + rest;
            &&& tables::truncation_tone(part, all) == Tone::Red <==> 20 * part > all
            &&& tables::truncation_tone(part, all) == Tone::Yellow <==> 20 * part <= all && 100 * part > all
            &&& tables::truncation_tone(part, all) == Tone::Green <==> 100 * part <= all
            &&& tables::hit_tone(part, rest) == Tone::Green <==> part > 0 && 5 * part >= all
            &&& tables::hit_tone(part, rest) == Tone::Yellow <==> 5 * part < all && part > 0 && 20 * part >= all
            &&& tables::hit_tone(part, rest) == Tone::White <==> part == 0 || 20 * part < all
            &&& tables::success_tone(part, all) == Tone::Red <==> all == 0 || 10 * part < 9 * all
            &&& tables::success_tone(part, all) == Tone::Yellow <==> 10 * part >= 9 * all && 100 * part < 99 * all
            &&& tables::success_tone(part, all) == Tone::Green <==> all > 0 && 100 * part >= 99 * all
        }),
{
}

/// The settings that were asked for are shown with how often they were, and a missing one as `not set`; a
/// kind of setting without rows has no table.
pub proof fn setting_tables_show_the_settings(temperatures: Seq<ParamBucket>, max_tokens: Seq<ParamBucket>, i: int)
    ensures
        ({
            let t = tables::params_tables(temperatures, max_tokens);
            &&& t.len() == (if temperatures.len() > 0 {
                1int
            } else {
                0int
            }) + (if max_tokens.len() > 0 {
                1int
            } else {
                0int
            })
            &&& 0 <= i < temperatures.len() ==> t[0].title == "Temperature Distribution:"@ && shows(
                t[0],
                i,
                "Temperature"@,
                either(temperatures[i].value, "not set"@),
            ) && shows(t[0], i, "Calls"@, text::decimal(temperatures[i].count as nat))
            &&& 0 <= i < max_tokens.len() ==> t.last().title == "max_tokens Distribution:"@ && shows(
                t.last(),
                i,
                "max_tokens"@,
                either(max_tokens[i].value, "not set"@),
            ) && shows(t.last(), i, "Calls"@, text::decimal(max_tokens[i].count as nat))
        }),
{
    let t = tables::params_tables(temperatures, max_tokens);
    if 0 <= i < temperatures.len() {
        assert(t[0].heads[0].0 == "Temperature"@ && t[0].heads[1].0 == "Calls"@);
    }
    if 0 <= i < max_tokens.len() {
        assert(t.last().heads[0].0 == "max_tokens"@ && t.last().heads[1].0 == "Calls"@);
    }
}

} // verus!

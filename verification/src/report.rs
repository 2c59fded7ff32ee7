//! The lines of the forensic report on one session.
use crate::diagnose;
use crate::diagnose::{Findings, Interaction};
use crate::group;
use crate::layout;
use crate::tally;
use crate::text;
use vstd::prelude::*;

verus! {

/// The lines of a section.
pub type Lines = Seq<Seq<char>>;

/// The lines, and one more where `shown`.
pub open spec fn also(lines: Lines, shown: bool, line: Seq<char>) -> Lines {
    if shown {
        lines.push(line)
    } else {
        lines
    }
}

fn add_line(lines: &mut Vec<String>, line: String)
    ensures
        group::ids(final(lines)@) == group::ids(old(lines)@).push(line@),
{
    lines.push(line);
    assert(group::ids(lines@) =~= group::ids(old(lines)@).push(line@));
}

fn add_text(lines: &mut Vec<String>, line: &str)
    ensures
        group::ids(final(lines)@) == group::ids(old(lines)@).push(line@),
{
    add_line(lines, line.to_owned());
}

fn no_lines() -> (lines: Vec<String>)
    ensures
        group::ids(lines@) == Lines::empty(),
{
    let lines: Vec<String> = Vec::new();
    assert(group::ids(lines@) =~= Lines::empty());
    lines
}

fn concat2(a: &str, b: &str) -> (s: String)
    ensures
        s@ == a@ + b@,
{
    let mut s = a.to_owned();
    s.append(b);
    s
}

fn concat3(a: &str, b: &str, c: &str) -> (s: String)
    ensures
        s@ == a@ + b@ + c@,
{
    let mut s = a.to_owned();
    s.append(b);
    s.append(c);
    s
}

/// What `f` picks from the interactions, in their order.
pub open spec fn select<T>(ias: Seq<Interaction>, f: spec_fn(Interaction) -> Option<T>) -> Seq<T>
    decreases ias.len(),
{
    if ias.len() == 0 {
        Seq::empty()
    } else {
        match f(ias.last()) {
            Some(v) => select(ias.drop_last(), f).push(v),
            None => select(ias.drop_last(), f),
        }
    }
}

proof fn lemma_select_step<T>(ias: Seq<Interaction>, n: int, f: spec_fn(Interaction) -> Option<T>)
    requires
        0 <= n < ias.len(),
    ensures
        select(ias.take(n + 1), f) == match f(ias[n]) {
            Some(v) => select(ias.take(n), f).push(v),
            None => select(ias.take(n), f),
        },
        ias.take(ias.len() as int) == ias,
        select(ias.take(0), f) == Seq::<T>::empty(),
{
    assert(ias.take(n + 1).drop_last() =~= ias.take(n));
    assert(ias.take(ias.len() as int) =~= ias);
    assert(ias.take(0).len() == 0);
}

/// The model of an interaction.
pub open spec fn model_of() -> spec_fn(Interaction) -> Option<Seq<char>> {
    |ia: Interaction| text::optional(ia.model)
}

/// The input of an interaction.
pub open spec fn input_of() -> spec_fn(Interaction) -> Option<u64> {
    |ia: Interaction| ia.input_tokens
}

/// The distinct models of the session, or a stand-in where none is known.
pub open spec fn models_text(ias: Seq<Interaction>) -> Seq<char> {
    let known = layout::joined(group::first_seen(select(ias, model_of())), ", "@);
    if known.len() == 0 {
        "(unknown)"@
    } else {
        known
    }
}

fn known_models(ias: &Vec<Interaction>) -> (models: Vec<String>)
    ensures
        group::ids(models@) == select(ias@, model_of()),
{
    let mut models = no_lines();
    let mut i: usize = 0;
    assert(ias@.take(0).len() == 0);
    while i < ias.len()
        invariant
            i <= ias@.len(),
            group::ids(models@) == select(ias@.take(i as int), model_of()),
        decreases ias@.len() - i,
    {
        proof {
            lemma_select_step(ias@, i as int, model_of());
        }
        if let Some(m) = &ias[i].model {
            add_line(&mut models, m.clone());
        }
        i = i + 1;
    }
    assert(ias@.take(i as int) =~= ias@);
    models
}

/// Names the models of the session.
pub fn name_models(ias: &Vec<Interaction>) -> (s: String)
    ensures
        s@ == models_text(ias@),
{
    let models = known_models(ias);
    let distinct = tally::distinct(&models);
    let known = layout::join(&distinct, ", ");
    if known.as_str().unicode_len() == 0 {
        return "(unknown)".to_owned();
    }
    known
}

/// The head of the report: the session, its models, its size and its span of time, and its failures
/// where it has any.
pub open spec fn header_lines(
    session: Seq<char>,
    models: Seq<char>,
    start: Seq<char>,
    end: Seq<char>,
    f: Findings,
) -> Lines {
    also(
        Lines::empty().push("Session: "@ + session).push(
            "Model:   "@ + models + "   Interactions: "@ + text::decimal(f.total as nat) + "   "@ + start
                + "–"@ + end,
        ),
        f.errors > 0,
        "Errors:  "@ + text::decimal(f.errors as nat) + "   Stalls: "@ + text::decimal(f.stalls as nat),
    ).push(""@)
}

/// Writes the head of the report.
pub fn header(session: &str, models: &str, start: &str, end: &str, f: &Findings) -> (lines: Vec<String>)
    ensures
        group::ids(lines@) == header_lines(session@, models@, start@, end@, *f),
{
    let mut lines = no_lines();
    add_line(&mut lines, concat2("Session: ", session));
    let mut line = concat3("Model:   ", models, "   Interactions: ");
    line.append(text::render_u64(f.total as u64).as_str());
    line.append("   ");
    line.append(start);
    line.append("–");
    line.append(end);
    add_line(&mut lines, line);
    if f.errors > 0 {
        let mut failures = concat2("Errors:  ", text::render_u64(f.errors as u64).as_str());
        failures.append("   Stalls: ");
        failures.append(text::render_u64(f.stalls as u64).as_str());
        add_line(&mut lines, failures);
    }
    add_text(&mut lines, "");
    lines
}

/// The summary of how fast the session was, with what stands out.
pub open spec fn summary_lines(f: Findings) -> Lines {
    let times = Lines::empty().push("Performance summary:"@).push(
        "  Total LLM time : "@ + layout::duration_text(f.total_dur_ms as int),
    ).push("  p95 turn time  : "@ + layout::duration_text(f.p95_ms as int)).push(
        "  Slowest turn   : "@ + layout::duration_text(f.slowest_ms as int),
    );
    let slow = also(
        times,
        f.slow_count > 0,
        "  Slow turns(>30s): "@ + text::decimal(f.slow_count as nat) + "/"@ + text::decimal(f.total as nat),
    );
    let cold = also(
        slow,
        f.cold_count > 0,
        "  Cold starts    : "@ + text::decimal(f.cold_count as nat)
            + " turn(s) — no cache reads, full context rebuilt"@,
    );
    let wordy = also(
        cold,
        f.total_output > 50_000,
        "  Total output   : "@ + layout::tokens_text(f.total_output as nat)
            + " tokens — generation volume is the likely latency driver"@,
    );
    also(
        wordy,
        f.p95_ms > 60_000,
        "  ⚠  p95 > 60s — most turns are slow, not just outliers"@,
    ).push(""@)
}

/// Writes the summary of how fast the session was.
pub fn summary(f: &Findings) -> (lines: Vec<String>)
    ensures
        group::ids(lines@) == summary_lines(*f),
{
    let mut lines = no_lines();
    add_text(&mut lines, "Performance summary:");
    add_line(
        &mut lines,
        concat2("  Total LLM time : ", layout::format_duration(f.total_dur_ms).as_str()),
    );
    add_line(&mut lines, concat2("  p95 turn time  : ", layout::format_duration(f.p95_ms).as_str()));
    add_line(
        &mut lines,
        concat2("  Slowest turn   : ", layout::format_duration(f.slowest_ms).as_str()),
    );
    if f.slow_count > 0 {
        let mut line = concat3(
            "  Slow turns(>30s): ",
            text::render_u64(f.slow_count as u64).as_str(),
            "/",
        );
        line.append(text::render_u64(f.total as u64).as_str());
        add_line(&mut lines, line);
    }
    if f.cold_count > 0 {
        add_line(
            &mut lines,
            concat3(
                "  Cold starts    : ",
                text::render_u64(f.cold_count as u64).as_str(),
                " turn(s) — no cache reads, full context rebuilt",
            ),
        );
    }
    if f.total_output > 50_000 {
        add_line(
            &mut lines,
            concat3(
                "  Total output   : ",
                layout::format_tokens(f.total_output).as_str(),
                " tokens — generation volume is the likely latency driver",
            ),
        );
    }
    if f.p95_ms > 60_000 {
        add_text(&mut lines, "  ⚠  p95 > 60s — most turns are slow, not just outliers");
    }
    add_text(&mut lines, "");
    lines
}

/// A count of tokens as it is shown, or a dash.
pub open spec fn tokens_cell(n: Option<u64>) -> Seq<char> {
    match n {
        Some(t) => layout::tokens_text(t as nat),
        None => "—"@,
    }
}

fn render_tokens(n: Option<u64>) -> (s: String)
    ensures
        s@ == tokens_cell(n),
{
    match n {
        Some(t) => layout::format_tokens(t),
        None => "—".to_owned(),
    }
}

/// The time to first token as it is shown, or a dash.
pub open spec fn ttft_cell(ttft: Option<Seq<char>>) -> Seq<char> {
    match ttft {
        Some(t) => t,
        None => "—"@,
    }
}

/// The outcome of an interaction.
pub open spec fn status_cell(ia: Interaction) -> Seq<char> {
    if ia.is_stall {
        "ERROR [stall]"@
    } else if ia.is_error {
        "ERROR"@
    } else {
        "OK"@
    }
}

/// The row of an interaction, in columns with two blanks between them.
pub open spec fn row(ia: Interaction) -> Seq<char> {
    layout::right(text::decimal(ia.index as nat), 4) + "  "@ + layout::left(ia.time@, 8) + "  "@ + layout::right(
        tokens_cell(ia.input_tokens),
        10,
    ) + "  "@ + layout::right(tokens_cell(ia.cache_creation), 7) + "  "@ + layout::right(
        tokens_cell(ia.cache_read),
        7,
    ) + "  "@ + layout::right(ttft_cell(text::optional(ia.ttft)), 6) + "  "@ + layout::right(
        layout::duration_text(ia.duration_ms as int),
        8,
    ) + "  "@ + layout::right(tokens_cell(ia.output_tokens), 8) + "  "@ + layout::right(
        diagnose::cache_state(
            diagnose::or_zero(ia.cache_read),
            diagnose::or_zero(ia.cache_creation),
            diagnose::or_zero(ia.input_tokens),
        ),
        6,
    ) + "  "@ + layout::left(status_cell(ia), 14) + "  "@ + layout::byte_prefix(ia.trace_id@, 12)
}

/// The trace ids are long enough to be cut at `n` bytes.
pub open spec fn can_cut(ias: Seq<Interaction>, n: int) -> bool {
    forall|i: int| 0 <= i < ias.len() ==> layout::is_boundary((#[trigger] ias[i]).trace_id@, n)
}

/// The trace ids of failed interactions are long enough to be cut at `n` bytes.
pub open spec fn can_cut_failed(ias: Seq<Interaction>, n: int) -> bool {
    forall|i: int|
        0 <= i < ias.len() && (#[trigger] ias[i]).is_error ==> layout::is_boundary(ias[i].trace_id@, n)
}

fn add_cell(line: &mut String, cell: String)
    ensures
        final(line)@ == old(line)@ + "  "@ + cell@,
{
    line.append("  ");
    line.append(cell.as_str());
}

fn render_row(ia: &Interaction) -> (line: String)
    requires
        layout::is_boundary(ia.trace_id@, 12),
    ensures
        line@ == row(*ia),
{
    let mut line = layout::align_right(text::render_u64(ia.index as u64).as_str(), 4);
    add_cell(&mut line, layout::align_left(ia.time.as_str(), 8));
    add_cell(&mut line, layout::align_right(render_tokens(ia.input_tokens).as_str(), 10));
    add_cell(&mut line, layout::align_right(render_tokens(ia.cache_creation).as_str(), 7));
    add_cell(&mut line, layout::align_right(render_tokens(ia.cache_read).as_str(), 7));
    let ttft = match &ia.ttft {
        Some(t) => t.clone(),
        None => "—".to_owned(),
    };
    add_cell(&mut line, layout::align_right(ttft.as_str(), 6));
    add_cell(&mut line, layout::align_right(layout::format_duration(ia.duration_ms).as_str(), 8));
    add_cell(&mut line, layout::align_right(render_tokens(ia.output_tokens).as_str(), 8));
    let state = diagnose::cache_label(
        diagnose::value_or_zero(ia.cache_read),
        diagnose::value_or_zero(ia.cache_creation),
        diagnose::value_or_zero(ia.input_tokens),
    );
    add_cell(&mut line, layout::align_right(state, 6));
    let status = if ia.is_stall {
        "ERROR [stall]"
    } else if ia.is_error {
        "ERROR"
    } else {
        "OK"
    };
    add_cell(&mut line, layout::align_left(status, 14));
    add_cell(&mut line, layout::take_bytes(ia.trace_id.as_str(), 12));
    line
}

/// The table of the interactions: its heads, a rule, a row for each interaction and an empty line.
pub open spec fn table_lines(ias: Seq<Interaction>) -> Lines {
    let heads =
        "   #  Time       Input tok   Cache+   Cached    TTFT  Duration   Out tok  Cache   Status          Trace"@;
    let rule =
        "----------------------------------------------------------------------------------------------------"@;
    (Lines::empty().push(heads).push(rule) + Seq::new(ias.len(), |i: int| row(ias[i]))).push(""@)
}

/// Writes the table of the interactions.
pub fn table(ias: &Vec<Interaction>) -> (lines: Vec<String>)
    requires
        can_cut(ias@, 12),
    ensures
        group::ids(lines@) == table_lines(ias@),
{
    let mut lines = no_lines();
    add_text(
        &mut lines,
        "   #  Time       Input tok   Cache+   Cached    TTFT  Duration   Out tok  Cache   Status          Trace",
    );
    add_text(
        &mut lines,
        "----------------------------------------------------------------------------------------------------",
    );
    let ghost top = group::ids(lines@);
    let mut i: usize = 0;
    assert(top + Seq::new(0, |j: int| row(ias@[j])) =~= top);
    while i < ias.len()
        invariant
            i <= ias@.len(),
            can_cut(ias@, 12),
            group::ids(lines@) == top + Seq::new(i as nat, |j: int| row(ias@[j])),
        decreases ias@.len() - i,
    {
        let line = render_row(&ias[i]);
        add_line(&mut lines, line);
        assert(group::ids(lines@) =~= top + Seq::new((i + 1) as nat, |j: int| row(ias@[j])));
        i = i + 1;
    }
    add_text(&mut lines, "");
    lines
}

/// The largest of some numbers, zero where there are none.
pub open spec fn largest(values: Seq<u64>) -> u64
    decreases values.len(),
{
    if values.len() == 0 {
        0
    } else {
        let rest = largest(values.drop_last());
        if values.last() > rest {
            values.last()
        } else {
            rest
        }
    }
}

/// The largest of some numbers is one of them, and none is larger.
pub proof fn largest_bounds_all(values: Seq<u64>)
    requires
        values.len() > 0,
    ensures
        values.contains(largest(values)),
        forall|i: int| 0 <= i < values.len() ==> #[trigger] values[i] <= largest(values),
    decreases values.len(),
{
    let rest = values.drop_last();
    if rest.len() > 0 {
        largest_bounds_all(rest);
        let at = choose|i: int| 0 <= i < rest.len() && rest[i] == largest(rest);
        assert(values[at] == rest[at]);
        assert forall|i: int| 0 <= i < values.len() implies #[trigger] values[i] <= largest(values) by {
            if i < rest.len() {
                assert(rest[i] == values[i]);
            }
        }
    } else {
        assert(largest(rest) == 0);
    }
    assert(values[values.len() - 1] == values.last());
}

/// The input tokens of the interactions that report them.
fn input_series(ias: &Vec<Interaction>) -> (series: Vec<u64>)
    ensures
        series@ == select(ias@, input_of()),
{
    let mut series: Vec<u64> = Vec::new();
    let mut i: usize = 0;
    assert(ias@.take(0).len() == 0);
    while i < ias.len()
        invariant
            i <= ias@.len(),
            series@ == select(ias@.take(i as int), input_of()),
        decreases ias@.len() - i,
    {
        proof {
            lemma_select_step(ias@, i as int, input_of());
        }
        if let Some(n) = ias[i].input_tokens {
            series.push(n);
        }
        i = i + 1;
    }
    assert(ias@.take(i as int) =~= ias@);
    series
}

fn find_largest(values: &Vec<u64>) -> (m: u64)
    ensures
        m == largest(values@),
{
    let mut m: u64 = 0;
    let mut i: usize = 0;
    while i < values.len()
        invariant
            i <= values@.len(),
            m == largest(values@.take(i as int)),
        decreases values@.len() - i,
    {
        assert(values@.take(i + 1).drop_last() =~= values@.take(i as int));
        if values[i] > m {
            m = values[i];
        }
        i = i + 1;
    }
    assert(values@.take(i as int) =~= values@);
    m
}

/// How the context grew, where at least two interactions report their input.
pub open spec fn growth_lines(ias: Seq<Interaction>) -> Lines {
    let series = select(ias, input_of());
    if series.len() >= 2 {
        Lines::empty().push(
            "Context growth: "@ + text::decimal((series.first() / 1000) as nat) + "K → "@ + text::decimal(
                (series.last() / 1000) as nat,
            ) + "K tokens across "@ + text::decimal(ias.len()) + " interactions (peak: "@ + text::decimal(
                (largest(series) / 1000) as nat,
            ) + "K)"@,
        ).push(""@)
    } else {
        Lines::empty()
    }
}

/// Writes how the context grew.
pub fn growth(ias: &Vec<Interaction>) -> (lines: Vec<String>)
    ensures
        group::ids(lines@) == growth_lines(ias@),
{
    let series = input_series(ias);
    let mut lines = no_lines();
    let n: usize = series.len();
    if n >= 2 {
        let first: u64 = series[0] / 1000;
        let last: u64 = series[n - 1] / 1000;
        let peak: u64 = find_largest(&series) / 1000;
        let mut line = concat3("Context growth: ", text::render_u64(first).as_str(), "K → ");
        line.append(text::render_u64(last).as_str());
        line.append("K tokens across ");
        line.append(text::render_u64(ias.len() as u64).as_str());
        line.append(" interactions (peak: ");
        line.append(text::render_u64(peak).as_str());
        line.append("K)");
        add_line(&mut lines, line);
        add_text(&mut lines, "");
    }
    lines
}

/// Milliseconds as whole seconds; the rest is dropped.
pub open spec fn whole_seconds(ms: int) -> int {
    if ms >= 0 {
        ms / 1000
    } else {
        -((-ms) / 1000)
    }
}

fn to_seconds(ms: i64) -> (s: i64)
    ensures
        s == whole_seconds(ms as int),
{
    if ms >= 0 {
        ((ms as u64) / 1000) as i64
    } else {
        let n: u64 = (-(ms as i128)) as u64;
        -((n / 1000) as i64)
    }
}

/// The line of a stalled interaction.
pub open spec fn stall_line(ia: Interaction) -> Seq<char> {
    let head = "   Interaction #"@ + text::decimal(ia.index as nat) + ": "@ + text::signed_decimal(
        ia.duration_ms as int,
    ) + "ms duration"@;
    match ia.input_tokens {
        Some(t) => head + ", ~"@ + text::decimal((t / 1000) as nat) + "K tokens"@,
        None => head,
    }
}

/// The line of an interaction that stalled.
pub open spec fn stall_of() -> spec_fn(Interaction) -> Option<Seq<char>> {
    |ia: Interaction|
        if ia.is_stall {
            Some(stall_line(ia))
        } else {
            None
        }
}

/// The longest stall.
pub open spec fn longest_stall(ias: Seq<Interaction>) -> Option<i64>
    decreases ias.len(),
{
    if ias.len() == 0 {
        None
    } else {
        let rest = longest_stall(ias.drop_last());
        let ia = ias.last();
        if !ia.is_stall {
            rest
        } else {
            match rest {
                Some(d) if d > ia.duration_ms => rest,
                _ => Some(ia.duration_ms),
            }
        }
    }
}

/// A timeout that the longest stall would have stayed within, and never a short one.
pub open spec fn suggested_timeout(longest: int) -> int {
    if whole_seconds(longest) + 200 > 500 {
        whole_seconds(longest) + 200
    } else {
        500
    }
}

/// The suggested timeout is longer than every stall, by no less than three minutes.
pub proof fn timeout_outlasts_stalls(ias: Seq<Interaction>, i: int)
    requires
        0 <= i < ias.len(),
        ias[i].is_stall,
    ensures
        longest_stall(ias) matches Some(d) && ias[i].duration_ms + 180_000 <= suggested_timeout(d as int) * 1000,
    decreases ias.len(),
{
    if i < ias.len() - 1 {
        timeout_outlasts_stalls(ias.drop_last(), i);
        assert(ias.drop_last()[i] == ias[i]);
    }
}

/// The stalls, and with `suggest` what to do about them; nothing without a stall.
pub open spec fn stall_lines(ias: Seq<Interaction>, suggest: bool) -> Lines {
    match longest_stall(ias) {
        Some(longest) => {
            let listed = Lines::empty().push(
                "⚠  "@ + text::decimal(select(ias, stall_of()).len()) + " streaming stall(s) detected."@,
            ) + select(ias, stall_of());
            let advised = if suggest {
                listed.push(""@).push(
                    "   Suggestion: raise the stream-idle timeout on the proxy/load-balancer to at least "@
                        + text::signed_decimal(suggested_timeout(longest as int)) + "s"@,
                ).push(
                    "   (longest stall was "@ + text::signed_decimal(whole_seconds(longest as int))
                        + "s; a 300s hop-level timeout is a common trigger)"@,
                )
            } else {
                listed
            };
            advised.push(""@)
        },
        None => Lines::empty(),
    }
}

fn render_stall(ia: &Interaction) -> (line: String)
    ensures
        line@ == stall_line(*ia),
{
    let mut line = concat3("   Interaction #", text::render_u64(ia.index as u64).as_str(), ": ");
    line.append(text::render_i64(ia.duration_ms).as_str());
    line.append("ms duration");
    if let Some(t) = ia.input_tokens {
        line.append(", ~");
        line.append(text::render_u64(t / 1000).as_str());
        line.append("K tokens");
    }
    line
}

fn longer(longest: Option<i64>, ms: i64) -> (r: Option<i64>)
    ensures
        r == match longest {
            Some(d) if d > ms => longest,
            _ => Some(ms),
        },
{
    match longest {
        Some(d) => if d > ms {
            longest
        } else {
            Some(ms)
        },
        None => Some(ms),
    }
}

/// Writes the stalls.
pub fn stalls(ias: &Vec<Interaction>, suggest: bool) -> (lines: Vec<String>)
    ensures
        group::ids(lines@) == stall_lines(ias@, suggest),
{
    let mut found = no_lines();
    let mut longest: Option<i64> = None;
    let mut i: usize = 0;
    assert(ias@.take(0).len() == 0);
    while i < ias.len()
        invariant
            i <= ias@.len(),
            group::ids(found@) == select(ias@.take(i as int), stall_of()),
            longest == longest_stall(ias@.take(i as int)),
        decreases ias@.len() - i,
    {
        proof {
            lemma_select_step(ias@, i as int, stall_of());
            assert(ias@.take(i + 1).drop_last() =~= ias@.take(i as int));
        }
        if ias[i].is_stall {
            let line = render_stall(&ias[i]);
            add_line(&mut found, line);
            longest = longer(longest, ias[i].duration_ms);
        }
        i = i + 1;
    }
    assert(ias@.take(i as int) =~= ias@);
    let mut lines = no_lines();
    if let Some(d) = longest {
        add_line(
            &mut lines,
            concat3("⚠  ", text::render_u64(found.len() as u64).as_str(), " streaming stall(s) detected."),
        );
        let ghost top = group::ids(lines@);
        let ghost listed = group::ids(found@);
        lines.append(&mut found);
        assert(group::ids(lines@) =~= top + listed);
        if suggest {
            let seconds: i64 = to_seconds(d);
            let timeout: i64 = if seconds + 200 > 500 {
                seconds + 200
            } else {
                500
            };
            add_text(&mut lines, "");
            add_line(
                &mut lines,
                concat3(
                    "   Suggestion: raise the stream-idle timeout on the proxy/load-balancer to at least ",
                    text::render_i64(timeout).as_str(),
                    "s",
                ),
            );
            add_line(
                &mut lines,
                concat3(
                    "   (longest stall was ",
                    text::render_i64(seconds).as_str(),
                    "s; a 300s hop-level timeout is a common trigger)",
                ),
            );
        }
        add_text(&mut lines, "");
    }
    lines
}

/// The UTC form of an instant, in nanoseconds since the epoch, under a pattern of date and time
/// fields.
pub uninterp spec fn utc_text(nanos: i64, pattern: Seq<char>) -> Seq<char>;

/// Formats an instant with `chrono`: `DateTime::<Utc>::from_timestamp_nanos`, then `format` and the
/// text of what that returns. The claim is that the text depends on the instant and the pattern alone.
/// What it looks like is not stated. A pattern that `chrono` cannot read makes it panic, so the one
/// pattern in use is asked for.
#[verifier::external_body]
fn format_utc(nanos: i64, pattern: &str) -> (s: String)
    requires
        pattern@ == "%Y-%m-%dT%H:%M:%SZ"@,
    ensures
        s@ == utc_text(nanos, pattern@),
{
    chrono::DateTime::<chrono::Utc>::from_timestamp_nanos(nanos).format(pattern).to_string()
}

/// When a failed interaction began.
pub open spec fn stamp_of() -> spec_fn(Interaction) -> Option<Seq<char>> {
    |ia: Interaction|
        if ia.is_error {
            Some(utc_text(ia.start_time_ns, "%Y-%m-%dT%H:%M:%SZ"@))
        } else {
            None
        }
}

/// The times, in UTC, at which the failed interactions began.
pub fn error_stamps(ias: &Vec<Interaction>) -> (stamps: Vec<String>)
    ensures
        group::ids(stamps@) == select(ias@, stamp_of()),
{
    let mut stamps = no_lines();
    let mut i: usize = 0;
    assert(ias@.take(0).len() == 0);
    while i < ias.len()
        invariant
            i <= ias@.len(),
            group::ids(stamps@) == select(ias@.take(i as int), stamp_of()),
        decreases ias@.len() - i,
    {
        proof {
            lemma_select_step(ias@, i as int, stamp_of());
        }
        if ias[i].is_error {
            let stamp = format_utc(ias[i].start_time_ns, "%Y-%m-%dT%H:%M:%SZ");
            add_line(&mut stamps, stamp);
        }
        i = i + 1;
    }
    assert(ias@.take(i as int) =~= ias@);
    stamps
}

/// The size of a request body, in bytes and in tokens of four bytes.
pub open spec fn body_text(bytes: nat) -> Seq<char> {
    text::decimal(bytes) + " bytes (~"@ + text::decimal(bytes / 4000) + "K tokens)"@
}

/// The request body of a failed interaction.
pub open spec fn body_of() -> spec_fn(Interaction) -> Option<Seq<char>> {
    |ia: Interaction|
        match (ia.is_error, ia.body_length) {
            (true, Some(b)) => Some(body_text(b as nat)),
            _ => None,
        }
}

/// The prompt of a failed interaction.
pub open spec fn prompt_of() -> spec_fn(Interaction) -> Option<Seq<char>> {
    |ia: Interaction|
        if ia.is_error {
            text::optional(ia.prompt_id)
        } else {
            None
        }
}

/// The response of a failed interaction.
pub open spec fn response_of() -> spec_fn(Interaction) -> Option<Seq<char>> {
    |ia: Interaction|
        if ia.is_error {
            text::optional(ia.response_id)
        } else {
            None
        }
}

/// The trace of a failed interaction.
pub open spec fn trace_of() -> spec_fn(Interaction) -> Option<Seq<char>> {
    |ia: Interaction|
        if ia.is_error {
            Some(layout::byte_prefix(ia.trace_id@, 16))
        } else {
            None
        }
}

/// What identifies the failed interactions.
struct Evidence {
    bodies: Vec<String>,
    prompts: Vec<String>,
    responses: Vec<String>,
    traces: Vec<String>,
}

fn evidence(ias: &Vec<Interaction>) -> (e: Evidence)
    requires
        can_cut_failed(ias@, 16),
    ensures
        group::ids(e.bodies@) == select(ias@, body_of()),
        group::ids(e.prompts@) == select(ias@, prompt_of()),
        group::ids(e.responses@) == select(ias@, response_of()),
        group::ids(e.traces@) == select(ias@, trace_of()),
{
    let mut bodies = no_lines();
    let mut prompts = no_lines();
    let mut responses = no_lines();
    let mut traces = no_lines();
    let mut i: usize = 0;
    assert(ias@.take(0).len() == 0);
    while i < ias.len()
        invariant
            i <= ias@.len(),
            can_cut_failed(ias@, 16),
            group::ids(bodies@) == select(ias@.take(i as int), body_of()),
            group::ids(prompts@) == select(ias@.take(i as int), prompt_of()),
            group::ids(responses@) == select(ias@.take(i as int), response_of()),
            group::ids(traces@) == select(ias@.take(i as int), trace_of()),
        decreases ias@.len() - i,
    {
        proof {
            lemma_select_step(ias@, i as int, body_of());
            lemma_select_step(ias@, i as int, prompt_of());
            lemma_select_step(ias@, i as int, response_of());
            lemma_select_step(ias@, i as int, trace_of());
        }
        let ia = &ias[i];
        if ia.is_error {
            if let Some(b) = ia.body_length {
                let mut body = concat2(text::render_u64(b).as_str(), " bytes (~");
                body.append(text::render_u64(b / 4000).as_str());
                body.append("K tokens)");
                add_line(&mut bodies, body);
            }
            if let Some(p) = &ia.prompt_id {
                add_line(&mut prompts, p.clone());
            }
            if let Some(r) = &ia.response_id {
                add_line(&mut responses, r.clone());
            }
            let trace = layout::take_bytes(ia.trace_id.as_str(), 16);
            add_line(&mut traces, trace);
        }
        i = i + 1;
    }
    assert(ias@.take(i as int) =~= ias@);
    Evidence { bodies, prompts, responses, traces }
}

/// A heading and what stands under it.
pub open spec fn listing(heading: Seq<char>, parts: Lines) -> Seq<char> {
    heading + layout::joined(parts, ", "@)
}

fn render_listing(heading: &str, parts: &Vec<String>) -> (line: String)
    ensures
        line@ == listing(heading@, group::ids(parts@)),
{
    concat2(heading, layout::join(parts, ", ").as_str())
}

/// What to hand on when a failure is escalated: the session, its models where they are known, what
/// identifies the failed interactions where there are any, and the largest input.
pub open spec fn escalation_lines(
    session: Seq<char>,
    models: Seq<char>,
    ias: Seq<Interaction>,
    stamps: Lines,
) -> Lines {
    let top = also(
        Lines::empty().push("Escalation info"@).push("  Session:   "@ + session),
        models.len() > 0 && models != "(unknown)"@,
        "  Model:     "@ + models,
    );
    let failed = if diagnose::count(ias, diagnose::is_failed()) == 0 {
        top
    } else {
        let timed = top.push(listing("  Timestamps:   "@, stamps));
        let bodies = select(ias, body_of());
        let sized = also(timed, bodies.len() > 0, listing("  Body size:    "@, bodies));
        let prompts = select(ias, prompt_of());
        let prompted = also(sized, prompts.len() > 0, listing("  Prompt IDs:   "@, prompts));
        let responses = select(ias, response_of());
        let answered = also(prompted, responses.len() > 0, listing("  Response IDs: "@, responses));
        answered.push(listing("  Trace IDs:    "@, select(ias, trace_of())))
    };
    let inputs = select(ias, input_of());
    also(
        failed,
        inputs.len() > 0,
        "  Peak input:   "@ + text::decimal((largest(inputs) / 1000) as nat) + "K tokens"@,
    )
}

/// As many traces are listed as interactions failed.
proof fn lemma_failed_traces(ias: Seq<Interaction>)
    ensures
        select(ias, trace_of()).len() == diagnose::count(ias, diagnose::is_failed()),
    decreases ias.len(),
{
    if ias.len() > 0 {
        lemma_failed_traces(ias.drop_last());
    }
}

/// Writes what to hand on when a failure is escalated. The `stamps` are the times at which the failed
/// interactions began.
pub fn escalation(session: &str, models: &str, ias: &Vec<Interaction>, stamps: &Vec<String>) -> (lines: Vec<
    String,
>)
    requires
        can_cut_failed(ias@, 16),
    ensures
        group::ids(lines@) == escalation_lines(session@, models@, ias@, group::ids(stamps@)),
{
    let mut lines = no_lines();
    add_text(&mut lines, "Escalation info");
    add_line(&mut lines, concat2("  Session:   ", session));
    if models.unicode_len() > 0 && !text::same_text(models, "(unknown)") {
        add_line(&mut lines, concat2("  Model:     ", models));
    }
    let e = evidence(ias);
    proof {
        lemma_failed_traces(ias@);
    }
    if e.traces.len() > 0 {
        add_line(&mut lines, render_listing("  Timestamps:   ", stamps));
        if e.bodies.len() > 0 {
            add_line(&mut lines, render_listing("  Body size:    ", &e.bodies));
        }
        if e.prompts.len() > 0 {
            add_line(&mut lines, render_listing("  Prompt IDs:   ", &e.prompts));
        }
        if e.responses.len() > 0 {
            add_line(&mut lines, render_listing("  Response IDs: ", &e.responses));
        }
        add_line(&mut lines, render_listing("  Trace IDs:    ", &e.traces));
    }
    let inputs = input_series(ias);
    if inputs.len() > 0 {
        let peak: u64 = find_largest(&inputs) / 1000;
        add_line(&mut lines, concat3("  Peak input:   ", text::render_u64(peak).as_str(), "K tokens"));
    }
    lines
}

/// The whole report, from the findings and the times at which the failed interactions began.
pub open spec fn report_lines(
    session: Seq<char>,
    start: Seq<char>,
    end: Seq<char>,
    ias: Seq<Interaction>,
    f: Findings,
    suggest: bool,
    stamps: Lines,
) -> Lines {
    header_lines(session, models_text(ias), start, end, f) + summary_lines(f) + table_lines(ias) + growth_lines(
        ias,
    ) + stall_lines(ias, suggest) + escalation_lines(session, models_text(ias), ias, stamps)
}

fn add_lines(lines: &mut Vec<String>, more: Vec<String>)
    ensures
        group::ids(final(lines)@) == group::ids(old(lines)@) + group::ids(more@),
{
    let mut more = more;
    let ghost added = more@;
    lines.append(&mut more);
    assert(group::ids(lines@) =~= group::ids(old(lines)@) + group::ids(added));
}

/// Writes the whole report on a session. The session's first and last times of day are given as they
/// are to be shown.
pub fn report(session: &str, start: &str, end: &str, ias: &Vec<Interaction>, suggest: bool) -> (lines: Vec<
    String,
>)
    requires
        can_cut(ias@, 12),
        can_cut_failed(ias@, 16),
        diagnose::can_add(ias@),
    ensures
        exists|f: Findings| #[trigger]
            diagnose::finds(f, ias@) && group::ids(lines@) == report_lines(
                session@,
                start@,
                end@,
                ias@,
                f,
                suggest,
                select(ias@, stamp_of()),
            ),
{
    let f = diagnose::findings(ias);
    let models = name_models(ias);
    let stamps = error_stamps(ias);
    let mut lines = header(session, models.as_str(), start, end, &f);
    add_lines(&mut lines, summary(&f));
    add_lines(&mut lines, table(ias));
    add_lines(&mut lines, growth(ias));
    add_lines(&mut lines, stalls(ias, suggest));
    add_lines(&mut lines, escalation(session, models.as_str(), ias, &stamps));
    assert(diagnose::finds(f, ias@));
    lines
}

/// What is said of a session without traces.
pub fn no_traces(session: &str) -> (lines: Vec<String>)
    ensures
        group::ids(lines@) == seq![
            "No traces found for session "@ + session@,
            "Verify the session ID and that `otelite serve` received data for this session."@,
        ],
{
    let mut lines = no_lines();
    add_line(&mut lines, concat2("No traces found for session ", session));
    add_text(
        &mut lines,
        "Verify the session ID and that `otelite serve` received data for this session.",
    );
    assert(group::ids(lines@) =~= seq![
        "No traces found for session "@ + session@,
        "Verify the session ID and that `otelite serve` received data for this session."@,
    ]);
    lines
}

/// What is said of a session whose traces hold no model call.
pub fn no_interactions(session: &str) -> (line: String)
    ensures
        line@ == "Traces found for session "@ + session@ + " but none contain GenAI spans."@,
{
    concat3("Traces found for session ", session, " but none contain GenAI spans.")
}

/// The warning about a trace that could not be fetched.
pub fn fetch_warning(trace_id: &str, cause: &str) -> (line: String)
    requires
        layout::is_boundary(trace_id@, 8),
    ensures
        line@ == "  warning: could not fetch trace "@ + layout::byte_prefix(trace_id@, 8) + ": "@ + cause@,
{
    let mut line = concat3(
        "  warning: could not fetch trace ",
        layout::take_bytes(trace_id, 8).as_str(),
        ": ",
    );
    line.append(cause);
    line
}

} // verus!

//! The forensic report on one session.
use crate::capability;
use crate::latency;
use crate::order;
use crate::parse;
use crate::sums;
use crate::text;
use vstd::prelude::*;

verus! {

/// A span of a trace, as far as the report reads it.
pub struct SpanEntry {
    pub parent_span_id: Option<String>,
    pub attributes: Vec<(String, String)>,
    pub start_time: i64,
    /// The duration in nanoseconds.
    pub duration: i64,
    pub status_code: String,
}

/// The span carries a generative-AI attribute.
pub open spec fn is_genai(span: SpanEntry) -> bool {
    exists|i: int|
        0 <= i < span.attributes@.len() && "gen_ai."@.is_prefix_of((#[trigger] span.attributes@[i]).0@)
}

/// The span is a root with a generative-AI attribute.
pub open spec fn is_genai_root(span: SpanEntry) -> bool {
    span.parent_span_id is None && is_genai(span)
}

fn has_genai(span: &SpanEntry) -> (r: bool)
    ensures
        r == is_genai(*span),
{
    let mut i: usize = 0;
    while i < span.attributes.len()
        invariant
            i <= span.attributes@.len(),
            forall|j: int| 0 <= j < i ==> !"gen_ai."@.is_prefix_of((#[trigger] span.attributes@[j]).0@),
        decreases span.attributes@.len() - i,
    {
        if text::has_prefix(span.attributes[i].0.as_str(), "gen_ai.") {
            return true;
        }
        i = i + 1;
    }
    false
}

/// Finds the span that stands for a trace: the first root with a generative-AI attribute, or else the
/// first span with one.
pub fn root_llm_span(spans: &Vec<SpanEntry>) -> (at: Option<usize>)
    ensures
        match at {
            Some(i) => {
                &&& i < spans@.len()
                &&& is_genai(spans@[i as int])
                &&& if exists|j: int| 0 <= j < spans@.len() && is_genai_root(#[trigger] spans@[j]) {
                    spans@[i as int].parent_span_id is None && forall|j: int|
                        0 <= j < i ==> !is_genai_root(#[trigger] spans@[j])
                } else {
                    forall|j: int| 0 <= j < i ==> !is_genai(#[trigger] spans@[j])
                }
            },
            None => forall|j: int| 0 <= j < spans@.len() ==> !is_genai(#[trigger] spans@[j]),
        },
{
    let mut i: usize = 0;
    while i < spans.len()
        invariant
            i <= spans@.len(),
            forall|j: int| 0 <= j < i ==> !is_genai_root(#[trigger] spans@[j]),
        decreases spans@.len() - i,
    {
        if spans[i].parent_span_id.is_none() && has_genai(&spans[i]) {
            assert(is_genai_root(spans@[i as int]));
            return Some(i);
        }
        i = i + 1;
    }
    let mut k: usize = 0;
    while k < spans.len()
        invariant
            k <= spans@.len(),
            forall|j: int| 0 <= j < spans@.len() ==> !is_genai_root(#[trigger] spans@[j]),
            forall|j: int| 0 <= j < k ==> !is_genai(#[trigger] spans@[j]),
        decreases spans@.len() - k,
    {
        if has_genai(&spans[k]) {
            return Some(k);
        }
        k = k + 1;
    }
    None
}

/// How traces sort by their start.
pub open spec fn start_ranks(starts: Seq<i64>) -> Seq<order::SmallestFirst> {
    Seq::new(starts.len(), |i: int| order::SmallestFirst(starts[i] as i128))
}

/// The order of traces by their start.
pub fn trace_order(starts: &Vec<i64>) -> (order: Vec<usize>)
    ensures
        order@ == order::sorting(start_ranks(starts@)),
        order::sorts(start_ranks(starts@), order@),
{
    let mut ranks: Vec<order::SmallestFirst> = Vec::new();
    let mut i: usize = 0;
    while i < starts.len()
        invariant
            i <= starts@.len(),
            ranks@.len() == i,
            forall|j: int| 0 <= j < i ==> #[trigger] ranks@[j] == start_ranks(starts@)[j],
        decreases starts@.len() - i,
    {
        ranks.push(order::SmallestFirst(starts[i] as i128));
        i = i + 1;
    }
    assert(ranks@ =~= start_ranks(starts@));
    order::order_of(&ranks)
}

/// What a root span reports of its model call.
pub struct GenAiFields {
    pub model: Option<String>,
    pub input_tokens: Option<u64>,
    pub output_tokens: Option<u64>,
    pub cache_read: Option<u64>,
    pub cache_creation: Option<u64>,
    pub response_id: Option<String>,
    /// The time to first token, as it is shown.
    pub ttft: Option<String>,
}

/// One interaction of the session, read from the root span of a trace.
pub struct Interaction {
    pub index: usize,
    pub time: String,
    pub model: Option<String>,
    pub input_tokens: Option<u64>,
    pub output_tokens: Option<u64>,
    pub cache_read: Option<u64>,
    pub cache_creation: Option<u64>,
    pub ttft: Option<String>,
    pub duration_ms: i64,
    pub is_error: bool,
    pub is_stall: bool,
    pub response_id: Option<String>,
    pub trace_id: String,
    pub start_time_ns: i64,
    pub body_length: Option<u64>,
    pub prompt_id: Option<String>,
}

/// A stall: the stream began, took over thirty seconds, and failed.
pub open spec fn stalled(is_error: bool, streamed: bool, duration_ms: int) -> bool {
    is_error && streamed && duration_ms > 30_000
}

/// The first of two optional texts that is there.
pub open spec fn either(a: Option<Seq<char>>, b: Option<Seq<char>>) -> Option<Seq<char>> {
    match a {
        Some(_) => a,
        None => b,
    }
}

/// The number that an optional text names.
pub open spec fn optional_number(s: Option<Seq<char>>) -> Option<u64> {
    match s {
        Some(t) => parse::u64_value(t),
        None => None,
    }
}

fn read_attribute(attributes: &Vec<(String, String)>, key: &str) -> (value: Option<String>)
    ensures
        text::optional(value) == capability::attribute(attributes@, key@),
{
    let mut keys: Vec<String> = Vec::new();
    keys.push(key.to_owned());
    let value = capability::first_semconv_attribute(attributes, &keys);
    proof {
        assert(keys@.drop_first() =~= Seq::<String>::empty());
        reveal_with_fuel(capability::first_attribute, 2);
    }
    value
}

/// Whether the call of a span failed. Of a failed call the size of the request body is looked up.
pub fn has_failed(span: &SpanEntry) -> (r: bool)
    ensures
        r == (span.status_code@ == "Error"@),
{
    text::same_text(span.status_code.as_str(), "Error")
}

/// Reads an interaction from the root span of a trace. Of a failed one the size of the request body
/// and the prompt are kept.
pub fn read_interaction(
    index: usize,
    time: String,
    root: &SpanEntry,
    genai: &GenAiFields,
    trace_id: String,
    body_length: &Option<String>,
) -> (ia: Interaction)
    ensures
        ia.index == index,
        ia.time@ == time@,
        text::optional(ia.model) == either(
            text::optional(genai.model),
            capability::attribute(root.attributes@, "gen_ai.request.model"@),
        ),
        ia.input_tokens == genai.input_tokens,
        ia.output_tokens == genai.output_tokens,
        ia.cache_read == genai.cache_read,
        ia.cache_creation == genai.cache_creation,
        text::optional(ia.ttft) == text::optional(genai.ttft),
        ia.duration_ms == latency::whole_millis(root.duration as int),
        ia.is_error == (root.status_code@ == "Error"@),
        ia.is_stall == stalled(ia.is_error, genai.ttft is Some, ia.duration_ms as int),
        ia.is_stall ==> root.status_code@ == "Error"@ && genai.ttft is Some && root.duration > 30_000 * 1_000_000,
        root.status_code@ == "Error"@ && genai.ttft is Some && root.duration >= 30_001 * 1_000_000 ==> ia.is_stall,
        text::optional(ia.response_id) == text::optional(genai.response_id),
        ia.trace_id@ == trace_id@,
        ia.start_time_ns == root.start_time,
        ia.body_length == if ia.is_error {
            optional_number(text::optional(*body_length))
        } else {
            None
        },
        text::optional(ia.prompt_id) == if ia.is_error {
            capability::attribute(root.attributes@, "prompt.id"@)
        } else {
            None
        },
{
    let duration_ms: i64 = latency::to_millis(root.duration);
    let is_error: bool = has_failed(root);
    let is_stall: bool = is_error && genai.ttft.is_some() && duration_ms > 30_000;
    let model = match &genai.model {
        Some(m) => Some(m.clone()),
        None => read_attribute(&root.attributes, "gen_ai.request.model"),
    };
    let length: Option<u64> = if is_error {
        match body_length {
            Some(raw) => parse::parse_u64(raw.as_str()),
            None => None,
        }
    } else {
        None
    };
    let prompt_id = if is_error {
        read_attribute(&root.attributes, "prompt.id")
    } else {
        None
    };
    Interaction {
        index,
        time,
        model,
        input_tokens: genai.input_tokens,
        output_tokens: genai.output_tokens,
        cache_read: genai.cache_read,
        cache_creation: genai.cache_creation,
        ttft: text::copy_optional(&genai.ttft),
        duration_ms,
        is_error,
        is_stall,
        response_id: text::copy_optional(&genai.response_id),
        trace_id,
        start_time_ns: root.start_time,
        body_length: length,
        prompt_id,
    }
}

/// A stall is a call that failed after it had begun to stream, and that lasted longer than thirty
/// seconds. Every such call of a full millisecond more is one; a call that succeeded, or that never
/// began to stream, is none.
pub proof fn stalls_are_long_failures(ia: Interaction, root: SpanEntry, streamed: bool)
    requires
        ia.duration_ms == latency::whole_millis(root.duration as int),
        ia.is_error == (root.status_code@ == "Error"@),
        ia.is_stall == stalled(ia.is_error, streamed, ia.duration_ms as int),
    ensures
        ia.is_stall ==> root.duration > 30_000_000_000,
        ia.is_stall ==> streamed && root.status_code@ == "Error"@,
        root.status_code@ == "Error"@ && streamed && root.duration >= 30_001_000_000 ==> ia.is_stall,
{
}

/// The number of interactions for which `f` holds.
pub open spec fn count(ias: Seq<Interaction>, f: spec_fn(Interaction) -> bool) -> int
    decreases ias.len(),
{
    if ias.len() == 0 {
        0
    } else {
        count(ias.drop_last(), f) + if f(ias.last()) {
            1int
        } else {
            0int
        }
    }
}

/// A missing count is zero.
pub open spec fn or_zero(n: Option<u64>) -> int {
    match n {
        Some(v) => v as int,
        None => 0,
    }
}

pub fn value_or_zero(n: Option<u64>) -> (v: u64)
    ensures
        v == or_zero(n),
{
    match n {
        Some(v) => v,
        None => 0,
    }
}

/// The interaction took over thirty seconds.
pub open spec fn is_slow() -> spec_fn(Interaction) -> bool {
    |ia: Interaction| ia.duration_ms > 30_000
}

/// The interaction rebuilt its context: nothing came from the cache and much was written to it.
pub open spec fn is_cold() -> spec_fn(Interaction) -> bool {
    |ia: Interaction| or_zero(ia.cache_read) == 0 && or_zero(ia.cache_creation) > 50_000
}

/// The interaction failed.
pub open spec fn is_failed() -> spec_fn(Interaction) -> bool {
    |ia: Interaction| ia.is_error
}

/// The interaction stalled.
pub open spec fn is_stalled() -> spec_fn(Interaction) -> bool {
    |ia: Interaction| ia.is_stall
}

/// The output of an interaction.
pub open spec fn output_of() -> spec_fn(Interaction) -> int {
    |ia: Interaction| or_zero(ia.output_tokens)
}

/// The durations of the interactions.
pub open spec fn durations(ias: Seq<Interaction>) -> Seq<i64> {
    Seq::new(ias.len(), |i: int| ias[i].duration_ms)
}

/// The duration that nineteen of twenty interactions stay within, zero without interactions.
pub open spec fn p95_duration(values: Seq<i64>) -> i64 {
    if values.len() == 0 {
        0
    } else {
        order::ascending(values)[values.len() as int * 95 / 100]
    }
}

/// The longest duration, zero without interactions.
pub open spec fn longest(values: Seq<i64>) -> i64 {
    if values.len() == 0 {
        0
    } else {
        order::ascending(values)[values.len() - 1]
    }
}

/// What the interactions have in common.
pub struct Findings {
    pub total: usize,
    pub errors: usize,
    pub stalls: usize,
    pub total_dur_ms: i64,
    pub slow_count: usize,
    pub cold_count: usize,
    pub total_output: u64,
    pub p95_ms: i64,
    pub slowest_ms: i64,
}

/// The findings are those of the interactions.
pub open spec fn finds(f: Findings, ias: Seq<Interaction>) -> bool {
    &&& f.total == ias.len()
    &&& f.errors == count(ias, is_failed())
    &&& f.stalls == count(ias, is_stalled())
    &&& f.total_dur_ms == latency::total(durations(ias))
    &&& f.slow_count == count(ias, is_slow())
    &&& f.cold_count == count(ias, is_cold())
    &&& f.total_output == sums::sum_by(ias, output_of())
    &&& f.p95_ms == p95_duration(durations(ias))
    &&& f.slowest_ms == longest(durations(ias))
}

/// The 95th percentile of turn times in ascending order.
pub fn p95_turn(sorted: &Vec<i64>) -> (v: i64)
    ensures
        v == if sorted@.len() == 0 {
            0
        } else {
            sorted@[sorted@.len() as int * 95 / 100]
        },
{
    let n: usize = sorted.len();
    if n == 0 {
        return 0;
    }
    let at: usize = ((n as u128) * 95 / 100) as usize;
    sorted[at]
}

/// The sums over the interactions fit into their types.
pub open spec fn can_add(ias: Seq<Interaction>) -> bool {
    &&& i64::MIN <= latency::total(durations(ias)) <= i64::MAX
    &&& sums::sum_by(ias, output_of()) <= u64::MAX
}

/// Summarises the interactions.
pub fn findings(ias: &Vec<Interaction>) -> (f: Findings)
    requires
        can_add(ias@),
    ensures
        finds(f, ias@),
{
    let mut errors: usize = 0;
    let mut stalls: usize = 0;
    let mut slow_count: usize = 0;
    let mut cold_count: usize = 0;
    let mut total_output: u64 = 0;
    let mut all: Vec<i64> = Vec::new();
    let mut i: usize = 0;
    while i < ias.len()
        invariant
            i <= ias@.len(),
            sums::sum_by(ias@, output_of()) <= u64::MAX,
            errors == count(ias@.take(i as int), is_failed()),
            stalls == count(ias@.take(i as int), is_stalled()),
            slow_count == count(ias@.take(i as int), is_slow()),
            cold_count == count(ias@.take(i as int), is_cold()),
            errors <= i,
            stalls <= i,
            slow_count <= i,
            cold_count <= i,
            total_output == sums::sum_by(ias@.take(i as int), output_of()),
            all@ == durations(ias@.take(i as int)),
        decreases ias@.len() - i,
    {
        let ia = &ias[i];
        proof {
            assert(ias@.take(i + 1).drop_last() =~= ias@.take(i as int));
            sums::lemma_sum_by_prefix(ias@, i + 1, output_of());
            sums::lemma_sum_by_take(ias@, i as int, output_of());
            assert(durations(ias@.take(i + 1)) =~= durations(ias@.take(i as int)).push(ia.duration_ms));
        }
        if ia.is_error {
            errors = errors + 1;
        }
        if ia.is_stall {
            stalls = stalls + 1;
        }
        if ia.duration_ms > 30_000 {
            slow_count = slow_count + 1;
        }
        if value_or_zero(ia.cache_read) == 0 && value_or_zero(ia.cache_creation) > 50_000 {
            cold_count = cold_count + 1;
        }
        total_output = total_output + value_or_zero(ia.output_tokens);
        all.push(ia.duration_ms);
        i = i + 1;
    }
    assert(ias@.take(i as int) =~= ias@);
    let sorted = order::sorted_values(&all);
    proof {
        order::lemma_ascending(all@);
    }
    let n: usize = sorted.len();
    let slowest_ms: i64 = if n == 0 {
        0
    } else {
        sorted[n - 1]
    };
    Findings {
        total: ias.len(),
        errors,
        stalls,
        total_dur_ms: latency::add_up(&all) as i64,
        slow_count,
        cold_count,
        total_output,
        p95_ms: p95_turn(&sorted),
        slowest_ms,
    }
}

/// Whether an interaction found its context in the cache: hot from four fifths on, cold where it had to
/// rebuild much of it.
pub open spec fn cache_state(read: int, create: int, input: int) -> Seq<char> {
    let all = read + create + input;
    if all == 0 {
        "  —  "@
    } else if read == 0 && create > 50_000 {
        " COLD"@
    } else if read * 100 / all >= 80 {
        "  HOT"@
    } else if read > 0 {
        " WARM"@
    } else {
        "  —  "@
    }
}

/// Labels the cache state of an interaction.
pub fn cache_label(read: u64, create: u64, input: u64) -> (label: &'static str)
    ensures
        label@ == cache_state(read as int, create as int, input as int),
{
    let all: u128 = read as u128 + create as u128 + input as u128;
    if all == 0 {
        "  —  "
    } else if read == 0 && create > 50_000 {
        " COLD"
    } else if (read as u128) * 100 / all >= 80 {
        "  HOT"
    } else if read > 0 {
        " WARM"
    } else {
        "  —  "
    }
}

/// Nineteen of twenty turns took no longer than the slowest one.
pub proof fn p95_is_within_the_slowest(values: Seq<i64>)
    requires
        values.len() > 0,
    ensures
        p95_duration(values) <= longest(values),
{
    order::lemma_ascending(values);
    let at = values.len() as int * 95 / 100;
    assert(order::ascending(values)[at] <= order::ascending(values)[values.len() - 1]);
}

} // verus!
